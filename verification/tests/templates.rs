//! Reading migration paths into templates and resolving them again.

use sql_schema::path_template::parser::{classify_epoch, Expected, Span};
use sql_schema::path_template::{
    parse, CivilTime, Date, DateTime, DoUndo, EpochTimestamp, PaddedNumber, PathTemplate, Resolve,
    Segment, SegmentKind, Semver, SubSecond, TemplateData, Time, Timestamp, Token, UpDown,
    UtcInstant,
};

/// The data with which a template resolves to the path it was read from.
fn data(tmpl: &PathTemplate) -> TemplateData {
    let mut data = TemplateData::default();
    for t in tmpl.segments.iter().flat_map(|s| &s.tokens) {
        match t {
            Token::Timestamp(ts) => data.timestamp = ts.instant().unwrap(),
            Token::Name(name) => data.name = name.clone(),
            Token::PaddedNumber(padding) => data.counter = Some(padding.number),
            Token::RandomNumber(rand) => data.random = Some(*rand),
            Token::Semver(semver) => data.semver = Some(*semver),
            Token::UpDown(updown) => data.up_down = Some(*updown),
            Token::DoUndo(doundo) => data.up_down = Some(UpDown::from_do_undo(*doundo)),
            _ => {}
        }
    }
    data
}

fn now() -> UtcInstant {
    let t = chrono::Utc::now();
    UtcInstant::from_timestamp(t.timestamp(), t.timestamp_subsec_nanos() % 1_000_000_000).unwrap()
}

#[test]
fn test_parse_resolve() {
    let inputs = vec![
        "1741141452_generated_migration.down.sql",
        "000522_add_users_full_name.undo.sql",
        "000522_create_users.do.sql",
        "000522_inital_schema.sql",
        "002_create_users_table.sql",
        "006_create_categories_table.sql",
        "010_add_foreign_key_to_posts.sql",
        "014_add_roles_to_users.sql",
        "017_create_logs_table.sql",
        "020_add_soft_delete_to_users.sql",
        "1007728000000000000_inital_schema.sql",
        "1007728000000000_inital_schema.sql",
        "1007728000000_inital_schema.sql",
        "1007728000_inital_schema.sql",
        "1036400000000000000_create_users.do.sql",
        "1036400000000000_create_users.sql",
        "1036400000000_create_users.sql",
        "1065072000000000000_add_users_full_name.undo.sql",
        "1704067200123_add_users_full_name.sql",
        "1704067200_add_users_full_name.sql",
        "1798675200123456_add_users_full_name.sql",
        "1893283200_create_users.sql",
        "2001-12-07.07-26-400_inital_schema.sql",
        "2002-11-04.03-53-200_create_users.up.sql",
        "2003-10-02.01-20-000_add_users_full_name.down.sql",
        "2023-01-04_add_comments_table.sql",
        "2023-01-12_add_tags_to_posts.sql",
        "2023-01-18_add_timestamp_to_posts.sql",
        "20230101_initial_setup.sql",
        "20230108_drop_comments_table.sql",
        "20230115_create_settings_table.sql",
        "v1_create_posts_table.sql",
        "v200112070726400_inital_schema.sql",
        "v200211040353200_create_users.up.sql",
        "v200211040353200_create_users.up.sql",
        "v20201231190000123456_add_users_full_name.down.sql",
        "v2_create_tags_table.sql",
        "v2.2.2_create_tags_table.sql",
        "v11.12.13_create_tags_table.sql",
        "v88.99.00_create_tags_table.sql",
        "11.12.13_create_tags_table.sql",
        "0011.0012.0013_create_tags_table.sql",
        "zv2234234203984209384_oops_we_ran_out_of_digits.sql",
        // dirs
        "017_create_logs_table/do.sql",
        "1704067200_add_users_full_name/up.sql",
        "2003-10-02.01-20-000_add_users_full_name/down.sql",
        "v1_create_posts_table/up.sql",
        "v20201231190000123456_add_users_full_name/down.sql",
        "v0.1.0_add_users_full_name/down.sql",
        "v11.12.13_add_users_full_name/down.sql",
        "11.12.13_add_users_full_name/down.sql",
        "1011.0012.0013_add_users_full_name/down.sql",
    ];
    for input in inputs {
        let template = parse(input).unwrap_or_else(|_| panic!("{input} should parse"));
        let data = data(&template);
        let template = template.with_up_down();
        let out = template.resolve(&data);
        assert_eq!(
            out, input,
            "template should resolve to input\n{template:?}\n{data:?}"
        );

        let renamed = TemplateData { name: "some_other_name".to_owned(), ..data.clone() };
        let later = TemplateData {
            timestamp: now(),
            counter: Some(data.counter.map_or(1, |c| c + 1)),
            random: Some(data.random.map_or(1, |r| r + 1)),
            semver: Some(data.semver.map_or(Semver::default(), |s| s.increment_minor())),
            ..data.clone()
        };
        let flipped = TemplateData {
            up_down: match data.up_down {
                Some(UpDown::Up) => Some(UpDown::Down),
                Some(UpDown::Down) => Some(UpDown::Up),
                None => Some(UpDown::Up),
            },
            ..data.clone()
        };
        for changed in vec![renamed, later, flipped] {
            let out = template.resolve(&changed);
            assert_ne!(
                out, input,
                "template should adapt based on input data\n{template:?}\n{changed:?}"
            );
        }
    }
}

#[test]
fn initial_setup_round_trip_and_down() {
    let template = parse("v20230101_initial_setup.sql").unwrap();
    let same = data(&template);
    assert_eq!(template.resolve(&same), "v20230101_initial_setup.sql");
    let down = TemplateData { up_down: Some(UpDown::Down), ..same };
    assert_eq!(template.with_up_down().resolve(&down), "v20230101_initial_setup.down.sql");
}

#[test]
fn tokens_of_a_dated_name() {
    let template = parse("v20230101_initial_setup.sql").unwrap();
    assert_eq!(
        template,
        PathTemplate {
            segments: vec![Segment {
                kind: SegmentKind::File,
                tokens: vec![
                    Token::Prefix("v".to_owned()),
                    Token::Timestamp(Timestamp::DateTime(DateTime {
                        date: Date {
                            year: 2023,
                            year_sep: None,
                            month: 1,
                            month_sep: None,
                            day: 1
                        },
                        date_sep: None,
                        time: None,
                    })),
                    Token::Underscore,
                    Token::Name("initial_setup".to_owned()),
                    Token::Extension,
                ],
            }],
        }
    );
}

#[test]
fn tokens_of_a_date_with_time() {
    let template = parse("2001-12-07.07-26-400_inital_schema.sql").unwrap();
    assert_eq!(
        template.segments[0].tokens[0],
        Token::Timestamp(Timestamp::DateTime(DateTime {
            date: Date {
                year: 2001,
                year_sep: Some("-".to_owned()),
                month: 12,
                month_sep: Some("-".to_owned()),
                day: 7
            },
            date_sep: Some(".".to_owned()),
            time: Some(Time {
                hour: 7,
                hour_sep: Some("-".to_owned()),
                minute: 26,
                minute_sep: Some("-".to_owned()),
                second: Some(40),
                second_sep: None,
                subsecond: Some(SubSecond::Milli(0)),
            }),
        }))
    );
}

#[test]
fn number_readings_in_order_of_preference() {
    let first = |path: &str| parse(path).unwrap().segments[0].tokens[0].clone();
    // a date wins over a count of time
    assert!(matches!(first("20240102_x.sql"), Token::Timestamp(Timestamp::DateTime(_))));
    // a count of time wins over a version and a padded number
    assert_eq!(
        first("1704067200_x.sql"),
        Token::Timestamp(Timestamp::Epoch(EpochTimestamp::Second(1704067200)))
    );
    assert_eq!(
        first("1704067200123_x.sql"),
        Token::Timestamp(Timestamp::Epoch(EpochTimestamp::Milli(1704067200123)))
    );
    assert_eq!(
        first("1798675200123456_x.sql"),
        Token::Timestamp(Timestamp::Epoch(EpochTimestamp::Micro(1798675200123456)))
    );
    assert_eq!(
        first("1007728000000000000_x.sql"),
        Token::Timestamp(Timestamp::Epoch(EpochTimestamp::Nano(1007728000000000000)))
    );
    // a version wins over a padded number
    assert_eq!(
        first("0011.0012.0013_x.sql"),
        Token::Semver(Semver { major: 11, minor: 12, patch: 13, widths: (4, 4, 4) })
    );
    assert_eq!(first("000522_x.sql"), Token::PaddedNumber(PaddedNumber { width: 6, number: 522 }));
    // a year that is no date is a padded number
    assert_eq!(first("2020_x.sql"), Token::PaddedNumber(PaddedNumber { width: 4, number: 2020 }));
}

#[test]
fn a_second_number_is_a_timestamp_or_random() {
    let template = parse("v20201231190000123456_add_users_full_name.down.sql").unwrap();
    assert_eq!(template.segments[0].tokens[2], Token::RandomNumber(190000123456));
    let template = parse("001-1704067200_x.sql").unwrap();
    assert_eq!(template.segments[0].tokens[1], Token::Dash);
    assert_eq!(
        template.segments[0].tokens[2],
        Token::Timestamp(Timestamp::Epoch(EpochTimestamp::Second(1704067200)))
    );
}

#[test]
fn epoch_counts_outside_the_century_are_no_timestamps() {
    // 1999-12-31T23:59:59Z and 2100-01-01T00:00:00Z
    assert_eq!(classify_epoch(946_684_799), None);
    assert_eq!(classify_epoch(4_102_444_800), None);
    // 2000-01-01T00:00:00Z and 2099-12-31T23:59:59Z
    assert_eq!(classify_epoch(946_684_800), Some(EpochTimestamp::Second(946_684_800)));
    assert_eq!(classify_epoch(4_102_444_799), Some(EpochTimestamp::Second(4_102_444_799)));
    assert_eq!(classify_epoch(946_684_800_000), Some(EpochTimestamp::Milli(946_684_800_000)));
    assert_eq!(classify_epoch(4_102_444_800_000), None);
    assert_eq!(classify_epoch(0), None);
    // the bounds are those of the calendar
    let low = chrono::DateTime::from_timestamp(946_684_800, 0).unwrap();
    assert_eq!(low.to_rfc3339(), "2000-01-01T00:00:00+00:00");
    let high = chrono::DateTime::from_timestamp(4_102_444_800, 0).unwrap();
    assert_eq!(high.to_rfc3339(), "2100-01-01T00:00:00+00:00");
    // such a count is read as a padded number
    let template = parse("946684799_x.sql").unwrap();
    assert_eq!(
        template.segments[0].tokens[0],
        Token::PaddedNumber(PaddedNumber { width: 9, number: 946684799 })
    );
}

#[test]
fn directory_form() {
    let template = parse("v0.1.0/down.sql").unwrap();
    assert_eq!(template.segments.len(), 2);
    assert_eq!(template.segments[0].kind, SegmentKind::Dir);
    assert_eq!(
        template.segments[0].tokens,
        vec![
            Token::Prefix("v".to_owned()),
            Token::Semver(Semver { major: 0, minor: 1, patch: 0, widths: (1, 1, 1) }),
        ]
    );
    assert_eq!(template.segments[1].kind, SegmentKind::File);
    assert_eq!(template.segments[1].tokens, vec![Token::UpDown(UpDown::Down), Token::Extension]);
    assert!(template.includes_up_down());
    let template = parse("001\\undo.sql").unwrap();
    assert_eq!(template.segments[1].tokens, vec![Token::DoUndo(DoUndo::Undo), Token::Extension]);
}

#[test]
fn paths_that_do_not_parse() {
    let e = parse("initial.sql").unwrap_err();
    assert_eq!(
        e.message,
        "invalid number\nexpected datetime, epoch timestamp, padded number, semver"
    );
    assert_eq!(e.span, Span { start: 0, end: 1 });
    assert_eq!(e.input, "initial.sql");

    let e = parse("v_x.sql").unwrap_err();
    assert_eq!(e.span, Span { start: 1, end: 2 });

    let e = parse("001_foo.bar.sql").unwrap_err();
    assert_eq!(e.message, "invalid file ext\nexpected `.sql`");
    assert_eq!(e.span, Span { start: 7, end: 8 });

    let e = parse("001_foo.sqlx").unwrap_err();
    assert_eq!(e.message, "invalid path\nexpected end of input");
    assert_eq!(e.span, Span { start: 11, end: 12 });

    let e = parse("001_foo").unwrap_err();
    assert_eq!(e.message, "invalid file ext\nexpected `.sql`");
    assert_eq!(e.span, Span { start: 3, end: 4 });

    let e = parse("").unwrap_err();
    assert_eq!(e.span, Span { start: 0, end: 0 });
    assert_eq!(e.expected, Expected::Number);
    assert_eq!(
        e.title(),
        "Oops, we couldn't sort out you're migration naming convention: invalid number"
    );
    assert_eq!(e.label(), "expected datetime, epoch timestamp, padded number, semver");

    // the span counts bytes
    let e = parse("001_é.é").unwrap_err();
    assert_eq!(e.expected, Expected::Extension);
    assert_eq!(e.span, Span { start: 6, end: 7 });
    assert_eq!(e.label(), "expected `.sql`");
    let e = parse("001_x.sqlé").unwrap_err();
    assert_eq!(e.expected, Expected::End);
    assert_eq!(e.span, Span { start: 9, end: 11 });
    assert_eq!(e.title(), "Oops, we couldn't sort out you're migration naming convention: invalid path");
    assert_eq!(e.label(), "expected end of input");
    assert!(PathTemplate::parse("99999999999999999999999999_x.sql").is_err());
}

#[test]
fn with_up_down_is_idempotent() {
    let once = parse("001_x.sql").unwrap().with_up_down();
    assert!(once.includes_up_down());
    assert_eq!(
        once.segments[0].tokens,
        vec![
            Token::PaddedNumber(PaddedNumber { width: 3, number: 1 }),
            Token::Underscore,
            Token::Name("x".to_owned()),
            Token::Dot,
            Token::UpDown(UpDown::Up),
            Token::Extension,
        ]
    );
    let twice = parse("001_x.sql").unwrap().with_up_down().with_up_down();
    assert_eq!(once, twice);
    let undo = parse("001_x.undo.sql").unwrap();
    let kept = parse("001_x.undo.sql").unwrap().with_up_down();
    assert_eq!(undo, kept);
    assert!(!parse("001_x.sql").unwrap().includes_up_down());
    let empty = PathTemplate { segments: vec![] }.with_up_down();
    assert_eq!(empty, PathTemplate { segments: vec![] });
    let bare = PathTemplate { segments: vec![Segment { kind: SegmentKind::File, tokens: vec![] }] };
    assert_eq!(
        bare.with_up_down().segments[0].tokens,
        vec![Token::Dot, Token::UpDown(UpDown::Up), Token::Extension]
    );
}

#[test]
fn default_template_and_data() {
    let template = PathTemplate::default();
    let at = UtcInstant::from_timestamp(1741141452, 0).unwrap();
    let data = TemplateData {
        timestamp: at,
        name: "generated_migration".to_owned(),
        up_down: Some(UpDown::Down),
        ..TemplateData::default()
    };
    assert_eq!(template.resolve(&data), "1741141452_generated_migration.down.sql");
    let data = TemplateData { up_down: None, ..data };
    assert_eq!(template.resolve(&data), "1741141452_generated_migration.sql");
    assert_eq!(TemplateData::default().timestamp, UtcInstant::epoch());
    assert_eq!(UtcInstant::default(), UtcInstant::from_timestamp(0, 0).unwrap());
}

#[test]
fn the_dot_before_a_missing_direction_is_left_out() {
    let data = TemplateData { name: "x".to_owned(), counter: Some(7), ..TemplateData::default() };
    assert_eq!(parse("001_a.up.sql").unwrap().resolve(&data), "007_x.sql");
    assert_eq!(parse("001_a.undo.sql").unwrap().resolve(&data), "007_x.sql");
    let up = TemplateData { up_down: Some(UpDown::Up), ..data.clone() };
    assert_eq!(parse("001_a.down.sql").unwrap().resolve(&up), "007_x.up.sql");
    assert_eq!(parse("001_a.undo.sql").unwrap().resolve(&up), "007_x.do.sql");
    let down = TemplateData { up_down: Some(UpDown::Down), ..data };
    assert_eq!(parse("001_a.do.sql").unwrap().resolve(&down), "007_x.undo.sql");
}

#[test]
fn numbers_resolve_by_their_rules() {
    let none = TemplateData { name: "x".to_owned(), ..TemplateData::default() };
    // the counter after the one that was read, in its width
    assert_eq!(parse("0099_a.sql").unwrap().resolve(&none), "0100_x.sql");
    assert_eq!(parse("99_a.sql").unwrap().resolve(&none), "100_x.sql");
    // the next minor version, in its widths
    assert_eq!(parse("v01.09.07_a.sql").unwrap().resolve(&none), "v01.10.00_x.sql");
    let given = TemplateData {
        semver: Some(Semver { major: 3, minor: 0, patch: 1, widths: (1, 2, 3) }),
        ..none.clone()
    };
    assert_eq!(parse("v01.09.07_a.sql").unwrap().resolve(&given), "v3.00.001_x.sql");
    // a random number is the microseconds of the timestamp where none is given
    let at = TemplateData {
        timestamp: UtcInstant::from_timestamp(1704067200, 123_456_789).unwrap(),
        ..none.clone()
    };
    assert_eq!(parse("20240101-55_a.sql").unwrap().resolve(&at), "20240101-1704067200123456_x.sql");
    let random = TemplateData { random: Some(42), ..at.clone() };
    assert_eq!(parse("20240101-55_a.sql").unwrap().resolve(&random), "20240101-42_x.sql");
    // counts of time in the four units
    assert_eq!(parse("1704067201_a.sql").unwrap().resolve(&at), "1704067200_x.sql");
    assert_eq!(parse("1704067201000_a.sql").unwrap().resolve(&at), "1704067200123_x.sql");
    assert_eq!(parse("1704067201000000_a.sql").unwrap().resolve(&at), "1704067200123456_x.sql");
    assert_eq!(
        parse("1704067201000000000_a.sql").unwrap().resolve(&at),
        "1704067200123456789_x.sql"
    );
    // dates and times
    assert_eq!(parse("2023-05-06_a.sql").unwrap().resolve(&at), "2024-01-01_x.sql");
    // what stands after the number, up to the next dot, is the name
    assert_eq!(parse("2023-05-06T_a.sql").unwrap().resolve(&at), "2024-01-01x.sql");
    assert_eq!(
        parse("20230506.1112_a.sql").unwrap().resolve(&at),
        "20240101.0000_x.sql"
    );
    assert_eq!(
        parse("20230506-111213.999_a.sql").unwrap().resolve(&at),
        "20240101-000000.123_x.sql"
    );
}

#[test]
fn resolve_of_the_parts() {
    let at = UtcInstant::from_civil(
        CivilTime { year: 2024, month: 2, day: 29, hour: 13, minute: 5, second: 9 },
        7_000_000,
    )
    .unwrap();
    assert_eq!(at.seconds, 1709211909);
    let data = TemplateData { timestamp: at, name: "n".to_owned(), ..TemplateData::default() };
    let date = Date {
        year: 2000,
        year_sep: Some("-".to_owned()),
        month: 1,
        month_sep: Some("_".to_owned()),
        day: 1,
    };
    assert_eq!(date.resolve(&data), "2024-02_29");
    let time = Time {
        hour: 1,
        hour_sep: Some(".".to_owned()),
        minute: 1,
        minute_sep: None,
        second: Some(1),
        second_sep: Some("-".to_owned()),
        subsecond: Some(SubSecond::Milli(1)),
    };
    assert_eq!(time.resolve(&data), "13.0509-7");
    assert_eq!(SubSecond::Micro(0).resolve(&data), "7000");
    assert_eq!(SubSecond::Nano(0).resolve(&data), "7000000");
    assert_eq!(EpochTimestamp::Milli(0).resolve(&data), "1709211909007");
    assert_eq!(PaddedNumber { width: 2, number: 8 }.resolve(&data), "09");
    assert_eq!(Token::Name("other".to_owned()).resolve(&data), "n");
    assert_eq!(Token::Prefix("zzV".to_owned()).resolve(&data), "zzV");
    assert_eq!(UpDown::Up.resolve(&data), "");
    assert_eq!(DoUndo::Do.resolve(&TemplateData { up_down: Some(UpDown::Down), ..data }), "undo");
    // before 1970 the counts are negative
    let early = UtcInstant::from_timestamp(-1, 500_000_000).unwrap();
    let data = TemplateData { timestamp: early, ..TemplateData::default() };
    assert_eq!(EpochTimestamp::Second(0).resolve(&data), "-1");
    assert_eq!(EpochTimestamp::Milli(0).resolve(&data), "-500");
    assert_eq!(early.civil, CivilTime { year: 1969, month: 12, day: 31, hour: 23, minute: 59, second: 59 });
}

#[test]
fn instants_of_timestamps() {
    let at = Timestamp::Epoch(EpochTimestamp::Milli(1704067200123)).instant().unwrap();
    assert_eq!((at.seconds, at.nanoseconds), (1704067200, 123_000_000));
    assert_eq!(at.civil, CivilTime { year: 2024, month: 1, day: 1, hour: 0, minute: 0, second: 0 });
    let at = Timestamp::Epoch(EpochTimestamp::Nano(-1)).instant().unwrap();
    assert_eq!((at.seconds, at.nanoseconds), (-1, 999_999_999));
    let date = Date { year: 2023, year_sep: None, month: 2, month_sep: None, day: 31 };
    assert_eq!(
        Timestamp::DateTime(DateTime { date, date_sep: None, time: None }).instant(),
        None
    );
    assert_eq!(UtcInstant::from_timestamp(0, 1_000_000_000), None);
    assert_eq!(UtcInstant::from_timestamp(i64::MAX, 0), None);
}

#[test]
fn parts_from_text() {
    assert_eq!(PaddedNumber::from_str("0042"), Some(PaddedNumber { width: 4, number: 42 }));
    assert_eq!(PaddedNumber::from_str("4x"), None);
    assert_eq!(PaddedNumber::from_str(""), None);
    assert_eq!(UpDown::from_str("up"), Some(UpDown::Up));
    assert_eq!(UpDown::from_str("down"), Some(UpDown::Down));
    assert_eq!(UpDown::from_str("do"), None);
    assert_eq!(DoUndo::from_str("do"), Some(DoUndo::Do));
    assert_eq!(DoUndo::from_str("undo"), Some(DoUndo::Undo));
    assert_eq!(DoUndo::from_str("up"), None);
    assert_eq!(UpDown::from_do_undo(DoUndo::Undo), UpDown::Down);
    assert_eq!(
        Semver::from_str("1.02.003"),
        Some(Semver { major: 1, minor: 2, patch: 3, widths: (1, 2, 3) })
    );
    assert_eq!(Semver::from_str("1.2"), None);
    assert_eq!(Semver::from_str("1.2.3.4"), None);
    assert_eq!(Semver::from_str("1.2.99999999999"), None);
    assert_eq!(Semver::default().to_string(), "000000.000001.00");
    assert_eq!(
        Semver::default().increment_minor(),
        Semver { major: 0, minor: 2, patch: 0, widths: (6, 6, 2) }
    );
}

#[test]
fn zeros_in_front_of_a_count_are_not_regained() {
    // a count of time is written without the zeros that stood in front of it
    let template = parse("0946684800_x.sql").unwrap();
    assert_eq!(
        template.segments[0].tokens[0],
        Token::Timestamp(Timestamp::Epoch(EpochTimestamp::Second(946684800)))
    );
    assert_eq!(template.resolve(&data(&template)), "946684800_x.sql");
    // so is a fraction of a second
    let template = parse("20240101-101112.007_x.sql").unwrap();
    assert_eq!(template.resolve(&data(&template)), "20240101-101112.7_x.sql");
    // and a random number
    let template = parse("20240101-007_x.sql").unwrap();
    assert_eq!(template.segments[0].tokens[2], Token::RandomNumber(7));
    assert_eq!(template.resolve(&data(&template)), "20240101-7_x.sql");
    // a padded number and a version keep their zeros
    let template = parse("v007.000.01-x.sql").unwrap();
    assert_eq!(template.resolve(&data(&template)), "v007.000.01-x.sql");
}

#[test]
fn segments_are_resolved_one_after_the_other() {
    let template = parse("v0.1.0/down.sql").unwrap();
    let data = data(&template);
    assert_eq!(template.resolve(&data), "v0.1.0down.sql");
    assert_eq!(template.segments[0].resolve(&data), "v0.1.0");
    assert_eq!(template.segments[1].resolve(&data), "down.sql");
    // a name is not part of the path in this form, so another name gives the same path
    let renamed = TemplateData { name: "other".to_owned(), ..data };
    assert_eq!(template.resolve(&renamed), "v0.1.0down.sql");
}

#[test]
fn assembled_instants() {
    let civil = CivilTime { year: 2024, month: 1, day: 1, hour: 0, minute: 0, second: 0 };
    assert_eq!(
        UtcInstant::assemble(1704067200, 5, Some(civil)),
        Some(UtcInstant { seconds: 1704067200, nanoseconds: 5, civil })
    );
    assert_eq!(UtcInstant::assemble(1704067200, 1_000_000_000, Some(civil)), None);
    assert_eq!(UtcInstant::assemble(1704067200, 0, None), None);
    assert_eq!(UtcInstant::from_timestamp(1704067200, 5), UtcInstant::assemble(1704067200, 5, Some(civil)));
    assert_eq!(UtcInstant::from_civil(civil, 5), UtcInstant::assemble(1704067200, 5, Some(civil)));
    let odd = CivilTime { year: 2023, month: 2, day: 29, hour: 0, minute: 0, second: 0 };
    assert_eq!(UtcInstant::from_civil(odd, 0), None);
    let late = CivilTime { year: 2023, month: 2, day: 28, hour: 24, minute: 0, second: 0 };
    assert_eq!(UtcInstant::from_civil(late, 0), None);
    let at = UtcInstant::from_timestamp(-1, 999_999_999).unwrap();
    assert_eq!(at.timestamp_millis(), -1);
    assert_eq!(at.timestamp_micros(), -1);
    assert_eq!(at.timestamp_nanos_or_zero(), -1);
    let far = UtcInstant::from_timestamp(10_000_000_000, 0).unwrap();
    assert_eq!(far.timestamp_nanos_or_zero(), 0);
    assert_eq!(far.timestamp_micros(), 10_000_000_000_000_000);
}
