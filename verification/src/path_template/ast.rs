//! The parts of a path template, and what a template is resolved with.

use crate::instant::{civil_at, seconds_at, CivilTime, UtcInstant};
use crate::path_template::parser::{
    parse, parse_path, parse_semver, read_whole_count, read_whole_semver, Expected, ParseError,
};
use crate::path_template::parser::{expected_text, parse_count, span_at};
use crate::path_template::resolver::{is_direction, template_text, Resolve};
use vstd::prelude::*;
use vstd::string::*;

verus! {

/// What a segment of a path names.
#[derive(Debug, Clone, Copy, PartialEq, Eq, Structural)]
pub enum SegmentKind {
    Dir,
    File,
}

/// A counter written with a fixed number of digits, e.g. `0001`.
#[derive(Debug, Clone, Copy, PartialEq, Eq, Structural)]
pub struct PaddedNumber {
    pub width: usize,
    pub number: usize,
}

/// The direction of a migration, written `up` or `down`.
#[derive(Debug, Clone, Copy, PartialEq, Eq, Structural)]
pub enum UpDown {
    Up,
    Down,
}

/// The direction of a migration, written `do` or `undo`.
#[derive(Debug, Clone, Copy, PartialEq, Eq, Structural)]
pub enum DoUndo {
    Do,
    Undo,
}

/// A version of three numbers, each written with its own number of digits.
#[derive(Debug, Clone, Copy, PartialEq, Eq)]
pub struct Semver {
    pub major: u32,
    pub minor: u32,
    pub patch: u32,
    pub widths: (usize, usize, usize),
}

/// A count since 1970-01-01T00:00:00Z, in one of four units.
#[derive(Debug, Clone, Copy, PartialEq, Eq, Structural)]
pub enum EpochTimestamp {
    /// seconds
    Second(i64),
    /// milliseconds
    Milli(i64),
    /// microseconds
    Micro(i64),
    /// nanoseconds
    Nano(i64),
}

/// The part of a time of day below the second.
#[derive(Debug, Clone, Copy, PartialEq, Eq, Structural)]
pub enum SubSecond {
    /// milliseconds
    Milli(u32),
    /// microseconds
    Micro(u32),
    /// nanoseconds
    Nano(u32),
}

/// A calendar date with the separators it was written with.
#[derive(Debug, Clone, PartialEq, Default)]
pub struct Date {
    pub year: i32,
    pub year_sep: Option<String>,
    pub month: u32,
    pub month_sep: Option<String>,
    pub day: u32,
}

/// A time of day with the separators it was written with.
#[derive(Debug, Clone, PartialEq, Default)]
pub struct Time {
    pub hour: u32,
    pub hour_sep: Option<String>,
    pub minute: u32,
    pub minute_sep: Option<String>,
    pub second: Option<u32>,
    pub second_sep: Option<String>,
    pub subsecond: Option<SubSecond>,
}

/// A date, and possibly a time of day, written out in digits.
#[derive(Debug, Clone, PartialEq, Default)]
pub struct DateTime {
    pub date: Date,
    pub date_sep: Option<String>,
    pub time: Option<Time>,
}

/// The moment a migration was made, as a count or as a date.
#[derive(Debug, Clone, PartialEq)]
pub enum Timestamp {
    Epoch(EpochTimestamp),
    DateTime(DateTime),
}

/// One piece of a segment.
#[derive(Debug, Clone, PartialEq)]
pub enum Token {
    /// e.g. `V`
    Prefix(String),
    /// a padded number, e.g. `0001`
    PaddedNumber(PaddedNumber),
    /// any run of digits
    RandomNumber(usize),
    /// e.g. `0.1.0`
    Semver(Semver),
    /// a date or a count of time
    Timestamp(Timestamp),
    /// the name of the migration
    Name(String),
    /// `up` or `down`
    UpDown(UpDown),
    /// `do` or `undo`
    DoUndo(DoUndo),
    /// `_`
    Underscore,
    /// `.`
    Dot,
    /// `-`
    Dash,
    /// `.sql`
    Extension,
}

/// One directory or file name of a path.
#[derive(Debug, PartialEq)]
pub struct Segment {
    pub kind: SegmentKind,
    pub tokens: Vec<Token>,
}

/// The naming pattern of a migration path.
#[derive(Debug, PartialEq)]
pub struct PathTemplate {
    pub segments: Vec<Segment>,
}

/// What a template is resolved with.
#[derive(Debug, Clone, PartialEq)]
pub struct TemplateData {
    pub timestamp: UtcInstant,
    pub name: String,
    pub up_down: Option<UpDown>,
    pub counter: Option<usize>,
    pub random: Option<usize>,
    pub semver: Option<Semver>,
}

/// The text of a string that may be absent.
pub open spec fn opt_text(s: Option<String>) -> Option<Seq<char>> {
    match s {
        Some(x) => Some(x@),
        None => None,
    }
}

pub ghost struct DateView {
    pub year: i32,
    pub year_sep: Option<Seq<char>>,
    pub month: u32,
    pub month_sep: Option<Seq<char>>,
    pub day: u32,
}

pub ghost struct TimeView {
    pub hour: u32,
    pub hour_sep: Option<Seq<char>>,
    pub minute: u32,
    pub minute_sep: Option<Seq<char>>,
    pub second: Option<u32>,
    pub second_sep: Option<Seq<char>>,
    pub subsecond: Option<SubSecond>,
}

pub ghost struct DateTimeView {
    pub date: DateView,
    pub date_sep: Option<Seq<char>>,
    pub time: Option<TimeView>,
}

pub ghost enum TimestampView {
    Epoch(EpochTimestamp),
    DateTime(DateTimeView),
}

pub ghost enum TokenView {
    Prefix(Seq<char>),
    PaddedNumber(PaddedNumber),
    RandomNumber(usize),
    Semver(Semver),
    Timestamp(TimestampView),
    Name(Seq<char>),
    UpDown(UpDown),
    DoUndo(DoUndo),
    Underscore,
    Dot,
    Dash,
    Extension,
}

pub ghost struct SegmentView {
    pub kind: SegmentKind,
    pub tokens: Seq<TokenView>,
}

pub ghost struct TemplateDataView {
    pub timestamp: UtcInstant,
    pub name: Seq<char>,
    pub up_down: Option<UpDown>,
    pub counter: Option<usize>,
    pub random: Option<usize>,
    pub semver: Option<Semver>,
}

impl View for Date {
    type V = DateView;

    open spec fn view(&self) -> DateView {
        DateView {
            year: self.year,
            year_sep: opt_text(self.year_sep),
            month: self.month,
            month_sep: opt_text(self.month_sep),
            day: self.day,
        }
    }
}

impl View for Time {
    type V = TimeView;

    open spec fn view(&self) -> TimeView {
        TimeView {
            hour: self.hour,
            hour_sep: opt_text(self.hour_sep),
            minute: self.minute,
            minute_sep: opt_text(self.minute_sep),
            second: self.second,
            second_sep: opt_text(self.second_sep),
            subsecond: self.subsecond,
        }
    }
}

impl View for DateTime {
    type V = DateTimeView;

    open spec fn view(&self) -> DateTimeView {
        DateTimeView {
            date: self.date@,
            date_sep: opt_text(self.date_sep),
            time: match self.time {
                Some(t) => Some(t@),
                None => None,
            },
        }
    }
}

impl View for Timestamp {
    type V = TimestampView;

    open spec fn view(&self) -> TimestampView {
        match self {
            Timestamp::Epoch(e) => TimestampView::Epoch(*e),
            Timestamp::DateTime(d) => TimestampView::DateTime(d@),
        }
    }
}

impl View for Token {
    type V = TokenView;

    open spec fn view(&self) -> TokenView {
        match self {
            Token::Prefix(p) => TokenView::Prefix(p@),
            Token::PaddedNumber(n) => TokenView::PaddedNumber(*n),
            Token::RandomNumber(n) => TokenView::RandomNumber(*n),
            Token::Semver(v) => TokenView::Semver(*v),
            Token::Timestamp(t) => TokenView::Timestamp(t@),
            Token::Name(n) => TokenView::Name(n@),
            Token::UpDown(u) => TokenView::UpDown(*u),
            Token::DoUndo(u) => TokenView::DoUndo(*u),
            Token::Underscore => TokenView::Underscore,
            Token::Dot => TokenView::Dot,
            Token::Dash => TokenView::Dash,
            Token::Extension => TokenView::Extension,
        }
    }
}

/// The views of a list of tokens.
pub open spec fn token_views(tokens: Seq<Token>) -> Seq<TokenView> {
    tokens.map_values(|t: Token| t@)
}

impl View for Segment {
    type V = SegmentView;

    open spec fn view(&self) -> SegmentView {
        SegmentView { kind: self.kind, tokens: token_views(self.tokens@) }
    }
}

/// The views of a list of segments.
pub open spec fn segment_views(segments: Seq<Segment>) -> Seq<SegmentView> {
    segments.map_values(|s: Segment| s@)
}

impl View for PathTemplate {
    type V = Seq<SegmentView>;

    open spec fn view(&self) -> Seq<SegmentView> {
        segment_views(self.segments@)
    }
}

impl View for TemplateData {
    type V = TemplateDataView;

    open spec fn view(&self) -> TemplateDataView {
        TemplateDataView {
            timestamp: self.timestamp,
            name: self.name@,
            up_down: self.up_down,
            counter: self.counter,
            random: self.random,
            semver: self.semver,
        }
    }
}

impl UpDown {
    /// The direction that `do` or `undo` stands for.
    pub open spec fn spec_from_do_undo(value: DoUndo) -> UpDown {
        match value {
            DoUndo::Do => UpDown::Up,
            DoUndo::Undo => UpDown::Down,
        }
    }

    /// The direction that `do` or `undo` stands for.
    pub fn from_do_undo(value: DoUndo) -> (r: UpDown)
        ensures
            r == Self::spec_from_do_undo(value),
    {
        match value {
            DoUndo::Do => UpDown::Up,
            DoUndo::Undo => UpDown::Down,
        }
    }

    /// The other direction.
    pub fn flipped(self) -> (r: UpDown)
        ensures
            r != self,
    {
        match self {
            UpDown::Up => UpDown::Down,
            UpDown::Down => UpDown::Up,
        }
    }
}

impl Semver {
    /// The version with the next minor number and no patches.
    pub open spec fn spec_increment_minor(self) -> Semver {
        Semver { major: self.major, minor: (self.minor + 1) as u32, patch: 0, widths: self.widths }
    }

    /// The version with the next minor number and no patches.
    pub fn increment_minor(self) -> (r: Semver)
        requires
            self.minor < u32::MAX,
        ensures
            r == self.spec_increment_minor(),
    {
        Semver { major: self.major, minor: self.minor + 1, patch: 0, widths: self.widths }
    }

    /// Version 0.1.0, written `000000.000001.00`.
    pub open spec fn initial() -> Semver {
        Semver { major: 0, minor: 1, patch: 0, widths: (6, 6, 2) }
    }
}

impl Default for Semver {
    fn default() -> (r: Semver)
        ensures
            r == Semver::initial(),
    {
        Semver { major: 0, minor: 1, patch: 0, widths: (6, 6, 2) }
    }
}

impl Default for TemplateData {
    fn default() -> (r: TemplateData)
        ensures
            r@ == (TemplateDataView {
                timestamp: UtcInstant::spec_epoch(),
                name: Seq::<char>::empty(),
                up_down: None,
                counter: None,
                random: None,
                semver: None,
            }),
    {
        TemplateData {
            timestamp: UtcInstant::epoch(),
            name: String::new(),
            up_down: None,
            counter: None,
            random: None,
            semver: None,
        }
    }
}

/// Whether any token of any segment names a direction.
pub open spec fn has_direction(segments: Seq<SegmentView>) -> bool {
    exists|i: int, j: int|
        0 <= i < segments.len() && 0 <= j < segments[i].tokens.len() && is_direction(
            #[trigger] segments[i].tokens[j],
        )
}

/// The tokens of a segment with `.up` put in before its last token; a
/// segment without tokens gets `.up.sql`.
pub open spec fn tokens_with_up(tokens: Seq<TokenView>) -> Seq<TokenView> {
    if tokens.len() == 0 {
        seq![TokenView::Dot, TokenView::UpDown(UpDown::Up), TokenView::Extension]
    } else {
        tokens.drop_last() + seq![TokenView::Dot, TokenView::UpDown(UpDown::Up), tokens.last()]
    }
}

/// The template with a direction: one that names none gets `.up` before the
/// extension of its last segment, any other stays as it is.
pub open spec fn with_direction(segments: Seq<SegmentView>) -> Seq<SegmentView> {
    if segments.len() == 0 || has_direction(segments) {
        segments
    } else {
        segments.drop_last().push(
            SegmentView {
                kind: segments.last().kind,
                tokens: tokens_with_up(segments.last().tokens),
            },
        )
    }
}

/// The template that new migrations are named by where none exists yet:
/// `<seconds>_generated_migration.up.sql`.
pub open spec fn default_template() -> Seq<SegmentView> {
    seq![
        SegmentView {
            kind: SegmentKind::File,
            tokens: seq![
                TokenView::Timestamp(TimestampView::Epoch(EpochTimestamp::Second(0))),
                TokenView::Underscore,
                TokenView::Name("generated_migration"@),
                TokenView::Dot,
                TokenView::UpDown(UpDown::Up),
                TokenView::Extension,
            ],
        },
    ]
}

fn token_is_direction(t: &Token) -> (r: bool)
    ensures
        r == is_direction(t@),
{
    matches!(t, Token::UpDown(_) | Token::DoUndo(_))
}

fn segment_has_direction(segment: &Segment) -> (r: bool)
    ensures
        r == (exists|j: int| 0 <= j < segment@.tokens.len() && is_direction(#[trigger] segment@.tokens[j])),
{
    let n = segment.tokens.len();
    let mut j: usize = 0;
    while j < n
        invariant
            j <= n,
            n == segment.tokens.len(),
            forall|x: int| 0 <= x < j ==> !is_direction(#[trigger] segment@.tokens[x]),
        decreases n - j,
    {
        assert(segment@.tokens[j as int] == segment.tokens[j as int]@);
        if token_is_direction(&segment.tokens[j]) {
            return true;
        }
        j = j + 1;
    }
    false
}

impl PathTemplate {
    /// Reads a migration path into the template of its naming pattern.
    pub fn parse(path: &str) -> (r: Result<PathTemplate, ParseError>)
        ensures
            match r {
                Ok(template) => parse_path(path@) == Ok::<_, (int, Expected)>(template@),
                Err(e) => match parse_path(path@) {
                    Ok(_) => false,
                    Err((at, what)) => e.message@ == expected_text(what) && e.span == span_at(
                        path@,
                        at,
                    ) && e.input@ == path@ && e.expected == what,
                },
            },
    {
        parse(path)
    }

    /// Whether the template names the direction of a migration.
    pub fn includes_up_down(&self) -> (r: bool)
        ensures
            r == has_direction(self@),
    {
        let n = self.segments.len();
        let mut i: usize = 0;
        while i < n
            invariant
                i <= n,
                n == self.segments.len(),
                forall|x: int, j: int|
                    0 <= x < i && 0 <= j < self@[x].tokens.len() ==> !is_direction(
                        #[trigger] self@[x].tokens[j],
                    ),
            decreases n - i,
        {
            assert(self@[i as int] == self.segments[i as int]@);
            if segment_has_direction(&self.segments[i]) {
                return true;
            }
            i = i + 1;
        }
        false
    }

    /// The template with a direction in it: where it names none, `.up` is
    /// put in before the extension of the last segment.
    pub fn with_up_down(self) -> (r: PathTemplate)
        ensures
            r@ == with_direction(self@),
    {
        if self.includes_up_down() {
            return self;
        }
        let ghost before = self@;
        let mut segments = self.segments;
        match segments.pop() {
            Some(last) => {
                let ghost last_view = last@;
                let ghost front = segment_views(segments@);
                assert(front =~= before.drop_last());
                assert(last_view == before.last());
                let kind = last.kind;
                let mut tokens = last.tokens;
                let ext = match tokens.pop() {
                    Some(t) => t,
                    None => Token::Extension,
                };
                let ghost rest = token_views(tokens@);
                let ghost ext_view = ext@;
                tokens.push(Token::Dot);
                tokens.push(Token::UpDown(UpDown::Up));
                tokens.push(ext);
                assert(token_views(tokens@) =~= rest + seq![
                    TokenView::Dot,
                    TokenView::UpDown(UpDown::Up),
                    ext_view,
                ]);
                assert(token_views(tokens@) =~= tokens_with_up(last_view.tokens)) by {
                    if last_view.tokens.len() > 0 {
                        assert(rest =~= last_view.tokens.drop_last());
                    } else {
                        assert(rest =~= Seq::<TokenView>::empty());
                    }
                }
                segments.push(Segment { kind, tokens });
                assert(segment_views(segments@) =~= front.push(
                    SegmentView { kind, tokens: tokens_with_up(last_view.tokens) },
                ));
                PathTemplate { segments }
            },
            None => {
                assert(segment_views(segments@) =~= before);
                PathTemplate { segments }
            },
        }
    }

    /// The path that the template stands for, given the data of a migration.
    pub fn resolve(&self, data: &TemplateData) -> (r: String)
        ensures
            r@ == template_text(self@, data@),
    {
        Resolve::resolve(self, data)
    }
}

impl Default for PathTemplate {
    fn default() -> (r: PathTemplate)
        ensures
            r@ == default_template(),
    {
        let mut tokens: Vec<Token> = Vec::new();
        tokens.push(Token::Timestamp(Timestamp::Epoch(EpochTimestamp::Second(0))));
        tokens.push(Token::Underscore);
        tokens.push(Token::Name(String::from_str("generated_migration")));
        tokens.push(Token::Dot);
        tokens.push(Token::UpDown(UpDown::Up));
        tokens.push(Token::Extension);
        let mut segments: Vec<Segment> = Vec::new();
        let ghost views = token_views(tokens@);
        segments.push(Segment { kind: SegmentKind::File, tokens });
        assert(segment_views(segments@) =~= seq![
            SegmentView { kind: SegmentKind::File, tokens: views },
        ]);
        assert(views =~= default_template()[0].tokens);
        PathTemplate { segments }
    }
}

impl PaddedNumber {
    /// The counter written by `s`, which must be a run of digits whose value
    /// fits a `usize`; the width is the number of digits.
    pub fn from_str(s: &str) -> (r: Option<PaddedNumber>)
        ensures
            r == (match parse_count(s@, 0) {
                Some((number, end)) if end == s@.len() => Some(
                    PaddedNumber { width: s@.len() as usize, number },
                ),
                _ => None,
            }),
    {
        match read_whole_count(s) {
            Some((number, width)) => Some(PaddedNumber { width, number }),
            None => None,
        }
    }
}

impl UpDown {
    /// The direction written `up` or `down`.
    pub fn from_str(s: &str) -> (r: Option<UpDown>)
        ensures
            r == (if s@ == seq!['u', 'p'] {
                Some(UpDown::Up)
            } else if s@ == seq!['d', 'o', 'w', 'n'] {
                Some(UpDown::Down)
            } else {
                None
            }),
    {
        proof {
            reveal_strlit("up");
            reveal_strlit("down");
            assert("up"@ =~= seq!['u', 'p']);
            assert("down"@ =~= seq!['d', 'o', 'w', 'n']);
        }
        let owned = String::from_str(s);
        if owned == String::from_str("up") {
            Some(UpDown::Up)
        } else if owned == String::from_str("down") {
            Some(UpDown::Down)
        } else {
            None
        }
    }
}

impl DoUndo {
    /// The direction written `do` or `undo`.
    pub fn from_str(s: &str) -> (r: Option<DoUndo>)
        ensures
            r == (if s@ == seq!['d', 'o'] {
                Some(DoUndo::Do)
            } else if s@ == seq!['u', 'n', 'd', 'o'] {
                Some(DoUndo::Undo)
            } else {
                None
            }),
    {
        proof {
            reveal_strlit("do");
            reveal_strlit("undo");
            assert("do"@ =~= seq!['d', 'o']);
            assert("undo"@ =~= seq!['u', 'n', 'd', 'o']);
        }
        let owned = String::from_str(s);
        if owned == String::from_str("do") {
            Some(DoUndo::Do)
        } else if owned == String::from_str("undo") {
            Some(DoUndo::Undo)
        } else {
            None
        }
    }
}

impl Semver {
    /// The version written by `s`: three runs of digits with a dot between
    /// each two and nothing else, each number fitting 32 bits. The widths
    /// are the numbers of digits.
    pub fn from_str(s: &str) -> (r: Option<Semver>)
        ensures
            r == (match parse_semver(s@, 0) {
                Some((v, end)) if end == s@.len() => Some(v),
                _ => None,
            }),
    {
        read_whole_semver(s)
    }
}

/// The nanoseconds that a fraction of a second stands for.
pub open spec fn subsecond_nanos(s: Option<SubSecond>) -> int {
    match s {
        Some(SubSecond::Milli(m)) => m * 1_000_000,
        Some(SubSecond::Micro(u)) => u * 1000,
        Some(SubSecond::Nano(n)) => n as int,
        None => 0,
    }
}

/// The calendar fields that a written date and time name; a date alone
/// names its midnight, and a time without seconds its full minute.
pub open spec fn civil_of(d: DateTimeView) -> CivilTime {
    CivilTime {
        year: d.date.year,
        month: d.date.month,
        day: d.date.day,
        hour: match d.time {
            Some(t) => t.hour,
            None => 0,
        },
        minute: match d.time {
            Some(t) => t.minute,
            None => 0,
        },
        second: match d.time {
            Some(TimeView { second: Some(s), .. }) => s,
            _ => 0,
        },
    }
}

/// The fraction of a second that a written date and time name.
pub open spec fn fraction_of(d: DateTimeView) -> int {
    match d.time {
        Some(t) => subsecond_nanos(t.subsecond),
        None => 0,
    }
}

/// The whole seconds and the nanoseconds of a count in `unit`-th parts of a second.
pub open spec fn split_count(count: int, unit: int) -> (int, int) {
    (count / unit, (count % unit) * (1_000_000_000int / unit))
}

/// The seconds and nanoseconds that a count of time stands for.
pub open spec fn epoch_parts(e: EpochTimestamp) -> (int, int) {
    match e {
        EpochTimestamp::Second(s) => (s as int, 0),
        EpochTimestamp::Milli(m) => split_count(m as int, 1000),
        EpochTimestamp::Micro(u) => split_count(u as int, 1_000_000),
        EpochTimestamp::Nano(n) => split_count(n as int, 1_000_000_000),
    }
}

/// Splits a count in `unit`-th parts of a second into seconds and nanoseconds.
fn split(count: i64, unit: i64) -> (r: (i64, u32))
    requires
        unit == 1000 || unit == 1_000_000 || unit == 1_000_000_000,
    ensures
        (r.0 as int, r.1 as int) == split_count(count as int, unit as int),
        r.1 < 1_000_000_000,
{
    let scale: i64 = 1_000_000_000 / unit;
    if count >= 0 {
        let q = count / unit;
        let m = count % unit;
        assert(m * scale < 1_000_000_000) by (nonlinear_arith)
            requires
                0 <= m < unit,
                scale * unit == 1_000_000_000,
                unit > 0,
        ;
        assert(m * scale >= 0) by (nonlinear_arith)
            requires
                0 <= m,
                scale > 0,
        ;
        (q, (m * scale) as u32)
    } else {
        // count = -(back + 1) with back >= 0
        let back: i64 = -(count + 1);
        let q: i64 = back / unit;
        let m: i64 = back % unit;
        let seconds: i64 = -q - 1;
        let rest: i64 = unit - 1 - m;
        assert(count as int == seconds * unit + rest) by (nonlinear_arith)
            requires
                back == -(count + 1),
                back == q * unit + m,
                seconds == -q - 1,
                rest == unit - 1 - m,
        ;
        assert((count as int) / (unit as int) == seconds && (count as int) % (unit as int) == rest)
            by {
            vstd::arithmetic::div_mod::lemma_fundamental_div_mod_converse(
                count as int,
                unit as int,
                seconds as int,
                rest as int,
            );
        }
        assert(rest * scale < 1_000_000_000) by (nonlinear_arith)
            requires
                0 <= rest < unit,
                scale * unit == 1_000_000_000,
                unit > 0,
        ;
        assert(rest * scale >= 0) by (nonlinear_arith)
            requires
                0 <= rest,
                scale > 0,
        ;
        (seconds, (rest * scale) as u32)
    }
}

impl Timestamp {
    /// The instant that the timestamp names, where there is one: a count
    /// names the moment that many units after 1970-01-01T00:00:00Z, a date
    /// and time names that moment in UTC.
    pub fn instant(&self) -> (r: Option<UtcInstant>)
        ensures
            r == (match self@ {
                TimestampView::Epoch(e) => UtcInstant::assembled(
                    epoch_parts(e).0 as i64,
                    epoch_parts(e).1 as u32,
                    civil_at(epoch_parts(e).0),
                ),
                TimestampView::DateTime(d) => if fraction_of(d) < 1_000_000_000 {
                    match seconds_at(
                        d.date.year as int,
                        d.date.month as int,
                        d.date.day as int,
                        civil_of(d).hour as int,
                        civil_of(d).minute as int,
                        civil_of(d).second as int,
                    ) {
                        Some(s) if i64::MIN <= s <= i64::MAX => Some(
                            UtcInstant {
                                seconds: s as i64,
                                nanoseconds: fraction_of(d) as u32,
                                civil: civil_of(d),
                            },
                        ),
                        _ => None,
                    }
                } else {
                    None
                },
            }),
    {
        match self {
            Timestamp::Epoch(e) => {
                let (seconds, nanoseconds) = match e {
                    EpochTimestamp::Second(s) => (*s, 0u32),
                    EpochTimestamp::Milli(m) => split(*m, 1000),
                    EpochTimestamp::Micro(u) => split(*u, 1_000_000),
                    EpochTimestamp::Nano(n) => split(*n, 1_000_000_000),
                };
                UtcInstant::from_timestamp(seconds, nanoseconds)
            },
            Timestamp::DateTime(d) => {
                let (hour, minute, second, fraction): (u32, u32, u32, u64) = match &d.time {
                    Some(t) => (
                        t.hour,
                        t.minute,
                        match t.second {
                            Some(s) => s,
                            None => 0,
                        },
                        match t.subsecond {
                            Some(SubSecond::Milli(m)) => m as u64 * 1_000_000,
                            Some(SubSecond::Micro(u)) => u as u64 * 1000,
                            Some(SubSecond::Nano(n)) => n as u64,
                            None => 0,
                        },
                    ),
                    None => (0, 0, 0, 0),
                };
                if fraction >= 1_000_000_000 {
                    return None;
                }
                UtcInstant::from_civil(
                    CivilTime {
                        year: d.date.year,
                        month: d.date.month,
                        day: d.date.day,
                        hour,
                        minute,
                        second,
                    },
                    fraction as u32,
                )
            },
        }
    }
}

} // verus!
