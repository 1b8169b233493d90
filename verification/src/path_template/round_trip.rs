//! A path that was read into a template is regained by resolving the
//! template with the data that the path itself holds.

use crate::instant::UtcInstant;
use crate::path_template::ast::{
    has_direction, with_direction, EpochTimestamp, PaddedNumber, SegmentView, Semver, SubSecond,
    TemplateDataView, TimestampView, TimeView, TokenView, UpDown,
};
use crate::path_template::parser::{
    extension, in_class, lemma_digit_run, lemma_run_members, parse_count, parse_date,
    parse_datetime, parse_dir_form, parse_direction, parse_dot_direction, parse_epoch,
    parse_file_form, parse_named, parse_number, parse_path, parse_prefix, parse_primary,
    parse_seconds, parse_semver, parse_subsecond, parse_time, parse_trailing, run, sep_at, sep_len,
    sep_token, sep_tokens, starts_with, two_digits, CharClass,
};
use crate::path_template::resolver::{
    date_text, datetime_text, epoch_text, is_direction, is_dropped_dot, sep_text, segment_text,
    segments_text, subsecond_text, template_text, time_text, token_text, tokens_text, version_text,
};
use crate::text::{
    all_digits, decimal, digit_value, digits_value, is_digit, lemma_decimal_of_digits,
    lemma_decimal_regained, lemma_four_digits_value, lemma_regained_concat,
    lemma_two_digits_value,
    lemma_zero_padded_of_digits, regained, repeated, zero_padded,
};
use crate::path_template::laws::{law_direction_unseen_unless_asked};
use vstd::prelude::*;

verus! {

/// Whether the instant has the fraction of a second that was read.
pub open spec fn subsecond_agrees(sub: Option<SubSecond>, at: UtcInstant) -> bool {
    match sub {
        Some(SubSecond::Milli(m)) => at.nanoseconds / 1_000_000 == m,
        Some(SubSecond::Micro(u)) => at.nanoseconds / 1000 == u,
        Some(SubSecond::Nano(n)) => at.nanoseconds == n,
        None => true,
    }
}

/// Whether the instant has the time of day that was read, as far as one was read.
pub open spec fn time_agrees(time: Option<TimeView>, at: UtcInstant) -> bool {
    match time {
        Some(t) => at.civil.hour == t.hour && at.civil.minute == t.minute && (match t.second {
            Some(s) => at.civil.second == s,
            None => true,
        }) && subsecond_agrees(t.subsecond, at),
        None => true,
    }
}

/// Whether the instant is the one that the timestamp of a path names.
pub open spec fn timestamp_agrees(ts: TimestampView, at: UtcInstant) -> bool {
    match ts {
        TimestampView::Epoch(EpochTimestamp::Second(v)) => at.seconds == v,
        TimestampView::Epoch(EpochTimestamp::Milli(v)) => at.millis() == v,
        TimestampView::Epoch(EpochTimestamp::Micro(v)) => at.micros() == v,
        TimestampView::Epoch(EpochTimestamp::Nano(v)) => at.nanos_or_zero() == v,
        TimestampView::DateTime(d) => at.civil.year == d.date.year && at.civil.month
            == d.date.month && at.civil.day == d.date.day && time_agrees(d.time, at),
    }
}

/// Whether the data holds what the token was read from.
pub open spec fn token_agrees(t: TokenView, data: TemplateDataView) -> bool {
    match t {
        TokenView::Name(n) => data.name == n,
        TokenView::PaddedNumber(p) => data.counter == Some(p.number),
        TokenView::RandomNumber(r) => data.random == Some(r),
        TokenView::Semver(v) => data.semver == Some(v),
        TokenView::Timestamp(ts) => timestamp_agrees(ts, data.timestamp),
        TokenView::UpDown(u) => data.up_down == Some(u),
        TokenView::DoUndo(x) => data.up_down == Some(UpDown::spec_from_do_undo(x)),
        _ => true,
    }
}

/// Whether the data holds what each of the tokens was read from.
pub open spec fn agrees(tokens: Seq<TokenView>, data: TemplateDataView) -> bool {
    forall|i: int| 0 <= i < tokens.len() ==> token_agrees(#[trigger] tokens[i], data)
}

/// What the tokens stand for, one after the other.
pub open spec fn plain_text(tokens: Seq<TokenView>, data: TemplateDataView) -> Seq<char>
    decreases tokens.len(),
{
    if tokens.len() == 0 {
        Seq::empty()
    } else {
        plain_text(tokens.drop_last(), data) + token_text(tokens.last(), data)
    }
}

/// Tokens in a row stand for their texts in a row.
pub proof fn lemma_plain_concat(a: Seq<TokenView>, b: Seq<TokenView>, data: TemplateDataView)
    ensures
        plain_text(a + b, data) == plain_text(a, data) + plain_text(b, data),
    decreases b.len(),
{
    if b.len() == 0 {
        assert(a + b =~= a);
        assert(plain_text(a, data) + Seq::<char>::empty() =~= plain_text(a, data));
    } else {
        assert((a + b).drop_last() =~= a + b.drop_last());
        assert((a + b).last() == b.last());
        lemma_plain_concat(a, b.drop_last(), data);
        assert(plain_text(a, data) + plain_text(b.drop_last(), data) + token_text(b.last(), data)
            =~= plain_text(a, data) + (plain_text(b.drop_last(), data) + token_text(
            b.last(),
            data,
        )));
    }
}

/// One token stands for its text.
pub proof fn lemma_plain_one(t: TokenView, data: TemplateDataView)
    ensures
        plain_text(seq![t], data) == token_text(t, data),
{
    assert(seq![t].drop_last() =~= Seq::<TokenView>::empty());
    assert(plain_text(Seq::<TokenView>::empty(), data) =~= Seq::<char>::empty());
    assert(Seq::<char>::empty() + token_text(t, data) =~= token_text(t, data));
}

/// One more token adds its text.
pub proof fn lemma_plain_push(a: Seq<TokenView>, t: TokenView, data: TemplateDataView)
    ensures
        plain_text(a.push(t), data) == plain_text(a, data) + token_text(t, data),
{
    assert(a.push(t).drop_last() =~= a);
}

/// With data that agrees with the tokens no dot falls away, so the
/// tokens stand for their texts one after the other.
pub proof fn lemma_tokens_text_plain(tokens: Seq<TokenView>, n: int, data: TemplateDataView)
    requires
        agrees(tokens, data),
        0 <= n <= tokens.len(),
    ensures
        tokens_text(tokens, n, data) == plain_text(tokens.take(n), data),
    decreases n,
{
    if n > 0 {
        lemma_tokens_text_plain(tokens, n - 1, data);
        if n < tokens.len() {
            assert(token_agrees(tokens[n], data));
        }
        assert(!is_dropped_dot(tokens, n - 1, data));
        assert(tokens.take(n) =~= tokens.take(n - 1).push(tokens[n - 1]));
        lemma_plain_push(tokens.take(n - 1), tokens[n - 1], data);
    } else {
        assert(tokens.take(0) =~= Seq::<TokenView>::empty());
    }
}

/// Agreement with a list of tokens is agreement with its parts.
pub proof fn lemma_agrees_parts(a: Seq<TokenView>, b: Seq<TokenView>, data: TemplateDataView)
    ensures
        agrees(a + b, data) <==> (agrees(a, data) && agrees(b, data)),
{
    if agrees(a + b, data) {
        assert forall|i: int| 0 <= i < a.len() implies token_agrees(#[trigger] a[i], data) by {
            assert((a + b)[i] == a[i]);
        }
        assert forall|i: int| 0 <= i < b.len() implies token_agrees(#[trigger] b[i], data) by {
            assert((a + b)[a.len() + i] == b[i]);
        }
    }
    if agrees(a, data) && agrees(b, data) {
        assert forall|i: int| 0 <= i < (a + b).len() implies token_agrees(
            #[trigger] (a + b)[i],
            data,
        ) by {
            if i < a.len() {
                assert((a + b)[i] == a[i]);
            } else {
                assert((a + b)[i] == b[i - a.len()]);
            }
        }
    }
}

/// Two slices in a row are one slice.
pub proof fn lemma_slices(s: Seq<char>, i: int, j: int, k: int)
    requires
        0 <= i <= j <= k <= s.len(),
    ensures
        s.subrange(i, j) + s.subrange(j, k) == s.subrange(i, k),
{
    assert(s.subrange(i, j) + s.subrange(j, k) =~= s.subrange(i, k));
}

/// Two digits written out again as two digits are the two digits that were read.
pub proof fn lemma_two_digits(s: Seq<char>, p: int)
    requires
        two_digits(s, p) is Some,
    ensures
        0 <= p && p + 2 <= s.len(),
        zero_padded(two_digits(s, p)->0, 2) == s.subrange(p, p + 2),
{
    let sub = s.subrange(p, p + 2);
    assert(all_digits(sub)) by {
        assert forall|i: int| 0 <= i < sub.len() implies is_digit(#[trigger] sub[i]) by {
            assert(sub[i] == s[p + i]);
        }
    }
    lemma_two_digits_value(sub);
    lemma_zero_padded_of_digits(sub);
}

/// The separator that was read, or nothing where none was, is what stands in the path.
pub proof fn lemma_sep(s: Seq<char>, p: int)
    requires
        0 <= p <= s.len(),
    ensures
        p + sep_len(s, p) <= s.len(),
        sep_text(sep_at(s, p)) == s.subrange(p, p + sep_len(s, p)),
{
    if sep_at(s, p) is None {
        assert(s.subrange(p, p) =~= Seq::<char>::empty());
    }
}

/// The date of an instant with the date that was read is written as the date was.
pub proof fn lemma_date(s: Seq<char>, i: int, at: UtcInstant)
    requires
        0 <= i <= s.len(),
        parse_date(s, i) is Some,
        at.civil.year == (parse_date(s, i)->0).0.year,
        at.civil.month == (parse_date(s, i)->0).0.month,
        at.civil.day == (parse_date(s, i)->0).0.day,
    ensures
        i <= (parse_date(s, i)->0).1 <= s.len(),
        date_text((parse_date(s, i)->0).0, at) == s.subrange(i, (parse_date(s, i)->0).1),
{
    let (date, end) = parse_date(s, i)->0;
    let yy = two_digits(s, i + 2)->0;
    let j1 = i + 4 + sep_len(s, i + 4);
    let j2 = j1 + 2 + sep_len(s, j1 + 2);
    lemma_two_digits(s, i + 2);
    lemma_sep(s, i + 4);
    lemma_two_digits(s, j1);
    lemma_sep(s, j1 + 2);
    lemma_two_digits(s, j2);
    // the year
    let year = s.subrange(i, i + 4);
    assert(s.subrange(i, i + 2) == seq!['2', '0']);
    assert(year[0] == s.subrange(i, i + 2)[0] && year[1] == s.subrange(i, i + 2)[1]);
    assert(all_digits(year)) by {
        assert forall|x: int| 0 <= x < year.len() implies is_digit(#[trigger] year[x]) by {
            assert(year[x] == s[i + x]);
        }
    }
    lemma_decimal_of_digits(year);
    lemma_four_digits_value(year);
    assert(year[2] == s[i + 2] && year[3] == s[i + 3]);
    assert(digit_value(year[0]) == 2 && digit_value(year[1]) == 0);
    assert(digits_value(year) == 2000 + yy);
    let v = digits_value(year);
    if decimal(v).len() < 4 {
        assert(year[0] == repeated('0', (4 - decimal(v).len()) as nat)[0]);
    }
    assert(repeated('0', 0) + decimal(v) =~= decimal(v));
    assert(decimal(v) == year);
    assert(date.year == 2000 + yy);
    assert(date_text(date, at) =~= year + s.subrange(i + 4, j1) + s.subrange(j1, j1 + 2)
        + s.subrange(j1 + 2, j2) + s.subrange(j2, j2 + 2));
    assert(year + s.subrange(i + 4, j1) + s.subrange(j1, j1 + 2) + s.subrange(j1 + 2, j2)
        + s.subrange(j2, j2 + 2) =~= s.subrange(i, end));
}

/// The fraction of a second of an instant with the fraction that was
/// read is regained.
pub proof fn lemma_subsecond(s: Seq<char>, i: int, at: UtcInstant)
    requires
        0 <= i <= s.len(),
        parse_subsecond(s, i) is Some,
        subsecond_agrees(Some((parse_subsecond(s, i)->0).0), at),
    ensures
        i <= (parse_subsecond(s, i)->0).1 <= s.len(),
        regained(
            subsecond_text((parse_subsecond(s, i)->0).0, at),
            s.subrange(i, (parse_subsecond(s, i)->0).1),
        ),
{
    let (sub, end) = parse_subsecond(s, i)->0;
    let k = end - i;
    assert(1 <= k <= run(s, i, CharClass::Digit));
    lemma_digit_run(s, i, k);
    lemma_decimal_regained(s.subrange(i, end));
}

/// What follows the minute is regained: the second as it was read, and
/// the fraction but for zeros in front of it.
pub proof fn lemma_seconds(s: Seq<char>, i: int, at: UtcInstant, t: TimeView)
    requires
        0 <= i <= s.len(),
        (t.minute_sep, t.second, t.second_sep, t.subsecond) == (
            parse_seconds(s, i).0,
            parse_seconds(s, i).1,
            parse_seconds(s, i).2,
            parse_seconds(s, i).3,
        ),
        match t.second {
            Some(sec) => at.civil.second == sec,
            None => true,
        },
        subsecond_agrees(t.subsecond, at),
    ensures
        i <= parse_seconds(s, i).4 <= s.len(),
        regained(
            sep_text(t.minute_sep) + (match t.second {
                Some(_) => zero_padded(at.civil.second as nat, 2),
                None => Seq::empty(),
            }) + sep_text(t.second_sep) + (match t.subsecond {
                Some(sub) => subsecond_text(sub, at),
                None => Seq::empty(),
            }),
            s.subrange(i, parse_seconds(s, i).4),
        ),
{
    let end = parse_seconds(s, i).4;
    lemma_sep(s, i);
    let j = i + sep_len(s, i);
    match two_digits(s, j) {
        Some(second) if second < 60 => {
            lemma_two_digits(s, j);
            lemma_sep(s, j + 2);
            let k = j + 2 + sep_len(s, j + 2);
            let head = s.subrange(i, j) + s.subrange(j, j + 2);
            assert(head =~= s.subrange(i, j + 2));
            match parse_subsecond(s, k) {
                Some((sub, e)) => {
                    lemma_subsecond(s, k, at);
                    let front = head + s.subrange(j + 2, k);
                    assert(front =~= s.subrange(i, k));
                    lemma_regained_concat(
                        front,
                        s.subrange(i, k),
                        subsecond_text(sub, at),
                        s.subrange(k, e),
                    );
                    lemma_slices(s, i, k, e);
                    assert(sep_text(t.minute_sep) + zero_padded(at.civil.second as nat, 2)
                        + sep_text(t.second_sep) + subsecond_text(sub, at) =~= front
                        + subsecond_text(sub, at));
                },
                None => {
                    assert(sep_text(t.minute_sep) + zero_padded(at.civil.second as nat, 2)
                        + sep_text(t.second_sep) + Seq::<char>::empty() =~= head);
                },
            }
        },
        _ => {
            assert(s.subrange(i, i) =~= Seq::<char>::empty());
            assert(sep_text(t.minute_sep) + Seq::<char>::empty() + sep_text(t.second_sep)
                + Seq::<char>::empty() =~= Seq::<char>::empty());
        },
    }
}

/// Texts in a row can be taken together in any grouping.
pub proof fn lemma_regroup(
    h: Seq<char>,
    d: Seq<char>,
    e: Seq<char>,
    f: Seq<char>,
    g: Seq<char>,
)
    ensures
        h + d + e + f + g == h + (d + e + f + g),
{
    assert(h + d + e + f + g =~= h + (d + e + f + g));
}

/// The time of day of an instant with the time that was read is regained.
pub proof fn lemma_time(s: Seq<char>, i: int, at: UtcInstant)
    requires
        0 <= i <= s.len(),
        parse_time(s, i) is Some,
        time_agrees(Some((parse_time(s, i)->0).0), at),
    ensures
        i <= (parse_time(s, i)->0).1 <= s.len(),
        regained(time_text((parse_time(s, i)->0).0, at), s.subrange(i, (parse_time(s, i)->0).1)),
{
    let (t, end) = parse_time(s, i)->0;
    lemma_two_digits(s, i);
    lemma_sep(s, i + 2);
    let j = i + 2 + sep_len(s, i + 2);
    lemma_two_digits(s, j);
    lemma_seconds(s, j + 2, at, t);
    assert(end == parse_seconds(s, j + 2).4);
    let hour = zero_padded(at.civil.hour as nat, 2);
    let minute = zero_padded(at.civil.minute as nat, 2);
    assert(hour == s.subrange(i, i + 2));
    assert(sep_text(t.hour_sep) == s.subrange(i + 2, j));
    assert(minute == s.subrange(j, j + 2));
    lemma_slices(s, i, i + 2, j);
    lemma_slices(s, i, j, j + 2);
    let head = hour + sep_text(t.hour_sep) + minute;
    assert(head == s.subrange(i, j + 2));
    let d = sep_text(t.minute_sep);
    let e = match t.second {
        Some(_) => zero_padded(at.civil.second as nat, 2),
        None => Seq::empty(),
    };
    let f = sep_text(t.second_sep);
    let g = match t.subsecond {
        Some(sub) => subsecond_text(sub, at),
        None => Seq::empty(),
    };
    let tail = d + e + f + g;
    assert(regained(tail, s.subrange(j + 2, end)));
    lemma_regained_concat(head, s.subrange(i, j + 2), tail, s.subrange(j + 2, end));
    lemma_slices(s, i, j + 2, end);
    assert(time_text(t, at) == head + d + e + f + g);
    lemma_regroup(head, d, e, f, g);
}

/// The date and time of an instant with those that were read are regained.
pub proof fn lemma_datetime(s: Seq<char>, i: int, at: UtcInstant)
    requires
        0 <= i <= s.len(),
        parse_datetime(s, i) is Some,
        timestamp_agrees(TimestampView::DateTime((parse_datetime(s, i)->0).0), at),
    ensures
        i <= (parse_datetime(s, i)->0).1 <= s.len(),
        regained(
            datetime_text((parse_datetime(s, i)->0).0, at),
            s.subrange(i, (parse_datetime(s, i)->0).1),
        ),
{
    let (d, end) = parse_datetime(s, i)->0;
    let (date, k) = parse_date(s, i)->0;
    lemma_date(s, i, at);
    lemma_sep(s, k);
    let j = k + sep_len(s, k);
    match parse_time(s, j) {
        Some((time, e)) => {
            lemma_time(s, j, at);
            let head = s.subrange(i, k) + s.subrange(k, j);
            assert(head =~= s.subrange(i, j));
            lemma_regained_concat(head, s.subrange(i, j), time_text(time, at), s.subrange(j, e));
            lemma_slices(s, i, j, e);
            assert(datetime_text(d, at) =~= head + time_text(time, at));
        },
        None => {
            assert(datetime_text(d, at) =~= s.subrange(i, k));
        },
    }
}

/// A count of time of an instant with the count that was read is regained.
pub proof fn lemma_epoch(s: Seq<char>, i: int, at: UtcInstant)
    requires
        0 <= i <= s.len(),
        parse_epoch(s, i) is Some,
        timestamp_agrees(TimestampView::Epoch((parse_epoch(s, i)->0).0), at),
    ensures
        i <= (parse_epoch(s, i)->0).1 <= s.len(),
        regained(epoch_text((parse_epoch(s, i)->0).0, at), s.subrange(i, (parse_epoch(s, i)->0).1)),
{
    let (e, end) = parse_epoch(s, i)->0;
    let r = run(s, i, CharClass::Digit);
    lemma_digit_run(s, i, r as int);
    lemma_decimal_regained(s.subrange(i, i + r));
}

/// A version that was read is written as it was.
pub proof fn lemma_semver(s: Seq<char>, i: int)
    requires
        0 <= i <= s.len(),
        s.len() <= usize::MAX,
        parse_semver(s, i) is Some,
    ensures
        i <= (parse_semver(s, i)->0).1 <= s.len(),
        version_text(
            (parse_semver(s, i)->0).0.major as nat,
            (parse_semver(s, i)->0).0.minor as nat,
            (parse_semver(s, i)->0).0.patch as nat,
            (parse_semver(s, i)->0).0.widths,
        ) == s.subrange(i, (parse_semver(s, i)->0).1),
{
    let (v, end) = parse_semver(s, i)->0;
    let r1 = run(s, i, CharClass::Digit);
    lemma_digit_run(s, i, r1 as int);
    let j = i + r1 + 1;
    let r2 = run(s, j, CharClass::Digit);
    lemma_digit_run(s, j, r2 as int);
    let k = j + r2 + 1;
    let r3 = run(s, k, CharClass::Digit);
    lemma_digit_run(s, k, r3 as int);
    lemma_zero_padded_of_digits(s.subrange(i, i + r1));
    lemma_zero_padded_of_digits(s.subrange(j, j + r2));
    lemma_zero_padded_of_digits(s.subrange(k, k + r3));
    assert(s.subrange(i + r1, i + r1 + 1) == seq!['.']);
    assert(s.subrange(j + r2, j + r2 + 1) == seq!['.']);
    assert(s.subrange(i, i + r1) + s.subrange(i + r1, j) + s.subrange(j, j + r2) + s.subrange(
        j + r2,
        k,
    ) + s.subrange(k, k + r3) =~= s.subrange(i, end));
}

/// The first number of a name is regained from the data that agrees with it.
pub proof fn lemma_primary(s: Seq<char>, i: int, data: TemplateDataView)
    requires
        0 <= i <= s.len(),
        s.len() <= usize::MAX,
        parse_primary(s, i) is Some,
        token_agrees((parse_primary(s, i)->0).0, data),
    ensures
        i <= (parse_primary(s, i)->0).1 <= s.len(),
        regained(
            token_text((parse_primary(s, i)->0).0, data),
            s.subrange(i, (parse_primary(s, i)->0).1),
        ),
{
    if parse_datetime(s, i) is Some {
        lemma_datetime(s, i, data.timestamp);
    } else if parse_epoch(s, i) is Some {
        lemma_epoch(s, i, data.timestamp);
    } else if parse_semver(s, i) is Some {
        lemma_semver(s, i);
    } else {
        let r = run(s, i, CharClass::Digit);
        lemma_digit_run(s, i, r as int);
        lemma_zero_padded_of_digits(s.subrange(i, i + r));
    }
}

/// Separators stand for themselves.
pub proof fn lemma_sep_tokens(s: Seq<char>, i: int, k: nat, data: TemplateDataView)
    requires
        0 <= i <= s.len(),
        k <= run(s, i, CharClass::Separator),
    ensures
        i + k <= s.len(),
        plain_text(sep_tokens(s, i, k), data) == s.subrange(i, i + k),
        agrees(sep_tokens(s, i, k), data),
    decreases k,
{
    lemma_run_members(s, i, CharClass::Separator, k as int);
    if k > 0 {
        lemma_sep_tokens(s, i, (k - 1) as nat, data);
        let c = s[i + k - 1];
        assert(in_class(CharClass::Separator, c));
        assert(sep_tokens(s, i, k) =~= sep_tokens(s, i, (k - 1) as nat).push(sep_token(c)));
        lemma_plain_push(sep_tokens(s, i, (k - 1) as nat), sep_token(c), data);
        assert(token_text(sep_token(c), data) =~= seq![c]);
        assert(s.subrange(i, i + k - 1) + seq![c] =~= s.subrange(i, i + k));
    } else {
        assert(sep_tokens(s, i, 0) =~= Seq::<TokenView>::empty());
        assert(s.subrange(i, i) =~= Seq::<char>::empty());
    }
}

/// What follows the first number is regained from the data that agrees with it.
pub proof fn lemma_trailing(s: Seq<char>, i: int, data: TemplateDataView)
    requires
        0 <= i <= s.len(),
        s.len() <= usize::MAX,
        agrees(parse_trailing(s, i).0, data),
    ensures
        i <= parse_trailing(s, i).1 <= s.len(),
        regained(plain_text(parse_trailing(s, i).0, data), s.subrange(i, parse_trailing(s, i).1)),
{
    let (toks, end) = parse_trailing(s, i);
    let k = run(s, i, CharClass::Separator);
    lemma_sep_tokens(s, i, k, data);
    let seps = sep_tokens(s, i, k);
    if parse_epoch(s, i + k) is Some {
        let e = (parse_epoch(s, i + k)->0).0;
        let t = TokenView::Timestamp(TimestampView::Epoch(e));
        assert(toks == seps.push(t));
        assert(toks[k as int] == t);
        assert(token_agrees(toks[k as int], data));
        lemma_epoch(s, i + k, data.timestamp);
        lemma_plain_push(seps, t, data);
        lemma_regained_concat(
            plain_text(seps, data),
            s.subrange(i, i + k),
            token_text(t, data),
            s.subrange(i + k, end),
        );
        lemma_slices(s, i, i + k, end);
    } else if parse_count(s, i + k) is Some {
        let n = (parse_count(s, i + k)->0).0;
        let t = TokenView::RandomNumber(n);
        assert(toks == seps.push(t));
        assert(toks[k as int] == t);
        assert(token_agrees(toks[k as int], data));
        let r = run(s, i + k, CharClass::Digit);
        lemma_digit_run(s, i + k, r as int);
        lemma_decimal_regained(s.subrange(i + k, i + k + r));
        lemma_plain_push(seps, t, data);
        lemma_regained_concat(
            plain_text(seps, data),
            s.subrange(i, i + k),
            token_text(t, data),
            s.subrange(i + k, end),
        );
        lemma_slices(s, i, i + k, end);
    } else {
        assert(s.subrange(i, i) =~= Seq::<char>::empty());
    }
}

/// The number part of a name is regained from the data that agrees with it.
pub proof fn lemma_number(s: Seq<char>, i: int, data: TemplateDataView)
    requires
        0 <= i <= s.len(),
        s.len() <= usize::MAX,
        parse_number(s, i) is Some,
        agrees((parse_number(s, i)->0).0, data),
    ensures
        i <= (parse_number(s, i)->0).1 <= s.len(),
        regained(
            plain_text((parse_number(s, i)->0).0, data),
            s.subrange(i, (parse_number(s, i)->0).1),
        ),
{
    let (toks, end) = parse_number(s, i)->0;
    let (first, j) = parse_primary(s, i)->0;
    let (more, e) = parse_trailing(s, j);
    assert(toks == seq![first] + more);
    lemma_agrees_parts(seq![first], more, data);
    assert(seq![first][0] == first);
    assert(token_agrees(seq![first][0], data));
    lemma_primary(s, i, data);
    lemma_trailing(s, j, data);
    lemma_plain_concat(seq![first], more, data);
    lemma_plain_one(first, data);
    lemma_regained_concat(
        token_text(first, data),
        s.subrange(i, j),
        plain_text(more, data),
        s.subrange(j, end),
    );
    lemma_slices(s, i, j, end);
}

/// Separators and a name are written as they were read.
pub proof fn lemma_named(s: Seq<char>, i: int, least: nat, data: TemplateDataView)
    requires
        0 <= i <= s.len(),
        agrees(parse_named(s, i, least).0, data),
    ensures
        i <= parse_named(s, i, least).1 <= s.len(),
        plain_text(parse_named(s, i, least).0, data) == s.subrange(i, parse_named(s, i, least).1),
{
    let (toks, end) = parse_named(s, i, least);
    let k = run(s, i, CharClass::Separator);
    let n = run(s, i + k, CharClass::NotDot);
    lemma_sep_tokens(s, i, k, data);
    if k >= least && n >= 1 && i + k + n < s.len() {
        let seps = sep_tokens(s, i, k);
        let t = TokenView::Name(s.subrange(i + k, i + k + n));
        assert(toks == seps.push(t));
        assert(toks[k as int] == t);
        assert(token_agrees(toks[k as int], data));
        lemma_plain_push(seps, t, data);
        lemma_slices(s, i, i + k, end);
    } else {
        assert(s.subrange(i, i) =~= Seq::<char>::empty());
    }
}

/// A prefix is written as it was read.
pub proof fn lemma_prefix(s: Seq<char>, i: int, data: TemplateDataView)
    requires
        0 <= i <= s.len(),
    ensures
        i <= parse_prefix(s, i).1 <= s.len(),
        plain_text(parse_prefix(s, i).0, data) == s.subrange(i, parse_prefix(s, i).1),
        agrees(parse_prefix(s, i).0, data),
{
    let (toks, end) = parse_prefix(s, i);
    let z = run(s, i, CharClass::Zed);
    lemma_run_members(s, i, CharClass::Zed, z as int);
    if i + z < s.len() && (s[i + z] == 'v' || s[i + z] == 'V') {
        lemma_plain_one(TokenView::Prefix(s.subrange(i, i + z + 1)), data);
    } else {
        assert(s.subrange(i, i) =~= Seq::<char>::empty());
    }
}

/// A direction is written as it was read.
pub proof fn lemma_direction(s: Seq<char>, i: int, data: TemplateDataView)
    requires
        0 <= i <= s.len(),
        parse_direction(s, i) is Some,
        token_agrees((parse_direction(s, i)->0).0, data),
    ensures
        i <= (parse_direction(s, i)->0).1 <= s.len(),
        token_text((parse_direction(s, i)->0).0, data) == s.subrange(
            i,
            (parse_direction(s, i)->0).1,
        ),
{
}

/// A dot and a direction are written as they were read.
pub proof fn lemma_dot_direction(s: Seq<char>, i: int, data: TemplateDataView)
    requires
        0 <= i <= s.len(),
        agrees(parse_dot_direction(s, i).0, data),
    ensures
        i <= parse_dot_direction(s, i).1 <= s.len(),
        plain_text(parse_dot_direction(s, i).0, data) == s.subrange(
            i,
            parse_dot_direction(s, i).1,
        ),
{
    let (toks, end) = parse_dot_direction(s, i);
    if starts_with(s, i, seq!['.']) && parse_direction(s, i + 1) is Some {
        let t = (parse_direction(s, i + 1)->0).0;
        assert(toks == seq![TokenView::Dot, t]);
        assert(toks[1] == t);
        assert(token_agrees(toks[1], data));
        lemma_direction(s, i + 1, data);
        assert(toks =~= seq![TokenView::Dot].push(t));
        lemma_plain_push(seq![TokenView::Dot], t, data);
        lemma_plain_one(TokenView::Dot, data);
        assert(token_text(TokenView::Dot, data) =~= s.subrange(i, i + 1));
        lemma_slices(s, i, i + 1, end);
    } else {
        assert(s.subrange(i, i) =~= Seq::<char>::empty());
    }
}

/// A file name that was read is regained by resolving its tokens with
/// data that agrees with them.
pub proof fn lemma_file_form(s: Seq<char>, data: TemplateDataView)
    requires
        s.len() <= usize::MAX,
        parse_file_form(s) is Ok,
        agrees((parse_file_form(s)->Ok_0).0[0].tokens, data),
    ensures
        (parse_file_form(s)->Ok_0).1 <= s.len(),
        regained(
            segment_text((parse_file_form(s)->Ok_0).0[0], data),
            s.subrange(0, (parse_file_form(s)->Ok_0).1),
        ),
{
    let (segments, end) = parse_file_form(s)->Ok_0;
    let tokens = segments[0].tokens;
    let (prefix, i) = parse_prefix(s, 0);
    let (number, j) = parse_number(s, i)->0;
    let (name, k) = parse_named(s, j, 0);
    let (direction, e) = parse_dot_direction(s, k);
    let ext = seq![TokenView::Extension];
    assert(tokens == prefix + number + name + direction + ext);
    lemma_agrees_parts(prefix + number + name + direction, ext, data);
    lemma_agrees_parts(prefix + number + name, direction, data);
    lemma_agrees_parts(prefix + number, name, data);
    lemma_agrees_parts(prefix, number, data);
    lemma_prefix(s, 0, data);
    lemma_number(s, i, data);
    lemma_named(s, j, 0, data);
    lemma_dot_direction(s, k, data);
    lemma_plain_concat(prefix + number + name + direction, ext, data);
    lemma_plain_concat(prefix + number + name, direction, data);
    lemma_plain_concat(prefix + number, name, data);
    lemma_plain_concat(prefix, number, data);
    lemma_plain_one(TokenView::Extension, data);
    assert(token_text(TokenView::Extension, data) == extension());
    assert(s.subrange(e, e + 4) == extension());
    // the number may have lost zeros, nothing else has
    lemma_regained_concat(
        plain_text(prefix, data),
        s.subrange(0, i),
        plain_text(number, data),
        s.subrange(i, j),
    );
    lemma_slices(s, 0, i, j);
    let rest = plain_text(name, data) + plain_text(direction, data) + extension();
    assert(rest == s.subrange(j, k) + s.subrange(k, e) + s.subrange(e, e + 4));
    lemma_slices(s, j, k, e);
    lemma_slices(s, j, e, e + 4);
    lemma_regained_concat(
        plain_text(prefix, data) + plain_text(number, data),
        s.subrange(0, j),
        rest,
        s.subrange(j, end),
    );
    lemma_slices(s, 0, j, end);
    lemma_tokens_text_plain(tokens, tokens.len() as int, data);
    assert(tokens.take(tokens.len() as int) =~= tokens);
    assert(plain_text(tokens, data) =~= plain_text(prefix, data) + plain_text(number, data) + rest);
}

/// Whether the data holds what the one segment of a template was read from.
pub open spec fn holds_source(segments: Seq<SegmentView>, data: TemplateDataView) -> bool {
    segments.len() == 1 && agrees(segments[0].tokens, data)
}

/// A path that is read as a single file name is regained by resolving
/// its template with the data that the path itself holds, but for zeros
/// that stood in front of a count of time, of a random number or of a
/// fraction of a second: the resolved path is never longer than the path
/// that was read, and is that path whenever it is as long.
pub proof fn law_resolving_regains_the_path(path: Seq<char>, data: TemplateDataView)
    requires
        path.len() <= usize::MAX,
        parse_path(path) is Ok,
        holds_source(parse_path(path)->Ok_0, data),
    ensures
        regained(template_text(parse_path(path)->Ok_0, data), path),
{
    let segments = parse_path(path)->Ok_0;
    assert(parse_dir_form(path) is None) by {
        if parse_dir_form(path) is Some {
            assert(segments.len() == 2);
        }
    }
    lemma_file_form(path, data);
    assert(path.subrange(0, path.len() as int) =~= path);
    assert(segments_text(segments, 0, data) =~= Seq::<char>::empty());
    assert(template_text(segments, data) =~= segment_text(segments[0], data));
}

/// The same holds where the template is given a direction before it is
/// resolved: a template that names no direction is resolved without one, and
/// the direction that was put in does not show.
pub proof fn law_resolving_with_direction_regains_the_path(path: Seq<char>, data: TemplateDataView)
    requires
        path.len() <= usize::MAX,
        parse_path(path) is Ok,
        holds_source(parse_path(path)->Ok_0, data),
        !has_direction(parse_path(path)->Ok_0) ==> data.up_down is None,
    ensures
        regained(
            template_text(with_direction(parse_path(path)->Ok_0), data),
            path,
        ),
{
    let segments = parse_path(path)->Ok_0;
    law_resolving_regains_the_path(path, data);
    if !has_direction(segments) {
        assert(parse_dir_form(path) is None) by {
            if parse_dir_form(path) is Some {
                assert(segments.len() == 2);
            }
        }
        assert(segments.last().tokens.len() > 0);
        law_direction_unseen_unless_asked(segments, data);
    }
}

} // verus!
