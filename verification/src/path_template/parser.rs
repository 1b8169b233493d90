//! Reads a migration path into a template.
//!
//! The grammar is an ordered one: where two readings are possible the first
//! listed wins, and an optional part is read as far as it goes or not at all.
//! A path is either `<number>/<direction>.sql`, or a single file name made of
//! an optional prefix, a number, an optional name, an optional direction and
//! the extension `.sql`.

use crate::path_template::ast::{
    opt_text, segment_views, token_views, Date, DateTime, DateTimeView, DateView, DoUndo,
    EpochTimestamp, PaddedNumber, PathTemplate, Segment, SegmentKind, SegmentView, Semver,
    SubSecond, Time, Timestamp, TimestampView, TimeView, Token, TokenView, UpDown,
};
use crate::text::{
    all_digits, bounded_number, byte_len, byte_length, chars_of, digit_value, digits_value,
    is_digit, slice_string,
};
use vstd::prelude::*;
use vstd::string::*;

verus! {

/// The classes of characters that the grammar reads in runs.
#[derive(Debug, Clone, Copy, PartialEq, Eq, Structural)]
pub enum CharClass {
    /// `0` to `9`
    Digit,
    /// `.`, `_` or `-`
    Separator,
    /// `z` or `Z`
    Zed,
    /// anything but `.`
    NotDot,
}

/// Whether the character is a separator: `.`, `_` or `-`.
pub open spec fn is_sep(c: char) -> bool {
    c == '.' || c == '_' || c == '-'
}

/// Whether the character belongs to the class.
pub open spec fn in_class(class: CharClass, c: char) -> bool {
    match class {
        CharClass::Digit => is_digit(c),
        CharClass::Separator => is_sep(c),
        CharClass::Zed => c == 'z' || c == 'Z',
        CharClass::NotDot => c != '.',
    }
}

/// How many characters of the class stand in a row at `i`.
pub open spec fn run(s: Seq<char>, i: int, class: CharClass) -> nat
    decreases s.len() - i,
{
    if 0 <= i < s.len() && in_class(class, s[i]) {
        1 + run(s, i + 1, class)
    } else {
        0
    }
}

/// The token of a separator character.
pub open spec fn sep_token(c: char) -> TokenView {
    if c == '.' {
        TokenView::Dot
    } else if c == '_' {
        TokenView::Underscore
    } else {
        TokenView::Dash
    }
}

/// The tokens of the `k` separator characters at `i`.
pub open spec fn sep_tokens(s: Seq<char>, i: int, k: nat) -> Seq<TokenView> {
    Seq::new(k, |x: int| sep_token(s[i + x]))
}

/// Whether `lit` stands at `i`.
pub open spec fn starts_with(s: Seq<char>, i: int, lit: Seq<char>) -> bool {
    0 <= i && i + lit.len() <= s.len() && s.subrange(i, i + lit.len()) == lit
}

/// One separator at `i`, if there is one.
pub open spec fn sep_at(s: Seq<char>, i: int) -> Option<Seq<char>> {
    if 0 <= i < s.len() && is_sep(s[i]) {
        Some(s.subrange(i, i + 1))
    } else {
        None
    }
}

/// How far an optional separator at `i` reaches: one character or none.
pub open spec fn sep_len(s: Seq<char>, i: int) -> int {
    if sep_at(s, i) is Some {
        1
    } else {
        0
    }
}

/// The number written by exactly two digits at `i`.
pub open spec fn two_digits(s: Seq<char>, i: int) -> Option<nat> {
    if 0 <= i && i + 2 <= s.len() && is_digit(s[i]) && is_digit(s[i + 1]) {
        Some(digit_value(s[i]) * 10 + digit_value(s[i + 1]))
    } else {
        None
    }
}

/// A date at `i`: a year from 2000 to 2099, a month and a day, each with an
/// optional separator before the next.
pub open spec fn parse_date(s: Seq<char>, i: int) -> Option<(DateView, int)> {
    if starts_with(s, i, seq!['2', '0']) {
        match two_digits(s, i + 2) {
            Some(yy) => {
                let j1 = i + 4 + sep_len(s, i + 4);
                match two_digits(s, j1) {
                    Some(month) if 1 <= month <= 12 => {
                        let j2 = j1 + 2 + sep_len(s, j1 + 2);
                        match two_digits(s, j2) {
                            Some(day) if 1 <= day <= 31 => Some(
                                (
                                    DateView {
                                        year: (2000 + yy) as i32,
                                        year_sep: sep_at(s, i + 4),
                                        month: month as u32,
                                        month_sep: sep_at(s, j1 + 2),
                                        day: day as u32,
                                    },
                                    j2 + 2,
                                ),
                            ),
                            _ => None,
                        }
                    },
                    _ => None,
                }
            },
            None => None,
        }
    } else {
        None
    }
}

/// The value of `k` digits at `i`, where it fits 32 bits.
pub open spec fn small_number(s: Seq<char>, i: int, k: int) -> Option<u32> {
    let v = digits_value(s.subrange(i, i + k));
    if v <= u32::MAX {
        Some(v as u32)
    } else {
        None
    }
}

/// A fraction of a second at `i`: nine digits are nanoseconds, six are
/// microseconds, and up to three are milliseconds.
pub open spec fn parse_subsecond(s: Seq<char>, i: int) -> Option<(SubSecond, int)> {
    let r = run(s, i, CharClass::Digit);
    if r >= 9 {
        match small_number(s, i, 9) {
            Some(v) => Some((SubSecond::Nano(v), i + 9)),
            None => None,
        }
    } else if r >= 6 {
        match small_number(s, i, 6) {
            Some(v) => Some((SubSecond::Micro(v), i + 6)),
            None => None,
        }
    } else if r >= 1 {
        let k: int = if r >= 3 {
            3
        } else {
            r as int
        };
        match small_number(s, i, k) {
            Some(v) => Some((SubSecond::Milli(v), i + k)),
            None => None,
        }
    } else {
        None
    }
}

/// What follows the second: an optional separator and a fraction, or nothing.
pub open spec fn parse_fraction(s: Seq<char>, i: int) -> (Option<Seq<char>>, Option<SubSecond>, int) {
    match parse_subsecond(s, i + sep_len(s, i)) {
        Some((sub, end)) => (sep_at(s, i), Some(sub), end),
        None => (None, None, i),
    }
}

/// What follows the minute: an optional separator, a second and what
/// follows it, or nothing.
pub open spec fn parse_seconds(s: Seq<char>, i: int) -> (
    Option<Seq<char>>,
    Option<u32>,
    Option<Seq<char>>,
    Option<SubSecond>,
    int,
) {
    let j = i + sep_len(s, i);
    match two_digits(s, j) {
        Some(second) if second < 60 => {
            let (second_sep, subsecond, end) = parse_fraction(s, j + 2);
            (sep_at(s, i), Some(second as u32), second_sep, subsecond, end)
        },
        _ => (None, None, None, None, i),
    }
}

/// A time of day at `i`: an hour from 1 to 12 and a minute, then what follows.
pub open spec fn parse_time(s: Seq<char>, i: int) -> Option<(TimeView, int)> {
    match two_digits(s, i) {
        Some(hour) if 1 <= hour <= 12 => {
            let j = i + 2 + sep_len(s, i + 2);
            match two_digits(s, j) {
                Some(minute) if minute < 60 => {
                    let (minute_sep, second, second_sep, subsecond, end) = parse_seconds(s, j + 2);
                    Some(
                        (
                            TimeView {
                                hour: hour as u32,
                                hour_sep: sep_at(s, i + 2),
                                minute: minute as u32,
                                minute_sep,
                                second,
                                second_sep,
                                subsecond,
                            },
                            end,
                        ),
                    )
                },
                _ => None,
            }
        },
        _ => None,
    }
}

/// A date at `i`, and a time of day after it where one can be read.
pub open spec fn parse_datetime(s: Seq<char>, i: int) -> Option<(DateTimeView, int)> {
    match parse_date(s, i) {
        Some((date, k)) => match parse_time(s, k + sep_len(s, k)) {
            Some((time, end)) => Some(
                (DateTimeView { date, date_sep: sep_at(s, k), time: Some(time) }, end),
            ),
            None => Some((DateTimeView { date, date_sep: None, time: None }, k)),
        },
        None => None,
    }
}

/// Seconds from 1970-01-01T00:00:00Z to 2000-01-01T00:00:00Z.
pub const YEAR_2000: u64 = 946_684_800;

/// Seconds from 1970-01-01T00:00:00Z to 2100-01-01T00:00:00Z.
pub const YEAR_2100: u64 = 4_102_444_800;

/// Whether a count of `unit`-th parts of a second lies in this century:
/// from 2000-01-01T00:00:00Z on, and before 2100-01-01T00:00:00Z.
pub open spec fn in_century(v: nat, unit: nat) -> bool {
    YEAR_2000 * unit <= v < YEAR_2100 * unit
}

/// The reading of a count as a timestamp: it is taken for nanoseconds,
/// microseconds, milliseconds and seconds in turn, and the first reading that
/// falls in this century stands.
pub open spec fn epoch_of(v: nat) -> Option<EpochTimestamp> {
    if in_century(v, 1_000_000_000) {
        Some(EpochTimestamp::Nano(v as i64))
    } else if in_century(v, 1_000_000) {
        Some(EpochTimestamp::Micro(v as i64))
    } else if in_century(v, 1000) {
        Some(EpochTimestamp::Milli(v as i64))
    } else if in_century(v, 1) {
        Some(EpochTimestamp::Second(v as i64))
    } else {
        None
    }
}

/// A timestamp written as a count at `i`.
pub open spec fn parse_epoch(s: Seq<char>, i: int) -> Option<(EpochTimestamp, int)> {
    let r = run(s, i, CharClass::Digit);
    if r >= 1 {
        match epoch_of(digits_value(s.subrange(i, i + r))) {
            Some(e) => Some((e, i + r)),
            None => None,
        }
    } else {
        None
    }
}

/// A version at `i`: three runs of digits with a dot between each two.
pub open spec fn parse_semver(s: Seq<char>, i: int) -> Option<(Semver, int)> {
    let r1 = run(s, i, CharClass::Digit);
    let j = i + r1 + 1;
    let r2 = run(s, j, CharClass::Digit);
    let k = j + r2 + 1;
    let r3 = run(s, k, CharClass::Digit);
    if r1 >= 1 && starts_with(s, i + r1, seq!['.']) && r2 >= 1 && starts_with(s, j + r2, seq!['.'])
        && r3 >= 1 {
        match (small_number(s, i, r1 as int), small_number(s, j, r2 as int), small_number(
            s,
            k,
            r3 as int,
        )) {
            (Some(major), Some(minor), Some(patch)) => Some(
                (
                    Semver {
                        major,
                        minor,
                        patch,
                        widths: (r1 as usize, r2 as usize, r3 as usize),
                    },
                    k + r3,
                ),
            ),
            _ => None,
        }
    } else {
        None
    }
}

/// The value of the run of digits at `i`, where there is one and it fits a `usize`.
pub open spec fn parse_count(s: Seq<char>, i: int) -> Option<(usize, int)> {
    let r = run(s, i, CharClass::Digit);
    let v = digits_value(s.subrange(i, i + r));
    if r >= 1 && v <= usize::MAX {
        Some((v as usize, i + r))
    } else {
        None
    }
}

/// The number that every name starts with: a date, else a count of time,
/// else a version, else a padded counter.
pub open spec fn parse_primary(s: Seq<char>, i: int) -> Option<(TokenView, int)> {
    match parse_datetime(s, i) {
        Some((d, end)) => Some((TokenView::Timestamp(TimestampView::DateTime(d)), end)),
        None => match parse_epoch(s, i) {
            Some((e, end)) => Some((TokenView::Timestamp(TimestampView::Epoch(e)), end)),
            None => match parse_semver(s, i) {
                Some((v, end)) => Some((TokenView::Semver(v), end)),
                None => match parse_count(s, i) {
                    Some((n, end)) => Some(
                        (
                            TokenView::PaddedNumber(
                                PaddedNumber {
                                    width: run(s, i, CharClass::Digit) as usize,
                                    number: n,
                                },
                            ),
                            end,
                        ),
                    ),
                    None => None,
                },
            },
        },
    }
}

/// What may follow the first number: separators and a second number, which
/// is a count of time or else a random number.
pub open spec fn parse_trailing(s: Seq<char>, i: int) -> (Seq<TokenView>, int) {
    let k = run(s, i, CharClass::Separator);
    match parse_epoch(s, i + k) {
        Some((e, end)) => (
            sep_tokens(s, i, k).push(TokenView::Timestamp(TimestampView::Epoch(e))),
            end,
        ),
        None => match parse_count(s, i + k) {
            Some((n, end)) => (sep_tokens(s, i, k).push(TokenView::RandomNumber(n)), end),
            None => (Seq::empty(), i),
        },
    }
}

/// The number part of a name.
pub open spec fn parse_number(s: Seq<char>, i: int) -> Option<(Seq<TokenView>, int)> {
    match parse_primary(s, i) {
        Some((first, j)) => {
            let (more, end) = parse_trailing(s, j);
            Some((seq![first] + more, end))
        },
        None => None,
    }
}

/// Separators and a name at `i`: the name runs up to the next dot, is not
/// empty, and a dot does follow. With fewer than `least` separators, or no
/// such name, nothing is read.
pub open spec fn parse_named(s: Seq<char>, i: int, least: nat) -> (Seq<TokenView>, int) {
    let k = run(s, i, CharClass::Separator);
    let n = run(s, i + k, CharClass::NotDot);
    if k >= least && n >= 1 && i + k + n < s.len() {
        (
            sep_tokens(s, i, k).push(TokenView::Name(s.subrange(i + k, i + k + n))),
            i + k + n,
        )
    } else {
        (Seq::empty(), i)
    }
}

/// A direction at `i`: `down`, `undo`, `up` or `do`.
pub open spec fn parse_direction(s: Seq<char>, i: int) -> Option<(TokenView, int)> {
    if starts_with(s, i, seq!['d', 'o', 'w', 'n']) {
        Some((TokenView::UpDown(UpDown::Down), i + 4))
    } else if starts_with(s, i, seq!['u', 'n', 'd', 'o']) {
        Some((TokenView::DoUndo(DoUndo::Undo), i + 4))
    } else if starts_with(s, i, seq!['u', 'p']) {
        Some((TokenView::UpDown(UpDown::Up), i + 2))
    } else if starts_with(s, i, seq!['d', 'o']) {
        Some((TokenView::DoUndo(DoUndo::Do), i + 2))
    } else {
        None
    }
}

/// A prefix at `i`: any number of `z` or `Z`, then `v` or `V`.
pub open spec fn parse_prefix(s: Seq<char>, i: int) -> (Seq<TokenView>, int) {
    let z = run(s, i, CharClass::Zed);
    if i + z < s.len() && (s[i + z] == 'v' || s[i + z] == 'V') {
        (seq![TokenView::Prefix(s.subrange(i, i + z + 1))], i + z + 1)
    } else {
        (Seq::empty(), i)
    }
}

/// A dot and a direction at `i`, or nothing.
pub open spec fn parse_dot_direction(s: Seq<char>, i: int) -> (Seq<TokenView>, int) {
    if starts_with(s, i, seq!['.']) {
        match parse_direction(s, i + 1) {
            Some((t, end)) => (seq![TokenView::Dot, t], end),
            None => (Seq::empty(), i),
        }
    } else {
        (Seq::empty(), i)
    }
}

/// The extension of a migration file.
pub open spec fn extension() -> Seq<char> {
    seq!['.', 's', 'q', 'l']
}

/// Why a path could not be read.
#[derive(Debug, Clone, Copy, PartialEq, Eq, Structural)]
pub enum Expected {
    /// a date, a count of time, a version or a padded number
    Number,
    /// `.sql`
    Extension,
    /// the end of the path
    End,
}

/// The directory form: a prefix, a number and a name, then a path separator
/// and a file that is named by a direction alone.
pub open spec fn parse_dir_form(s: Seq<char>) -> Option<(Seq<SegmentView>, int)> {
    let (prefix, i) = parse_prefix(s, 0);
    match parse_number(s, i) {
        Some((number, j)) => {
            let (name, k) = parse_named(s, j, 1);
            if k < s.len() && (s[k] == '/' || s[k] == '\\') {
                match parse_direction(s, k + 1) {
                    Some((direction, e)) => if starts_with(s, e, extension()) {
                        Some(
                            (
                                seq![
                                    SegmentView {
                                        kind: SegmentKind::Dir,
                                        tokens: prefix + number + name,
                                    },
                                    SegmentView {
                                        kind: SegmentKind::File,
                                        tokens: seq![direction, TokenView::Extension],
                                    },
                                ],
                                e + 4,
                            ),
                        )
                    } else {
                        None
                    },
                    None => None,
                }
            } else {
                None
            }
        },
        None => None,
    }
}

/// The file form: a prefix, a number, a name, a direction and the extension;
/// only the number and the extension must be there.
pub open spec fn parse_file_form(s: Seq<char>) -> Result<(Seq<SegmentView>, int), (int, Expected)> {
    let (prefix, i) = parse_prefix(s, 0);
    match parse_number(s, i) {
        Some((number, j)) => {
            let (name, k) = parse_named(s, j, 0);
            let (direction, e) = parse_dot_direction(s, k);
            if starts_with(s, e, extension()) {
                Ok(
                    (
                        seq![
                            SegmentView {
                                kind: SegmentKind::File,
                                tokens: prefix + number + name + direction + seq![
                                    TokenView::Extension,
                                ],
                            },
                        ],
                        e + 4,
                    ),
                )
            } else {
                Err((e, Expected::Extension))
            }
        },
        None => Err((i, Expected::Number)),
    }
}

/// The template that a path is read as, or where the reading stopped and
/// what was missing there. The directory form is tried first; whichever form
/// is read must take in the whole path.
pub open spec fn parse_path(s: Seq<char>) -> Result<Seq<SegmentView>, (int, Expected)> {
    match parse_dir_form(s) {
        Some((segments, end)) => if end == s.len() {
            Ok(segments)
        } else {
            Err((end, Expected::End))
        },
        None => match parse_file_form(s) {
            Ok((segments, end)) => if end == s.len() {
                Ok(segments)
            } else {
                Err((end, Expected::End))
            },
            Err(e) => Err(e),
        },
    }
}

/// A range of positions in a path, in bytes.
#[derive(Debug, Clone, Copy, PartialEq, Eq, Structural)]
pub struct Span {
    pub start: usize,
    pub end: usize,
}

/// A path that does not follow the naming pattern of migrations.
#[derive(Debug, Clone, PartialEq, Eq)]
pub struct ParseError {
    /// what was expected, in two lines: the part that is wrong, then what may stand there
    pub message: String,
    /// the character at which the reading stopped, as a range of bytes of `input`
    pub span: Span,
    /// the path that was given
    pub input: String,
    /// what was expected where the reading stopped
    pub expected: Expected,
}

/// The two lines that tell what was expected.
pub open spec fn expected_text(what: Expected) -> Seq<char> {
    match what {
        Expected::Number => "invalid number\nexpected datetime, epoch timestamp, padded number, semver"@,
        Expected::Extension => "invalid file ext\nexpected `.sql`"@,
        Expected::End => "invalid path\nexpected end of input"@,
    }
}

/// The heading under which a path that could not be read is reported.
pub open spec fn title_text(what: Expected) -> Seq<char> {
    match what {
        Expected::Number => "Oops, we couldn't sort out you're migration naming convention: invalid number"@,
        Expected::Extension => "Oops, we couldn't sort out you're migration naming convention: invalid file ext"@,
        Expected::End => "Oops, we couldn't sort out you're migration naming convention: invalid path"@,
    }
}

/// What is written at the place where the reading stopped.
pub open spec fn label_text(what: Expected) -> Seq<char> {
    match what {
        Expected::Number => "expected datetime, epoch timestamp, padded number, semver"@,
        Expected::Extension => "expected `.sql`"@,
        Expected::End => "expected end of input"@,
    }
}

impl ParseError {
    /// The heading under which the error is reported.
    pub fn title(&self) -> (r: String)
        ensures
            r@ == title_text(self.expected),
    {
        match self.expected {
            Expected::Number => String::from_str(
                "Oops, we couldn't sort out you're migration naming convention: invalid number",
            ),
            Expected::Extension => String::from_str(
                "Oops, we couldn't sort out you're migration naming convention: invalid file ext",
            ),
            Expected::End => String::from_str(
                "Oops, we couldn't sort out you're migration naming convention: invalid path",
            ),
        }
    }

    /// What is to be written at the place where the reading stopped.
    pub fn label(&self) -> (r: String)
        ensures
            r@ == label_text(self.expected),
    {
        match self.expected {
            Expected::Number => String::from_str(
                "expected datetime, epoch timestamp, padded number, semver",
            ),
            Expected::Extension => String::from_str("expected `.sql`"),
            Expected::End => String::from_str("expected end of input"),
        }
    }
}

/// The position, in bytes, at which the character at `at` starts.
pub open spec fn byte_offset(path: Seq<char>, at: int) -> usize {
    byte_length(path.subrange(0, at))
}

/// The bytes of the character at `at`; no bytes where `at` is the end of the path.
pub open spec fn span_at(path: Seq<char>, at: int) -> Span {
    Span {
        start: byte_offset(path, at),
        end: byte_offset(
            path,
            if at < path.len() {
                at + 1
            } else {
                at
            },
        ),
    }
}

// ---------------------------------------------------------------------
// the reader itself

/// The input of the reader: the path and its characters.
pub struct Input<'a> {
    pub text: &'a str,
    pub chars: Vec<char>,
}

impl<'a> Input<'a> {
    /// Whether the characters are those of the text.
    pub open spec fn wf(&self) -> bool {
        self.chars@ == self.text@
    }

    /// The input that reads `text`.
    pub fn new(text: &'a str) -> (r: Input<'a>)
        ensures
            r.wf(),
            r.text@ == text@,
    {
        Input { text, chars: chars_of(text) }
    }
}

fn in_class_char(class: CharClass, c: char) -> (r: bool)
    ensures
        r == in_class(class, c),
{
    match class {
        CharClass::Digit => '0' <= c && c <= '9',
        CharClass::Separator => c == '.' || c == '_' || c == '-',
        CharClass::Zed => c == 'z' || c == 'Z',
        CharClass::NotDot => c != '.',
    }
}

/// Every character of a run belongs to the class, and the run ends inside the text.
pub proof fn lemma_run_members(s: Seq<char>, i: int, class: CharClass, k: int)
    requires
        0 <= i <= s.len(),
        0 <= k <= run(s, i, class),
    ensures
        i + k <= s.len(),
        forall|x: int| i <= x < i + k ==> in_class(class, #[trigger] s[x]),
    decreases k,
{
    if k > 0 {
        lemma_run_members(s, i + 1, class, k - 1);
    }
}

/// A run of digits, cut anywhere, is all digits.
pub proof fn lemma_digit_run(s: Seq<char>, i: int, k: int)
    requires
        0 <= i <= s.len(),
        0 <= k <= run(s, i, CharClass::Digit),
    ensures
        i + k <= s.len(),
        all_digits(s.subrange(i, i + k)),
{
    lemma_run_members(s, i, CharClass::Digit, k);
    assert forall|x: int| 0 <= x < k implies is_digit(#[trigger] s.subrange(i, i + k)[x]) by {
        assert(in_class(CharClass::Digit, s[i + x]));
    }
}

fn scan(input: &Input, i: usize, class: CharClass) -> (j: usize)
    requires
        input.wf(),
        i <= input.chars.len(),
    ensures
        j == i + run(input.text@, i as int, class),
        i <= j <= input.chars.len(),
{
    let n = input.chars.len();
    let mut j: usize = i;
    while j < n && in_class_char(class, input.chars[j])
        invariant
            input.wf(),
            n == input.chars.len(),
            i <= j <= n,
            run(input.text@, i as int, class) == (j - i) + run(input.text@, j as int, class),
        decreases n - j,
    {
        j = j + 1;
    }
    j
}

fn at_literal(input: &Input, i: usize, lit: &str) -> (r: bool)
    requires
        input.wf(),
        i <= input.chars.len(),
    ensures
        r == starts_with(input.text@, i as int, lit@),
{
    let lit_chars = chars_of(lit);
    let m = lit_chars.len();
    let n = input.chars.len();
    if n - i < m {
        return false;
    }
    let mut x: usize = 0;
    while x < m
        invariant
            input.wf(),
            n == input.chars.len(),
            m == lit_chars.len(),
            lit_chars@ == lit@,
            i + m <= n,
            x <= m,
            forall|y: int| 0 <= y < x ==> input.chars@[i + y] == lit_chars@[y],
        decreases m - x,
    {
        if input.chars[i + x] != lit_chars[x] {
            assert(input.text@.subrange(i as int, i + m)[x as int] != lit@[x as int]);
            return false;
        }
        x = x + 1;
    }
    assert(input.text@.subrange(i as int, i + m) =~= lit@);
    true
}

fn read_sep(input: &Input, i: usize) -> (r: (Option<String>, usize))
    requires
        input.wf(),
        i <= input.chars.len(),
    ensures
        opt_text(r.0) == sep_at(input.text@, i as int),
        r.1 == i + sep_len(input.text@, i as int),
        r.1 <= input.chars.len(),
{
    if i < input.chars.len() && in_class_char(CharClass::Separator, input.chars[i]) {
        (Some(slice_string(input.text, i, i + 1)), i + 1)
    } else {
        (None, i)
    }
}

fn read_two_digits(input: &Input, i: usize) -> (r: Option<u32>)
    requires
        input.wf(),
        i <= input.chars.len(),
    ensures
        match r {
            Some(v) => two_digits(input.text@, i as int) == Some(v as nat),
            None => two_digits(input.text@, i as int) is None,
        },
        r is Some ==> i + 2 <= input.chars.len(),
{
    let n = input.chars.len();
    if n - i < 2 {
        return None;
    }
    let a = input.chars[i];
    let b = input.chars[i + 1];
    if in_class_char(CharClass::Digit, a) && in_class_char(CharClass::Digit, b) {
        Some((a as u32 - 48) * 10 + (b as u32 - 48))
    } else {
        None
    }
}

fn read_date(input: &Input, i: usize) -> (r: Option<(Date, usize)>)
    requires
        input.wf(),
        i <= input.chars.len(),
    ensures
        match r {
            Some((d, end)) => parse_date(input.text@, i as int) == Some((d@, end as int)) && end
                <= input.chars.len(),
            None => parse_date(input.text@, i as int) is None,
        },
{
    proof {
        reveal_strlit("20");
        assert("20"@ =~= seq!['2', '0']);
    }
    if !at_literal(input, i, "20") {
        return None;
    }
    let yy = match read_two_digits(input, i + 2) {
        Some(v) => v,
        None => {
            return None;
        },
    };
    let (year_sep, j1) = read_sep(input, i + 4);
    let month = match read_two_digits(input, j1) {
        Some(v) => v,
        None => {
            return None;
        },
    };
    if month < 1 || month > 12 {
        return None;
    }
    let (month_sep, j2) = read_sep(input, j1 + 2);
    let day = match read_two_digits(input, j2) {
        Some(v) => v,
        None => {
            return None;
        },
    };
    if day < 1 || day > 31 {
        return None;
    }
    Some((Date { year: (2000 + yy) as i32, year_sep, month, month_sep, day }, j2 + 2))
}

fn read_small_number(input: &Input, i: usize, k: usize) -> (r: Option<u32>)
    requires
        input.wf(),
        i + k <= input.chars.len(),
        k <= run(input.text@, i as int, CharClass::Digit),
    ensures
        r == small_number(input.text@, i as int, k as int),
{
    proof {
        lemma_digit_run(input.text@, i as int, k as int);
    }
    match bounded_number(&input.chars, i, i + k, 0xffff_ffff) {
        Some(v) => Some(v as u32),
        None => None,
    }
}

fn read_subsecond(input: &Input, i: usize) -> (r: Option<(SubSecond, usize)>)
    requires
        input.wf(),
        i <= input.chars.len(),
    ensures
        r == (match parse_subsecond(input.text@, i as int) {
            Some((sub, end)) => Some((sub, end as usize)),
            None => None,
        }),
        match r {
            Some((_, end)) => end <= input.chars.len() && (parse_subsecond(input.text@, i as int)->0).1 == end,
            None => true,
        },
{
    let j = scan(input, i, CharClass::Digit);
    let r = j - i;
    if r >= 9 {
        match read_small_number(input, i, 9) {
            Some(v) => Some((SubSecond::Nano(v), i + 9)),
            None => None,
        }
    } else if r >= 6 {
        match read_small_number(input, i, 6) {
            Some(v) => Some((SubSecond::Micro(v), i + 6)),
            None => None,
        }
    } else if r >= 1 {
        let k: usize = if r >= 3 {
            3
        } else {
            r
        };
        match read_small_number(input, i, k) {
            Some(v) => Some((SubSecond::Milli(v), i + k)),
            None => None,
        }
    } else {
        None
    }
}

fn read_time(input: &Input, i: usize) -> (r: Option<(Time, usize)>)
    requires
        input.wf(),
        i <= input.chars.len(),
    ensures
        match r {
            Some((t, end)) => parse_time(input.text@, i as int) == Some((t@, end as int)) && end
                <= input.chars.len(),
            None => parse_time(input.text@, i as int) is None,
        },
{
    let hour = match read_two_digits(input, i) {
        Some(v) => v,
        None => {
            return None;
        },
    };
    if hour < 1 || hour > 12 {
        return None;
    }
    let (hour_sep, j) = read_sep(input, i + 2);
    let minute = match read_two_digits(input, j) {
        Some(v) => v,
        None => {
            return None;
        },
    };
    if minute >= 60 {
        return None;
    }
    // the second, with its separator, or nothing
    let (sep1, j1) = read_sep(input, j + 2);
    let second = match read_two_digits(input, j1) {
        Some(v) => if v < 60 {
            Some(v)
        } else {
            None
        },
        None => None,
    };
    match second {
        Some(sec) => {
            // the fraction, with its separator, or nothing
            let (sep2, j2) = read_sep(input, j1 + 2);
            match read_subsecond(input, j2) {
                Some((sub, end)) => Some(
                    (
                        Time {
                            hour,
                            hour_sep,
                            minute,
                            minute_sep: sep1,
                            second: Some(sec),
                            second_sep: sep2,
                            subsecond: Some(sub),
                        },
                        end,
                    ),
                ),
                None => Some(
                    (
                        Time {
                            hour,
                            hour_sep,
                            minute,
                            minute_sep: sep1,
                            second: Some(sec),
                            second_sep: None,
                            subsecond: None,
                        },
                        j1 + 2,
                    ),
                ),
            }
        },
        None => Some(
            (
                Time {
                    hour,
                    hour_sep,
                    minute,
                    minute_sep: None,
                    second: None,
                    second_sep: None,
                    subsecond: None,
                },
                j + 2,
            ),
        ),
    }
}

fn read_datetime(input: &Input, i: usize) -> (r: Option<(DateTime, usize)>)
    requires
        input.wf(),
        i <= input.chars.len(),
    ensures
        match r {
            Some((d, end)) => parse_datetime(input.text@, i as int) == Some((d@, end as int))
                && end <= input.chars.len(),
            None => parse_datetime(input.text@, i as int) is None,
        },
{
    let (date, k) = match read_date(input, i) {
        Some(v) => v,
        None => {
            return None;
        },
    };
    let (date_sep, j) = read_sep(input, k);
    match read_time(input, j) {
        Some((time, end)) => Some((DateTime { date, date_sep, time: Some(time) }, end)),
        None => Some((DateTime { date, date_sep: None, time: None }, k)),
    }
}

fn in_century_exec(v: u64, unit: u64) -> (r: bool)
    requires
        unit <= 1_000_000_000,
    ensures
        r == in_century(v as nat, unit as nat),
{
    assert(YEAR_2100 * unit <= 4_102_444_800 * 1_000_000_000) by (nonlinear_arith)
        requires
            unit <= 1_000_000_000,
            YEAR_2100 == 4_102_444_800,
    ;
    assert(YEAR_2000 * unit <= 4_102_444_800 * 1_000_000_000) by (nonlinear_arith)
        requires
            unit <= 1_000_000_000,
            YEAR_2000 == 946_684_800,
    ;
    YEAR_2000 * unit <= v && v < YEAR_2100 * unit
}

/// Reads a count as a timestamp of this century, in the first unit that fits.
pub fn classify_epoch(v: u64) -> (r: Option<EpochTimestamp>)
    ensures
        r == epoch_of(v as nat),
{
    if in_century_exec(v, 1_000_000_000) {
        Some(EpochTimestamp::Nano(v as i64))
    } else if in_century_exec(v, 1_000_000) {
        Some(EpochTimestamp::Micro(v as i64))
    } else if in_century_exec(v, 1000) {
        Some(EpochTimestamp::Milli(v as i64))
    } else if in_century_exec(v, 1) {
        Some(EpochTimestamp::Second(v as i64))
    } else {
        None
    }
}

fn read_epoch(input: &Input, i: usize) -> (r: Option<(EpochTimestamp, usize)>)
    requires
        input.wf(),
        i <= input.chars.len(),
    ensures
        match r {
            Some((e, end)) => parse_epoch(input.text@, i as int) == Some((e, end as int)) && end
                <= input.chars.len(),
            None => parse_epoch(input.text@, i as int) is None,
        },
{
    let j = scan(input, i, CharClass::Digit);
    if j == i {
        return None;
    }
    proof {
        lemma_digit_run(input.text@, i as int, (j - i) as int);
    }
    match bounded_number(&input.chars, i, j, 0xffff_ffff_ffff_ffff) {
        Some(v) => match classify_epoch(v) {
            Some(e) => Some((e, j)),
            None => None,
        },
        None => None,
    }
}

fn read_semver(input: &Input, i: usize) -> (r: Option<(Semver, usize)>)
    requires
        input.wf(),
        i <= input.chars.len(),
    ensures
        match r {
            Some((v, end)) => parse_semver(input.text@, i as int) == Some((v, end as int)) && end
                <= input.chars.len(),
            None => parse_semver(input.text@, i as int) is None,
        },
{
    proof {
        reveal_strlit(".");
        assert("."@ =~= seq!['.']);
    }
    let n = input.chars.len();
    let e1 = scan(input, i, CharClass::Digit);
    if e1 == i || !at_literal(input, e1, ".") {
        return None;
    }
    let j = e1 + 1;
    let e2 = scan(input, j, CharClass::Digit);
    if e2 == j || !at_literal(input, e2, ".") {
        return None;
    }
    let k = e2 + 1;
    let e3 = scan(input, k, CharClass::Digit);
    if e3 == k {
        return None;
    }
    let major = read_small_number(input, i, e1 - i);
    let minor = read_small_number(input, j, e2 - j);
    let patch = read_small_number(input, k, e3 - k);
    match (major, minor, patch) {
        (Some(major), Some(minor), Some(patch)) => Some(
            (Semver { major, minor, patch, widths: (e1 - i, e2 - j, e3 - k) }, e3),
        ),
        _ => None,
    }
}

fn read_count(input: &Input, i: usize) -> (r: Option<(usize, usize)>)
    requires
        input.wf(),
        i <= input.chars.len(),
    ensures
        match r {
            Some((v, end)) => parse_count(input.text@, i as int) == Some((v, end as int)) && end
                == i + run(input.text@, i as int, CharClass::Digit) && end <= input.chars.len(),
            None => parse_count(input.text@, i as int) is None,
        },
{
    let j = scan(input, i, CharClass::Digit);
    if j == i {
        return None;
    }
    proof {
        lemma_digit_run(input.text@, i as int, (j - i) as int);
    }
    match bounded_number(&input.chars, i, j, usize::MAX as u64) {
        Some(v) => Some((v as usize, j)),
        None => None,
    }
}

fn read_primary(input: &Input, i: usize) -> (r: Option<(Token, usize)>)
    requires
        input.wf(),
        i <= input.chars.len(),
    ensures
        match r {
            Some((t, end)) => parse_primary(input.text@, i as int) == Some((t@, end as int))
                && end <= input.chars.len(),
            None => parse_primary(input.text@, i as int) is None,
        },
{
    if let Some((d, end)) = read_datetime(input, i) {
        return Some((Token::Timestamp(Timestamp::DateTime(d)), end));
    }
    if let Some((e, end)) = read_epoch(input, i) {
        return Some((Token::Timestamp(Timestamp::Epoch(e)), end));
    }
    if let Some((v, end)) = read_semver(input, i) {
        return Some((Token::Semver(v), end));
    }
    if let Some((n, end)) = read_count(input, i) {
        return Some((Token::PaddedNumber(PaddedNumber { width: end - i, number: n }), end));
    }
    None
}

fn sep_token_of(c: char) -> (t: Token)
    ensures
        t@ == sep_token(c),
{
    if c == '.' {
        Token::Dot
    } else if c == '_' {
        Token::Underscore
    } else {
        Token::Dash
    }
}

/// Appends the tokens of the separators from `i` up to `j`.
fn push_seps(out: &mut Vec<Token>, input: &Input, i: usize, j: usize)
    requires
        input.wf(),
        i <= j <= input.chars.len(),
    ensures
        token_views(final(out)@) == token_views(old(out)@) + sep_tokens(
            input.text@,
            i as int,
            (j - i) as nat,
        ),
{
    let mut x: usize = i;
    assert(token_views(out@) + sep_tokens(input.text@, i as int, 0) =~= token_views(out@));
    while x < j
        invariant
            input.wf(),
            i <= x <= j <= input.chars.len(),
            token_views(out@) == token_views(old(out)@) + sep_tokens(
                input.text@,
                i as int,
                (x - i) as nat,
            ),
        decreases j - x,
    {
        let ghost before = out@;
        let t = sep_token_of(input.chars[x]);
        out.push(t);
        x = x + 1;
        assert(token_views(out@) =~= token_views(before).push(t@));
        assert(token_views(old(out)@) + sep_tokens(input.text@, i as int, (x - 1 - i) as nat).push(
            t@,
        ) =~= token_views(old(out)@) + sep_tokens(input.text@, i as int, (x - i) as nat));
    }
}

/// Appends one token.
fn push_one(out: &mut Vec<Token>, t: Token)
    ensures
        token_views(final(out)@) == token_views(old(out)@).push(t@),
{
    out.push(t);
    assert(token_views(out@) =~= token_views(old(out)@).push(t@));
}

/// Appends what may follow the first number.
fn read_trailing(out: &mut Vec<Token>, input: &Input, i: usize) -> (end: usize)
    requires
        input.wf(),
        i <= input.chars.len(),
    ensures
        token_views(final(out)@) == token_views(old(out)@) + parse_trailing(input.text@, i as int).0,
        end == parse_trailing(input.text@, i as int).1,
        end <= input.chars.len(),
{
    let j = scan(input, i, CharClass::Separator);
    if let Some((e, end)) = read_epoch(input, j) {
        push_seps(out, input, i, j);
        push_one(out, Token::Timestamp(Timestamp::Epoch(e)));
        assert(token_views(out@) =~= token_views(old(out)@) + parse_trailing(
            input.text@,
            i as int,
        ).0);
        return end;
    }
    if let Some((n, end)) = read_count(input, j) {
        push_seps(out, input, i, j);
        push_one(out, Token::RandomNumber(n));
        assert(token_views(out@) =~= token_views(old(out)@) + parse_trailing(
            input.text@,
            i as int,
        ).0);
        return end;
    }
    assert(token_views(out@) + Seq::<TokenView>::empty() =~= token_views(out@));
    i
}

/// Appends the number part of a name.
fn read_number(out: &mut Vec<Token>, input: &Input, i: usize) -> (r: Option<usize>)
    requires
        input.wf(),
        i <= input.chars.len(),
    ensures
        match r {
            Some(end) => parse_number(input.text@, i as int) is Some && token_views(final(out)@)
                == token_views(old(out)@) + (parse_number(input.text@, i as int)->0).0 && end
                == (parse_number(input.text@, i as int)->0).1 && end <= input.chars.len(),
            None => parse_number(input.text@, i as int) is None && final(out)@ == old(out)@,
        },
{
    match read_primary(input, i) {
        Some((first, j)) => {
            push_one(out, first);
            let end = read_trailing(out, input, j);
            assert(token_views(out@) =~= token_views(old(out)@) + (parse_number(input.text@, i as int)->0).0);
            Some(end)
        },
        None => None,
    }
}

/// Appends separators and a name, where at least `least` separators and a name are there.
fn read_named(out: &mut Vec<Token>, input: &Input, i: usize, least: usize) -> (end: usize)
    requires
        input.wf(),
        i <= input.chars.len(),
    ensures
        token_views(final(out)@) == token_views(old(out)@) + parse_named(
            input.text@,
            i as int,
            least as nat,
        ).0,
        end == parse_named(input.text@, i as int, least as nat).1,
        end <= input.chars.len(),
{
    let j = scan(input, i, CharClass::Separator);
    let e = scan(input, j, CharClass::NotDot);
    if j - i >= least && e > j && e < input.chars.len() {
        push_seps(out, input, i, j);
        push_one(out, Token::Name(slice_string(input.text, j, e)));
        assert(token_views(out@) =~= token_views(old(out)@) + parse_named(
            input.text@,
            i as int,
            least as nat,
        ).0);
        e
    } else {
        assert(token_views(out@) + Seq::<TokenView>::empty() =~= token_views(out@));
        i
    }
}

fn read_direction(input: &Input, i: usize) -> (r: Option<(Token, usize)>)
    requires
        input.wf(),
        i <= input.chars.len(),
    ensures
        match r {
            Some((t, end)) => parse_direction(input.text@, i as int) == Some((t@, end as int))
                && end <= input.chars.len(),
            None => parse_direction(input.text@, i as int) is None,
        },
{
    proof {
        reveal_strlit("down");
        reveal_strlit("undo");
        reveal_strlit("up");
        reveal_strlit("do");
        assert("down"@ =~= seq!['d', 'o', 'w', 'n']);
        assert("undo"@ =~= seq!['u', 'n', 'd', 'o']);
        assert("up"@ =~= seq!['u', 'p']);
        assert("do"@ =~= seq!['d', 'o']);
    }
    if at_literal(input, i, "down") {
        Some((Token::UpDown(UpDown::Down), i + 4))
    } else if at_literal(input, i, "undo") {
        Some((Token::DoUndo(DoUndo::Undo), i + 4))
    } else if at_literal(input, i, "up") {
        Some((Token::UpDown(UpDown::Up), i + 2))
    } else if at_literal(input, i, "do") {
        Some((Token::DoUndo(DoUndo::Do), i + 2))
    } else {
        None
    }
}

/// Appends a prefix, where there is one.
fn read_prefix(out: &mut Vec<Token>, input: &Input, i: usize) -> (end: usize)
    requires
        input.wf(),
        i <= input.chars.len(),
    ensures
        token_views(final(out)@) == token_views(old(out)@) + parse_prefix(input.text@, i as int).0,
        end == parse_prefix(input.text@, i as int).1,
        end <= input.chars.len(),
{
    let j = scan(input, i, CharClass::Zed);
    if j < input.chars.len() && (input.chars[j] == 'v' || input.chars[j] == 'V') {
        push_one(out, Token::Prefix(slice_string(input.text, i, j + 1)));
        assert(token_views(out@) =~= token_views(old(out)@) + parse_prefix(
            input.text@,
            i as int,
        ).0);
        j + 1
    } else {
        assert(token_views(out@) + Seq::<TokenView>::empty() =~= token_views(out@));
        i
    }
}

/// Appends a dot and a direction, where both are there.
fn read_dot_direction(out: &mut Vec<Token>, input: &Input, i: usize) -> (end: usize)
    requires
        input.wf(),
        i <= input.chars.len(),
    ensures
        token_views(final(out)@) == token_views(old(out)@) + parse_dot_direction(
            input.text@,
            i as int,
        ).0,
        end == parse_dot_direction(input.text@, i as int).1,
        end <= input.chars.len(),
{
    proof {
        reveal_strlit(".");
        assert("."@ =~= seq!['.']);
    }
    if at_literal(input, i, ".") {
        if let Some((t, end)) = read_direction(input, i + 1) {
            push_one(out, Token::Dot);
            push_one(out, t);
            assert(token_views(out@) =~= token_views(old(out)@) + parse_dot_direction(
                input.text@,
                i as int,
            ).0);
            return end;
        }
    }
    assert(token_views(out@) + Seq::<TokenView>::empty() =~= token_views(out@));
    i
}

fn at_extension(input: &Input, i: usize) -> (r: bool)
    requires
        input.wf(),
        i <= input.chars.len(),
    ensures
        r == starts_with(input.text@, i as int, extension()),
{
    proof {
        reveal_strlit(".sql");
        assert(".sql"@ =~= extension());
    }
    at_literal(input, i, ".sql")
}

fn read_dir_form(input: &Input) -> (r: Option<(Vec<Segment>, usize)>)
    requires
        input.wf(),
    ensures
        match r {
            Some((segments, end)) => parse_dir_form(input.text@) == Some(
                (segment_views(segments@), end as int),
            ),
            None => parse_dir_form(input.text@) is None,
        },
{
    let mut tokens: Vec<Token> = Vec::new();
    assert(token_views(tokens@) =~= Seq::<TokenView>::empty());
    let i = read_prefix(&mut tokens, input, 0);
    let j = match read_number(&mut tokens, input, i) {
        Some(j) => j,
        None => {
            return None;
        },
    };
    let k = read_named(&mut tokens, input, j, 1);
    if !(k < input.chars.len() && (input.chars[k] == '/' || input.chars[k] == '\\')) {
        return None;
    }
    let (direction, e) = match read_direction(input, k + 1) {
        Some(v) => v,
        None => {
            return None;
        },
    };
    if !at_extension(input, e) {
        return None;
    }
    let ghost dir_tokens = token_views(tokens@);
    let ghost direction_view = direction@;
    let mut file_tokens: Vec<Token> = Vec::new();
    file_tokens.push(direction);
    file_tokens.push(Token::Extension);
    assert(token_views(file_tokens@) =~= seq![direction_view, TokenView::Extension]);
    let mut segments: Vec<Segment> = Vec::new();
    segments.push(Segment { kind: SegmentKind::Dir, tokens });
    segments.push(Segment { kind: SegmentKind::File, tokens: file_tokens });
    proof {
        let (p, _) = parse_prefix(input.text@, 0);
        let (nm, _) = parse_number(input.text@, i as int)->0;
        let (na, _) = parse_named(input.text@, j as int, 1);
        assert(dir_tokens =~= p + nm + na);
        assert(segment_views(segments@) =~= seq![
            SegmentView { kind: SegmentKind::Dir, tokens: dir_tokens },
            SegmentView {
                kind: SegmentKind::File,
                tokens: seq![direction_view, TokenView::Extension],
            },
        ]);
    }
    Some((segments, e + 4))
}

fn read_file_form(input: &Input) -> (r: Result<(Vec<Segment>, usize), (usize, Expected)>)
    requires
        input.wf(),
    ensures
        match r {
            Ok((segments, end)) => parse_file_form(input.text@) == Ok::<_, (int, Expected)>(
                (segment_views(segments@), end as int),
            ),
            Err((at, what)) => parse_file_form(input.text@) == Err::<(Seq<SegmentView>, int), _>(
                (at as int, what),
            ) && at <= input.chars.len(),
        },
{
    let mut tokens: Vec<Token> = Vec::new();
    assert(token_views(tokens@) =~= Seq::<TokenView>::empty());
    let i = read_prefix(&mut tokens, input, 0);
    let j = match read_number(&mut tokens, input, i) {
        Some(j) => j,
        None => {
            return Err((i, Expected::Number));
        },
    };
    let k = read_named(&mut tokens, input, j, 0);
    let e = read_dot_direction(&mut tokens, input, k);
    if !at_extension(input, e) {
        return Err((e, Expected::Extension));
    }
    push_one(&mut tokens, Token::Extension);
    let ghost all = token_views(tokens@);
    let mut segments: Vec<Segment> = Vec::new();
    segments.push(Segment { kind: SegmentKind::File, tokens });
    proof {
        let (p, _) = parse_prefix(input.text@, 0);
        let (nm, _) = parse_number(input.text@, i as int)->0;
        let (na, _) = parse_named(input.text@, j as int, 0);
        let (di, _) = parse_dot_direction(input.text@, k as int);
        assert(all =~= p + nm + na + di + seq![TokenView::Extension]);
        assert(segment_views(segments@) =~= seq![
            SegmentView { kind: SegmentKind::File, tokens: all },
        ]);
    }
    Ok((segments, e + 4))
}

fn expected_message(what: Expected) -> (r: String)
    ensures
        r@ == expected_text(what),
{
    match what {
        Expected::Number => String::from_str(
            "invalid number\nexpected datetime, epoch timestamp, padded number, semver",
        ),
        Expected::Extension => String::from_str("invalid file ext\nexpected `.sql`"),
        Expected::End => String::from_str("invalid path\nexpected end of input"),
    }
}

fn failure(input: &Input, at: usize, what: Expected) -> (e: ParseError)
    requires
        input.wf(),
        at <= input.chars.len(),
    ensures
        e.message@ == expected_text(what),
        e.span == span_at(input.text@, at as int),
        e.input@ == input.text@,
        e.expected == what,
{
    let end = if at < input.chars.len() {
        at + 1
    } else {
        at
    };
    let before = slice_string(input.text, 0, at);
    let through = slice_string(input.text, 0, end);
    ParseError {
        message: expected_message(what),
        span: Span { start: byte_len(&before), end: byte_len(&through) },
        input: String::from_str(input.text),
        expected: what,
    }
}

/// Reads a migration path into the template of its naming pattern.
///
/// The path is read as `parse_path` says. Where it cannot be read, the error
/// tells what was expected and at which character.
pub fn parse(input: &str) -> (r: Result<PathTemplate, ParseError>)
    ensures
        match r {
            Ok(template) => parse_path(input@) == Ok::<_, (int, Expected)>(template@),
            Err(e) => match parse_path(input@) {
                Ok(_) => false,
                Err((at, what)) => e.message@ == expected_text(what) && e.span == span_at(input@, at)
                    && e.input@ == input@ && e.expected == what,
            },
        },
{
    let input = Input::new(input);
    match read_dir_form(&input) {
        Some((segments, end)) => {
            if end == input.chars.len() {
                Ok(PathTemplate { segments })
            } else {
                Err(failure(&input, end, Expected::End))
            }
        },
        None => match read_file_form(&input) {
            Ok((segments, end)) => {
                if end == input.chars.len() {
                    Ok(PathTemplate { segments })
                } else {
                    Err(failure(&input, end, Expected::End))
                }
            },
            Err((at, what)) => Err(failure(&input, at, what)),
        },
    }
}

/// The value and the number of digits of `s`, where all of it is one run
/// of digits that fits a `usize`.
pub fn read_whole_count(s: &str) -> (r: Option<(usize, usize)>)
    ensures
        r == (match parse_count(s@, 0) {
            Some((number, end)) if end == s@.len() => Some((number, s@.len() as usize)),
            _ => None,
        }),
{
    let input = Input::new(s);
    match read_count(&input, 0) {
        Some((number, end)) => if end == input.chars.len() {
            Some((number, end))
        } else {
            None
        },
        None => None,
    }
}

/// The version that `s` writes, where all of it is one version.
pub fn read_whole_semver(s: &str) -> (r: Option<Semver>)
    ensures
        r == (match parse_semver(s@, 0) {
            Some((v, end)) if end == s@.len() => Some(v),
            _ => None,
        }),
{
    let input = Input::new(s);
    match read_semver(&input, 0) {
        Some((v, end)) => if end == input.chars.len() {
            Some(v)
        } else {
            None
        },
        None => None,
    }
}

} // verus!
