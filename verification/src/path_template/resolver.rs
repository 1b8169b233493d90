//! Writes out the path that a template stands for, given the data of the
//! migration to be named.

use crate::instant::UtcInstant;
use crate::path_template::ast::{
    opt_text, token_views, Date, DateTime, DateTimeView, DateView, DoUndo, EpochTimestamp,
    PaddedNumber, PathTemplate, Segment, SegmentView, Semver, SubSecond, TemplateData,
    TemplateDataView, Time, TimeView, Timestamp, TimestampView, Token, TokenView, UpDown,
};
use crate::text::{
    decimal, push_decimal, push_signed_decimal, push_signed_zero_padded, push_zero_padded,
    signed_decimal, signed_zero_padded, zero_padded,
};
use vstd::prelude::*;
use vstd::string::*;

verus! {

/// The text of a separator that may be absent.
pub open spec fn sep_text(sep: Option<Seq<char>>) -> Seq<char> {
    match sep {
        Some(s) => s,
        None => Seq::empty(),
    }
}

/// A counter: the one given, else the one after the counter that was read,
/// filled with zeros to the width that was read.
pub open spec fn padded_number_text(p: PaddedNumber, data: TemplateDataView) -> Seq<char> {
    zero_padded(
        match data.counter {
            Some(c) => c as nat,
            None => (p.number + 1) as nat,
        },
        p.width as nat,
    )
}

/// Three numbers with dots between them, each filled with zeros to its width.
pub open spec fn version_text(
    major: nat,
    minor: nat,
    patch: nat,
    widths: (usize, usize, usize),
) -> Seq<char> {
    zero_padded(major, widths.0 as nat) + seq!['.'] + zero_padded(minor, widths.1 as nat)
        + seq!['.'] + zero_padded(patch, widths.2 as nat)
}

/// A version: the one given, else the next minor version after the one that was read.
pub open spec fn semver_text(v: Semver, data: TemplateDataView) -> Seq<char> {
    match data.semver {
        Some(s) => version_text(s.major as nat, s.minor as nat, s.patch as nat, s.widths),
        None => version_text(v.major as nat, (v.minor + 1) as nat, 0, v.widths),
    }
}

/// A random number: the one given, else the microseconds of the timestamp.
pub open spec fn random_text(data: TemplateDataView) -> Seq<char> {
    match data.random {
        Some(r) => decimal(r as nat),
        None => signed_decimal(data.timestamp.micros()),
    }
}

/// The timestamp as a count, in the unit that was read.
pub open spec fn epoch_text(e: EpochTimestamp, at: UtcInstant) -> Seq<char> {
    match e {
        EpochTimestamp::Second(_) => signed_decimal(at.seconds as int),
        EpochTimestamp::Milli(_) => signed_decimal(at.millis()),
        EpochTimestamp::Micro(_) => signed_decimal(at.micros()),
        EpochTimestamp::Nano(_) => signed_decimal(at.nanos_or_zero()),
    }
}

/// The part of the timestamp below the second, in the unit that was read.
pub open spec fn subsecond_text(s: SubSecond, at: UtcInstant) -> Seq<char> {
    match s {
        SubSecond::Milli(_) => decimal((at.nanoseconds / 1_000_000) as nat),
        SubSecond::Micro(_) => decimal((at.nanoseconds / 1000) as nat),
        SubSecond::Nano(_) => decimal(at.nanoseconds as nat),
    }
}

/// Year, month and day of the timestamp, with the separators that were read.
pub open spec fn date_text(d: DateView, at: UtcInstant) -> Seq<char> {
    signed_zero_padded(at.civil.year as int, 2) + sep_text(d.year_sep) + zero_padded(
        at.civil.month as nat,
        2,
    ) + sep_text(d.month_sep) + zero_padded(at.civil.day as nat, 2)
}

/// Hour and minute of the timestamp, and second and fraction where they
/// were read, with the separators that were read.
pub open spec fn time_text(t: TimeView, at: UtcInstant) -> Seq<char> {
    zero_padded(at.civil.hour as nat, 2) + sep_text(t.hour_sep) + zero_padded(
        at.civil.minute as nat,
        2,
    ) + sep_text(t.minute_sep) + (match t.second {
        Some(_) => zero_padded(at.civil.second as nat, 2),
        None => Seq::empty(),
    }) + sep_text(t.second_sep) + (match t.subsecond {
        Some(s) => subsecond_text(s, at),
        None => Seq::empty(),
    })
}

/// The date of the timestamp, and the time of day where one was read.
pub open spec fn datetime_text(d: DateTimeView, at: UtcInstant) -> Seq<char> {
    date_text(d.date, at) + sep_text(d.date_sep) + (match d.time {
        Some(t) => time_text(t, at),
        None => Seq::empty(),
    })
}

/// The timestamp as a count or as a date, as it was read.
pub open spec fn timestamp_text(t: TimestampView, at: UtcInstant) -> Seq<char> {
    match t {
        TimestampView::Epoch(e) => epoch_text(e, at),
        TimestampView::DateTime(d) => datetime_text(d, at),
    }
}

/// `up` or `down`, or nothing where no direction is given.
pub open spec fn up_down_text(direction: Option<UpDown>) -> Seq<char> {
    match direction {
        Some(UpDown::Up) => seq!['u', 'p'],
        Some(UpDown::Down) => seq!['d', 'o', 'w', 'n'],
        None => Seq::empty(),
    }
}

/// `do` or `undo`, or nothing where no direction is given.
pub open spec fn do_undo_text(direction: Option<UpDown>) -> Seq<char> {
    match direction {
        Some(UpDown::Up) => seq!['d', 'o'],
        Some(UpDown::Down) => seq!['u', 'n', 'd', 'o'],
        None => Seq::empty(),
    }
}

/// What one token stands for.
pub open spec fn token_text(t: TokenView, data: TemplateDataView) -> Seq<char> {
    match t {
        TokenView::Prefix(p) => p,
        TokenView::PaddedNumber(p) => padded_number_text(p, data),
        TokenView::RandomNumber(_) => random_text(data),
        TokenView::Semver(v) => semver_text(v, data),
        TokenView::Timestamp(ts) => timestamp_text(ts, data.timestamp),
        TokenView::Name(_) => data.name,
        TokenView::UpDown(_) => up_down_text(data.up_down),
        TokenView::DoUndo(_) => do_undo_text(data.up_down),
        TokenView::Underscore => seq!['_'],
        TokenView::Dot => seq!['.'],
        TokenView::Dash => seq!['-'],
        TokenView::Extension => seq!['.', 's', 'q', 'l'],
    }
}

/// Whether the token names the direction of a migration.
pub open spec fn is_direction(t: TokenView) -> bool {
    t is UpDown || t is DoUndo
}

/// Whether the token at `i` is a dot that falls away: with no direction
/// given, the direction token after it writes nothing, and the dot in front
/// of it goes with it.
pub open spec fn is_dropped_dot(tokens: Seq<TokenView>, i: int, data: TemplateDataView) -> bool {
    data.up_down is None && tokens[i] is Dot && i + 1 < tokens.len() && is_direction(tokens[i + 1])
}

/// What the token at `i` contributes to its segment.
pub open spec fn piece_text(tokens: Seq<TokenView>, i: int, data: TemplateDataView) -> Seq<
    char,
> {
    if is_dropped_dot(tokens, i, data) {
        Seq::empty()
    } else {
        token_text(tokens[i], data)
    }
}

/// What the first `n` tokens of a segment stand for.
pub open spec fn tokens_text(tokens: Seq<TokenView>, n: int, data: TemplateDataView) -> Seq<
    char,
>
    decreases n,
{
    if n <= 0 {
        Seq::empty()
    } else {
        tokens_text(tokens, n - 1, data) + piece_text(tokens, n - 1, data)
    }
}

/// What a segment stands for.
pub open spec fn segment_text(segment: SegmentView, data: TemplateDataView) -> Seq<char> {
    tokens_text(segment.tokens, segment.tokens.len() as int, data)
}

/// What the first `n` segments of a template stand for.
pub open spec fn segments_text(segments: Seq<SegmentView>, n: int, data: TemplateDataView) -> Seq<
    char,
>
    decreases n,
{
    if n <= 0 {
        Seq::empty()
    } else {
        segments_text(segments, n - 1, data) + segment_text(segments[n - 1], data)
    }
}

/// The path that a template stands for.
pub open spec fn template_text(segments: Seq<SegmentView>, data: TemplateDataView) -> Seq<char> {
    segments_text(segments, segments.len() as int, data)
}

/// Something that stands for a piece of text once the data of a migration is known.
pub trait Resolve {
    /// The text that `self` stands for.
    spec fn resolved(&self, data: TemplateDataView) -> Seq<char>;

    /// Writes out the text that `self` stands for.
    fn resolve(&self, data: &TemplateData) -> (r: String)
        ensures
            r@ == self.resolved(data@),
    ;
}

fn push_sep(out: &mut String, sep: &Option<String>)
    ensures
        final(out)@ == old(out)@ + sep_text(opt_text(*sep)),
{
    match sep {
        Some(s) => {
            out.append(s.as_str());
        },
        None => {
            assert(old(out)@ + Seq::<char>::empty() =~= old(out)@);
        },
    }
}

impl Resolve for PaddedNumber {
    open spec fn resolved(&self, data: TemplateDataView) -> Seq<char> {
        padded_number_text(*self, data)
    }

    fn resolve(&self, data: &TemplateData) -> (r: String) {
        let counter: u128 = match data.counter {
            Some(c) => c as u128,
            None => self.number as u128 + 1,
        };
        let mut out = String::new();
        push_zero_padded(&mut out, counter, self.width);
        assert(Seq::<char>::empty() + padded_number_text(*self, data@) =~= padded_number_text(
            *self,
            data@,
        ));
        out
    }
}

fn push_version(out: &mut String, major: u64, minor: u64, patch: u64, widths: (usize, usize, usize))
    ensures
        final(out)@ == old(out)@ + version_text(major as nat, minor as nat, patch as nat, widths),
{
    proof {
        reveal_strlit(".");
    }
    push_zero_padded(out, major as u128, widths.0);
    out.append(".");
    push_zero_padded(out, minor as u128, widths.1);
    out.append(".");
    push_zero_padded(out, patch as u128, widths.2);
    assert(out@ =~= old(out)@ + version_text(major as nat, minor as nat, patch as nat, widths));
}

impl Semver {
    /// The version as it is written: the three numbers with dots between
    /// them, each filled with zeros to its width.
    pub open spec fn text(self) -> Seq<char> {
        version_text(self.major as nat, self.minor as nat, self.patch as nat, self.widths)
    }

    /// The version as it is written.
    pub fn to_string(&self) -> (r: String)
        ensures
            r@ == self.text(),
    {
        let mut out = String::new();
        push_version(&mut out, self.major as u64, self.minor as u64, self.patch as u64, self.widths);
        assert(Seq::<char>::empty() + self.text() =~= self.text());
        out
    }
}

impl Resolve for Semver {
    open spec fn resolved(&self, data: TemplateDataView) -> Seq<char> {
        semver_text(*self, data)
    }

    fn resolve(&self, data: &TemplateData) -> (r: String) {
        let mut out = String::new();
        match data.semver {
            Some(s) => {
                push_version(&mut out, s.major as u64, s.minor as u64, s.patch as u64, s.widths);
            },
            None => {
                push_version(&mut out, self.major as u64, self.minor as u64 + 1, 0, self.widths);
            },
        }
        assert(Seq::<char>::empty() + semver_text(*self, data@) =~= semver_text(*self, data@));
        out
    }
}

fn push_epoch(out: &mut String, e: &EpochTimestamp, at: &UtcInstant)
    ensures
        final(out)@ == old(out)@ + epoch_text(*e, *at),
{
    let n: i128 = match e {
        EpochTimestamp::Second(_) => at.seconds as i128,
        EpochTimestamp::Milli(_) => at.timestamp_millis(),
        EpochTimestamp::Micro(_) => at.timestamp_micros(),
        EpochTimestamp::Nano(_) => at.timestamp_nanos_or_zero(),
    };
    push_signed_decimal(out, n);
}

impl Resolve for EpochTimestamp {
    open spec fn resolved(&self, data: TemplateDataView) -> Seq<char> {
        epoch_text(*self, data.timestamp)
    }

    fn resolve(&self, data: &TemplateData) -> (r: String) {
        let mut out = String::new();
        push_epoch(&mut out, self, &data.timestamp);
        assert(Seq::<char>::empty() + epoch_text(*self, data.timestamp) =~= epoch_text(
            *self,
            data.timestamp,
        ));
        out
    }
}

fn push_subsecond(out: &mut String, s: &SubSecond, at: &UtcInstant)
    ensures
        final(out)@ == old(out)@ + subsecond_text(*s, *at),
{
    let n: u32 = match s {
        SubSecond::Milli(_) => at.nanoseconds / 1_000_000,
        SubSecond::Micro(_) => at.nanoseconds / 1000,
        SubSecond::Nano(_) => at.nanoseconds,
    };
    push_decimal(out, n as u128);
}

impl Resolve for SubSecond {
    open spec fn resolved(&self, data: TemplateDataView) -> Seq<char> {
        subsecond_text(*self, data.timestamp)
    }

    fn resolve(&self, data: &TemplateData) -> (r: String) {
        let mut out = String::new();
        push_subsecond(&mut out, self, &data.timestamp);
        assert(Seq::<char>::empty() + subsecond_text(*self, data.timestamp) =~= subsecond_text(
            *self,
            data.timestamp,
        ));
        out
    }
}

fn push_date(out: &mut String, d: &Date, at: &UtcInstant)
    ensures
        final(out)@ == old(out)@ + date_text(d@, *at),
{
    push_signed_zero_padded(out, at.civil.year as i128, 2);
    push_sep(out, &d.year_sep);
    push_zero_padded(out, at.civil.month as u128, 2);
    push_sep(out, &d.month_sep);
    push_zero_padded(out, at.civil.day as u128, 2);
    assert(out@ =~= old(out)@ + date_text(d@, *at));
}

impl Resolve for Date {
    open spec fn resolved(&self, data: TemplateDataView) -> Seq<char> {
        date_text(self@, data.timestamp)
    }

    fn resolve(&self, data: &TemplateData) -> (r: String) {
        let mut out = String::new();
        push_date(&mut out, self, &data.timestamp);
        assert(Seq::<char>::empty() + date_text(self@, data.timestamp) =~= date_text(
            self@,
            data.timestamp,
        ));
        out
    }
}

fn push_time(out: &mut String, t: &Time, at: &UtcInstant)
    ensures
        final(out)@ == old(out)@ + time_text(t@, *at),
{
    push_zero_padded(out, at.civil.hour as u128, 2);
    push_sep(out, &t.hour_sep);
    push_zero_padded(out, at.civil.minute as u128, 2);
    push_sep(out, &t.minute_sep);
    let ghost before_second = out@;
    match t.second {
        Some(_) => {
            push_zero_padded(out, at.civil.second as u128, 2);
        },
        None => {
            assert(out@ + Seq::<char>::empty() =~= out@);
        },
    }
    push_sep(out, &t.second_sep);
    let ghost before_fraction = out@;
    match &t.subsecond {
        Some(s) => {
            push_subsecond(out, s, at);
        },
        None => {
            assert(out@ + Seq::<char>::empty() =~= out@);
        },
    }
    assert(out@ =~= old(out)@ + time_text(t@, *at));
}

impl Resolve for Time {
    open spec fn resolved(&self, data: TemplateDataView) -> Seq<char> {
        time_text(self@, data.timestamp)
    }

    fn resolve(&self, data: &TemplateData) -> (r: String) {
        let mut out = String::new();
        push_time(&mut out, self, &data.timestamp);
        assert(Seq::<char>::empty() + time_text(self@, data.timestamp) =~= time_text(
            self@,
            data.timestamp,
        ));
        out
    }
}

fn push_datetime(out: &mut String, d: &DateTime, at: &UtcInstant)
    ensures
        final(out)@ == old(out)@ + datetime_text(d@, *at),
{
    push_date(out, &d.date, at);
    push_sep(out, &d.date_sep);
    match &d.time {
        Some(t) => {
            push_time(out, t, at);
        },
        None => {
            assert(out@ + Seq::<char>::empty() =~= out@);
        },
    }
    assert(out@ =~= old(out)@ + datetime_text(d@, *at));
}

impl Resolve for DateTime {
    open spec fn resolved(&self, data: TemplateDataView) -> Seq<char> {
        datetime_text(self@, data.timestamp)
    }

    fn resolve(&self, data: &TemplateData) -> (r: String) {
        let mut out = String::new();
        push_datetime(&mut out, self, &data.timestamp);
        assert(Seq::<char>::empty() + datetime_text(self@, data.timestamp) =~= datetime_text(
            self@,
            data.timestamp,
        ));
        out
    }
}

fn push_timestamp(out: &mut String, t: &Timestamp, at: &UtcInstant)
    ensures
        final(out)@ == old(out)@ + timestamp_text(t@, *at),
{
    match t {
        Timestamp::Epoch(e) => push_epoch(out, e, at),
        Timestamp::DateTime(d) => push_datetime(out, d, at),
    }
}

impl Resolve for Timestamp {
    open spec fn resolved(&self, data: TemplateDataView) -> Seq<char> {
        timestamp_text(self@, data.timestamp)
    }

    fn resolve(&self, data: &TemplateData) -> (r: String) {
        let mut out = String::new();
        push_timestamp(&mut out, self, &data.timestamp);
        assert(Seq::<char>::empty() + timestamp_text(self@, data.timestamp) =~= timestamp_text(
            self@,
            data.timestamp,
        ));
        out
    }
}

fn up_down_str(direction: &Option<UpDown>) -> (r: &'static str)
    ensures
        r@ == up_down_text(*direction),
{
    proof {
        reveal_strlit("up");
        reveal_strlit("down");
        reveal_strlit("");
    }
    let r = match direction {
        Some(UpDown::Up) => "up",
        Some(UpDown::Down) => "down",
        None => "",
    };
    assert(r@ =~= up_down_text(*direction));
    r
}

fn do_undo_str(direction: &Option<UpDown>) -> (r: &'static str)
    ensures
        r@ == do_undo_text(*direction),
{
    proof {
        reveal_strlit("do");
        reveal_strlit("undo");
        reveal_strlit("");
    }
    let r = match direction {
        Some(UpDown::Up) => "do",
        Some(UpDown::Down) => "undo",
        None => "",
    };
    assert(r@ =~= do_undo_text(*direction));
    r
}

impl Resolve for UpDown {
    open spec fn resolved(&self, data: TemplateDataView) -> Seq<char> {
        up_down_text(data.up_down)
    }

    fn resolve(&self, data: &TemplateData) -> (r: String) {
        String::from_str(up_down_str(&data.up_down))
    }
}

impl Resolve for DoUndo {
    open spec fn resolved(&self, data: TemplateDataView) -> Seq<char> {
        do_undo_text(data.up_down)
    }

    fn resolve(&self, data: &TemplateData) -> (r: String) {
        String::from_str(do_undo_str(&data.up_down))
    }
}

fn push_token(out: &mut String, t: &Token, data: &TemplateData)
    ensures
        final(out)@ == old(out)@ + token_text(t@, data@),
{
    proof {
        reveal_strlit("_");
        reveal_strlit(".");
        reveal_strlit("-");
        reveal_strlit(".sql");
    }
    match t {
        Token::Prefix(p) => {
            out.append(p.as_str());
        },
        Token::PaddedNumber(p) => {
            let s = p.resolve(data);
            out.append(s.as_str());
        },
        Token::RandomNumber(_) => {
            match data.random {
                Some(r) => push_decimal(out, r as u128),
                None => push_signed_decimal(out, data.timestamp.timestamp_micros()),
            }
        },
        Token::Semver(v) => {
            let s = v.resolve(data);
            out.append(s.as_str());
        },
        Token::Timestamp(ts) => {
            push_timestamp(out, ts, &data.timestamp);
        },
        Token::Name(_) => {
            out.append(data.name.as_str());
        },
        Token::UpDown(_) => {
            out.append(up_down_str(&data.up_down));
        },
        Token::DoUndo(_) => {
            out.append(do_undo_str(&data.up_down));
        },
        Token::Underscore => {
            out.append("_");
            assert("_"@ =~= seq!['_']);
        },
        Token::Dot => {
            out.append(".");
            assert("."@ =~= seq!['.']);
        },
        Token::Dash => {
            out.append("-");
            assert("-"@ =~= seq!['-']);
        },
        Token::Extension => {
            out.append(".sql");
            assert(".sql"@ =~= seq!['.', 's', 'q', 'l']);
        },
    }
}

impl Resolve for Token {
    open spec fn resolved(&self, data: TemplateDataView) -> Seq<char> {
        token_text(self@, data)
    }

    fn resolve(&self, data: &TemplateData) -> (r: String) {
        let mut out = String::new();
        push_token(&mut out, self, data);
        assert(Seq::<char>::empty() + token_text(self@, data@) =~= token_text(self@, data@));
        out
    }
}

fn push_segment(out: &mut String, segment: &Segment, data: &TemplateData)
    ensures
        final(out)@ == old(out)@ + segment_text(segment@, data@),
{
    let n = segment.tokens.len();
    let ghost views = token_views(segment.tokens@);
    let mut i: usize = 0;
    assert(old(out)@ + tokens_text(views, 0, data@) =~= old(out)@);
    while i < n
        invariant
            i <= n,
            n == segment.tokens.len(),
            views == token_views(segment.tokens@),
            out@ == old(out)@ + tokens_text(views, i as int, data@),
        decreases n - i,
    {
        let t = &segment.tokens[i];
        assert(views[i as int] == t@);
        let dropped = data.up_down.is_none() && matches!(t, Token::Dot) && i + 1 < n && matches!(
            segment.tokens[i + 1],
            Token::UpDown(_) | Token::DoUndo(_)
        );
        proof {
            if i + 1 < n {
                assert(views[i + 1] == segment.tokens[i + 1]@);
            }
            assert(dropped == is_dropped_dot(views, i as int, data@));
        }
        if !dropped {
            push_token(out, t, data);
        }
        i = i + 1;
        assert(out@ =~= old(out)@ + tokens_text(views, i as int, data@));
    }
}

impl Resolve for Segment {
    open spec fn resolved(&self, data: TemplateDataView) -> Seq<char> {
        segment_text(self@, data)
    }

    fn resolve(&self, data: &TemplateData) -> (r: String) {
        let mut out = String::new();
        push_segment(&mut out, self, data);
        assert(Seq::<char>::empty() + segment_text(self@, data@) =~= segment_text(self@, data@));
        out
    }
}

impl Resolve for PathTemplate {
    open spec fn resolved(&self, data: TemplateDataView) -> Seq<char> {
        template_text(self@, data)
    }

    fn resolve(&self, data: &TemplateData) -> (r: String) {
        let mut out = String::new();
        let n = self.segments.len();
        let mut i: usize = 0;
        while i < n
            invariant
                i <= n,
                n == self.segments.len(),
                out@ == segments_text(self@, i as int, data@),
            decreases n - i,
        {
            assert(self@[i as int] == self.segments[i as int]@);
            push_segment(&mut out, &self.segments[i], data);
            i = i + 1;
        }
        out
    }
}

} // verus!
