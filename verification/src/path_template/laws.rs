//! What holds of reading and resolving templates, whatever the path.

use crate::path_template::ast::{
    epoch_parts, has_direction, tokens_with_up, with_direction, SegmentView, TokenView, UpDown,
};
use crate::path_template::parser::{epoch_of, in_century, YEAR_2000, YEAR_2100};
use crate::path_template::ast::{PaddedNumber, TemplateDataView};
use crate::path_template::resolver::{
    is_direction, is_dropped_dot, padded_number_text, piece_text, segment_text, segments_text,
    template_text, tokens_text,
};
use crate::text::{decimal, lemma_value_of_decimal, lemma_value_of_zero_padded, zero_padded};
use vstd::prelude::*;

verus! {

proof fn lemma_whole_units(v: int, unit: int, low: int, high: int)
    requires
        unit > 0,
        low * unit <= v < high * unit,
    ensures
        low <= v / unit < high,
{
    vstd::arithmetic::div_mod::lemma_fundamental_div_mod(v, unit);
    vstd::arithmetic::div_mod::lemma_mod_bound(v, unit);
    assert(low <= v / unit) by (nonlinear_arith)
        requires
            unit > 0,
            low * unit <= v,
            v == unit * (v / unit) + v % unit,
            0 <= v % unit < unit,
    ;
    assert(v / unit < high) by (nonlinear_arith)
        requires
            unit > 0,
            v < high * unit,
            v == unit * (v / unit) + v % unit,
            0 <= v % unit < unit,
    ;
}

/// A count is read as a timestamp only if, in one of the four units, it
/// lies in this century; and the moment that the timestamp names then
/// lies from 2000-01-01T00:00:00Z on and before 2100-01-01T00:00:00Z.
pub proof fn law_epoch_lies_in_century(v: nat)
    ensures
        epoch_of(v) is Some <==> (in_century(v, 1_000_000_000) || in_century(v, 1_000_000)
            || in_century(v, 1000) || in_century(v, 1)),
        epoch_of(v) is Some ==> YEAR_2000 <= epoch_parts(epoch_of(v)->0).0 < YEAR_2100,
{
    if in_century(v, 1_000_000_000) {
        lemma_whole_units(v as int, 1_000_000_000, YEAR_2000 as int, YEAR_2100 as int);
    } else if in_century(v, 1_000_000) {
        lemma_whole_units(v as int, 1_000_000, YEAR_2000 as int, YEAR_2100 as int);
    } else if in_century(v, 1000) {
        lemma_whole_units(v as int, 1000, YEAR_2000 as int, YEAR_2100 as int);
    }
}

/// A template that names a direction is left as it is.
pub proof fn law_with_direction_keeps_direction(segments: Seq<SegmentView>)
    requires
        has_direction(segments),
    ensures
        with_direction(segments) == segments,
{
}

/// Once a template was given a direction, giving it one again changes nothing.
pub proof fn law_with_direction_is_idempotent(segments: Seq<SegmentView>)
    ensures
        with_direction(with_direction(segments)) == with_direction(segments),
{
    if segments.len() > 0 && !has_direction(segments) {
        let last = segments.len() - 1;
        let out = with_direction(segments);
        let tokens = tokens_with_up(segments.last().tokens);
        assert(out[last].tokens == tokens);
        let at = if segments.last().tokens.len() == 0 {
            1int
        } else {
            segments.last().tokens.len() as int
        };
        assert(tokens[at] == TokenView::UpDown(UpDown::Up));
        assert(is_direction(out[last].tokens[at]));
        assert(has_direction(out));
    }
}

// ---------------------------------------------------------------------
// other data, another path

proof fn lemma_cancel_left(x: Seq<char>, p: Seq<char>, q: Seq<char>)
    requires
        x + p == x + q,
    ensures
        p == q,
{
    assert(p =~= (x + p).subrange(x.len() as int, (x + p).len() as int));
    assert(q =~= (x + q).subrange(x.len() as int, (x + q).len() as int));
}

proof fn lemma_cancel_right(p: Seq<char>, q: Seq<char>, x: Seq<char>)
    requires
        p + x == q + x,
    ensures
        p == q,
{
    assert((p + x).len() == p.len() + x.len());
    assert((q + x).len() == q.len() + x.len());
    assert(p =~= (p + x).subrange(0, p.len() as int));
    assert(q =~= (q + x).subrange(0, q.len() as int));
}

proof fn lemma_tokens_same(
    tokens: Seq<TokenView>,
    n: int,
    d1: TemplateDataView,
    d2: TemplateDataView,
)
    requires
        0 <= n <= tokens.len(),
        forall|y: int| 0 <= y < n ==> piece_text(tokens, y, d1) == piece_text(tokens, y, d2),
    ensures
        tokens_text(tokens, n, d1) == tokens_text(tokens, n, d2),
    decreases n,
{
    if n > 0 {
        lemma_tokens_same(tokens, n - 1, d1, d2);
    }
}

proof fn lemma_tokens_differ(
    tokens: Seq<TokenView>,
    k: int,
    n: int,
    d1: TemplateDataView,
    d2: TemplateDataView,
)
    requires
        0 <= k < n <= tokens.len(),
        piece_text(tokens, k, d1) != piece_text(tokens, k, d2),
        forall|y: int|
            0 <= y < n && y != k ==> piece_text(tokens, y, d1) == piece_text(tokens, y, d2),
    ensures
        tokens_text(tokens, n, d1) != tokens_text(tokens, n, d2),
    decreases n,
{
    if n == k + 1 {
        lemma_tokens_same(tokens, k, d1, d2);
        if tokens_text(tokens, n, d1) == tokens_text(tokens, n, d2) {
            lemma_cancel_left(
                tokens_text(tokens, k, d1),
                piece_text(tokens, k, d1),
                piece_text(tokens, k, d2),
            );
        }
    } else {
        lemma_tokens_differ(tokens, k, n - 1, d1, d2);
        if tokens_text(tokens, n, d1) == tokens_text(tokens, n, d2) {
            lemma_cancel_right(
                tokens_text(tokens, n - 1, d1),
                tokens_text(tokens, n - 1, d2),
                piece_text(tokens, n - 1, d1),
            );
        }
    }
}

proof fn lemma_segments_same(
    segments: Seq<SegmentView>,
    n: int,
    d1: TemplateDataView,
    d2: TemplateDataView,
)
    requires
        0 <= n <= segments.len(),
        forall|x: int| 0 <= x < n ==> segment_text(segments[x], d1) == segment_text(segments[x], d2),
    ensures
        segments_text(segments, n, d1) == segments_text(segments, n, d2),
    decreases n,
{
    if n > 0 {
        lemma_segments_same(segments, n - 1, d1, d2);
    }
}

proof fn lemma_segments_differ(
    segments: Seq<SegmentView>,
    a: int,
    n: int,
    d1: TemplateDataView,
    d2: TemplateDataView,
)
    requires
        0 <= a < n <= segments.len(),
        segment_text(segments[a], d1) != segment_text(segments[a], d2),
        forall|x: int|
            0 <= x < n && x != a ==> segment_text(segments[x], d1) == segment_text(
                segments[x],
                d2,
            ),
    ensures
        segments_text(segments, n, d1) != segments_text(segments, n, d2),
    decreases n,
{
    if n == a + 1 {
        lemma_segments_same(segments, a, d1, d2);
        if segments_text(segments, n, d1) == segments_text(segments, n, d2) {
            lemma_cancel_left(
                segments_text(segments, a, d1),
                segment_text(segments[a], d1),
                segment_text(segments[a], d2),
            );
        }
    } else {
        lemma_segments_differ(segments, a, n - 1, d1, d2);
        if segments_text(segments, n, d1) == segments_text(segments, n, d2) {
            lemma_cancel_right(
                segments_text(segments, n - 1, d1),
                segments_text(segments, n - 1, d2),
                segment_text(segments[n - 1], d1),
            );
        }
    }
}

/// Whether the two sets of data resolve every token of the template
/// alike but the one at place `k` of segment `a`, which they resolve differently.
pub open spec fn differ_at_one_token(
    segments: Seq<SegmentView>,
    a: int,
    k: int,
    d1: TemplateDataView,
    d2: TemplateDataView,
) -> bool {
    &&& 0 <= a < segments.len()
    &&& 0 <= k < segments[a].tokens.len()
    &&& piece_text(segments[a].tokens, k, d1) != piece_text(segments[a].tokens, k, d2)
    &&& forall|x: int, y: int|
        0 <= x < segments.len() && 0 <= y < segments[x].tokens.len() && !(x == a && y == k)
            ==> #[trigger] piece_text(segments[x].tokens, y, d1) == piece_text(
            segments[x].tokens,
            y,
            d2,
        )
}

/// Data that changes what one token of a template stands for, and
/// nothing else, changes the path.
pub proof fn law_one_token_changes_the_path(
    segments: Seq<SegmentView>,
    a: int,
    k: int,
    d1: TemplateDataView,
    d2: TemplateDataView,
)
    requires
        differ_at_one_token(segments, a, k, d1, d2),
    ensures
        template_text(segments, d1) != template_text(segments, d2),
{
    lemma_tokens_differ(segments[a].tokens, k, segments[a].tokens.len() as int, d1, d2);
    assert forall|x: int| 0 <= x < segments.len() && x != a implies segment_text(segments[x], d1)
        == segment_text(segments[x], d2) by {
        lemma_tokens_same(segments[x].tokens, segments[x].tokens.len() as int, d1, d2);
    }
    lemma_segments_differ(segments, a, segments.len() as int, d1, d2);
}

/// Whether the token at place `k` of segment `a` is the only one of its kind.
pub open spec fn only_name(segments: Seq<SegmentView>, a: int, k: int) -> bool {
    &&& 0 <= a < segments.len()
    &&& 0 <= k < segments[a].tokens.len()
    &&& segments[a].tokens[k] is Name
    &&& forall|x: int, y: int|
        0 <= x < segments.len() && 0 <= y < segments[x].tokens.len() && (
        #[trigger] segments[x].tokens[y]) is Name ==> x == a && y == k
}

/// Another name gives another path, where the template has one name.
pub proof fn law_name_changes_the_path(
    segments: Seq<SegmentView>,
    a: int,
    k: int,
    d1: TemplateDataView,
    d2: TemplateDataView,
)
    requires
        only_name(segments, a, k),
        d1.name != d2.name,
        d2 == (TemplateDataView { name: d2.name, ..d1 }),
    ensures
        template_text(segments, d1) != template_text(segments, d2),
{
    assert forall|x: int, y: int|
        0 <= x < segments.len() && 0 <= y < segments[x].tokens.len() && !(x == a && y
            == k) implies #[trigger] piece_text(segments[x].tokens, y, d1) == piece_text(
        segments[x].tokens,
        y,
        d2,
    ) by {
        assert(!(segments[x].tokens[y] is Name));
    }
    law_one_token_changes_the_path(segments, a, k, d1, d2);
}

/// Whether the token at place `k` of segment `a` is the only padded number.
pub open spec fn only_counter(segments: Seq<SegmentView>, a: int, k: int) -> bool {
    &&& 0 <= a < segments.len()
    &&& 0 <= k < segments[a].tokens.len()
    &&& segments[a].tokens[k] is PaddedNumber
    &&& forall|x: int, y: int|
        0 <= x < segments.len() && 0 <= y < segments[x].tokens.len() && (
        #[trigger] segments[x].tokens[y]) is PaddedNumber ==> x == a && y == k
}

/// The counter that a padded number is written with.
pub open spec fn counter_of(p: PaddedNumber, data: TemplateDataView) -> nat {
    match data.counter {
        Some(c) => c as nat,
        None => (p.number + 1) as nat,
    }
}

/// Another counter gives another path, where the template has one padded number.
pub proof fn law_counter_changes_the_path(
    segments: Seq<SegmentView>,
    a: int,
    k: int,
    d1: TemplateDataView,
    d2: TemplateDataView,
)
    requires
        only_counter(segments, a, k),
        counter_of(segments[a].tokens[k]->PaddedNumber_0, d1) != counter_of(
            segments[a].tokens[k]->PaddedNumber_0,
            d2,
        ),
        d2 == (TemplateDataView { counter: d2.counter, ..d1 }),
    ensures
        template_text(segments, d1) != template_text(segments, d2),
{
    let p = segments[a].tokens[k]->PaddedNumber_0;
    lemma_value_of_zero_padded(counter_of(p, d1), p.width as nat);
    lemma_value_of_zero_padded(counter_of(p, d2), p.width as nat);
    assert(padded_number_text(p, d1) == zero_padded(counter_of(p, d1), p.width as nat));
    assert(padded_number_text(p, d2) == zero_padded(counter_of(p, d2), p.width as nat));
    assert forall|x: int, y: int|
        0 <= x < segments.len() && 0 <= y < segments[x].tokens.len() && !(x == a && y
            == k) implies #[trigger] piece_text(segments[x].tokens, y, d1) == piece_text(
        segments[x].tokens,
        y,
        d2,
    ) by {
        assert(!(segments[x].tokens[y] is PaddedNumber));
    }
    law_one_token_changes_the_path(segments, a, k, d1, d2);
}

/// Whether the token at place `k` of segment `a` is the only random number.
pub open spec fn only_random(segments: Seq<SegmentView>, a: int, k: int) -> bool {
    &&& 0 <= a < segments.len()
    &&& 0 <= k < segments[a].tokens.len()
    &&& segments[a].tokens[k] is RandomNumber
    &&& forall|x: int, y: int|
        0 <= x < segments.len() && 0 <= y < segments[x].tokens.len() && (
        #[trigger] segments[x].tokens[y]) is RandomNumber ==> x == a && y == k
}

/// Another random number gives another path, where the template has one random number.
pub proof fn law_random_changes_the_path(
    segments: Seq<SegmentView>,
    a: int,
    k: int,
    d1: TemplateDataView,
    d2: TemplateDataView,
)
    requires
        only_random(segments, a, k),
        d1.random is Some,
        d2.random is Some,
        d1.random != d2.random,
        d2 == (TemplateDataView { random: d2.random, ..d1 }),
    ensures
        template_text(segments, d1) != template_text(segments, d2),
{
    lemma_value_of_decimal(d1.random->0 as nat);
    lemma_value_of_decimal(d2.random->0 as nat);
    assert forall|x: int, y: int|
        0 <= x < segments.len() && 0 <= y < segments[x].tokens.len() && !(x == a && y
            == k) implies #[trigger] piece_text(segments[x].tokens, y, d1) == piece_text(
        segments[x].tokens,
        y,
        d2,
    ) by {
        assert(!(segments[x].tokens[y] is RandomNumber));
    }
    law_one_token_changes_the_path(segments, a, k, d1, d2);
}

/// The directions in the order of what they add to a path: none, up, down.
pub open spec fn rank(direction: Option<UpDown>) -> int {
    match direction {
        None => 0,
        Some(UpDown::Up) => 1,
        Some(UpDown::Down) => 2,
    }
}

/// How many of the first `n` tokens name a direction.
pub open spec fn directions(tokens: Seq<TokenView>, n: int) -> nat
    decreases n,
{
    if n <= 0 {
        0
    } else if is_direction(tokens[n - 1]) {
        directions(tokens, n - 1) + 1
    } else {
        directions(tokens, n - 1)
    }
}

proof fn lemma_direction_lengthens(
    tokens: Seq<TokenView>,
    n: int,
    d1: TemplateDataView,
    d2: TemplateDataView,
)
    requires
        0 <= n <= tokens.len(),
        rank(d1.up_down) < rank(d2.up_down),
        d2 == (TemplateDataView { up_down: d2.up_down, ..d1 }),
    ensures
        tokens_text(tokens, n, d2).len() >= tokens_text(tokens, n, d1).len() + 2 * directions(
            tokens,
            n,
        ),
    decreases n,
{
    if n > 0 {
        lemma_direction_lengthens(tokens, n - 1, d1, d2);
        let t = tokens[n - 1];
        let before = piece_text(tokens, n - 1, d1);
        let after = piece_text(tokens, n - 1, d2);
        assert(!is_dropped_dot(tokens, n - 1, d2));
        if is_direction(t) {
            assert(after.len() >= before.len() + 2);
        } else {
            assert(after.len() >= before.len());
        }
    }
}

proof fn lemma_direction_counted(tokens: Seq<TokenView>, n: int, k: int)
    requires
        0 <= k < n <= tokens.len(),
        is_direction(tokens[k]),
    ensures
        directions(tokens, n) >= 1,
    decreases n,
{
    if k < n - 1 {
        lemma_direction_counted(tokens, n - 1, k);
    }
}

proof fn lemma_direction_lengthens_all(
    segments: Seq<SegmentView>,
    n: int,
    d1: TemplateDataView,
    d2: TemplateDataView,
)
    requires
        0 <= n <= segments.len(),
        rank(d1.up_down) < rank(d2.up_down),
        d2 == (TemplateDataView { up_down: d2.up_down, ..d1 }),
    ensures
        segments_text(segments, n, d2).len() >= segments_text(segments, n, d1).len(),
        (exists|x: int, y: int|
            0 <= x < n && 0 <= y < segments[x].tokens.len() && is_direction(
                #[trigger] segments[x].tokens[y],
            )) ==> segments_text(segments, n, d2).len() > segments_text(segments, n, d1).len(),
    decreases n,
{
    if n > 0 {
        lemma_direction_lengthens_all(segments, n - 1, d1, d2);
        let tokens = segments[n - 1].tokens;
        lemma_direction_lengthens(tokens, tokens.len() as int, d1, d2);
        if exists|x: int, y: int|
            0 <= x < n && 0 <= y < segments[x].tokens.len() && is_direction(
                #[trigger] segments[x].tokens[y],
            ) {
            let (x, y) = choose|x: int, y: int|
                0 <= x < n && 0 <= y < segments[x].tokens.len() && is_direction(
                    #[trigger] segments[x].tokens[y],
                );
            if x == n - 1 {
                lemma_direction_counted(tokens, tokens.len() as int, y);
            } else {
                assert(0 <= x < n - 1 && 0 <= y < segments[x].tokens.len() && is_direction(
                    segments[x].tokens[y],
                ));
            }
        }
    }
}

/// Another direction gives another path, where the template names a direction.
pub proof fn law_direction_changes_the_path(
    segments: Seq<SegmentView>,
    d1: TemplateDataView,
    d2: TemplateDataView,
)
    requires
        has_direction(segments),
        d1.up_down != d2.up_down,
        d2 == (TemplateDataView { up_down: d2.up_down, ..d1 }),
    ensures
        template_text(segments, d1) != template_text(segments, d2),
{
    let n = segments.len() as int;
    let (x, y) = choose|x: int, y: int|
        0 <= x < segments.len() && 0 <= y < segments[x].tokens.len() && is_direction(
            #[trigger] segments[x].tokens[y],
        );
    assert(0 <= x < n && 0 <= y < segments[x].tokens.len() && is_direction(segments[x].tokens[y]));
    if rank(d1.up_down) < rank(d2.up_down) {
        lemma_direction_lengthens_all(segments, n, d1, d2);
    } else {
        assert(rank(d2.up_down) < rank(d1.up_down));
        assert(d1 == (TemplateDataView { up_down: d1.up_down, ..d2 }));
        lemma_direction_lengthens_all(segments, n, d2, d1);
    }
}

// ---------------------------------------------------------------------
// a direction that is not asked for does not show

proof fn lemma_up_unseen_front(tokens: Seq<TokenView>, n: int, data: TemplateDataView)
    requires
        data.up_down is None,
        forall|i: int| 0 <= i < tokens.len() ==> !is_direction(#[trigger] tokens[i]),
        0 <= n < tokens.len(),
    ensures
        tokens_text(tokens_with_up(tokens), n, data) == tokens_text(tokens, n, data),
    decreases n,
{
    if n > 0 {
        lemma_up_unseen_front(tokens, n - 1, data);
        let with_up = tokens_with_up(tokens);
        assert(with_up[n - 1] == tokens[n - 1]);
        assert(!is_direction(with_up[n]));
        assert(!is_direction(tokens[n]));
    }
}

/// In a template that names no direction and that ends each segment with
/// a token, the direction that `with_direction` puts in does not show as
/// long as no direction is asked for.
pub proof fn law_direction_unseen_unless_asked(segments: Seq<SegmentView>, data: TemplateDataView)
    requires
        data.up_down is None,
        !has_direction(segments),
        segments.len() > 0 ==> segments.last().tokens.len() > 0,
    ensures
        template_text(with_direction(segments), data) == template_text(segments, data),
{
    if segments.len() > 0 {
        let last = segments.len() - 1;
        let tokens = segments[last].tokens;
        let n = tokens.len() as int;
        let with_up = tokens_with_up(tokens);
        let out = with_direction(segments);
        assert forall|i: int| 0 <= i < tokens.len() implies !is_direction(
            #[trigger] tokens[i],
        ) by {
            if is_direction(tokens[i]) {
                assert(is_direction(segments[last].tokens[i]));
            }
        }
        lemma_up_unseen_front(tokens, n - 1, data);
        // the dot falls away, the direction writes nothing, the last token stays
        assert(with_up.len() == n + 2);
        assert(with_up[n - 1] == TokenView::Dot);
        assert(with_up[n] == TokenView::UpDown(UpDown::Up));
        assert(with_up[n + 1] == tokens[n - 1]);
        assert(is_dropped_dot(with_up, n - 1, data));
        assert(piece_text(with_up, n - 1, data) =~= Seq::<char>::empty());
        assert(piece_text(with_up, n, data) =~= Seq::<char>::empty());
        assert(!is_dropped_dot(with_up, n + 1, data));
        assert(!is_dropped_dot(tokens, n - 1, data));
        assert(piece_text(with_up, n + 1, data) == piece_text(tokens, n - 1, data));
        assert(tokens_text(with_up, n, data) =~= tokens_text(with_up, n - 1, data));
        assert(tokens_text(with_up, n + 1, data) =~= tokens_text(with_up, n - 1, data));
        assert(tokens_text(with_up, n + 2, data) == tokens_text(tokens, n, data));
        assert(segment_text(out[last], data) == segment_text(segments[last], data));
        assert forall|x: int| 0 <= x < segments.len() implies segment_text(out[x], data)
            == segment_text(segments[x], data) by {
            if x < last {
                assert(out[x] == segments[x]);
            }
        }
        lemma_segments_same_texts(out, segments, segments.len() as int, data);
    }
}

proof fn lemma_segments_same_texts(
    a: Seq<SegmentView>,
    b: Seq<SegmentView>,
    n: int,
    data: TemplateDataView,
)
    requires
        0 <= n <= a.len(),
        n <= b.len(),
        forall|x: int| 0 <= x < n ==> segment_text(a[x], data) == segment_text(b[x], data),
    ensures
        segments_text(a, n, data) == segments_text(b, n, data),
    decreases n,
{
    if n > 0 {
        lemma_segments_same_texts(a, b, n - 1, data);
    }
}

} // verus!
