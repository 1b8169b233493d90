//! Applying to a schema what its comparison with another gave.
//!
//! A comparison settles each object that both schemas have in one of three
//! ways: it leaves the object alone, it alters it in place with one
//! statement, or it drops it and creates the other in its stead. Where
//! every shared object is settled so that it becomes what the other schema
//! has, applying the comparison to the first schema gives the statements
//! of the second.

use crate::ast::{
    AddValuePositionView, AlterTableOperationView, AlterTypeOperationView, AlterTypeView,
    ColumnDefView, CreateDomainView, CreateIndexView, CreateTableView, CreateTypeView, IdentView,
    ObjectType, StatementView, TypeRepresentationView,
};
use crate::diff::{
    added_columns, added_labels, alter_type_each, changed, created, dropped_columns, entry_diff,
    find_object, has_column, is_create, removal, renamed_labels, same_object, statement_diff,
    table_diff, tree_diff,
};
use crate::laws::{
    adds_or_drops, creates_only, has_object, is_schema, lemma_added_columns_add,
    lemma_added_labels_add, lemma_changed_ok, lemma_create_targets_nothing, lemma_created_keeps,
    lemma_dropped_columns_drop, lemma_found, lemma_kept_members, lemma_kept_none_or_all,
    lemma_remover, lemma_renamed_labels_rename, lemma_target_found,
};
use crate::migration::{
    altered_by, altered_table, applied, creations, find_target, rewritten, rewritten_all, targets,
    with_label, with_renamed_label, MigrateErrorView,
};
use crate::model::{all_kept, first_index, kept};
use crate::spec_migrate;
use vstd::prelude::*;

verus! {

/// Whether what comparing `a` with `b` gives makes `a` into `b`: nothing
/// where the two are equal, one statement that alters `a` into `b`, or two
/// statements of which the first drops `a` and the second is `b`.
pub open spec fn settles(a: StatementView, b: StatementView) -> bool {
    match statement_diff(a, b) {
        Ok(ds) => if ds.len() == 0 {
            a == b
        } else if ds.len() == 1 {
            applied(a, ds[0]) == Ok::<Option<StatementView>, MigrateErrorView>(Some(b))
        } else {
            ds.len() == 2 && ds[1] == b && applied(a, ds[0]) == Ok::<
                Option<StatementView>,
                MigrateErrorView,
            >(None)
        },
        Err(_) => false,
    }
}

/// Whether the comparison settles every object that both trees have.
pub open spec fn shared_objects_settle(a: Seq<StatementView>, b: Seq<StatementView>) -> bool {
    forall|i: int, k: int|
        0 <= i < a.len() && 0 <= k < b.len() && same_object(#[trigger] a[i], #[trigger] b[k])
            ==> settles(a[i], b[k])
}

/// What becomes of the object of `a` where it stands: nothing where the
/// other tree has no such object or has it replaced, else the object of the
/// other tree.
pub open spec fn fate(a: StatementView, other: Seq<StatementView>) -> Option<StatementView> {
    match find_object(other, a, 0) {
        None => None,
        Some(k) => if statement_diff(a, other[k]) is Ok && statement_diff(a, other[k])->Ok_0.len()
            == 2 {
            None
        } else {
            Some(other[k])
        },
    }
}

/// What becomes of the first `n` objects of `a` where they stand.
pub open spec fn settled(a: Seq<StatementView>, b: Seq<StatementView>, n: int) -> Seq<
    StatementView,
>
    decreases n,
{
    if n <= 0 {
        Seq::empty()
    } else {
        match fate(a[n - 1], b) {
            Some(s) => settled(a, b, n - 1).push(s),
            None => settled(a, b, n - 1),
        }
    }
}

/// What the comparison gives for one object of the first tree.
pub open spec fn entry(a: StatementView, other: Seq<StatementView>) -> Seq<StatementView> {
    entry_diff(a, other)->Ok_0
}

/// What one object gives: nothing, and then it stays as it is; or
/// statements of which the first targets it and decides its fate. What it
/// gives targets no other object, and creates nothing but its replacement.
#[verifier::rlimit(40)]
pub proof fn lemma_entry(a: StatementView, other: Seq<StatementView>)
    requires
        is_create(a),
        creates_only(other),
        entry_diff(a, other) is Ok,
        has_object(other, a) ==> settles(a, other[find_object(other, a, 0)->0]),
    ensures
        entry(a, other).len() == 0 ==> fate(a, other) == Some(a),
        entry(a, other).len() > 0 ==> !is_create(entry(a, other)[0]) && targets(
            entry(a, other)[0],
            a,
        ) && applied(a, entry(a, other)[0]) == Ok::<Option<StatementView>, MigrateErrorView>(
            fate(a, other),
        ),
        forall|p: int, t: StatementView|
            0 <= p < entry(a, other).len() && is_create(t) && targets(
                #[trigger] entry(a, other)[p],
                t,
            ) ==> #[trigger] same_object(a, t),
        forall|p: int|
            0 <= p < entry(a, other).len() && is_create(#[trigger] entry(a, other)[p])
                ==> has_object(other, a) && entry(a, other)[p] == other[find_object(
                other,
                a,
                0,
            )->0] && fate(a, other) is None,
{
    let e = entry(a, other);
    lemma_found(other, a, 0);
    if has_object(other, a) {
        let k = find_object(other, a, 0)->0;
        let b = other[k];
        assert(is_create(b));
        assert(e == statement_diff(a, b)->Ok_0);
        assert(settles(a, b));
        if e.len() == 1 {
            let m = e[0];
            assert(!is_create(m) && targets(m, a)) by {
                lemma_single_statement(a, b);
            }
            assert forall|p: int, t: StatementView|
                0 <= p < e.len() && is_create(t) && targets(#[trigger] e[p], t) implies #[trigger] same_object(
                a,
                t,
            ) by {
                lemma_single_statement(a, b);
                lemma_targets_by_name(a, m, t);
            }
        } else if e.len() == 2 {
            lemma_two_statements(a, b);
            assert forall|p: int, t: StatementView|
                0 <= p < e.len() && is_create(t) && targets(#[trigger] e[p], t) implies #[trigger] same_object(
                a,
                t,
            ) by {
                if p == 0 {
                    lemma_targets_by_name(a, e[0], t);
                } else {
                    lemma_create_targets_nothing(e[1], t);
                }
            }
        }
    } else {
        assert(e == removal(a)->Ok_0);
        lemma_remover(a, a);
        assert forall|p: int, t: StatementView|
            0 <= p < e.len() && is_create(t) && targets(#[trigger] e[p], t) implies #[trigger] same_object(
            a,
            t,
        ) by {
            lemma_remover(a, t);
        }
    }
}

/// Whether the statement alters or drops by the name of the object of `a`.
pub open spec fn names_object_of(m: StatementView, a: StatementView) -> bool {
    match (a, m) {
        (StatementView::CreateTable(t), StatementView::AlterTable(x)) => x.name == t.name,
        (StatementView::CreateType(t), StatementView::AlterType(x)) => x.name == t.name,
        (StatementView::CreateIndex(i), StatementView::Drop(d)) => d.object_type
            == ObjectType::Index && d.names.len() == 1 && Some(d.names[0]) == i.name,
        (StatementView::CreateDomain(x), StatementView::DropDomain(d)) => d.name == x.name,
        _ => false,
    }
}

/// A statement that goes by the name of an object targets that object and no other.
pub proof fn lemma_targets_by_name(a: StatementView, m: StatementView, t: StatementView)
    requires
        is_create(a),
        is_create(t),
        names_object_of(m, a),
    ensures
        targets(m, a),
        !is_create(m),
        targets(m, t) ==> same_object(a, t),
{
}

/// Where comparing two statements of one object gives one statement, the
/// statement goes by the name of the object.
pub proof fn lemma_single_statement(a: StatementView, b: StatementView)
    requires
        is_create(a),
        is_create(b),
        same_object(a, b),
        statement_diff(a, b) is Ok,
        statement_diff(a, b)->Ok_0.len() == 1,
    ensures
        names_object_of(statement_diff(a, b)->Ok_0[0], a),
        !is_create(statement_diff(a, b)->Ok_0[0]),
        targets(statement_diff(a, b)->Ok_0[0], a),
{
}

/// Where comparing two statements of one object gives two statements that
/// settle the object, the first goes by the name of the object and the
/// second creates the other.
pub proof fn lemma_two_statements(a: StatementView, b: StatementView)
    requires
        is_create(a),
        is_create(b),
        same_object(a, b),
        settles(a, b),
        statement_diff(a, b)->Ok_0.len() == 2,
    ensures
        names_object_of(statement_diff(a, b)->Ok_0[0], a),
        !is_create(statement_diff(a, b)->Ok_0[0]),
        targets(statement_diff(a, b)->Ok_0[0], a),
        statement_diff(a, b)->Ok_0[1] == b,
{
    let ds = statement_diff(a, b)->Ok_0;
    match a {
        StatementView::CreateType(t) => {
            // two alterations of a type do not settle it
            assert(ds[1] is AlterType);
        },
        StatementView::CreateIndex(i) => {
            let d = ds[0]->Drop_0;
            assert(d.names =~= seq![i.name->0]);
        },
        _ => {},
    }
}

// ---------------------------------------------------------------------
// where the statements of an object stand in what the comparison gave

/// What the objects of `a` after the one at `i` and before the one at `n` give.
pub open spec fn after(a: Seq<StatementView>, b: Seq<StatementView>, i: int, n: int) -> Seq<
    StatementView,
>
    decreases n - i,
{
    if n <= i + 1 {
        Seq::empty()
    } else {
        after(a, b, i, n - 1) + entry(a[n - 1], b)
    }
}

proof fn lemma_split(a: Seq<StatementView>, b: Seq<StatementView>, i: int, n: int)
    requires
        0 <= i < n <= a.len(),
        changed(a, b, a.len() as int) is Ok,
    ensures
        changed(a, b, n)->Ok_0 == changed(a, b, i)->Ok_0 + (entry(a[i], b) + after(a, b, i, n)),
    decreases n,
{
    lemma_changed_ok(a, b, n);
    lemma_changed_ok(a, b, n - 1);
    let pre = changed(a, b, i)->Ok_0;
    if n == i + 1 {
        assert(entry(a[i], b) + Seq::<StatementView>::empty() =~= entry(a[i], b));
    } else {
        lemma_split(a, b, i, n - 1);
        assert(pre + (entry(a[i], b) + after(a, b, i, n - 1)) + entry(a[n - 1], b) =~= pre + (
        entry(a[i], b) + (after(a, b, i, n - 1) + entry(a[n - 1], b))));
    }
}

/// Every statement that the comparison gives for the objects of `a` is
/// given for one of them.
proof fn lemma_sources(a: Seq<StatementView>, b: Seq<StatementView>, n: int)
    requires
        0 <= n <= a.len(),
        changed(a, b, a.len() as int) is Ok,
    ensures
        forall|m: StatementView| #[trigger]
            changed(a, b, n)->Ok_0.contains(m) ==> exists|j: int|
                0 <= j < n && entry_diff(a[j], b) is Ok && entry(a[j], b).contains(m),
    decreases n,
{
    lemma_changed_ok(a, b, n);
    if n > 0 {
        lemma_sources(a, b, n - 1);
        lemma_changed_ok(a, b, n - 1);
        let front = changed(a, b, n - 1)->Ok_0;
        let more = entry(a[n - 1], b);
        let all = changed(a, b, n)->Ok_0;
        assert(all == front + more);
        assert forall|m: StatementView| #[trigger] all.contains(m) implies exists|j: int|
            0 <= j < n && entry_diff(a[j], b) is Ok && entry(a[j], b).contains(m) by {
            let p = choose|p: int| 0 <= p < all.len() && all[p] == m;
            if p < front.len() {
                assert(front[p] == m);
                assert(front.contains(m));
                let j = choose|j: int|
                    0 <= j < n - 1 && entry_diff(a[j], b) is Ok && entry(a[j], b).contains(m);
                assert(0 <= j < n && entry_diff(a[j], b) is Ok && entry(a[j], b).contains(m));
            } else {
                assert(more[p - front.len()] == m);
                assert(more.contains(m));
                assert(0 <= n - 1 < n && entry_diff(a[n - 1], b) is Ok && entry(
                    a[n - 1],
                    b,
                ).contains(m));
            }
        }
    } else {
        assert forall|m: StatementView| !(#[trigger] changed(a, b, n)->Ok_0.contains(m)) by {}
    }
}

/// Every object of `a` gives statements, and those are among what the comparison gives.
proof fn lemma_entry_is_part(a: Seq<StatementView>, b: Seq<StatementView>, i: int)
    requires
        0 <= i < a.len(),
        changed(a, b, a.len() as int) is Ok,
    ensures
        entry_diff(a[i], b) is Ok,
        forall|p: int|
            0 <= p < entry(a[i], b).len() ==> changed(a, b, a.len() as int)->Ok_0.contains(
                #[trigger] entry(a[i], b)[p],
            ),
{
    lemma_changed_ok(a, b, i + 1);
    lemma_changed_ok(a, b, i);
    lemma_split(a, b, i, a.len() as int);
    let pre = changed(a, b, i)->Ok_0;
    let all = changed(a, b, a.len() as int)->Ok_0;
    assert forall|p: int| 0 <= p < entry(a[i], b).len() implies all.contains(
        #[trigger] entry(a[i], b)[p],
    ) by {
        assert(all[pre.len() + p] == entry(a[i], b)[p]);
    }
}

/// Where no statement of `x` from `from` on targets `s`, looking through
/// `x` and then `y` is looking through `y`.
proof fn lemma_find_skip(
    x: Seq<StatementView>,
    y: Seq<StatementView>,
    s: StatementView,
    from: int,
)
    requires
        0 <= from <= x.len(),
        forall|p: int| from <= p < x.len() ==> !targets(#[trigger] x[p], s),
    ensures
        find_target(x + y, s, from) == (match find_target(y, s, 0) {
            Some(q) => Some(x.len() + q),
            None => None,
        }),
    decreases x.len() - from,
{
    if from < x.len() {
        assert((x + y)[from] == x[from]);
        lemma_find_skip(x, y, s, from + 1);
    } else {
        lemma_find_shift(x, y, s, 0);
    }
}

proof fn lemma_find_shift(x: Seq<StatementView>, y: Seq<StatementView>, s: StatementView, q: int)
    requires
        0 <= q <= y.len(),
    ensures
        find_target(x + y, s, x.len() + q) == (match find_target(y, s, q) {
            Some(r) => Some(x.len() + r),
            None => None,
        }),
    decreases y.len() - q,
{
    if q < y.len() {
        assert((x + y)[x.len() + q] == y[q]);
        lemma_find_shift(x, y, s, q + 1);
    }
}

/// Whether everything is in place for the objects of `a` to be settled.
pub open spec fn can_settle(a: Seq<StatementView>, b: Seq<StatementView>) -> bool {
    is_schema(a) && is_schema(b) && shared_objects_settle(a, b) && tree_diff(a, b) is Ok
}

proof fn lemma_entry_of(a: Seq<StatementView>, b: Seq<StatementView>, i: int)
    requires
        can_settle(a, b),
        0 <= i < a.len(),
    ensures
        entry_diff(a[i], b) is Ok,
        is_create(a[i]),
        has_object(b, a[i]) ==> settles(a[i], b[find_object(b, a[i], 0)->0]),
{
    lemma_entry_is_part(a, b, i);
    lemma_found(b, a[i], 0);
}

/// What the comparison gave makes of each object of `a` what is to become of it.
#[verifier::rlimit(40)]
proof fn lemma_fate(a: Seq<StatementView>, b: Seq<StatementView>, i: int)
    requires
        can_settle(a, b),
        0 <= i < a.len(),
    ensures
        rewritten(a[i], tree_diff(a, b)->Ok_0) == Ok::<Option<StatementView>, MigrateErrorView>(
            fate(a[i], b),
        ),
{
    let d = tree_diff(a, b)->Ok_0;
    let n = a.len() as int;
    let front = changed(a, b, n)->Ok_0;
    let back = created(a, b, b.len() as int)->Ok_0;
    let s = a[i];
    let e = entry(s, b);
    assert(d == front + back);
    lemma_entry_of(a, b, i);
    lemma_entry(s, b);
    lemma_sources(a, b, n);
    lemma_sources(a, b, i);
    lemma_changed_ok(a, b, i);
    lemma_created_keeps(a, b, b.len() as int);
    lemma_kept_members(b, |x: StatementView| !has_object(a, x), b.len() as int);
    // what other objects give does not target this one
    assert forall|m: StatementView, j: int|
        0 <= j < n && j != i && entry_diff(a[j], b) is Ok && #[trigger] entry(a[j], b).contains(
            m,
        ) implies !targets(m, s) by {
        lemma_entry_of(a, b, j);
        lemma_entry(a[j], b);
        let p = choose|p: int| 0 <= p < entry(a[j], b).len() && entry(a[j], b)[p] == m;
        if targets(entry(a[j], b)[p], s) {
            assert(same_object(a[j], s));
            assert(same_object(a[j], a[i]));
        }
    }
    assert forall|p: int| 0 <= p < back.len() implies !targets(#[trigger] back[p], s) by {
        assert(back.contains(back[p]));
        lemma_create_targets_nothing(back[p], s);
    }
    let pre = changed(a, b, i)->Ok_0;
    assert forall|p: int| 0 <= p < pre.len() implies !targets(#[trigger] pre[p], s) by {
        assert(pre.contains(pre[p]));
        let j = choose|j: int|
            0 <= j < i && entry_diff(a[j], b) is Ok && entry(a[j], b).contains(pre[p]);
        assert(entry(a[j], b).contains(pre[p]));
    }
    lemma_split(a, b, i, n);
    let rest = e + after(a, b, i, n) + back;
    assert(d =~= pre + rest);
    lemma_find_skip(pre, rest, s, 0);
    if e.len() > 0 {
        assert(rest[0] == e[0]);
        assert(find_target(rest, s, 0) == Some(0int));
        assert(d[pre.len() as int] == e[0]);
    } else {
        lemma_target_found(d, s, 0);
        if find_target(d, s, 0) is Some {
            let p = find_target(d, s, 0)->0;
            if p < front.len() {
                assert(front[p] == d[p]);
                assert(front.contains(d[p]));
                let j = choose|j: int|
                    0 <= j < n && entry_diff(a[j], b) is Ok && entry(a[j], b).contains(d[p]);
                if j == i {
                    let q = choose|q: int| 0 <= q < e.len() && e[q] == d[p];
                } else {
                    assert(entry(a[j], b).contains(d[p]));
                }
            } else {
                assert(back[p - front.len()] == d[p]);
            }
        }
    }
}

proof fn lemma_settled(a: Seq<StatementView>, b: Seq<StatementView>, n: int)
    requires
        can_settle(a, b),
        0 <= n <= a.len(),
    ensures
        rewritten_all(a, tree_diff(a, b)->Ok_0, n) == Ok::<Seq<StatementView>, MigrateErrorView>(
            settled(a, b, n),
        ),
        forall|s: StatementView| #[trigger]
            settled(a, b, n).contains(s) <==> (exists|i: int|
                0 <= i < n && fate(a[i], b) == Some(s)),
    decreases n,
{
    if n > 0 {
        lemma_settled(a, b, n - 1);
        lemma_fate(a, b, n - 1);
        let front = settled(a, b, n - 1);
        let all = settled(a, b, n);
        assert forall|s: StatementView| #[trigger] all.contains(s) <==> (exists|i: int|
            0 <= i < n && fate(a[i], b) == Some(s)) by {
            if all.contains(s) {
                let p = choose|p: int| 0 <= p < all.len() && all[p] == s;
                if p < front.len() {
                    assert(front[p] == s);
                    assert(front.contains(s));
                    let i = choose|i: int| 0 <= i < n - 1 && fate(a[i], b) == Some(s);
                    assert(0 <= i < n && fate(a[i], b) == Some(s));
                } else {
                    assert(fate(a[n - 1], b) == Some(s));
                }
            }
            if exists|i: int| 0 <= i < n && fate(a[i], b) == Some(s) {
                let i = choose|i: int| 0 <= i < n && fate(a[i], b) == Some(s);
                if i == n - 1 {
                    assert(all[front.len() as int] == s);
                } else {
                    assert(0 <= i < n - 1 && fate(a[i], b) == Some(s));
                    assert(front.contains(s));
                    let p = choose|p: int| 0 <= p < front.len() && front[p] == s;
                    assert(all[p] == s);
                }
            }
        }
    } else {
        assert forall|s: StatementView| !(#[trigger] settled(a, b, n).contains(s)) by {}
    }
}

/// Where comparing two schemas settles every object that both have,
/// applying to the first what the comparison gave yields a tree that holds
/// the very statements that the second holds: first the objects of the
/// first schema that stay or are altered in place, then those that replace
/// an object, then those that only the second schema has.
#[verifier::rlimit(40)]
pub proof fn law_applying_the_diff_settles(a: Seq<StatementView>, b: Seq<StatementView>)
    requires
        is_schema(a),
        is_schema(b),
        shared_objects_settle(a, b),
        tree_diff(a, b) is Ok,
    ensures
        spec_migrate(a, tree_diff(a, b)->Ok_0) == Ok::<
            Option<Seq<StatementView>>,
            MigrateErrorView,
        >(Some(settled(a, b, a.len() as int) + creations(tree_diff(a, b)->Ok_0))),
        forall|s: StatementView|
            (settled(a, b, a.len() as int) + creations(tree_diff(a, b)->Ok_0)).contains(s)
                <==> b.contains(s),
{
    let d = tree_diff(a, b)->Ok_0;
    let n = a.len() as int;
    let front = changed(a, b, n)->Ok_0;
    let back = created(a, b, b.len() as int)->Ok_0;
    let stay = settled(a, b, n);
    let made = creations(d);
    let r = stay + made;
    let creates = |x: StatementView| is_create(x);
    assert(d == front + back);
    lemma_settled(a, b, n);
    lemma_sources(a, b, n);
    lemma_created_keeps(a, b, b.len() as int);
    lemma_kept_members(b, |x: StatementView| !has_object(a, x), b.len() as int);
    lemma_kept_members(d, creates, d.len() as int);
    assert forall|s: StatementView| r.contains(s) <==> b.contains(s) by {
        if r.contains(s) {
            let p = choose|p: int| 0 <= p < r.len() && r[p] == s;
            if p < stay.len() {
                assert(stay[p] == s);
                assert(stay.contains(s));
                let i = choose|i: int| 0 <= i < n && fate(a[i], b) == Some(s);
                lemma_found(b, a[i], 0);
            } else {
                assert(made[p - stay.len()] == s);
                assert(made.contains(s));
                let q = choose|q: int| 0 <= q < d.len() && d[q] == s && creates(s);
                if q < front.len() {
                    assert(front[q] == s);
                    assert(front.contains(s));
                    let j = choose|j: int|
                        0 <= j < n && entry_diff(a[j], b) is Ok && entry(a[j], b).contains(s);
                    lemma_entry_of(a, b, j);
                    lemma_entry(a[j], b);
                    let x = choose|x: int| 0 <= x < entry(a[j], b).len() && entry(a[j], b)[x] == s;
                    assert(is_create(entry(a[j], b)[x]));
                    lemma_found(b, a[j], 0);
                } else {
                    assert(back[q - front.len()] == s);
                    assert(back.contains(s));
                }
            }
        }
        if b.contains(s) {
            let k = choose|k: int| 0 <= k < b.len() && b[k] == s;
            assert(is_create(b[k]));
            if has_object(a, s) {
                lemma_found(a, s, 0);
                let i = find_object(a, s, 0)->0;
                assert(same_object(s, a[i]));
                assert(same_object(a[i], b[k]));
                // the object of `a[i]` stands at `k` in `b`, and nowhere before
                lemma_found(b, a[i], 0);
                assert(find_object(b, a[i], 0) == Some(k)) by {
                    let k2 = find_object(b, a[i], 0)->0;
                    assert(same_object(a[i], b[k2]));
                    assert(same_object(b[k2], b[k]));
                }
                lemma_entry_of(a, b, i);
                lemma_entry(a[i], b);
                if fate(a[i], b) is Some {
                    assert(fate(a[i], b) == Some(s));
                    assert(stay.contains(s));
                    let p = choose|p: int| 0 <= p < stay.len() && stay[p] == s;
                    assert(r[p] == s);
                } else {
                    // the object is replaced: what the comparison gave creates it
                    let e = entry(a[i], b);
                    assert(settles(a[i], b[k]));
                    assert(e == statement_diff(a[i], b[k])->Ok_0);
                    assert(e.len() == 2 && e[1] == s);
                    lemma_entry_is_part(a, b, i);
                    assert(front.contains(e[1]));
                    let q = choose|q: int| 0 <= q < front.len() && front[q] == s;
                    assert(d[q] == s);
                    assert(made.contains(s));
                    let p = choose|p: int| 0 <= p < made.len() && made[p] == s;
                    assert(r[stay.len() + p] == s);
                }
            } else {
                assert(back.contains(s));
                let q = choose|q: int| 0 <= q < back.len() && back[q] == s;
                assert(d[front.len() + q] == s);
                assert(made.contains(s));
                let p = choose|p: int| 0 <= p < made.len() && made[p] == s;
                assert(r[stay.len() + p] == s);
            }
        }
    }
}

// ---------------------------------------------------------------------
// what a comparison gives can be applied

/// Operations that add or drop a column can always be applied.
proof fn lemma_adds_and_drops_apply(t: CreateTableView, ops: Seq<AlterTableOperationView>, n: int)
    requires
        0 <= n <= ops.len(),
        forall|i: int| 0 <= i < ops.len() ==> adds_or_drops(#[trigger] ops[i]),
    ensures
        altered_by(t, ops, n) is Ok,
    decreases n,
{
    if n > 0 {
        lemma_adds_and_drops_apply(t, ops, n - 1);
        assert(adds_or_drops(ops[n - 1]));
    }
}

/// Every statement that an object gives either creates an object, or
/// targets the object that gave it and no other, and can be applied to it.
proof fn lemma_entry_applies(a: StatementView, other: Seq<StatementView>)
    requires
        is_create(a),
        creates_only(other),
        entry_diff(a, other) is Ok,
    ensures
        forall|p: int|
            0 <= p < entry(a, other).len() && !is_create(#[trigger] entry(a, other)[p])
                ==> applied(a, entry(a, other)[p]) is Ok,
        forall|p: int, t: StatementView|
            0 <= p < entry(a, other).len() && is_create(t) && targets(
                #[trigger] entry(a, other)[p],
                t,
            ) ==> #[trigger] same_object(a, t),
{
    let e = entry(a, other);
    lemma_found(other, a, 0);
    if has_object(other, a) {
        let k = find_object(other, a, 0)->0;
        let b = other[k];
        assert(is_create(b));
        assert(e == statement_diff(a, b)->Ok_0);
        match (a, b) {
            (StatementView::CreateTable(x), StatementView::CreateTable(y)) => {
                if x != y {
                    let ops = e[0]->AlterTable_0.operations;
                    lemma_dropped_columns_drop(x, y, x.columns.len() as int);
                    lemma_added_columns_add(x, y, y.columns.len() as int);
                    assert forall|i: int| 0 <= i < ops.len() implies adds_or_drops(
                        #[trigger] ops[i],
                    ) by {
                        let drops = dropped_columns(x, y, x.columns.len() as int);
                        if i < drops.len() {
                            assert(ops[i] == drops[i]);
                        } else {
                            assert(ops[i] == added_columns(x, y, y.columns.len() as int)[i
                                - drops.len()]);
                        }
                    }
                    lemma_adds_and_drops_apply(x, ops, ops.len() as int);
                }
            },
            (StatementView::CreateIndex(x), StatementView::CreateIndex(y)) => {
                if x != y {
                    let d = e[0]->Drop_0;
                    assert(d.names =~= seq![x.name->0]);
                }
            },
            (StatementView::CreateType(x), StatementView::CreateType(y)) => {
                let la = x.representation->Enum_labels;
                let lb = y.representation->Enum_labels;
                if x != y {
                    lemma_renamed_labels_rename(la, lb, la.len() as int);
                    lemma_added_labels_add(la, lb, 0, 0, None);
                }
            },
            _ => {},
        }
        assert forall|p: int, t: StatementView|
            0 <= p < e.len() && is_create(t) && targets(#[trigger] e[p], t) implies #[trigger] same_object(
            a,
            t,
        ) by {
            if names_object_of(e[p], a) {
                lemma_targets_by_name(a, e[p], t);
            } else {
                assert(is_create(e[p]));
                lemma_create_targets_nothing(e[p], t);
            }
        }
    } else {
        assert(e == removal(a)->Ok_0);
        lemma_remover(a, a);
        assert forall|p: int, t: StatementView|
            0 <= p < e.len() && is_create(t) && targets(#[trigger] e[p], t) implies #[trigger] same_object(
            a,
            t,
        ) by {
            lemma_remover(a, t);
        }
    }
}

proof fn lemma_rewritten_is_ok(a: Seq<StatementView>, b: Seq<StatementView>, n: int)
    requires
        is_schema(a),
        creates_only(b),
        tree_diff(a, b) is Ok,
        0 <= n <= a.len(),
    ensures
        rewritten_all(a, tree_diff(a, b)->Ok_0, n) is Ok,
    decreases n,
{
    if n > 0 {
        lemma_rewritten_is_ok(a, b, n - 1);
        let i = n - 1;
        let d = tree_diff(a, b)->Ok_0;
        let m = a.len() as int;
        let front = changed(a, b, m)->Ok_0;
        let back = created(a, b, b.len() as int)->Ok_0;
        let s = a[i];
        assert(d == front + back);
        assert(is_create(s));
        lemma_sources(a, b, m);
        lemma_created_keeps(a, b, b.len() as int);
        lemma_kept_members(b, |x: StatementView| !has_object(a, x), b.len() as int);
        lemma_target_found(d, s, 0);
        if find_target(d, s, 0) is Some {
            let q = find_target(d, s, 0)->0;
            if q < front.len() {
                assert(front[q] == d[q]);
                assert(front.contains(d[q]));
                let j = choose|j: int|
                    0 <= j < m && entry_diff(a[j], b) is Ok && entry(a[j], b).contains(d[q]);
                assert(is_create(a[j]));
                lemma_entry_applies(a[j], b);
                let p = choose|p: int| 0 <= p < entry(a[j], b).len() && entry(a[j], b)[p] == d[q];
                assert(targets(entry(a[j], b)[p], s));
                assert(same_object(a[j], s));
                assert(same_object(a[j], a[i]));
                assert(j == i);
                if is_create(d[q]) {
                    lemma_create_targets_nothing(d[q], s);
                }
            } else {
                assert(back[q - front.len()] == d[q]);
                assert(back.contains(d[q]));
                lemma_create_targets_nothing(d[q], s);
            }
        }
    }
}

/// What comparing a schema with a tree of created objects gives can
/// always be applied to the schema.
pub proof fn law_what_a_comparison_gives_can_be_applied(a: Seq<StatementView>, b: Seq<StatementView>)
    requires
        is_schema(a),
        tree_diff(a, b) is Ok,
    ensures
        spec_migrate(a, tree_diff(a, b)->Ok_0) is Ok,
{
    // a comparison that succeeds found nothing but created objects in `b`
    assert(creates_only(b)) by {
        assert forall|k: int| 0 <= k < b.len() implies is_create(#[trigger] b[k]) by {
            lemma_created_needs_creates(a, b, k, b.len() as int);
        }
    }
    lemma_rewritten_is_ok(a, b, a.len() as int);
}

proof fn lemma_created_needs_creates(a: Seq<StatementView>, b: Seq<StatementView>, k: int, n: int)
    requires
        0 <= k < n <= b.len(),
        created(a, b, n) is Ok,
    ensures
        is_create(b[k]),
    decreases n,
{
    if k < n - 1 {
        lemma_created_needs_creates(a, b, k, n - 1);
    }
}

// ---------------------------------------------------------------------
// objects that the comparison settles

/// An object that both schemas create alike is settled.
pub proof fn law_equal_objects_settle(a: StatementView)
    requires
        is_create(a),
    ensures
        settles(a, a),
{
}

/// Two indexes of one name that both have a name are settled: the first is
/// dropped and the second created.
pub proof fn law_named_indexes_settle(a: CreateIndexView, b: CreateIndexView)
    requires
        a.name == b.name,
        a.name is Some,
    ensures
        settles(StatementView::CreateIndex(a), StatementView::CreateIndex(b)),
{
    if a != b {
        let ds = statement_diff(StatementView::CreateIndex(a), StatementView::CreateIndex(b))->Ok_0;
        let d = ds[0]->Drop_0;
        assert(d.names =~= seq![a.name->0]);
        assert(d.names[0] == a.name->0);
        assert(d.names.contains(a.name->0));
    }
}

/// Two domains of one name are settled: the first is dropped and the
/// second created.
pub proof fn law_domains_settle(a: CreateDomainView, b: CreateDomainView)
    requires
        a.name == b.name,
    ensures
        settles(StatementView::CreateDomain(a), StatementView::CreateDomain(b)),
{
}

/// Operations applied in a row are applied one run after the other.
pub proof fn lemma_altered_by_concat(
    t: CreateTableView,
    x: Seq<AlterTableOperationView>,
    y: Seq<AlterTableOperationView>,
    n: int,
)
    requires
        0 <= n <= y.len(),
    ensures
        altered_by(t, x + y, x.len() as int + n) == (match altered_by(t, x, x.len() as int) {
            Ok(u) => altered_by(u, y, n),
            Err(e) => Err(e),
        }),
    decreases n,
{
    if n > 0 {
        lemma_altered_by_concat(t, x, y, n - 1);
        assert((x + y)[x.len() + n - 1] == y[n - 1]);
    } else {
        lemma_altered_by_prefix(t, x + y, x, x.len() as int);
    }
}

/// What the first operations make of a table depends on those operations only.
pub proof fn lemma_altered_by_prefix(
    t: CreateTableView,
    x: Seq<AlterTableOperationView>,
    y: Seq<AlterTableOperationView>,
    n: int,
)
    requires
        0 <= n <= x.len(),
        n <= y.len(),
        forall|i: int| 0 <= i < n ==> x[i] == y[i],
    ensures
        altered_by(t, x, n) == altered_by(t, y, n),
    decreases n,
{
    if n > 0 {
        lemma_altered_by_prefix(t, x, y, n - 1);
    }
}

/// One more operation is applied to what the operations before it made.
pub proof fn lemma_altered_by_push(
    t: CreateTableView,
    ops: Seq<AlterTableOperationView>,
    op: AlterTableOperationView,
)
    ensures
        altered_by(t, ops.push(op), ops.len() as int + 1) == (match altered_by(t, ops, ops.len() as int) {
            Ok(u) => altered_table(u, op),
            Err(e) => Err(e),
        }),
{
    lemma_altered_by_prefix(t, ops.push(op), ops, ops.len() as int);
}

/// Tests that hold of the same items keep the same items.
pub proof fn lemma_kept_alike<T>(s: Seq<T>, f: spec_fn(T) -> bool, g: spec_fn(T) -> bool, n: int)
    requires
        0 <= n <= s.len(),
        forall|i: int| 0 <= i < n ==> f(#[trigger] s[i]) == g(s[i]),
    ensures
        kept(s, f, n) == kept(s, g, n),
    decreases n,
{
    if n > 0 {
        lemma_kept_alike(s, f, g, n - 1);
    }
}

/// Keeping from what was kept is keeping what passes both tests.
pub proof fn lemma_kept_twice<T>(
    s: Seq<T>,
    f: spec_fn(T) -> bool,
    g: spec_fn(T) -> bool,
    both: spec_fn(T) -> bool,
    n: int,
)
    requires
        0 <= n <= s.len(),
        forall|i: int| 0 <= i < n ==> both(#[trigger] s[i]) == (f(s[i]) && g(s[i])),
    ensures
        all_kept(kept(s, f, n), g) == kept(s, both, n),
    decreases n,
{
    if n > 0 {
        lemma_kept_twice(s, f, g, both, n - 1);
        let front = kept(s, f, n - 1);
        if f(s[n - 1]) {
            let x = s[n - 1];
            assert(kept(s, f, n) == front.push(x));
            assert(front.push(x).drop_last() =~= front);
            lemma_kept_same_prefix(front.push(x), front, g, front.len() as int);
        }
    }
}

proof fn lemma_kept_same_prefix<T>(s: Seq<T>, t: Seq<T>, keep: spec_fn(T) -> bool, n: int)
    requires
        0 <= n <= s.len(),
        n <= t.len(),
        forall|i: int| 0 <= i < n ==> s[i] == t[i],
    ensures
        kept(s, keep, n) == kept(t, keep, n),
    decreases n,
{
    if n > 0 {
        lemma_kept_same_prefix(s, t, keep, n - 1);
    }
}

/// Whether one of the first `n` columns of `a` has the name and is dropped
/// because `b` has no column of that name.
pub open spec fn is_dropped(a: CreateTableView, b: CreateTableView, n: int, name: IdentView) -> bool {
    !has_column(b.columns, name) && exists|j: int|
        0 <= j < n && j < a.columns.len() && (#[trigger] a.columns[j]).name == name
}

/// Dropping the columns that `b` lacks leaves the columns that `b` has.
proof fn lemma_drops_applied(a: CreateTableView, b: CreateTableView, n: int)
    requires
        0 <= n <= a.columns.len(),
    ensures
        altered_by(a, dropped_columns(a, b, n), dropped_columns(a, b, n).len() as int) == Ok::<
            CreateTableView,
            MigrateErrorView,
        >(
            CreateTableView {
                columns: all_kept(a.columns, |c: ColumnDefView| !is_dropped(a, b, n, c.name)),
                ..a
            },
        ),
    decreases n,
{
    let cols = a.columns;
    let now = |c: ColumnDefView| !is_dropped(a, b, n, c.name);
    if n > 0 {
        lemma_drops_applied(a, b, n - 1);
        let before = |c: ColumnDefView| !is_dropped(a, b, n - 1, c.name);
        let name = cols[n - 1].name;
        if has_column(b.columns, name) {
            assert forall|i: int| 0 <= i < cols.len() implies before(#[trigger] cols[i]) == now(
                cols[i],
            ) by {
                let c = cols[i];
                if is_dropped(a, b, n, c.name) {
                    let j = choose|j: int|
                        0 <= j < n && j < cols.len() && (#[trigger] cols[j]).name == c.name;
                    assert(j != n - 1);
                    assert(0 <= j < n - 1 && cols[j].name == c.name);
                }
                if is_dropped(a, b, n - 1, c.name) {
                    let j = choose|j: int|
                        0 <= j < n - 1 && j < cols.len() && (#[trigger] cols[j]).name == c.name;
                    assert(0 <= j < n && cols[j].name == c.name);
                }
            }
            lemma_kept_alike(cols, before, now, cols.len() as int);
        } else {
            let ops = dropped_columns(a, b, n - 1);
            let op = AlterTableOperationView::DropColumn {
                has_column_keyword: true,
                column_name: name,
                if_exists: a.if_not_exists,
                drop_behavior: None,
            };
            assert(dropped_columns(a, b, n) == ops.push(op));
            lemma_altered_by_push(a, ops, op);
            let other = |c: ColumnDefView| c.name != name;
            assert forall|i: int| 0 <= i < cols.len() implies now(#[trigger] cols[i]) == (before(
                cols[i],
            ) && other(cols[i])) by {
                let c = cols[i];
                if is_dropped(a, b, n, c.name) {
                    let j = choose|j: int|
                        0 <= j < n && j < cols.len() && (#[trigger] cols[j]).name == c.name;
                    if j < n - 1 {
                        assert(0 <= j < n - 1 && cols[j].name == c.name);
                    }
                }
                if is_dropped(a, b, n - 1, c.name) {
                    let j = choose|j: int|
                        0 <= j < n - 1 && j < cols.len() && (#[trigger] cols[j]).name == c.name;
                    assert(0 <= j < n && cols[j].name == c.name);
                }
                if c.name == name {
                    assert(0 <= n - 1 < n && cols[n - 1].name == c.name);
                }
            }
            lemma_kept_twice(cols, before, other, now, cols.len() as int);
        }
    } else {
        let all = |c: ColumnDefView| true;
        assert forall|i: int| 0 <= i < cols.len() implies now(#[trigger] cols[i]) by {}
        lemma_kept_none_or_all(cols, now, cols.len() as int);
        assert(cols.take(cols.len() as int) =~= cols);
    }
}

/// Adding the columns that `a` lacks puts them after the columns that are there.
proof fn lemma_adds_applied(t: CreateTableView, a: CreateTableView, b: CreateTableView, n: int)
    requires
        0 <= n <= b.columns.len(),
    ensures
        altered_by(t, added_columns(a, b, n), added_columns(a, b, n).len() as int) == Ok::<
            CreateTableView,
            MigrateErrorView,
        >(
            CreateTableView {
                columns: t.columns + kept(
                    b.columns,
                    |c: ColumnDefView| !has_column(a.columns, c.name),
                    n,
                ),
                ..t
            },
        ),
    decreases n,
{
    let new = |c: ColumnDefView| !has_column(a.columns, c.name);
    if n > 0 {
        lemma_adds_applied(t, a, b, n - 1);
        let c = b.columns[n - 1];
        if !has_column(a.columns, c.name) {
            let ops = added_columns(a, b, n - 1);
            let op = AlterTableOperationView::AddColumn {
                column_keyword: true,
                if_not_exists: a.if_not_exists,
                column_def: c,
            };
            assert(added_columns(a, b, n) == ops.push(op));
            lemma_altered_by_push(t, ops, op);
            assert((t.columns + kept(b.columns, new, n - 1)).push(c) =~= t.columns + kept(
                b.columns,
                new,
                n - 1,
            ).push(c));
        }
    } else {
        assert(t.columns + Seq::<ColumnDefView>::empty() =~= t.columns);
    }
}

/// The table `a` with the columns of `a` that `b` has too, in their order,
/// followed by the columns that only `b` has, in their order.
pub open spec fn with_columns_of(a: CreateTableView, b: CreateTableView) -> CreateTableView {
    CreateTableView {
        columns: all_kept(a.columns, |c: ColumnDefView| has_column(b.columns, c.name)) + all_kept(
            b.columns,
            |c: ColumnDefView| !has_column(a.columns, c.name),
        ),
        ..a
    }
}

/// Two tables of one name that differ in their columns only, the second
/// keeping the columns it shares with the first as they are and in front
/// of its own, are settled: one `ALTER TABLE` makes the first into the second.
pub proof fn law_tables_settle(a: CreateTableView, b: CreateTableView)
    requires
        b == with_columns_of(a, b),
    ensures
        settles(StatementView::CreateTable(a), StatementView::CreateTable(b)),
{
    if a != b {
        let drops = dropped_columns(a, b, a.columns.len() as int);
        let adds = added_columns(a, b, b.columns.len() as int);
        lemma_drops_applied(a, b, a.columns.len() as int);
        let stay = |c: ColumnDefView| has_column(b.columns, c.name);
        let left = |c: ColumnDefView| !is_dropped(a, b, a.columns.len() as int, c.name);
        assert forall|i: int| 0 <= i < a.columns.len() implies left(#[trigger] a.columns[i])
            == stay(a.columns[i]) by {
            let c = a.columns[i];
            if !has_column(b.columns, c.name) {
                assert(0 <= i < a.columns.len() && a.columns[i].name == c.name);
            }
        }
        lemma_kept_alike(a.columns, left, stay, a.columns.len() as int);
        let t = CreateTableView { columns: all_kept(a.columns, stay), ..a };
        lemma_adds_applied(t, a, b, b.columns.len() as int);
        lemma_altered_by_concat(a, drops, adds, adds.len() as int);
        assert((drops + adds).len() == drops.len() + adds.len());
        let ds = table_diff(a, b);
        assert(ds[0]->AlterTable_0.operations == drops + adds);
    }
}

// ---------------------------------------------------------------------
// enums

/// Whether no label stands twice in the list.
pub open spec fn distinct(labels: Seq<IdentView>) -> bool {
    forall|i: int, j: int|
        0 <= i < labels.len() && 0 <= j < labels.len() && #[trigger] labels[i] == #[trigger] labels[j]
            ==> i == j
}

proof fn lemma_first_index_of_distinct(labels: Seq<IdentView>, p: int, from: int)
    requires
        distinct(labels),
        0 <= from <= p < labels.len(),
    ensures
        first_index(labels, labels[p], from) == Some(p),
    decreases p - from,
{
    if from < p {
        assert(labels[from] != labels[p]);
        lemma_first_index_of_distinct(labels, p, from + 1);
    }
}

proof fn lemma_first_index_absent(
    labels: Seq<IdentView>,
    x: IdentView,
    from: int,
)
    requires
        !labels.contains(x),
        0 <= from,
    ensures
        first_index(labels, x, from) is None,
    decreases labels.len() - from,
{
    if from < labels.len() {
        assert(labels[from] != x);
        lemma_first_index_absent(labels, x, from + 1);
    }
}

/// After the place of the new label every label of the longer list is
/// the next label of the shorter one, so nothing more is added.
proof fn lemma_rest_is_met(
    la: Seq<IdentView>,
    x: IdentView,
    p: int,
    j: int,
    prev: Option<IdentView>,
)
    requires
        0 <= p <= la.len(),
        p < j <= la.len() + 1,
    ensures
        added_labels(la, la.insert(p, x), j, j - 1, prev) == Seq::<
            AlterTypeOperationView,
        >::empty(),
    decreases la.len() + 1 - j,
{
    let lb = la.insert(p, x);
    if j < lb.len() {
        assert(lb[j] == la[j - 1]);
        lemma_rest_is_met(la, x, p, j + 1, Some(la[j - 1]));
    }
}

/// Before the place of the new label every label of the longer list is
/// the next label of the shorter one.
proof fn lemma_front_is_met(
    la: Seq<IdentView>,
    x: IdentView,
    p: int,
    j: int,
    prev: Option<IdentView>,
)
    requires
        0 <= j <= p <= la.len(),
        j == 0 ==> prev is None,
        j > 0 ==> prev == Some(la[j - 1]),
    ensures
        added_labels(la, la.insert(p, x), j, j, prev) == added_labels(
            la,
            la.insert(p, x),
            p,
            p,
            if p == 0 {
                None
            } else {
                Some(la[p - 1])
            },
        ),
    decreases p - j,
{
    let lb = la.insert(p, x);
    if j < p {
        assert(lb[j] == la[j]);
        lemma_front_is_met(la, x, p, j + 1, Some(la[j]));
    }
}

/// An enum that gains one label which it did not have, at any place, is
/// settled where its labels are distinct: one `ALTER TYPE ... ADD VALUE`
/// makes the first enum into the second.
pub proof fn law_enum_with_one_more_label_settles(
    name: Seq<IdentView>,
    la: Seq<IdentView>,
    x: IdentView,
    p: int,
)
    requires
        distinct(la),
        !la.contains(x),
        0 <= p <= la.len(),
    ensures
        settles(
            StatementView::CreateType(
                CreateTypeView {
                    name,
                    representation: TypeRepresentationView::Enum { labels: la },
                },
            ),
            StatementView::CreateType(
                CreateTypeView {
                    name,
                    representation: TypeRepresentationView::Enum {
                        labels: la.insert(p, x),
                    },
                },
            ),
        ),
{
    let lb = la.insert(p, x);
    let a = CreateTypeView {
        name,
        representation: TypeRepresentationView::Enum { labels: la },
    };
    let b = CreateTypeView {
        name,
        representation: TypeRepresentationView::Enum { labels: lb },
    };
    assert(lb.len() == la.len() + 1);
    assert(a != b) by {
        assert(la.len() != lb.len());
    }
    let prev = if p == 0 {
        None
    } else {
        Some(la[p - 1])
    };
    lemma_front_is_met(la, x, p, 0, None);
    lemma_rest_is_met(la, x, p, p + 1, Some(x));
    lemma_rest_is_met(la, x, p, p + 1, prev);
    assert(lb[p] == x);
    let ops = added_labels(la, lb, 0, 0, None);
    let position = if p < la.len() {
        Some(
            match prev {
                Some(q) => AddValuePositionView::After(q),
                None => AddValuePositionView::Before(la[p]),
            },
        )
    } else {
        None
    };
    let op = AlterTypeOperationView::AddValue {
        if_not_exists: false,
        value: x,
        position,
    };
    if p < la.len() {
        assert(la[p] != x) by {
            if la[p] == x {
                assert(la.contains(x));
            }
        }
        assert(added_labels(la, lb, p, p, prev) =~= seq![op]);
        if p > 0 {
            lemma_first_index_of_distinct(la, p - 1, 0);
        } else {
            lemma_first_index_of_distinct(la, 0, 0);
        }
    } else {
        assert(!la.contains(lb[p]));
        assert(added_labels(la, lb, p, p, prev) =~= seq![op]);
        assert(la.insert(la.len() as int, x) =~= la.push(x));
    }
    assert(ops =~= seq![op]);
    assert(with_label(la, x, position) =~= lb);
    let ds = alter_type_each(name, ops);
    assert(ds.len() == 1);
    assert(ds[0] == StatementView::AlterType(AlterTypeView { name, operation: op }));
}

/// An enum of distinct labels of which one is renamed is settled: one
/// `ALTER TYPE ... RENAME VALUE` makes the first enum into the second.
pub proof fn law_enum_with_one_label_renamed_settles(
    name: Seq<IdentView>,
    la: Seq<IdentView>,
    x: IdentView,
    p: int,
)
    requires
        distinct(la),
        0 <= p < la.len(),
        la[p] != x,
    ensures
        settles(
            StatementView::CreateType(
                CreateTypeView {
                    name,
                    representation: TypeRepresentationView::Enum { labels: la },
                },
            ),
            StatementView::CreateType(
                CreateTypeView {
                    name,
                    representation: TypeRepresentationView::Enum {
                        labels: la.update(p, x),
                    },
                },
            ),
        ),
{
    let lb = la.update(p, x);
    let op = AlterTypeOperationView::RenameValue { from: la[p], to: x };
    lemma_one_renamed(la, x, p, la.len() as int);
    let ops = renamed_labels(la, lb, la.len() as int);
    assert(ops == seq![op]);
    assert(with_renamed_label(la, la[p], x) =~= lb) by {
        assert forall|i: int| 0 <= i < la.len() implies (if la[i] == la[p] {
            x
        } else {
            la[i]
        }) == lb[i] by {
            if la[i] == la[p] {
                assert(i == p);
            }
        }
    }
    let ds = alter_type_each(name, ops);
    assert(ds.len() == 1);
    assert(ds[0] == StatementView::AlterType(AlterTypeView { name, operation: op }));
    assert(la != lb) by {
        assert(la[p] != lb[p]);
    }
}

proof fn lemma_one_renamed(
    la: Seq<IdentView>,
    x: IdentView,
    p: int,
    n: int,
)
    requires
        0 <= p < la.len(),
        la[p] != x,
        0 <= n <= la.len(),
    ensures
        renamed_labels(la, la.update(p, x), n) == (if n <= p {
            Seq::<AlterTypeOperationView>::empty()
        } else {
            seq![AlterTypeOperationView::RenameValue { from: la[p], to: x }]
        }),
    decreases n,
{
    if n > 0 {
        lemma_one_renamed(la, x, p, n - 1);
        if n - 1 == p {
            assert(Seq::<AlterTypeOperationView>::empty().push(
                AlterTypeOperationView::RenameValue { from: la[p], to: x },
            ) =~= seq![AlterTypeOperationView::RenameValue { from: la[p], to: x }]);
        }
    }
}

} // verus!
