//! What holds of comparing and migrating, whatever the trees.

use crate::ast::{
    AlterTableOperationView, AlterTypeOperationView, CreateIndexView, CreateTableView,
    CreateTypeView, StatementView,
};
use crate::diff::{
    added_columns, added_labels, changed, created, dropped_columns, entry_diff, find_object,
    index_diff, is_create, lemma_changed_fails, removal, renamed_labels, same_object,
    statement_diff, table_diff, tree_diff, type_diff, DiffErrorKind, DiffErrorView,
};
use crate::migration::{
    applied, creations, find_target, rewritten, rewritten_all, targets, MigrateErrorView,
};
use crate::model::{all_kept, kept};
use crate::{spec_diff, spec_migrate};
use vstd::prelude::*;

verus! {

/// Whether the tree is a schema: every statement creates an object, and
/// no two statements create the same object.
pub open spec fn is_schema(tree: Seq<StatementView>) -> bool {
    &&& forall|i: int| 0 <= i < tree.len() ==> is_create(#[trigger] tree[i])
    &&& forall|i: int, j: int|
        0 <= i < tree.len() && 0 <= j < tree.len() && same_object(
            #[trigger] tree[i],
            #[trigger] tree[j],
        ) ==> i == j
}

/// Whether every statement of the tree creates an object.
pub open spec fn creates_only(tree: Seq<StatementView>) -> bool {
    forall|i: int| 0 <= i < tree.len() ==> is_create(#[trigger] tree[i])
}

/// A statement that creates an object is found where it stands, if no
/// statement before it creates the same object.
pub proof fn lemma_found_in_place(tree: Seq<StatementView>, i: int, from: int)
    requires
        0 <= from <= i < tree.len(),
        is_create(tree[i]),
        forall|k: int| from <= k < i ==> !same_object(tree[i], #[trigger] tree[k]),
    ensures
        find_object(tree, tree[i], from) == Some(i),
    decreases i - from,
{
    if from < i {
        lemma_found_in_place(tree, i, from + 1);
    }
}

/// What is found creates the same object as what was looked for, and
/// nothing before it does.
pub proof fn lemma_found(tree: Seq<StatementView>, s: StatementView, from: int)
    requires
        0 <= from,
    ensures
        match find_object(tree, s, from) {
            Some(k) => from <= k < tree.len() && same_object(s, tree[k]) && forall|x: int|
                from <= x < k ==> !same_object(s, #[trigger] tree[x]),
            None => forall|x: int| from <= x < tree.len() ==> !same_object(s, #[trigger] tree[x]),
        },
    decreases tree.len() - from,
{
    if from < tree.len() && !same_object(s, tree[from]) {
        lemma_found(tree, s, from + 1);
    }
}

/// A statement that creates an object needs nothing done to become itself.
pub proof fn lemma_statement_diff_same(s: StatementView)
    requires
        is_create(s),
    ensures
        statement_diff(s, s) == Ok::<Seq<StatementView>, DiffErrorView>(Seq::empty()),
{
}

proof fn lemma_changed_same(tree: Seq<StatementView>, n: int)
    requires
        is_schema(tree),
        0 <= n <= tree.len(),
    ensures
        changed(tree, tree, n) == Ok::<Seq<StatementView>, DiffErrorView>(Seq::empty()),
    decreases n,
{
    if n > 0 {
        lemma_changed_same(tree, n - 1);
        assert(is_create(tree[n - 1]));
        lemma_found_in_place(tree, n - 1, 0);
        lemma_statement_diff_same(tree[n - 1]);
        assert(Seq::<StatementView>::empty() + Seq::<StatementView>::empty()
            =~= Seq::<StatementView>::empty());
    }
}

proof fn lemma_created_same(tree: Seq<StatementView>, n: int)
    requires
        is_schema(tree),
        0 <= n <= tree.len(),
    ensures
        created(tree, tree, n) == Ok::<Seq<StatementView>, DiffErrorView>(Seq::empty()),
    decreases n,
{
    if n > 0 {
        lemma_created_same(tree, n - 1);
        assert(is_create(tree[n - 1]));
        lemma_found_in_place(tree, n - 1, 0);
    }
}

/// Comparing a schema with itself gives nothing to do.
pub proof fn law_diff_of_same_is_none(tree: Seq<StatementView>)
    requires
        is_schema(tree),
    ensures
        spec_diff(tree, tree) == Ok::<Option<Seq<StatementView>>, DiffErrorView>(None),
{
    lemma_changed_same(tree, tree.len() as int);
    lemma_created_same(tree, tree.len() as int);
    assert(Seq::<StatementView>::empty() + Seq::<StatementView>::empty()
        =~= Seq::<StatementView>::empty());
}

proof fn lemma_rewritten_by_nothing(tree: Seq<StatementView>, n: int)
    requires
        creates_only(tree),
        0 <= n <= tree.len(),
    ensures
        rewritten_all(tree, Seq::empty(), n) == Ok::<Seq<StatementView>, MigrateErrorView>(
            tree.take(n),
        ),
    decreases n,
{
    if n > 0 {
        lemma_rewritten_by_nothing(tree, n - 1);
        assert(is_create(tree[n - 1]));
        assert(tree.take(n - 1).push(tree[n - 1]) =~= tree.take(n));
    } else {
        assert(tree.take(0) =~= Seq::<StatementView>::empty());
    }
}

/// A migration without statements leaves a tree of created objects as it is.
pub proof fn law_empty_migration_is_identity(tree: Seq<StatementView>)
    requires
        creates_only(tree),
    ensures
        spec_migrate(tree, Seq::empty()) == Ok::<Option<Seq<StatementView>>, MigrateErrorView>(
            Some(tree),
        ),
{
    lemma_rewritten_by_nothing(tree, tree.len() as int);
    assert(tree.take(tree.len() as int) =~= tree);
    assert(creations(Seq::empty()) =~= Seq::<StatementView>::empty());
    assert(tree + Seq::<StatementView>::empty() =~= tree);
}

/// Whether the operation adds or drops a column.
pub open spec fn adds_or_drops(op: AlterTableOperationView) -> bool {
    op is AddColumn || op is DropColumn
}

pub proof fn lemma_dropped_columns_drop(a: CreateTableView, b: CreateTableView, n: int)
    ensures
        forall|i: int|
            0 <= i < dropped_columns(a, b, n).len() ==> (#[trigger] dropped_columns(
                a,
                b,
                n,
            )[i]) is DropColumn,
    decreases n,
{
    if n > 0 {
        lemma_dropped_columns_drop(a, b, n - 1);
    }
}

pub proof fn lemma_added_columns_add(a: CreateTableView, b: CreateTableView, n: int)
    ensures
        forall|i: int|
            0 <= i < added_columns(a, b, n).len() ==> (#[trigger] added_columns(
                a,
                b,
                n,
            )[i]) is AddColumn,
    decreases n,
{
    if n > 0 {
        lemma_added_columns_add(a, b, n - 1);
    }
}

/// Two tables of one name that differ give exactly one `ALTER TABLE`, and
/// each of its operations adds or drops a column.
pub proof fn law_table_diff_is_one_alter_table(a: CreateTableView, b: CreateTableView)
    requires
        a.name == b.name,
        a != b,
    ensures
        spec_diff(seq![StatementView::CreateTable(a)], seq![StatementView::CreateTable(b)])
            == Ok::<Option<Seq<StatementView>>, DiffErrorView>(Some(table_diff(a, b))),
        table_diff(a, b).len() == 1,
        table_diff(a, b)[0] is AlterTable,
        forall|i: int|
            0 <= i < table_diff(a, b)[0]->AlterTable_0.operations.len() ==> adds_or_drops(
                #[trigger] table_diff(a, b)[0]->AlterTable_0.operations[i],
            ),
{
    let sa = StatementView::CreateTable(a);
    let sb = StatementView::CreateTable(b);
    let ta = seq![sa];
    let tb = seq![sb];
    lemma_dropped_columns_drop(a, b, a.columns.len() as int);
    lemma_added_columns_add(a, b, b.columns.len() as int);
    // what becomes of the one table of the first tree
    assert(find_object(tb, sa, 0) == Some(0int)) by {
        assert(same_object(sa, tb[0]));
    }
    assert(entry_diff(sa, tb) == Ok::<Seq<StatementView>, DiffErrorView>(table_diff(a, b)));
    assert(changed(ta, tb, 1) == Ok::<Seq<StatementView>, DiffErrorView>(table_diff(a, b))) by {
        assert(changed(ta, tb, 0) == Ok::<Seq<StatementView>, DiffErrorView>(Seq::empty()));
        assert(ta[0] == sa);
        assert(Seq::<StatementView>::empty() + table_diff(a, b) =~= table_diff(a, b));
    }
    // the second tree has no object that the first lacks
    assert(find_object(ta, sb, 0) == Some(0int)) by {
        assert(same_object(sb, ta[0]));
    }
    assert(created(ta, tb, 1) == Ok::<Seq<StatementView>, DiffErrorView>(Seq::empty())) by {
        assert(created(ta, tb, 0) == Ok::<Seq<StatementView>, DiffErrorView>(Seq::empty()));
        assert(tb[0] == sb);
    }
    assert(table_diff(a, b) + Seq::<StatementView>::empty() =~= table_diff(a, b));
}

/// Whether the operation adds or renames a label.
pub open spec fn adds_or_renames(op: AlterTypeOperationView) -> bool {
    op is AddValue || op is RenameValue
}

pub proof fn lemma_renamed_labels_rename(
    a: Seq<crate::ast::IdentView>,
    b: Seq<crate::ast::IdentView>,
    n: int,
)
    ensures
        forall|i: int|
            0 <= i < renamed_labels(a, b, n).len() ==> (#[trigger] renamed_labels(
                a,
                b,
                n,
            )[i]) is RenameValue,
    decreases n,
{
    if n > 0 {
        lemma_renamed_labels_rename(a, b, n - 1);
    }
}

pub proof fn lemma_added_labels_add(
    a: Seq<crate::ast::IdentView>,
    b: Seq<crate::ast::IdentView>,
    j: int,
    i: int,
    prev: Option<crate::ast::IdentView>,
)
    ensures
        forall|x: int|
            0 <= x < added_labels(a, b, j, i, prev).len() ==> (#[trigger] added_labels(
                a,
                b,
                j,
                i,
                prev,
            )[x]) is AddValue,
    decreases b.len() - j,
{
    if 0 <= j < b.len() {
        if 0 <= i < a.len() {
            if a[i] == b[j] {
                lemma_added_labels_add(a, b, j + 1, i + 1, Some(a[i]));
            } else {
                lemma_added_labels_add(a, b, j + 1, i, Some(b[j]));
            }
        } else {
            lemma_added_labels_add(a, b, j + 1, i, prev);
        }
    }
}

/// Comparing two enums never asks for a label to be removed: an enum with
/// fewer labels than the one before cannot be reached, and every statement
/// that a comparison does give alters the type by adding or renaming a label.
pub proof fn law_enum_labels_are_never_removed(a: CreateTypeView, b: CreateTypeView)
    requires
        a.representation is Enum,
        b.representation is Enum,
    ensures
        (a != b && a.representation->Enum_labels.len() > b.representation->Enum_labels.len())
            <==> type_diff(a, b) is Err,
        type_diff(a, b) is Err ==> type_diff(a, b)->Err_0.kind == DiffErrorKind::RemoveEnumLabel,
        type_diff(a, b) is Ok ==> forall|i: int|
            0 <= i < type_diff(a, b)->Ok_0.len() ==> {
                &&& (#[trigger] type_diff(a, b)->Ok_0[i]) is AlterType
                &&& adds_or_renames(type_diff(a, b)->Ok_0[i]->AlterType_0.operation)
            },
{
    let la = a.representation->Enum_labels;
    let lb = b.representation->Enum_labels;
    lemma_renamed_labels_rename(la, lb, la.len() as int);
    lemma_added_labels_add(la, lb, 0, 0, None);
}

/// Two indexes that differ can be compared if and only if both have a name.
pub proof fn law_index_diff_needs_names(a: CreateIndexView, b: CreateIndexView)
    requires
        a != b,
    ensures
        (a.name is None || b.name is None) <==> index_diff(a, b) is Err,
        index_diff(a, b) is Err ==> index_diff(a, b)->Err_0.kind
            == DiffErrorKind::CompareUnnamedIndex,
{
}

// ---------------------------------------------------------------------
// applying what a comparison gave

/// Whether the tree has the object that `s` creates.
pub open spec fn has_object(tree: Seq<StatementView>, s: StatementView) -> bool {
    find_object(tree, s, 0) is Some
}

/// Whether the objects that both trees have are created alike in both.
pub open spec fn shared_objects_agree(a: Seq<StatementView>, b: Seq<StatementView>) -> bool {
    forall|i: int, k: int|
        0 <= i < a.len() && 0 <= k < b.len() && same_object(#[trigger] a[i], #[trigger] b[k])
            ==> a[i] == b[k]
}

/// The statements of `a` whose object `b` has too, then the statements of
/// `b` whose object `a` lacks.
pub open spec fn kept_then_new(a: Seq<StatementView>, b: Seq<StatementView>) -> Seq<StatementView> {
    all_kept(a, |s: StatementView| has_object(b, s)) + all_kept(
        b,
        |s: StatementView| !has_object(a, s),
    )
}

/// What `kept` keeps are items of the list that the test holds of, and it keeps all of those.
pub proof fn lemma_kept_members<T>(s: Seq<T>, keep: spec_fn(T) -> bool, n: int)
    requires
        0 <= n <= s.len(),
    ensures
        forall|x: T|
            kept(s, keep, n).contains(x) <==> (exists|i: int| 0 <= i < n && s[i] == x && keep(x)),
    decreases n,
{
    if n > 0 {
        lemma_kept_members(s, keep, n - 1);
        let front = kept(s, keep, n - 1);
        assert forall|x: T|
            kept(s, keep, n).contains(x) <==> (exists|i: int|
                0 <= i < n && s[i] == x && keep(x)) by {
            if kept(s, keep, n).contains(x) {
                let k = choose|k: int| 0 <= k < kept(s, keep, n).len() && kept(s, keep, n)[k] == x;
                if keep(s[n - 1]) && k == front.len() {
                    assert(s[n - 1] == x);
                } else {
                    assert(front[k] == x);
                    assert(front.contains(x));
                    let i = choose|i: int| 0 <= i < n - 1 && s[i] == x && keep(x);
                    assert(0 <= i < n && s[i] == x && keep(x));
                }
            }
            if exists|i: int| 0 <= i < n && s[i] == x && keep(x) {
                let i = choose|i: int| 0 <= i < n && s[i] == x && keep(x);
                if i == n - 1 {
                    assert(kept(s, keep, n)[front.len() as int] == x);
                } else {
                    assert(0 <= i < n - 1 && s[i] == x && keep(x));
                    assert(front.contains(x));
                    let k = choose|k: int| 0 <= k < front.len() && front[k] == x;
                    assert(kept(s, keep, n)[k] == x);
                }
            }
        }
    } else {
        assert forall|x: T| !kept(s, keep, n).contains(x) by {}
    }
}

/// Keeping from two lists in a row is keeping from each.
pub proof fn lemma_kept_concat<T>(x: Seq<T>, y: Seq<T>, keep: spec_fn(T) -> bool, n: int)
    requires
        0 <= n <= y.len(),
    ensures
        kept(x + y, keep, x.len() + n) == all_kept(x, keep) + kept(y, keep, n),
    decreases n,
{
    if n > 0 {
        lemma_kept_concat(x, y, keep, n - 1);
        assert((x + y)[x.len() + n - 1] == y[n - 1]);
        assert(all_kept(x, keep) + kept(y, keep, n - 1).push(y[n - 1]) =~= (all_kept(x, keep)
            + kept(y, keep, n - 1)).push(y[n - 1]));
    } else {
        lemma_kept_prefix(x + y, x, keep, x.len() as int);
        assert(all_kept(x, keep) + Seq::<T>::empty() =~= all_kept(x, keep));
    }
}

/// What is kept of the first items depends on those items only.
pub proof fn lemma_kept_prefix<T>(s: Seq<T>, t: Seq<T>, keep: spec_fn(T) -> bool, n: int)
    requires
        0 <= n <= s.len(),
        n <= t.len(),
        forall|i: int| 0 <= i < n ==> s[i] == t[i],
    ensures
        kept(s, keep, n) == kept(t, keep, n),
    decreases n,
{
    if n > 0 {
        lemma_kept_prefix(s, t, keep, n - 1);
    }
}

/// Where the test holds of no item, nothing is kept; where it holds of all, all are.
pub proof fn lemma_kept_none_or_all<T>(s: Seq<T>, keep: spec_fn(T) -> bool, n: int)
    requires
        0 <= n <= s.len(),
    ensures
        (forall|i: int| 0 <= i < n ==> !keep(#[trigger] s[i])) ==> kept(s, keep, n) == Seq::<
            T,
        >::empty(),
        (forall|i: int| 0 <= i < n ==> keep(#[trigger] s[i])) ==> kept(s, keep, n) == s.take(n),
    decreases n,
{
    if n > 0 {
        lemma_kept_none_or_all(s, keep, n - 1);
        if forall|i: int| 0 <= i < n ==> keep(#[trigger] s[i]) {
            assert(s.take(n - 1).push(s[n - 1]) =~= s.take(n));
        }
    } else {
        assert(s.take(0) =~= Seq::<T>::empty());
    }
}

/// The statement that removes the object of `s`, where there is one.
pub open spec fn remover(s: StatementView) -> StatementView {
    removal(s)->Ok_0[0]
}

/// The statement that removes an object targets the statements that
/// create that object and no others, drops what it targets, and creates nothing.
pub proof fn lemma_remover(s: StatementView, t: StatementView)
    requires
        is_create(s),
        is_create(t),
        removal(s) is Ok,
    ensures
        removal(s)->Ok_0 == seq![remover(s)],
        !is_create(remover(s)),
        targets(remover(s), t) <==> same_object(s, t),
        same_object(s, t) ==> applied(t, remover(s)) == Ok::<
            Option<StatementView>,
            MigrateErrorView,
        >(None),
{
    let x = remover(s);
    assert(removal(s)->Ok_0 =~= seq![x]);
    match x {
        StatementView::Drop(d) => {
            assert(d.names =~= seq![d.names[0]]);
            assert(d.names.contains(d.names[0]));
        },
        StatementView::DropExtension(d) => {
            assert(d.names =~= seq![d.names[0]]);
            assert(d.names.contains(d.names[0]));
            match t {
                StatementView::CreateExtension(e) => {
                    if d.names.contains(e.name) {
                        let k = choose|k: int| 0 <= k < d.names.len() && d.names[k] == e.name;
                        assert(k == 0);
                    }
                },
                _ => {},
            }
        },
        _ => {},
    }
}

/// A statement that creates an object targets nothing.
pub proof fn lemma_create_targets_nothing(m: StatementView, t: StatementView)
    requires
        is_create(m),
    ensures
        !targets(m, t),
{
}

/// What `find_target` finds targets the statement, and it finds something
/// wherever a statement of the migration does.
pub proof fn lemma_target_found(m: Seq<StatementView>, s: StatementView, from: int)
    requires
        0 <= from,
    ensures
        match find_target(m, s, from) {
            Some(k) => from <= k < m.len() && targets(m[k], s),
            None => forall|x: int| from <= x < m.len() ==> !targets(#[trigger] m[x], s),
        },
    decreases m.len() - from,
{
    if from < m.len() && !targets(m[from], s) {
        lemma_target_found(m, s, from + 1);
    }
}

/// Every part of a comparison that succeeds does.
pub proof fn lemma_changed_ok(a: Seq<StatementView>, b: Seq<StatementView>, n: int)
    requires
        0 <= n <= a.len(),
        changed(a, b, a.len() as int) is Ok,
    ensures
        changed(a, b, n) is Ok,
{
    if changed(a, b, n) is Err {
        lemma_changed_fails(a, b, n, a.len() as int);
    }
}

/// Where the objects that both trees have agree, what becomes of the
/// objects of `a` is that those which `b` lacks are removed.
proof fn lemma_changed_removes(a: Seq<StatementView>, b: Seq<StatementView>, n: int)
    requires
        creates_only(a),
        shared_objects_agree(a, b),
        0 <= n <= a.len(),
        changed(a, b, a.len() as int) is Ok,
    ensures
        changed(a, b, n) is Ok,
        forall|x: StatementView| #[trigger]
            changed(a, b, n)->Ok_0.contains(x) ==> exists|i: int|
                0 <= i < n && !has_object(b, a[i]) && removal(a[i]) is Ok && x == remover(a[i]),
        forall|i: int|
            0 <= i < n && !has_object(b, #[trigger] a[i]) ==> removal(a[i]) is Ok && changed(
                a,
                b,
                n,
            )->Ok_0.contains(remover(a[i])),
    decreases n,
{
    lemma_changed_ok(a, b, n);
    if n > 0 {
        lemma_changed_removes(a, b, n - 1);
        lemma_changed_ok(a, b, n - 1);
        let front = changed(a, b, n - 1)->Ok_0;
        let s = a[n - 1];
        assert(is_create(s));
        let more = entry_diff(s, b)->Ok_0;
        let all = changed(a, b, n)->Ok_0;
        assert(all == front + more);
        if has_object(b, s) {
            lemma_found(b, s, 0);
            let k = find_object(b, s, 0)->0;
            assert(s == b[k]);
            lemma_statement_diff_same(s);
            assert(more =~= Seq::<StatementView>::empty());
            assert(all =~= front);
        } else {
            lemma_remover(s, s);
            assert(more == seq![remover(s)]);
            assert(all[front.len() as int] == remover(s));
        }
        assert forall|x: StatementView| #[trigger] all.contains(x) implies exists|i: int|
            0 <= i < n && !has_object(b, a[i]) && removal(a[i]) is Ok && x == remover(a[i]) by {
            let p = choose|p: int| 0 <= p < all.len() && all[p] == x;
            if p < front.len() {
                assert(front[p] == x);
                assert(front.contains(x));
                let i = choose|i: int|
                    0 <= i < n - 1 && !has_object(b, a[i]) && removal(a[i]) is Ok && x == remover(
                        a[i],
                    );
                assert(0 <= i < n && !has_object(b, a[i]) && removal(a[i]) is Ok && x == remover(
                    a[i],
                ));
            } else {
                assert(!has_object(b, s));
                assert(x == remover(a[n - 1]));
            }
        }
        assert forall|i: int| 0 <= i < n && !has_object(b, #[trigger] a[i]) implies removal(
            a[i],
        ) is Ok && all.contains(remover(a[i])) by {
            if i < n - 1 {
                assert(front.contains(remover(a[i])));
                let p = choose|p: int| 0 <= p < front.len() && front[p] == remover(a[i]);
                assert(all[p] == remover(a[i]));
            } else {
                assert(all[front.len() as int] == remover(s));
            }
        }
    } else {
        assert forall|x: StatementView| !(#[trigger] changed(a, b, n)->Ok_0.contains(x)) by {}
    }
}

/// The objects that only `b` has are created as they stand in `b`.
pub proof fn lemma_created_keeps(a: Seq<StatementView>, b: Seq<StatementView>, n: int)
    requires
        creates_only(b),
        0 <= n <= b.len(),
    ensures
        created(a, b, n) == Ok::<Seq<StatementView>, DiffErrorView>(
            kept(b, |s: StatementView| !has_object(a, s), n),
        ),
    decreases n,
{
    if n > 0 {
        lemma_created_keeps(a, b, n - 1);
        assert(is_create(b[n - 1]));
    }
}

/// What the comparison of two schemas gave leaves an object of the first
/// alone if the second has it too, and drops it if not.
proof fn lemma_rewritten_by_diff(a: Seq<StatementView>, b: Seq<StatementView>, i: int)
    requires
        is_schema(a),
        creates_only(b),
        shared_objects_agree(a, b),
        tree_diff(a, b) is Ok,
        0 <= i < a.len(),
    ensures
        rewritten(a[i], tree_diff(a, b)->Ok_0) == Ok::<Option<StatementView>, MigrateErrorView>(
            if has_object(b, a[i]) {
                Some(a[i])
            } else {
                None
            },
        ),
{
    let d = tree_diff(a, b)->Ok_0;
    let front = changed(a, b, a.len() as int)->Ok_0;
    let back = created(a, b, b.len() as int)->Ok_0;
    lemma_changed_removes(a, b, a.len() as int);
    lemma_created_keeps(a, b, b.len() as int);
    lemma_kept_members(b, |s: StatementView| !has_object(a, s), b.len() as int);
    assert(d == front + back);
    let s = a[i];
    assert(is_create(s));
    lemma_target_found(d, s, 0);
    // whatever in `d` targets `s` is the statement that removes `s`
    assert forall|p: int| 0 <= p < d.len() && targets(#[trigger] d[p], s) implies !has_object(b, s)
        && d[p] == remover(s) by {
        if p < front.len() {
            assert(front[p] == d[p]);
            assert(front.contains(d[p]));
            let j = choose|j: int|
                0 <= j < a.len() && !has_object(b, a[j]) && removal(a[j]) is Ok && d[p] == remover(
                    a[j],
                );
            assert(is_create(a[j]));
            lemma_remover(a[j], s);
            assert(same_object(a[j], a[i]));
            assert(j == i);
        } else {
            assert(back[p - front.len()] == d[p]);
            assert(back.contains(d[p]));
            assert(is_create(d[p]));
            lemma_create_targets_nothing(d[p], s);
        }
    }
    if has_object(b, s) {
        assert(find_target(d, s, 0) is None);
    } else {
        assert(front.contains(remover(s)));
        let q = choose|q: int| 0 <= q < front.len() && front[q] == remover(s);
        assert(d[q] == remover(s));
        lemma_remover(s, s);
        assert(targets(d[q], s));
        assert(find_target(d, s, 0) is Some);
        let p = find_target(d, s, 0)->0;
        assert(d[p] == remover(s));
    }
}

proof fn lemma_rewritten_all_by_diff(a: Seq<StatementView>, b: Seq<StatementView>, n: int)
    requires
        is_schema(a),
        creates_only(b),
        shared_objects_agree(a, b),
        tree_diff(a, b) is Ok,
        0 <= n <= a.len(),
    ensures
        rewritten_all(a, tree_diff(a, b)->Ok_0, n) == Ok::<Seq<StatementView>, MigrateErrorView>(
            kept(a, |s: StatementView| has_object(b, s), n),
        ),
    decreases n,
{
    if n > 0 {
        lemma_rewritten_all_by_diff(a, b, n - 1);
        lemma_rewritten_by_diff(a, b, n - 1);
    }
}

/// Where the objects that two schemas share are created alike in both,
/// applying to the first what comparing them gave yields the second, up to
/// the order of its statements: the objects of the first that the second
/// has too come first, then those that only the second has, and the result
/// holds the very statements that the second holds.
#[verifier::rlimit(40)]
pub proof fn law_applying_the_diff_gives_the_other(a: Seq<StatementView>, b: Seq<StatementView>)
    requires
        is_schema(a),
        is_schema(b),
        shared_objects_agree(a, b),
        tree_diff(a, b) is Ok,
    ensures
        spec_migrate(a, tree_diff(a, b)->Ok_0) == Ok::<
            Option<Seq<StatementView>>,
            MigrateErrorView,
        >(Some(kept_then_new(a, b))),
        forall|s: StatementView| kept_then_new(a, b).contains(s) <==> b.contains(s),
{
    let d = tree_diff(a, b)->Ok_0;
    let front = changed(a, b, a.len() as int)->Ok_0;
    let back = created(a, b, b.len() as int)->Ok_0;
    let in_b = |s: StatementView| has_object(b, s);
    let not_in_a = |s: StatementView| !has_object(a, s);
    let creates = |s: StatementView| is_create(s);
    lemma_changed_removes(a, b, a.len() as int);
    lemma_created_keeps(a, b, b.len() as int);
    lemma_rewritten_all_by_diff(a, b, a.len() as int);
    lemma_kept_members(b, not_in_a, b.len() as int);
    lemma_kept_members(a, in_b, a.len() as int);
    assert(d == front + back);
    // the comparison creates what only `b` has, and nothing else
    assert(creations(d) == back) by {
        lemma_kept_concat(front, back, creates, back.len() as int);
        lemma_kept_none_or_all(front, creates, front.len() as int);
        lemma_kept_none_or_all(back, creates, back.len() as int);
        assert forall|p: int| 0 <= p < front.len() implies !creates(#[trigger] front[p]) by {
            assert(front.contains(front[p]));
            let j = choose|j: int|
                0 <= j < a.len() && !has_object(b, a[j]) && removal(a[j]) is Ok && front[p]
                    == remover(a[j]);
            lemma_remover(a[j], a[j]);
        }
        assert forall|p: int| 0 <= p < back.len() implies creates(#[trigger] back[p]) by {
            assert(back.contains(back[p]));
        }
        assert(back.take(back.len() as int) =~= back);
        assert(Seq::<StatementView>::empty() + back =~= back);
        assert((front + back).len() == front.len() + back.len());
    }
    // the result holds what `b` holds
    let r = kept_then_new(a, b);
    let kept_a = all_kept(a, in_b);
    assert(r == kept_a + back);
    assert forall|s: StatementView| r.contains(s) <==> b.contains(s) by {
        if r.contains(s) {
            let p = choose|p: int| 0 <= p < r.len() && r[p] == s;
            if p < kept_a.len() {
                assert(kept_a[p] == s);
                assert(kept_a.contains(s));
                let i = choose|i: int| 0 <= i < a.len() && a[i] == s && in_b(s);
                lemma_found(b, s, 0);
                let k = find_object(b, s, 0)->0;
                assert(a[i] == b[k]);
                assert(b.contains(s));
            } else {
                assert(back[p - kept_a.len()] == s);
                assert(back.contains(s));
            }
        }
        if b.contains(s) {
            let k = choose|k: int| 0 <= k < b.len() && b[k] == s;
            if has_object(a, s) {
                lemma_found(a, s, 0);
                let i = find_object(a, s, 0)->0;
                assert(same_object(s, a[i]));
                assert(is_create(b[k]));
                assert(same_object(a[i], b[k]));
                assert(a[i] == b[k]);
                lemma_found_in_place(b, k, 0);
                assert(in_b(a[i]));
                assert(kept_a.contains(s));
                let p = choose|p: int| 0 <= p < kept_a.len() && kept_a[p] == s;
                assert(r[p] == s);
            } else {
                assert(not_in_a(s));
                assert(back.contains(s));
                let p = choose|p: int| 0 <= p < back.len() && back[p] == s;
                assert(r[kept_a.len() + p] == s);
            }
        }
    }
}

} // verus!
