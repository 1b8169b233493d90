//! The statements that turn one schema into another.
//!
//! Objects are told apart by kind and name. What is only in the first
//! schema is dropped, what is only in the second is created as it stands
//! there, and what is in both is altered where the two differ.

use crate::ast::{
    AddValuePosition, AddValuePositionView, AlterTable, AlterTableOperation,
    AlterTableOperationView, AlterTableView, AlterType, AlterTypeOperation,
    AlterTypeOperationView, AlterTypeView, ColumnDef, ColumnDefView, CreateDomain,
    CreateDomainView, CreateIndex, CreateIndexView, CreateTable, CreateTableView, CreateType,
    CreateTypeView, Drop, DropBehavior, DropDomain, DropDomainView, DropExtension,
    DropExtensionView, DropView, Ident, IdentView, ObjectName, ObjectType, Statement,
    StatementView, TypeRepresentation, TypeRepresentationView,
};
use crate::model::{dup_opt, lemma_views_push, opt_view, same_opt, views, Model};
use crate::printer::{statement_sql, statement_string};
use vstd::string::*;
use vstd::prelude::*;

verus! {

/// Why two schemas could not be compared.
#[derive(Debug, Clone, Copy, PartialEq, Eq, Structural)]
#[non_exhaustive]
pub enum DiffErrorKind {
    /// an index without a name cannot be dropped
    DropUnnamedIndex,
    /// an index without a name cannot be compared
    CompareUnnamedIndex,
    /// an enum cannot lose labels
    RemoveEnumLabel,
    /// the statement is of a kind that is not compared
    NotImplemented,
}

/// A failed comparison, with the statements it failed on.
#[derive(Debug, Clone, PartialEq, Eq)]
pub struct DiffError {
    pub kind: DiffErrorKind,
    pub statement_a: Option<Statement>,
    pub statement_b: Option<Statement>,
}

pub ghost struct DiffErrorView {
    pub kind: DiffErrorKind,
    pub statement_a: Option<StatementView>,
    pub statement_b: Option<StatementView>,
}

impl View for DiffError {
    type V = DiffErrorView;

    open spec fn view(&self) -> DiffErrorView {
        DiffErrorView {
            kind: self.kind,
            statement_a: opt_view(self.statement_a),
            statement_b: opt_view(self.statement_b),
        }
    }
}

/// Why the comparison failed, in words.
pub open spec fn reason(kind: DiffErrorKind) -> Seq<char> {
    match kind {
        DiffErrorKind::DropUnnamedIndex => "can't drop unnamed index"@,
        DiffErrorKind::CompareUnnamedIndex => "can't compare unnamed index"@,
        DiffErrorKind::RemoveEnumLabel => "removing enum labels is not supported"@,
        DiffErrorKind::NotImplemented => "not yet supported"@,
    }
}

/// The statement under its heading, where there is one.
pub open spec fn attached(heading: Seq<char>, s: Option<StatementView>) -> Seq<char> {
    match s {
        Some(x) => heading + statement_sql(x),
        None => Seq::empty(),
    }
}

/// The error in words: the reason, then the statements it is about.
pub open spec fn error_text(e: DiffErrorView) -> Seq<char> {
    "Oops, we couldn't diff that: "@ + reason(e.kind) + attached(
        "\n\nStatement A:\n"@,
        e.statement_a,
    ) + attached("\n\nStatement B:\n"@, e.statement_b)
}

/// Appends the statement under its heading, where there is one.
pub fn push_attached(out: &mut String, heading: &str, s: &Option<Statement>)
    ensures
        final(out)@ == old(out)@ + attached(heading@, opt_view(*s)),
{
    match s {
        Some(x) => {
            out.append(heading);
            let t = statement_string(x);
            out.append(t.as_str());
            assert(out@ =~= old(out)@ + attached(heading@, opt_view(*s)));
        },
        None => {
            assert(old(out)@ + Seq::<char>::empty() =~= old(out)@);
        },
    }
}

impl DiffError {
    /// The error in words.
    pub fn to_string(&self) -> (r: String)
        ensures
            r@ == error_text(self@),
    {
        let mut out = String::new();
        out.append("Oops, we couldn't diff that: ");
        out.append(
            match self.kind {
                DiffErrorKind::DropUnnamedIndex => "can't drop unnamed index",
                DiffErrorKind::CompareUnnamedIndex => "can't compare unnamed index",
                DiffErrorKind::RemoveEnumLabel => "removing enum labels is not supported",
                DiffErrorKind::NotImplemented => "not yet supported",
            },
        );
        push_attached(&mut out, "\n\nStatement A:\n", &self.statement_a);
        push_attached(&mut out, "\n\nStatement B:\n", &self.statement_b);
        assert(out@ =~= error_text(self@));
        out
    }
}

/// What a comparison gives: statements, or the reason why there are none.
pub type DiffResult = Result<Seq<StatementView>, DiffErrorView>;

/// The view of the outcome of a comparison.
pub open spec fn outcome_view(r: Result<Vec<Statement>, DiffError>) -> DiffResult {
    match r {
        Ok(v) => Ok(views(v@)),
        Err(e) => Err(e@),
    }
}

/// Whether the two statements create the same object: one kind of object, one name.
pub open spec fn same_object(a: StatementView, b: StatementView) -> bool {
    match (a, b) {
        (StatementView::CreateTable(x), StatementView::CreateTable(y)) => x.name == y.name,
        (StatementView::CreateIndex(x), StatementView::CreateIndex(y)) => x.name == y.name,
        (StatementView::CreateType(x), StatementView::CreateType(y)) => x.name == y.name,
        (StatementView::CreateExtension(x), StatementView::CreateExtension(y)) => x.name == y.name,
        (StatementView::CreateDomain(x), StatementView::CreateDomain(y)) => x.name == y.name,
        _ => false,
    }
}

/// Whether the statement creates an object of one of the kinds that are compared.
pub open spec fn is_create(s: StatementView) -> bool {
    s is CreateTable || s is CreateIndex || s is CreateType || s is CreateExtension
        || s is CreateDomain
}

/// The place, from `from` on, of the first statement of `list` that
/// creates the same object as `s`.
pub open spec fn find_object(list: Seq<StatementView>, s: StatementView, from: int) -> Option<int>
    decreases list.len() - from,
{
    if from < 0 || from >= list.len() {
        None
    } else if same_object(s, list[from]) {
        Some(from)
    } else {
        find_object(list, s, from + 1)
    }
}

/// `DROP <kind> <name>`, with nothing else asked for.
pub open spec fn plain_drop(object_type: ObjectType, if_exists: bool, name: Seq<IdentView>) -> StatementView {
    StatementView::Drop(
        DropView {
            object_type,
            if_exists,
            names: seq![name],
            cascade: false,
            restrict: false,
            purge: false,
            temporary: false,
        },
    )
}

/// The failed comparison of the given kind, about the given statements.
pub open spec fn failure(
    kind: DiffErrorKind,
    a: Option<StatementView>,
    b: Option<StatementView>,
) -> DiffResult {
    Err(DiffErrorView { kind, statement_a: a, statement_b: b })
}

/// Whether a column of the given name is among `columns`.
pub open spec fn has_column(columns: Seq<ColumnDefView>, name: IdentView) -> bool {
    exists|i: int| 0 <= i < columns.len() && (#[trigger] columns[i]).name == name
}

/// `DROP COLUMN` for each of the first `n` columns of `a` that `b` lacks.
pub open spec fn dropped_columns(a: CreateTableView, b: CreateTableView, n: int) -> Seq<
    AlterTableOperationView,
>
    decreases n,
{
    if n <= 0 {
        Seq::empty()
    } else if has_column(b.columns, a.columns[n - 1].name) {
        dropped_columns(a, b, n - 1)
    } else {
        dropped_columns(a, b, n - 1).push(
            AlterTableOperationView::DropColumn {
                has_column_keyword: true,
                column_name: a.columns[n - 1].name,
                if_exists: a.if_not_exists,
                drop_behavior: None,
            },
        )
    }
}

/// `ADD COLUMN` for each of the first `n` columns of `b` that `a` lacks.
pub open spec fn added_columns(a: CreateTableView, b: CreateTableView, n: int) -> Seq<
    AlterTableOperationView,
>
    decreases n,
{
    if n <= 0 {
        Seq::empty()
    } else if has_column(a.columns, b.columns[n - 1].name) {
        added_columns(a, b, n - 1)
    } else {
        added_columns(a, b, n - 1).push(
            AlterTableOperationView::AddColumn {
                column_keyword: true,
                if_not_exists: a.if_not_exists,
                column_def: b.columns[n - 1],
            },
        )
    }
}

/// Two tables of one name: nothing where they are equal, else one
/// `ALTER TABLE` that drops the columns only the first has and adds the
/// columns only the second has.
pub open spec fn table_diff(a: CreateTableView, b: CreateTableView) -> Seq<StatementView> {
    if a == b {
        Seq::empty()
    } else {
        seq![
            StatementView::AlterTable(
                AlterTableView {
                    name: a.name,
                    if_exists: a.if_not_exists,
                    only: false,
                    operations: dropped_columns(a, b, a.columns.len() as int) + added_columns(
                        a,
                        b,
                        b.columns.len() as int,
                    ),
                    on_cluster: a.on_cluster,
                },
            ),
        ]
    }
}

/// Two indexes of one name: nothing where they are equal, else the first
/// is dropped and the second created. Both must have a name.
pub open spec fn index_diff(a: CreateIndexView, b: CreateIndexView) -> DiffResult {
    if a == b {
        Ok(Seq::empty())
    } else if a.name is None || b.name is None {
        failure(
            DiffErrorKind::CompareUnnamedIndex,
            Some(StatementView::CreateIndex(a)),
            Some(StatementView::CreateIndex(b)),
        )
    } else {
        Ok(
            seq![
                plain_drop(ObjectType::Index, a.if_not_exists, a.name->0),
                StatementView::CreateIndex(b),
            ],
        )
    }
}

/// Two domains of one name: nothing where they are equal, else the first
/// is dropped and the second created.
pub open spec fn domain_diff(a: CreateDomainView, b: CreateDomainView) -> Seq<StatementView> {
    if a == b {
        Seq::empty()
    } else {
        seq![
            StatementView::DropDomain(
                DropDomainView { if_exists: true, name: a.name, drop_behavior: None },
            ),
            StatementView::CreateDomain(b),
        ]
    }
}

/// For two lists of labels of one length: a renaming for each of the first
/// `n` places at which they differ.
pub open spec fn renamed_labels(a: Seq<IdentView>, b: Seq<IdentView>, n: int) -> Seq<
    AlterTypeOperationView,
>
    decreases n,
{
    if n <= 0 {
        Seq::empty()
    } else if a[n - 1] == b[n - 1] {
        renamed_labels(a, b, n - 1)
    } else {
        renamed_labels(a, b, n - 1).push(
            AlterTypeOperationView::RenameValue { from: a[n - 1], to: b[n - 1] },
        )
    }
}

/// The labels to add so that the shorter list `a` grows into `b`. The
/// labels of `b` are gone through from `j` on, while `i` labels of `a` have
/// been met; `prev` is the label gone through last. A label of `b` that is
/// the next of `a` is met. Any other is added: after `prev`, or before the
/// next label of `a` where nothing was gone through yet. Once all of `a` are
/// met, the rest of `b` is added at the end, but for labels that `a` has.
pub open spec fn added_labels(
    a: Seq<IdentView>,
    b: Seq<IdentView>,
    j: int,
    i: int,
    prev: Option<IdentView>,
) -> Seq<AlterTypeOperationView>
    decreases b.len() - j,
{
    if j < 0 || j >= b.len() {
        Seq::empty()
    } else if 0 <= i < a.len() {
        if a[i] == b[j] {
            added_labels(a, b, j + 1, i + 1, Some(a[i]))
        } else {
            seq![
                AlterTypeOperationView::AddValue {
                    if_not_exists: false,
                    value: b[j],
                    position: Some(
                        match prev {
                            Some(p) => AddValuePositionView::After(p),
                            None => AddValuePositionView::Before(a[i]),
                        },
                    ),
                },
            ] + added_labels(a, b, j + 1, i, Some(b[j]))
        }
    } else if a.contains(b[j]) {
        added_labels(a, b, j + 1, i, prev)
    } else {
        seq![AlterTypeOperationView::AddValue { if_not_exists: false, value: b[j], position: None }]
            + added_labels(a, b, j + 1, i, prev)
    }
}

/// `ALTER TYPE <name>` for each operation.
pub open spec fn alter_type_each(name: Seq<IdentView>, ops: Seq<AlterTypeOperationView>) -> Seq<
    StatementView,
> {
    ops.map_values(
        |op: AlterTypeOperationView| StatementView::AlterType(AlterTypeView { name, operation: op }),
    )
}

/// Two types of one name: nothing where they are equal. Two enums of one
/// length are told apart by renamings, a longer second enum by additions;
/// a shorter one cannot be reached, and nothing but enums is compared.
pub open spec fn type_diff(a: CreateTypeView, b: CreateTypeView) -> DiffResult {
    if a == b {
        Ok(Seq::empty())
    } else {
        match (a.representation, b.representation) {
            (
                TypeRepresentationView::Enum { labels: la },
                TypeRepresentationView::Enum { labels: lb },
            ) => if la.len() == lb.len() {
                Ok(alter_type_each(a.name, renamed_labels(la, lb, la.len() as int)))
            } else if la.len() < lb.len() {
                Ok(alter_type_each(a.name, added_labels(la, lb, 0, 0, None)))
            } else {
                failure(
                    DiffErrorKind::RemoveEnumLabel,
                    Some(StatementView::CreateType(a)),
                    Some(StatementView::CreateType(b)),
                )
            },
            _ => failure(
                DiffErrorKind::NotImplemented,
                Some(StatementView::CreateType(a)),
                Some(StatementView::CreateType(b)),
            ),
        }
    }
}

/// What turns the statement `a` into the statement `b` of the same object.
pub open spec fn statement_diff(a: StatementView, b: StatementView) -> DiffResult {
    match a {
        StatementView::CreateTable(x) => match b {
            StatementView::CreateTable(y) => Ok(table_diff(x, y)),
            _ => Ok(Seq::empty()),
        },
        StatementView::CreateIndex(x) => match b {
            StatementView::CreateIndex(y) => index_diff(x, y),
            _ => Ok(Seq::empty()),
        },
        StatementView::CreateType(x) => match b {
            StatementView::CreateType(y) => type_diff(x, y),
            _ => Ok(Seq::empty()),
        },
        StatementView::CreateDomain(x) => match b {
            StatementView::CreateDomain(y) => Ok(domain_diff(x, y)),
            _ => Ok(Seq::empty()),
        },
        StatementView::CreateExtension(_) => Ok(Seq::empty()),
        _ => failure(DiffErrorKind::NotImplemented, Some(a), Some(b)),
    }
}

/// What removes the object that `a` creates.
pub open spec fn removal(a: StatementView) -> DiffResult {
    match a {
        StatementView::CreateTable(x) => Ok(
            seq![plain_drop(ObjectType::Table, x.if_not_exists, x.name)],
        ),
        StatementView::CreateIndex(x) => match x.name {
            Some(name) => Ok(seq![plain_drop(ObjectType::Index, x.if_not_exists, name)]),
            None => failure(DiffErrorKind::DropUnnamedIndex, Some(a), None),
        },
        StatementView::CreateType(x) => Ok(seq![plain_drop(ObjectType::Type, false, x.name)]),
        StatementView::CreateExtension(x) => Ok(
            seq![
                StatementView::DropExtension(
                    DropExtensionView {
                        names: seq![x.name],
                        if_exists: x.if_not_exists,
                        cascade_or_restrict: if x.cascade {
                            Some(DropBehavior::Cascade)
                        } else {
                            None
                        },
                    },
                ),
            ],
        ),
        StatementView::CreateDomain(x) => Ok(
            seq![
                StatementView::DropDomain(
                    DropDomainView { if_exists: true, name: x.name, drop_behavior: None },
                ),
            ],
        ),
        _ => failure(DiffErrorKind::NotImplemented, Some(a), None),
    }
}

/// What becomes of the object that `a` creates: it is removed where
/// `other` has no such object, and altered into the one `other` has else.
pub open spec fn entry_diff(a: StatementView, other: Seq<StatementView>) -> DiffResult {
    if !is_create(a) {
        failure(DiffErrorKind::NotImplemented, Some(a), None)
    } else {
        match find_object(other, a, 0) {
            Some(k) => statement_diff(a, other[k]),
            None => removal(a),
        }
    }
}

/// What the first `n` statements of `a` give, one after the other.
pub open spec fn changed(a: Seq<StatementView>, b: Seq<StatementView>, n: int) -> DiffResult
    decreases n,
{
    if n <= 0 {
        Ok(Seq::empty())
    } else {
        match changed(a, b, n - 1) {
            Ok(front) => match entry_diff(a[n - 1], b) {
                Ok(more) => Ok(front + more),
                Err(e) => Err(e),
            },
            Err(e) => Err(e),
        }
    }
}

/// The statements among the first `n` of `b` that create an object which
/// `a` does not have, as they stand.
pub open spec fn created(a: Seq<StatementView>, b: Seq<StatementView>, n: int) -> DiffResult
    decreases n,
{
    if n <= 0 {
        Ok(Seq::empty())
    } else {
        match created(a, b, n - 1) {
            Ok(front) => if !is_create(b[n - 1]) {
                failure(DiffErrorKind::NotImplemented, Some(b[n - 1]), None)
            } else if find_object(a, b[n - 1], 0) is Some {
                Ok(front)
            } else {
                Ok(front.push(b[n - 1]))
            },
            Err(e) => Err(e),
        }
    }
}

/// The statements that turn the schema `a` into the schema `b`: first what
/// becomes of the objects of `a`, in their order, then the objects that only
/// `b` has, in their order. The first statement that cannot be compared
/// ends the comparison with its error.
pub open spec fn tree_diff(a: Seq<StatementView>, b: Seq<StatementView>) -> DiffResult {
    match changed(a, b, a.len() as int) {
        Ok(front) => match created(a, b, b.len() as int) {
            Ok(back) => Ok(front + back),
            Err(e) => Err(e),
        },
        Err(e) => Err(e),
    }
}

// ---------------------------------------------------------------------

fn same_object_exec(a: &Statement, b: &Statement) -> (r: bool)
    ensures
        r == same_object(a@, b@),
{
    match (a, b) {
        (Statement::CreateTable(x), Statement::CreateTable(y)) => x.name.same(&y.name),
        (Statement::CreateIndex(x), Statement::CreateIndex(y)) => same_opt(
            &x.name,
            &y.name,
        ),
        (Statement::CreateType(x), Statement::CreateType(y)) => x.name.same(&y.name),
        (Statement::CreateExtension(x), Statement::CreateExtension(y)) => x.name.same(&y.name),
        (Statement::CreateDomain(x), Statement::CreateDomain(y)) => x.name.same(&y.name),
        _ => false,
    }
}

fn is_create_exec(s: &Statement) -> (r: bool)
    ensures
        r == is_create(s@),
{
    matches!(
        s,
        Statement::CreateTable(_) | Statement::CreateIndex(_) | Statement::CreateType(_)
            | Statement::CreateExtension(_) | Statement::CreateDomain(_)
    )
}

/// The place of the first statement of `list` that creates the same object as `s`.
pub fn find(list: &Vec<Statement>, s: &Statement) -> (r: Option<usize>)
    ensures
        match r {
            Some(k) => find_object(views(list@), s@, 0) == Some(k as int) && k < list.len(),
            None => find_object(views(list@), s@, 0) is None,
        },
{
    let n = list.len();
    let mut i: usize = 0;
    while i < n
        invariant
            i <= n,
            n == list.len(),
            find_object(views(list@), s@, 0) == find_object(views(list@), s@, i as int),
        decreases n - i,
    {
        assert(views(list@)[i as int] == list@[i as int]@);
        if same_object_exec(s, &list[i]) {
            return Some(i);
        }
        i = i + 1;
    }
    None
}

fn plain_drop_exec(object_type: ObjectType, if_exists: bool, name: &ObjectName) -> (r: Statement)
    ensures
        r@ == plain_drop(object_type, if_exists, name@),
{
    let mut names: Vec<ObjectName> = Vec::new();
    names.push(name.dup());
    assert(views(names@) =~= seq![name@]);
    Statement::Drop(
        Drop {
            object_type,
            if_exists,
            names,
            cascade: false,
            restrict: false,
            purge: false,
            temporary: false,
        },
    )
}

fn fail(kind: DiffErrorKind, a: Option<&Statement>, b: Option<&Statement>) -> (r: Result<
    Vec<Statement>,
    DiffError,
>)
    ensures
        outcome_view(r) == failure(
            kind,
            match a {
                Some(s) => Some(s@),
                None => None,
            },
            match b {
                Some(s) => Some(s@),
                None => None,
            },
        ),
{
    Err(
        DiffError {
            kind,
            statement_a: match a {
                Some(s) => Some(s.dup()),
                None => None,
            },
            statement_b: match b {
                Some(s) => Some(s.dup()),
                None => None,
            },
        },
    )
}

fn has_column_exec(columns: &Vec<ColumnDef>, name: &Ident) -> (r: bool)
    ensures
        r == has_column(views(columns@), name@),
{
    let n = columns.len();
    let mut i: usize = 0;
    while i < n
        invariant
            i <= n,
            n == columns.len(),
            forall|x: int| 0 <= x < i ==> (#[trigger] views(columns@)[x]).name != name@,
        decreases n - i,
    {
        assert(views(columns@)[i as int] == columns@[i as int]@);
        if columns[i].name.same(name) {
            return true;
        }
        i = i + 1;
    }
    false
}

/// What turns the table `a` into the table `b`.
pub fn compare_create_table(a: &CreateTable, b: &CreateTable) -> (r: Vec<Statement>)
    ensures
        views(r@) == table_diff(a@, b@),
{
    let mut out: Vec<Statement> = Vec::new();
    if a.same(b) {
        assert(views(out@) =~= Seq::<StatementView>::empty());
        return out;
    }
    let mut ops: Vec<AlterTableOperation> = Vec::new();
    assert(views(ops@) =~= dropped_columns(a@, b@, 0));
    let n = a.columns.len();
    let mut i: usize = 0;
    while i < n
        invariant
            i <= n,
            n == a.columns.len(),
            views(ops@) == dropped_columns(a@, b@, i as int),
        decreases n - i,
    {
        assert(a@.columns[i as int] == a.columns@[i as int]@);
        if !has_column_exec(&b.columns, &a.columns[i].name) {
            let ghost before = ops@;
            let op = AlterTableOperation::DropColumn {
                has_column_keyword: true,
                column_name: a.columns[i].name.dup(),
                if_exists: a.if_not_exists,
                drop_behavior: None,
            };
            ops.push(op);
            proof {
                lemma_views_push(before, op);
            }
        }
        i = i + 1;
    }
    let ghost drops = views(ops@);
    assert(drops + added_columns(a@, b@, 0) =~= drops);
    let m = b.columns.len();
    let mut j: usize = 0;
    while j < m
        invariant
            j <= m,
            m == b.columns.len(),
            views(ops@) == drops + added_columns(a@, b@, j as int),
        decreases m - j,
    {
        assert(b@.columns[j as int] == b.columns@[j as int]@);
        if !has_column_exec(&a.columns, &b.columns[j].name) {
            let ghost before = ops@;
            let op = AlterTableOperation::AddColumn {
                column_keyword: true,
                if_not_exists: a.if_not_exists,
                column_def: b.columns[j].dup(),
            };
            ops.push(op);
            proof {
                lemma_views_push(before, op);
                assert(drops + added_columns(a@, b@, j as int).push(op@) =~= (drops
                    + added_columns(a@, b@, j as int)).push(op@));
            }
        }
        j = j + 1;
    }
    let s = Statement::AlterTable(
        AlterTable {
            name: a.name.dup(),
            if_exists: a.if_not_exists,
            only: false,
            operations: ops,
            on_cluster: dup_opt(&a.on_cluster),
        },
    );
    out.push(s);
    assert(views(out@) =~= table_diff(a@, b@));
    out
}

/// What turns the index `a` into the index `b`.
pub fn compare_create_index(a: &CreateIndex, b: &CreateIndex) -> (r: Result<
    Vec<Statement>,
    DiffError,
>)
    ensures
        outcome_view(r) == index_diff(a@, b@),
{
    let mut out: Vec<Statement> = Vec::new();
    if a.same(b) {
        assert(views(out@) =~= Seq::<StatementView>::empty());
        return Ok(out);
    }
    match (&a.name, &b.name) {
        (Some(name), Some(_)) => {
            let s1 = plain_drop_exec(ObjectType::Index, a.if_not_exists, name);
            let s2 = Statement::CreateIndex(b.dup());
            out.push(s1);
            out.push(s2);
            assert(views(out@) =~= seq![s1@, s2@]);
            Ok(out)
        },
        _ => {
            let sa = Statement::CreateIndex(a.dup());
            let sb = Statement::CreateIndex(b.dup());
            fail(DiffErrorKind::CompareUnnamedIndex, Some(&sa), Some(&sb))
        },
    }
}

/// What turns the domain `a` into the domain `b`.
pub fn compare_create_domain(a: &CreateDomain, b: &CreateDomain) -> (r: Vec<Statement>)
    ensures
        views(r@) == domain_diff(a@, b@),
{
    let mut out: Vec<Statement> = Vec::new();
    if a.same(b) {
        assert(views(out@) =~= Seq::<StatementView>::empty());
        return out;
    }
    let s1 = Statement::DropDomain(
        DropDomain { if_exists: true, name: a.name.dup(), drop_behavior: None },
    );
    let s2 = Statement::CreateDomain(b.dup());
    out.push(s1);
    out.push(s2);
    assert(views(out@) =~= seq![s1@, s2@]);
    out
}

fn contains_label(labels: &Vec<Ident>, label: &Ident) -> (r: bool)
    ensures
        r == views(labels@).contains(label@),
{
    let n = labels.len();
    let mut i: usize = 0;
    while i < n
        invariant
            i <= n,
            n == labels.len(),
            forall|x: int| 0 <= x < i ==> views(labels@)[x] != label@,
        decreases n - i,
    {
        assert(views(labels@)[i as int] == labels@[i as int]@);
        if labels[i].same(label) {
            return true;
        }
        i = i + 1;
    }
    false
}

fn renamed_labels_exec(a: &Vec<Ident>, b: &Vec<Ident>) -> (r: Vec<AlterTypeOperation>)
    requires
        a.len() == b.len(),
    ensures
        views(r@) == renamed_labels(views(a@), views(b@), a.len() as int),
{
    let mut ops: Vec<AlterTypeOperation> = Vec::new();
    assert(views(ops@) =~= Seq::<AlterTypeOperationView>::empty());
    let n = a.len();
    let mut i: usize = 0;
    while i < n
        invariant
            i <= n,
            n == a.len(),
            n == b.len(),
            views(ops@) == renamed_labels(views(a@), views(b@), i as int),
        decreases n - i,
    {
        assert(views(a@)[i as int] == a@[i as int]@);
        assert(views(b@)[i as int] == b@[i as int]@);
        if !a[i].same(&b[i]) {
            let ghost before = ops@;
            let op = AlterTypeOperation::RenameValue { from: a[i].dup(), to: b[i].dup() };
            ops.push(op);
            proof {
                lemma_views_push(before, op);
            }
        }
        i = i + 1;
    }
    ops
}

fn added_labels_exec(a: &Vec<Ident>, b: &Vec<Ident>) -> (r: Vec<AlterTypeOperation>)
    ensures
        views(r@) == added_labels(views(a@), views(b@), 0, 0, None),
{
    let ghost va = views(a@);
    let ghost vb = views(b@);
    let mut ops: Vec<AlterTypeOperation> = Vec::new();
    let mut i: usize = 0;
    let mut prev: Option<Ident> = None;
    let m = b.len();
    let mut j: usize = 0;
    assert(views(ops@) + added_labels(va, vb, 0, 0, None) =~= added_labels(va, vb, 0, 0, None));
    while j < m
        invariant
            j <= m,
            m == b.len(),
            i <= a.len(),
            va == views(a@),
            vb == views(b@),
            views(ops@) + added_labels(va, vb, j as int, i as int, opt_view(prev)) == added_labels(
                va,
                vb,
                0,
                0,
                None,
            ),
        decreases m - j,
    {
        assert(vb[j as int] == b@[j as int]@);
        let ghost before = ops@;
        if i < a.len() {
            assert(va[i as int] == a@[i as int]@);
            if a[i].same(&b[j]) {
                prev = Some(a[i].dup());
                i = i + 1;
            } else {
                let position = match &prev {
                    Some(p) => AddValuePosition::After(p.dup()),
                    None => AddValuePosition::Before(a[i].dup()),
                };
                let op = AlterTypeOperation::AddValue {
                    if_not_exists: false,
                    value: b[j].dup(),
                    position: Some(position),
                };
                ops.push(op);
                proof {
                    lemma_views_push(before, op);
                    assert(views(before).push(op@) + added_labels(
                        va,
                        vb,
                        j + 1,
                        i as int,
                        Some(vb[j as int]),
                    ) =~= views(before) + (seq![op@] + added_labels(
                        va,
                        vb,
                        j + 1,
                        i as int,
                        Some(vb[j as int]),
                    )));
                }
                prev = Some(b[j].dup());
            }
        } else if !contains_label(a, &b[j]) {
            let op = AlterTypeOperation::AddValue {
                if_not_exists: false,
                value: b[j].dup(),
                position: None,
            };
            ops.push(op);
            proof {
                lemma_views_push(before, op);
                assert(views(before).push(op@) + added_labels(
                    va,
                    vb,
                    j + 1,
                    i as int,
                    opt_view(prev),
                ) =~= views(before) + (seq![op@] + added_labels(
                    va,
                    vb,
                    j + 1,
                    i as int,
                    opt_view(prev),
                )));
            }
        }
        j = j + 1;
    }
    assert(views(ops@) + Seq::<AlterTypeOperationView>::empty() =~= views(ops@));
    ops
}

fn alter_type_each_exec(name: &ObjectName, ops: Vec<AlterTypeOperation>) -> (r: Vec<Statement>)
    ensures
        views(r@) == alter_type_each(name@, views(ops@)),
{
    let mut out: Vec<Statement> = Vec::new();
    let n = ops.len();
    let mut i: usize = 0;
    while i < n
        invariant
            i <= n,
            n == ops.len(),
            out.len() == i,
            forall|x: int|
                0 <= x < i ==> (#[trigger] out@[x])@ == StatementView::AlterType(
                    AlterTypeView { name: name@, operation: ops@[x]@ },
                ),
        decreases n - i,
    {
        out.push(Statement::AlterType(AlterType { name: name.dup(), operation: ops[i].dup() }));
        i = i + 1;
    }
    assert(views(out@) =~= alter_type_each(name@, views(ops@)));
    out
}

/// What turns the type `a` into the type `b`.
pub fn compare_create_type(a: &CreateType, b: &CreateType) -> (r: Result<Vec<Statement>, DiffError>)
    ensures
        outcome_view(r) == type_diff(a@, b@),
{
    if a.same(b) {
        let out: Vec<Statement> = Vec::new();
        assert(views(out@) =~= Seq::<StatementView>::empty());
        return Ok(out);
    }
    match (&a.representation, &b.representation) {
        (TypeRepresentation::Enum { labels: la }, TypeRepresentation::Enum { labels: lb }) => {
            if la.len() == lb.len() {
                Ok(alter_type_each_exec(&a.name, renamed_labels_exec(la, lb)))
            } else if la.len() < lb.len() {
                Ok(alter_type_each_exec(&a.name, added_labels_exec(la, lb)))
            } else {
                let sa = Statement::CreateType(a.dup());
                let sb = Statement::CreateType(b.dup());
                fail(DiffErrorKind::RemoveEnumLabel, Some(&sa), Some(&sb))
            }
        },
        _ => {
            let sa = Statement::CreateType(a.dup());
            let sb = Statement::CreateType(b.dup());
            fail(DiffErrorKind::NotImplemented, Some(&sa), Some(&sb))
        },
    }
}

fn nothing() -> (r: Result<Vec<Statement>, DiffError>)
    ensures
        outcome_view(r) == Ok::<Seq<StatementView>, DiffErrorView>(Seq::empty()),
{
    let out: Vec<Statement> = Vec::new();
    assert(views(out@) =~= Seq::<StatementView>::empty());
    Ok(out)
}

/// What turns the statement `a` into the statement `b` of the same object.
pub fn diff_statement(a: &Statement, b: &Statement) -> (r: Result<Vec<Statement>, DiffError>)
    ensures
        outcome_view(r) == statement_diff(a@, b@),
{
    match a {
        Statement::CreateTable(x) => match b {
            Statement::CreateTable(y) => Ok(compare_create_table(x, y)),
            _ => nothing(),
        },
        Statement::CreateIndex(x) => match b {
            Statement::CreateIndex(y) => compare_create_index(x, y),
            _ => nothing(),
        },
        Statement::CreateType(x) => match b {
            Statement::CreateType(y) => compare_create_type(x, y),
            _ => nothing(),
        },
        Statement::CreateDomain(x) => match b {
            Statement::CreateDomain(y) => Ok(compare_create_domain(x, y)),
            _ => nothing(),
        },
        Statement::CreateExtension(_) => nothing(),
        _ => fail(DiffErrorKind::NotImplemented, Some(a), Some(b)),
    }
}

fn one(s: Statement) -> (r: Result<Vec<Statement>, DiffError>)
    ensures
        outcome_view(r) == Ok::<Seq<StatementView>, DiffErrorView>(seq![s@]),
{
    let mut out: Vec<Statement> = Vec::new();
    out.push(s);
    assert(views(out@) =~= seq![s@]);
    Ok(out)
}

fn removal_exec(a: &Statement) -> (r: Result<Vec<Statement>, DiffError>)
    ensures
        outcome_view(r) == removal(a@),
{
    match a {
        Statement::CreateTable(x) => one(plain_drop_exec(ObjectType::Table, x.if_not_exists, &x.name)),
        Statement::CreateIndex(x) => match &x.name {
            Some(name) => one(plain_drop_exec(ObjectType::Index, x.if_not_exists, name)),
            None => fail(DiffErrorKind::DropUnnamedIndex, Some(a), None),
        },
        Statement::CreateType(x) => one(plain_drop_exec(ObjectType::Type, false, &x.name)),
        Statement::CreateExtension(x) => {
            let mut names: Vec<Ident> = Vec::new();
            names.push(x.name.dup());
            assert(views(names@) =~= seq![x.name@]);
            one(
                Statement::DropExtension(
                    DropExtension {
                        names,
                        if_exists: x.if_not_exists,
                        cascade_or_restrict: if x.cascade {
                            Some(DropBehavior::Cascade)
                        } else {
                            None
                        },
                    },
                ),
            )
        },
        Statement::CreateDomain(x) => one(
            Statement::DropDomain(
                DropDomain { if_exists: true, name: x.name.dup(), drop_behavior: None },
            ),
        ),
        _ => fail(DiffErrorKind::NotImplemented, Some(a), None),
    }
}

fn entry_diff_exec(a: &Statement, other: &Vec<Statement>) -> (r: Result<Vec<Statement>, DiffError>)
    ensures
        outcome_view(r) == entry_diff(a@, views(other@)),
{
    if !is_create_exec(a) {
        return fail(DiffErrorKind::NotImplemented, Some(a), None);
    }
    match find(other, a) {
        Some(k) => {
            assert(views(other@)[k as int] == other@[k as int]@);
            diff_statement(a, &other[k])
        },
        None => removal_exec(a),
    }
}

/// Moves the statements of `more` to the end of `out`.
pub fn append(out: &mut Vec<Statement>, more: Vec<Statement>)
    ensures
        views(final(out)@) == views(old(out)@) + views(more@),
{
    let mut more = more;
    let ghost all = more@;
    out.append(&mut more);
    assert(views(out@) =~= views(old(out)@) + views(all));
}

/// The statements that turn the schema `a` into the schema `b`.
pub fn diff_statements(a: &Vec<Statement>, b: &Vec<Statement>) -> (r: Result<
    Vec<Statement>,
    DiffError,
>)
    ensures
        outcome_view(r) == tree_diff(views(a@), views(b@)),
{
    let ghost va = views(a@);
    let ghost vb = views(b@);
    let mut out: Vec<Statement> = Vec::new();
    assert(views(out@) =~= Seq::<StatementView>::empty());
    let n = a.len();
    let mut i: usize = 0;
    while i < n
        invariant
            i <= n,
            n == a.len(),
            va == views(a@),
            vb == views(b@),
            changed(va, vb, i as int) == Ok::<Seq<StatementView>, DiffErrorView>(views(out@)),
        decreases n - i,
    {
        assert(va[i as int] == a@[i as int]@);
        match entry_diff_exec(&a[i], b) {
            Ok(more) => {
                append(&mut out, more);
            },
            Err(e) => {
                proof {
                    lemma_changed_fails(va, vb, i + 1, n as int);
                }
                return Err(e);
            },
        }
        i = i + 1;
    }
    let ghost front = views(out@);
    let m = b.len();
    let mut j: usize = 0;
    let mut back: Vec<Statement> = Vec::new();
    assert(views(back@) =~= Seq::<StatementView>::empty());
    while j < m
        invariant
            j <= m,
            m == b.len(),
            va == views(a@),
            vb == views(b@),
            created(va, vb, j as int) == Ok::<Seq<StatementView>, DiffErrorView>(views(back@)),
            changed(va, vb, va.len() as int) == Ok::<Seq<StatementView>, DiffErrorView>(
                views(out@),
            ),
        decreases m - j,
    {
        assert(vb[j as int] == b@[j as int]@);
        if !is_create_exec(&b[j]) {
            proof {
                lemma_created_fails(va, vb, j + 1, m as int);
            }
            return fail(DiffErrorKind::NotImplemented, Some(&b[j]), None);
        }
        if find(a, &b[j]).is_none() {
            let ghost before = back@;
            let s = b[j].dup();
            back.push(s);
            proof {
                lemma_views_push(before, s);
            }
        }
        j = j + 1;
    }
    append(&mut out, back);
    Ok(out)
}

/// Once a statement of `a` cannot be compared, neither can any longer part of `a`.
pub proof fn lemma_changed_fails(a: Seq<StatementView>, b: Seq<StatementView>, k: int, n: int)
    requires
        0 <= k <= n,
        changed(a, b, k) is Err,
    ensures
        changed(a, b, n) == changed(a, b, k),
    decreases n - k,
{
    if k < n {
        lemma_changed_fails(a, b, k, n - 1);
    }
}

/// Once a statement of `b` is of no kind that is compared, no longer part of `b` gives statements.
pub proof fn lemma_created_fails(a: Seq<StatementView>, b: Seq<StatementView>, k: int, n: int)
    requires
        0 <= k <= n,
        created(a, b, k) is Err,
    ensures
        created(a, b, n) == created(a, b, k),
    decreases n - k,
{
    if k < n {
        lemma_created_fails(a, b, k, n - 1);
    }
}

} // verus!
