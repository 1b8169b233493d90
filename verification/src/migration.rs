//! Applies the statements of a migration to a schema.
//!
//! Each object of the schema is looked up in the migration: the first
//! statement that drops or alters it is applied to it. The objects that the
//! migration creates are added after those of the schema.

use crate::ast::{
    AddValuePosition, AddValuePositionView, AlterColumnOperation, AlterColumnOperationView,
    AlterTableOperation, AlterTableOperationView, AlterType, AlterTypeOperation,
    AlterTypeOperationView, AlterTypeView, ColumnDef, ColumnDefView, ColumnOption, ColumnOptionDef,
    ColumnOptionDefView, ColumnOptionView, CreateTable, CreateTableView, CreateType, CreateTypeView,
    GeneratedAs, Ident, IdentView, ObjectName, ObjectType, Statement, StatementView,
    TypeRepresentation, TypeRepresentationView, dup_opt_vec,
};
use crate::diff::{append, attached, is_create, push_attached};
use crate::printer::{
    alter_type_operation_sql, alter_type_operation_string, operation_sql, operation_string,
};
use vstd::string::*;
use crate::model::{
    all_kept, contains, dup_opt, dup_vec, first_index, kept, lemma_views_push, opt_view, position,
    views, Model,
};
use vstd::prelude::*;

verus! {

/// Why a migration could not be applied.
#[derive(Debug, Clone, PartialEq, Eq)]
#[non_exhaustive]
pub enum MigrateErrorKind {
    /// an index without a name cannot be dropped
    UnnamedIndex,
    /// the operation of `ALTER TABLE` is not one that is applied
    AlterTableOpNotImplemented(AlterTableOperation),
    /// the operation of `ALTER TYPE` does not fit the type
    AlterTypeInvalidOp(AlterTypeOperation),
    /// the statement is of a kind that is not applied
    NotImplemented,
}

pub ghost enum MigrateErrorKindView {
    UnnamedIndex,
    AlterTableOpNotImplemented(AlterTableOperationView),
    AlterTypeInvalidOp(AlterTypeOperationView),
    NotImplemented,
}

impl View for MigrateErrorKind {
    type V = MigrateErrorKindView;

    open spec fn view(&self) -> MigrateErrorKindView {
        match self {
            MigrateErrorKind::UnnamedIndex => MigrateErrorKindView::UnnamedIndex,
            MigrateErrorKind::AlterTableOpNotImplemented(op) => {
                MigrateErrorKindView::AlterTableOpNotImplemented(op@)
            },
            MigrateErrorKind::AlterTypeInvalidOp(op) => MigrateErrorKindView::AlterTypeInvalidOp(
                op@,
            ),
            MigrateErrorKind::NotImplemented => MigrateErrorKindView::NotImplemented,
        }
    }
}

/// A failed migration, with the statement of the schema and the statement of
/// the migration that it failed on.
#[derive(Debug, Clone, PartialEq, Eq)]
pub struct MigrateError {
    pub kind: MigrateErrorKind,
    pub statement_a: Option<Statement>,
    pub statement_b: Option<Statement>,
}

pub ghost struct MigrateErrorView {
    pub kind: MigrateErrorKindView,
    pub statement_a: Option<StatementView>,
    pub statement_b: Option<StatementView>,
}

impl View for MigrateError {
    type V = MigrateErrorView;

    open spec fn view(&self) -> MigrateErrorView {
        MigrateErrorView {
            kind: self.kind@,
            statement_a: opt_view(self.statement_a),
            statement_b: opt_view(self.statement_b),
        }
    }
}

/// Why the migration failed, in words.
pub open spec fn reason(kind: MigrateErrorKindView) -> Seq<char> {
    match kind {
        MigrateErrorKindView::UnnamedIndex => "can't migrate unnamed index"@,
        MigrateErrorKindView::AlterTableOpNotImplemented(op) => "ALTER TABLE operation \""@
            + operation_sql(op) + "\" not yet supported"@,
        MigrateErrorKindView::AlterTypeInvalidOp(op) => "invalid ALTER TYPE operation \""@
            + alter_type_operation_sql(op) + "\""@,
        MigrateErrorKindView::NotImplemented => "not yet supported"@,
    }
}

/// The error in words: the reason, then the statements it is about.
pub open spec fn error_text(e: MigrateErrorView) -> Seq<char> {
    "Oops, we couldn't migrate that: "@ + reason(e.kind) + attached(
        "\n\nSubject:\n"@,
        e.statement_a,
    ) + attached("\n\nMigration:\n"@, e.statement_b)
}

impl MigrateError {
    /// The error in words.
    pub fn to_string(&self) -> (r: String)
        ensures
            r@ == error_text(self@),
    {
        let mut out = String::new();
        out.append("Oops, we couldn't migrate that: ");
        match &self.kind {
            MigrateErrorKind::UnnamedIndex => {
                out.append("can't migrate unnamed index");
            },
            MigrateErrorKind::AlterTableOpNotImplemented(op) => {
                out.append("ALTER TABLE operation \"");
                let t = operation_string(op);
                out.append(t.as_str());
                out.append("\" not yet supported");
            },
            MigrateErrorKind::AlterTypeInvalidOp(op) => {
                out.append("invalid ALTER TYPE operation \"");
                let t = alter_type_operation_string(op);
                out.append(t.as_str());
                out.append("\"");
            },
            MigrateErrorKind::NotImplemented => {
                out.append("not yet supported");
            },
        }
        assert(out@ =~= "Oops, we couldn't migrate that: "@ + reason(self@.kind));
        push_attached(&mut out, "\n\nSubject:\n", &self.statement_a);
        push_attached(&mut out, "\n\nMigration:\n", &self.statement_b);
        assert(out@ =~= error_text(self@));
        out
    }
}

/// The failed migration of the given kind, about the given statements.
pub open spec fn failure<T>(
    kind: MigrateErrorKindView,
    a: Option<StatementView>,
    b: Option<StatementView>,
) -> Result<T, MigrateErrorView> {
    Err(MigrateErrorView { kind, statement_a: a, statement_b: b })
}

// ---------------------------------------------------------------------
// columns

/// Whether the option is `NOT NULL`.
pub open spec fn is_not_null(o: ColumnOptionDefView) -> bool {
    o.option is NotNull
}

/// Whether the option gives a default.
pub open spec fn is_default(o: ColumnOptionDefView) -> bool {
    o.option is Default
}

/// Whether the option makes the column a generated one.
pub open spec fn is_generated(o: ColumnOptionDefView) -> bool {
    o.option is Generated
}

/// An option without a constraint name.
pub open spec fn unnamed(option: ColumnOptionView) -> ColumnOptionDefView {
    ColumnOptionDefView { name: None, option }
}

/// The column after `ALTER COLUMN ... <op>`.
pub open spec fn altered_column(c: ColumnDefView, op: AlterColumnOperationView) -> ColumnDefView {
    match op {
        AlterColumnOperationView::SetNotNull => ColumnDefView {
            options: c.options.push(unnamed(ColumnOptionView::NotNull)),
            ..c
        },
        AlterColumnOperationView::DropNotNull => ColumnDefView {
            options: all_kept(c.options, |o: ColumnOptionDefView| !is_not_null(o)),
            ..c
        },
        AlterColumnOperationView::SetDefault { value } => ColumnDefView {
            options: all_kept(c.options, |o: ColumnOptionDefView| !is_default(o)).push(
                unnamed(ColumnOptionView::Default(value)),
            ),
            ..c
        },
        AlterColumnOperationView::DropDefault => ColumnDefView {
            options: all_kept(c.options, |o: ColumnOptionDefView| !is_default(o)),
            ..c
        },
        AlterColumnOperationView::SetDataType { data_type, using } => ColumnDefView {
            data_type: Some(data_type),
            ..c
        },
        AlterColumnOperationView::AddGenerated { generated_as, sequence_options } => ColumnDefView {
            options: all_kept(c.options, |o: ColumnOptionDefView| !is_generated(o)).push(
                unnamed(
                    ColumnOptionView::Generated {
                        generated_as: match generated_as {
                            Some(g) => g,
                            None => GeneratedAs::Always,
                        },
                        sequence_options,
                        expression: None,
                    },
                ),
            ),
            ..c
        },
    }
}

/// The table after one operation of `ALTER TABLE`.
pub open spec fn altered_table(t: CreateTableView, op: AlterTableOperationView) -> Result<
    CreateTableView,
    MigrateErrorView,
> {
    match op {
        AlterTableOperationView::AddColumn { column_def, .. } => Ok(
            CreateTableView { columns: t.columns.push(column_def), ..t },
        ),
        AlterTableOperationView::DropColumn { column_name, .. } => Ok(
            CreateTableView {
                columns: all_kept(t.columns, |c: ColumnDefView| c.name != column_name),
                ..t
            },
        ),
        AlterTableOperationView::AlterColumn { column_name, op } => Ok(
            CreateTableView {
                columns: t.columns.map_values(
                    |c: ColumnDefView|
                        if c.name == column_name {
                            altered_column(c, op)
                        } else {
                            c
                        },
                ),
                ..t
            },
        ),
        AlterTableOperationView::RenameColumn { old_column_name, new_column_name } => Ok(
            CreateTableView {
                columns: t.columns.map_values(
                    |c: ColumnDefView|
                        if c.name == old_column_name {
                            ColumnDefView { name: new_column_name, ..c }
                        } else {
                            c
                        },
                ),
                ..t
            },
        ),
        AlterTableOperationView::RenameTable { table_name } => Ok(
            CreateTableView { name: table_name, ..t },
        ),
        AlterTableOperationView::Other(_) => failure(
            MigrateErrorKindView::AlterTableOpNotImplemented(op),
            Some(StatementView::CreateTable(t)),
            None,
        ),
    }
}

/// The table after the first `n` operations, one after the other; the
/// first operation that cannot be applied ends it with its error.
pub open spec fn altered_by(t: CreateTableView, ops: Seq<AlterTableOperationView>, n: int) -> Result<
    CreateTableView,
    MigrateErrorView,
>
    decreases n,
{
    if n <= 0 {
        Ok(t)
    } else {
        match altered_by(t, ops, n - 1) {
            Ok(u) => altered_table(u, ops[n - 1]),
            Err(e) => Err(e),
        }
    }
}

// ---------------------------------------------------------------------
// types

/// The name with its last part replaced.
pub open spec fn renamed(name: Seq<IdentView>, new_name: IdentView) -> Seq<IdentView> {
    if name.len() == 0 {
        seq![new_name]
    } else {
        name.drop_last().push(new_name)
    }
}

/// The labels with `value` added: before or after the first label that the
/// position names, or at the end. Where no label has the name given, `value`
/// comes first if it was to stand before it, and last if after it.
pub open spec fn with_label(
    labels: Seq<IdentView>,
    value: IdentView,
    position: Option<AddValuePositionView>,
) -> Seq<IdentView> {
    match position {
        Some(AddValuePositionView::Before(x)) => match first_index(labels, x, 0) {
            Some(k) => labels.insert(k, value),
            None => labels.insert(0, value),
        },
        Some(AddValuePositionView::After(x)) => match first_index(labels, x, 0) {
            Some(k) => labels.insert(k + 1, value),
            None => labels.push(value),
        },
        None => labels.push(value),
    }
}

/// The labels with every `from` replaced by `to`.
pub open spec fn with_renamed_label(labels: Seq<IdentView>, from: IdentView, to: IdentView) -> Seq<
    IdentView,
> {
    labels.map_values(
        |l: IdentView|
            if l == from {
                to
            } else {
                l
            },
    )
}

/// The type after `ALTER TYPE`. Labels can be added and renamed in an enum only.
pub open spec fn altered_type(t: CreateTypeView, m: AlterTypeView) -> Result<
    CreateTypeView,
    MigrateErrorView,
> {
    match m.operation {
        AlterTypeOperationView::Rename { new_name } => Ok(
            CreateTypeView { name: renamed(t.name, new_name), ..t },
        ),
        AlterTypeOperationView::AddValue { value, position, .. } => match t.representation {
            TypeRepresentationView::Enum { labels } => Ok(
                CreateTypeView {
                    representation: TypeRepresentationView::Enum {
                        labels: with_label(labels, value, position),
                    },
                    ..t
                },
            ),
            TypeRepresentationView::Composite { .. } => failure(
                MigrateErrorKindView::AlterTypeInvalidOp(m.operation),
                Some(StatementView::CreateType(t)),
                Some(StatementView::AlterType(m)),
            ),
        },
        AlterTypeOperationView::RenameValue { from, to } => match t.representation {
            TypeRepresentationView::Enum { labels } => Ok(
                CreateTypeView {
                    representation: TypeRepresentationView::Enum {
                        labels: with_renamed_label(labels, from, to),
                    },
                    ..t
                },
            ),
            TypeRepresentationView::Composite { .. } => failure(
                MigrateErrorKindView::AlterTypeInvalidOp(m.operation),
                Some(StatementView::CreateType(t)),
                Some(StatementView::AlterType(m)),
            ),
        },
    }
}

// ---------------------------------------------------------------------
// statements

/// Whether the statement `m` of a migration drops or alters the object that `a` creates.
pub open spec fn targets(m: StatementView, a: StatementView) -> bool {
    match a {
        StatementView::CreateTable(t) => match m {
            StatementView::AlterTable(x) => x.name == t.name,
            StatementView::Drop(d) => d.object_type == ObjectType::Table && d.names.len() == 1
                && d.names[0] == t.name,
            _ => false,
        },
        StatementView::CreateIndex(i) => match m {
            StatementView::Drop(d) => d.object_type == ObjectType::Index && d.names.len() == 1
                && Some(d.names[0]) == i.name,
            _ => false,
        },
        StatementView::CreateType(t) => match m {
            StatementView::AlterType(x) => x.name == t.name,
            StatementView::Drop(d) => d.object_type == ObjectType::Type && d.names.len() == 1
                && d.names[0] == t.name,
            _ => false,
        },
        StatementView::CreateExtension(e) => match m {
            StatementView::DropExtension(d) => d.names.contains(e.name),
            _ => false,
        },
        StatementView::CreateDomain(x) => match m {
            StatementView::DropDomain(d) => d.name == x.name,
            _ => false,
        },
        _ => false,
    }
}

/// The place, from `from` on, of the first statement of the migration that targets `a`.
pub open spec fn find_target(m: Seq<StatementView>, a: StatementView, from: int) -> Option<int>
    decreases m.len() - from,
{
    if from < 0 || from >= m.len() {
        None
    } else if targets(m[from], a) {
        Some(from)
    } else {
        find_target(m, a, from + 1)
    }
}

/// What one statement of a migration makes of one statement of the schema:
/// the statement as it is afterwards, or `None` where it is dropped.
pub open spec fn applied(a: StatementView, m: StatementView) -> Result<
    Option<StatementView>,
    MigrateErrorView,
> {
    match a {
        StatementView::CreateTable(t) => match m {
            StatementView::AlterTable(x) => if x.name == t.name {
                match altered_by(t, x.operations, x.operations.len() as int) {
                    Ok(u) => Ok(Some(StatementView::CreateTable(u))),
                    Err(e) => Err(e),
                }
            } else {
                Ok(Some(a))
            },
            StatementView::Drop(d) => if d.object_type == ObjectType::Table && d.names.contains(
                t.name,
            ) {
                Ok(None)
            } else {
                Ok(Some(a))
            },
            _ => failure(MigrateErrorKindView::NotImplemented, Some(a), Some(m)),
        },
        StatementView::CreateIndex(i) => match m {
            StatementView::Drop(d) => match i.name {
                Some(name) => if d.object_type == ObjectType::Index && d.names.contains(name) {
                    Ok(None)
                } else {
                    Ok(Some(a))
                },
                None => failure(MigrateErrorKindView::UnnamedIndex, Some(a), Some(m)),
            },
            _ => failure(MigrateErrorKindView::NotImplemented, Some(a), Some(m)),
        },
        StatementView::CreateType(t) => match m {
            StatementView::AlterType(x) => if x.name == t.name {
                match altered_type(t, x) {
                    Ok(u) => Ok(Some(StatementView::CreateType(u))),
                    Err(e) => Err(e),
                }
            } else {
                Ok(Some(a))
            },
            StatementView::Drop(d) => if d.object_type == ObjectType::Type && d.names.contains(
                t.name,
            ) {
                Ok(None)
            } else {
                Ok(Some(a))
            },
            _ => failure(MigrateErrorKindView::NotImplemented, Some(a), Some(m)),
        },
        StatementView::CreateExtension(e) => match m {
            StatementView::DropExtension(d) => if d.names.contains(e.name) {
                Ok(None)
            } else {
                Ok(Some(a))
            },
            _ => failure(MigrateErrorKindView::NotImplemented, Some(a), Some(m)),
        },
        StatementView::CreateDomain(x) => match m {
            StatementView::DropDomain(d) => if d.name == x.name {
                Ok(None)
            } else {
                Ok(Some(a))
            },
            _ => failure(MigrateErrorKindView::NotImplemented, Some(a), Some(m)),
        },
        _ => failure(MigrateErrorKindView::NotImplemented, Some(a), Some(m)),
    }
}

/// What the migration makes of one statement of the schema: the first
/// statement of the migration that targets it is applied, and without one
/// the statement stays as it is. Only statements that create an object can
/// stand in a schema.
pub open spec fn rewritten(a: StatementView, m: Seq<StatementView>) -> Result<
    Option<StatementView>,
    MigrateErrorView,
> {
    if !is_create(a) {
        failure(MigrateErrorKindView::NotImplemented, Some(a), None)
    } else {
        match find_target(m, a, 0) {
            Some(k) => applied(a, m[k]),
            None => Ok(Some(a)),
        }
    }
}

/// What the migration makes of the first `n` statements of the schema.
pub open spec fn rewritten_all(a: Seq<StatementView>, m: Seq<StatementView>, n: int) -> Result<
    Seq<StatementView>,
    MigrateErrorView,
>
    decreases n,
{
    if n <= 0 {
        Ok(Seq::empty())
    } else {
        match rewritten_all(a, m, n - 1) {
            Ok(front) => match rewritten(a[n - 1], m) {
                Ok(Some(s)) => Ok(front.push(s)),
                Ok(None) => Ok(front),
                Err(e) => Err(e),
            },
            Err(e) => Err(e),
        }
    }
}

/// The objects that the migration creates.
pub open spec fn creations(m: Seq<StatementView>) -> Seq<StatementView> {
    all_kept(m, |s: StatementView| is_create(s))
}

/// The schema `a` after the migration `m`: the objects of `a` as the
/// migration leaves them, in their order, then the objects that the
/// migration creates, in their order.
pub open spec fn tree_migrate(a: Seq<StatementView>, m: Seq<StatementView>) -> Result<
    Seq<StatementView>,
    MigrateErrorView,
> {
    match rewritten_all(a, m, a.len() as int) {
        Ok(front) => Ok(front + creations(m)),
        Err(e) => Err(e),
    }
}

// ---------------------------------------------------------------------

fn fail<T>(kind: MigrateErrorKind, a: Option<&Statement>, b: Option<&Statement>) -> (r: Result<
    T,
    MigrateError,
>)
    ensures
        r is Err,
        r->Err_0@ == (MigrateErrorView {
            kind: kind@,
            statement_a: match a {
                Some(s) => Some(s@),
                None => None,
            },
            statement_b: match b {
                Some(s) => Some(s@),
                None => None,
            },
        }),
{
    Err(
        MigrateError {
            kind,
            statement_a: match a {
                Some(s) => Some(s.dup()),
                None => None,
            },
            statement_b: match b {
                Some(s) => Some(s.dup()),
                None => None,
            },
        },
    )
}

/// The options of a column but for those of one kind.
fn options_without(options: &Vec<ColumnOptionDef>, kind: u8) -> (r: Vec<ColumnOptionDef>)
    requires
        kind < 3,
    ensures
        kind == 0 ==> views(r@) == all_kept(
            views(options@),
            |o: ColumnOptionDefView| !is_not_null(o),
        ),
        kind == 1 ==> views(r@) == all_kept(
            views(options@),
            |o: ColumnOptionDefView| !is_default(o),
        ),
        kind == 2 ==> views(r@) == all_kept(
            views(options@),
            |o: ColumnOptionDefView| !is_generated(o),
        ),
{
    let ghost vo = views(options@);
    let ghost keep0 = |o: ColumnOptionDefView| !is_not_null(o);
    let ghost keep1 = |o: ColumnOptionDefView| !is_default(o);
    let ghost keep2 = |o: ColumnOptionDefView| !is_generated(o);
    let mut out: Vec<ColumnOptionDef> = Vec::new();
    assert(views(out@) =~= Seq::<ColumnOptionDefView>::empty());
    let n = options.len();
    let mut i: usize = 0;
    while i < n
        invariant
            i <= n,
            n == options.len(),
            kind < 3,
            vo == views(options@),
            keep0 == |o: ColumnOptionDefView| !is_not_null(o),
            keep1 == |o: ColumnOptionDefView| !is_default(o),
            keep2 == |o: ColumnOptionDefView| !is_generated(o),
            kind == 0 ==> views(out@) == kept(vo, keep0, i as int),
            kind == 1 ==> views(out@) == kept(vo, keep1, i as int),
            kind == 2 ==> views(out@) == kept(vo, keep2, i as int),
        decreases n - i,
    {
        assert(vo[i as int] == options@[i as int]@);
        let o = &options[i];
        let drop = match o.option {
            ColumnOption::NotNull => kind == 0,
            ColumnOption::Default(_) => kind == 1,
            ColumnOption::Generated { .. } => kind == 2,
            ColumnOption::Other(_) => false,
        };
        if !drop {
            let ghost before = out@;
            let c = o.dup();
            out.push(c);
            proof {
                lemma_views_push(before, c);
            }
        }
        i = i + 1;
    }
    out
}

fn push_option(options: &mut Vec<ColumnOptionDef>, option: ColumnOption)
    ensures
        views(final(options)@) == views(old(options)@).push(unnamed(option@)),
{
    let d = ColumnOptionDef { name: None, option };
    options.push(d);
    proof {
        lemma_views_push(old(options)@, d);
    }
}

/// The column after `ALTER COLUMN ... <op>`.
pub fn alter_column(c: &ColumnDef, op: &AlterColumnOperation) -> (r: ColumnDef)
    ensures
        r@ == altered_column(c@, op@),
{
    match op {
        AlterColumnOperation::SetNotNull => {
            let mut options = dup_vec(&c.options);
            push_option(&mut options, ColumnOption::NotNull);
            ColumnDef { name: c.name.dup(), data_type: dup_opt(&c.data_type), options }
        },
        AlterColumnOperation::DropNotNull => {
            let options = options_without(&c.options, 0);
            ColumnDef { name: c.name.dup(), data_type: dup_opt(&c.data_type), options }
        },
        AlterColumnOperation::SetDefault { value } => {
            let mut options = options_without(&c.options, 1);
            push_option(&mut options, ColumnOption::Default(value.dup()));
            ColumnDef { name: c.name.dup(), data_type: dup_opt(&c.data_type), options }
        },
        AlterColumnOperation::DropDefault => {
            let options = options_without(&c.options, 1);
            ColumnDef { name: c.name.dup(), data_type: dup_opt(&c.data_type), options }
        },
        AlterColumnOperation::SetDataType { data_type, using: _ } => {
            ColumnDef {
                name: c.name.dup(),
                data_type: Some(data_type.dup()),
                options: dup_vec(&c.options),
            }
        },
        AlterColumnOperation::AddGenerated { generated_as, sequence_options } => {
            let mut options = options_without(&c.options, 2);
            push_option(
                &mut options,
                ColumnOption::Generated {
                    generated_as: match generated_as {
                        Some(g) => *g,
                        None => GeneratedAs::Always,
                    },
                    sequence_options: dup_opt_vec(sequence_options),
                    expression: None,
                },
            );
            ColumnDef { name: c.name.dup(), data_type: dup_opt(&c.data_type), options }
        },
    }
}

fn columns_without(columns: &Vec<ColumnDef>, name: &Ident) -> (r: Vec<ColumnDef>)
    ensures
        views(r@) == all_kept(views(columns@), |c: ColumnDefView| c.name != name@),
{
    let ghost vc = views(columns@);
    let ghost keep = |c: ColumnDefView| c.name != name@;
    let mut out: Vec<ColumnDef> = Vec::new();
    assert(views(out@) =~= Seq::<ColumnDefView>::empty());
    let n = columns.len();
    let mut i: usize = 0;
    while i < n
        invariant
            i <= n,
            n == columns.len(),
            vc == views(columns@),
            keep == |c: ColumnDefView| c.name != name@,
            views(out@) == kept(vc, keep, i as int),
        decreases n - i,
    {
        assert(vc[i as int] == columns@[i as int]@);
        if !columns[i].name.same(name) {
            let ghost before = out@;
            let c = columns[i].dup();
            out.push(c);
            proof {
                lemma_views_push(before, c);
            }
        }
        i = i + 1;
    }
    out
}

fn columns_altered(columns: &Vec<ColumnDef>, name: &Ident, op: &AlterColumnOperation) -> (r: Vec<
    ColumnDef,
>)
    ensures
        views(r@) == views(columns@).map_values(
            |c: ColumnDefView|
                if c.name == name@ {
                    altered_column(c, op@)
                } else {
                    c
                },
        ),
{
    let mut out: Vec<ColumnDef> = Vec::new();
    let n = columns.len();
    let mut i: usize = 0;
    while i < n
        invariant
            i <= n,
            n == columns.len(),
            out.len() == i,
            forall|x: int|
                0 <= x < i ==> (#[trigger] out@[x])@ == (if columns@[x]@.name == name@ {
                    altered_column(columns@[x]@, op@)
                } else {
                    columns@[x]@
                }),
        decreases n - i,
    {
        let c = if columns[i].name.same(name) {
            alter_column(&columns[i], op)
        } else {
            columns[i].dup()
        };
        out.push(c);
        i = i + 1;
    }
    assert(views(out@) =~= views(columns@).map_values(
        |c: ColumnDefView|
            if c.name == name@ {
                altered_column(c, op@)
            } else {
                c
            },
    ));
    out
}

fn columns_renamed(columns: &Vec<ColumnDef>, old_name: &Ident, new_name: &Ident) -> (r: Vec<
    ColumnDef,
>)
    ensures
        views(r@) == views(columns@).map_values(
            |c: ColumnDefView|
                if c.name == old_name@ {
                    ColumnDefView { name: new_name@, ..c }
                } else {
                    c
                },
        ),
{
    let mut out: Vec<ColumnDef> = Vec::new();
    let n = columns.len();
    let mut i: usize = 0;
    while i < n
        invariant
            i <= n,
            n == columns.len(),
            out.len() == i,
            forall|x: int|
                0 <= x < i ==> (#[trigger] out@[x])@ == (if columns@[x]@.name == old_name@ {
                    ColumnDefView { name: new_name@, ..columns@[x]@ }
                } else {
                    columns@[x]@
                }),
        decreases n - i,
    {
        let c = if columns[i].name.same(old_name) {
            ColumnDef {
                name: new_name.dup(),
                data_type: dup_opt(&columns[i].data_type),
                options: dup_vec(&columns[i].options),
            }
        } else {
            columns[i].dup()
        };
        out.push(c);
        i = i + 1;
    }
    assert(views(out@) =~= views(columns@).map_values(
        |c: ColumnDefView|
            if c.name == old_name@ {
                ColumnDefView { name: new_name@, ..c }
            } else {
                c
            },
    ));
    out
}

/// The table after one operation of `ALTER TABLE`.
pub fn alter_table(t: CreateTable, op: &AlterTableOperation) -> (r: Result<CreateTable, MigrateError>)
    ensures
        match r {
            Ok(u) => altered_table(t@, op@) == Ok::<CreateTableView, MigrateErrorView>(u@),
            Err(e) => altered_table(t@, op@) == Err::<CreateTableView, MigrateErrorView>(e@),
        },
{
    match op {
        AlterTableOperation::AddColumn { column_def, .. } => {
            let mut columns = t.columns;
            let ghost before = columns@;
            let c = column_def.dup();
            columns.push(c);
            proof {
                lemma_views_push(before, c);
            }
            Ok(
                CreateTable {
                    name: t.name,
                    columns,
                    constraints: t.constraints,
                    if_not_exists: t.if_not_exists,
                    on_cluster: t.on_cluster,
                },
            )
        },
        AlterTableOperation::DropColumn { column_name, .. } => {
            let columns = columns_without(&t.columns, column_name);
            Ok(
                CreateTable {
                    name: t.name,
                    columns,
                    constraints: t.constraints,
                    if_not_exists: t.if_not_exists,
                    on_cluster: t.on_cluster,
                },
            )
        },
        AlterTableOperation::AlterColumn { column_name, op } => {
            let columns = columns_altered(&t.columns, column_name, op);
            Ok(
                CreateTable {
                    name: t.name,
                    columns,
                    constraints: t.constraints,
                    if_not_exists: t.if_not_exists,
                    on_cluster: t.on_cluster,
                },
            )
        },
        AlterTableOperation::RenameColumn { old_column_name, new_column_name } => {
            let columns = columns_renamed(&t.columns, old_column_name, new_column_name);
            Ok(
                CreateTable {
                    name: t.name,
                    columns,
                    constraints: t.constraints,
                    if_not_exists: t.if_not_exists,
                    on_cluster: t.on_cluster,
                },
            )
        },
        AlterTableOperation::RenameTable { table_name } => {
            Ok(
                CreateTable {
                    name: table_name.dup(),
                    columns: t.columns,
                    constraints: t.constraints,
                    if_not_exists: t.if_not_exists,
                    on_cluster: t.on_cluster,
                },
            )
        },
        AlterTableOperation::Other(_) => {
            let s = Statement::CreateTable(t);
            fail(MigrateErrorKind::AlterTableOpNotImplemented(op.dup()), Some(&s), None)
        },
    }
}

/// The table after the operations of `ALTER TABLE`, one after the other.
pub fn migrate_alter_table(t: CreateTable, ops: &Vec<AlterTableOperation>) -> (r: Result<
    CreateTable,
    MigrateError,
>)
    ensures
        match r {
            Ok(u) => altered_by(t@, views(ops@), ops.len() as int) == Ok::<
                CreateTableView,
                MigrateErrorView,
            >(u@),
            Err(e) => altered_by(t@, views(ops@), ops.len() as int) == Err::<
                CreateTableView,
                MigrateErrorView,
            >(e@),
        },
{
    let ghost start = t@;
    let ghost vo = views(ops@);
    let mut table = t;
    let n = ops.len();
    let mut i: usize = 0;
    while i < n
        invariant
            i <= n,
            n == ops.len(),
            vo == views(ops@),
            start == t@,
            altered_by(start, vo, i as int) == Ok::<CreateTableView, MigrateErrorView>(table@),
        decreases n - i,
    {
        assert(vo[i as int] == ops@[i as int]@);
        let ghost tv = table@;
        match alter_table(table, &ops[i]) {
            Ok(u) => {
                table = u;
            },
            Err(e) => {
                proof {
                    assert(altered_by(start, vo, i + 1) == altered_table(tv, vo[i as int]));
                    lemma_altered_by_fails(start, vo, i + 1, n as int);
                }
                return Err(e);
            },
        }
        i = i + 1;
    }
    Ok(table)
}

/// Once an operation cannot be applied, no longer run of operations can.
pub proof fn lemma_altered_by_fails(
    t: CreateTableView,
    ops: Seq<AlterTableOperationView>,
    k: int,
    n: int,
)
    requires
        0 <= k <= n,
        altered_by(t, ops, k) is Err,
    ensures
        altered_by(t, ops, n) == altered_by(t, ops, k),
    decreases n - k,
{
    if k < n {
        lemma_altered_by_fails(t, ops, k, n - 1);
    }
}

fn renamed_exec(name: &ObjectName, new_name: &Ident) -> (r: ObjectName)
    ensures
        r@ == renamed(name@, new_name@),
{
    let mut parts = dup_vec(&name.parts);
    let ghost before = parts@;
    parts.pop();
    let ghost front = parts@;
    assert(views(front) =~= if name@.len() == 0 {
        Seq::<IdentView>::empty()
    } else {
        name@.drop_last()
    });
    let n = new_name.dup();
    parts.push(n);
    proof {
        lemma_views_push(front, n);
        assert(Seq::<IdentView>::empty().push(new_name@) =~= seq![new_name@]);
    }
    ObjectName { parts }
}

fn with_label_exec(labels: &Vec<Ident>, value: &Ident, position: &Option<AddValuePosition>) -> (r:
    Vec<Ident>)
    ensures
        views(r@) == with_label(views(labels@), value@, opt_view(*position)),
{
    let mut out = dup_vec(labels);
    let ghost before = out@;
    assert(views(out@).len() == out@.len() && views(labels@).len() == labels@.len());
    let v = value.dup();
    let at: usize = match position {
        Some(AddValuePosition::Before(x)) => match position_of(labels, x) {
            Some(k) => k,
            None => 0,
        },
        Some(AddValuePosition::After(x)) => match position_of(labels, x) {
            Some(k) => k + 1,
            None => labels.len(),
        },
        None => labels.len(),
    };
    out.insert(at, v);
    assert(views(out@) =~= views(before).insert(at as int, v@));
    assert(views(before).insert(before.len() as int, v@) =~= views(before).push(v@));
    out
}

fn position_of(labels: &Vec<Ident>, x: &Ident) -> (r: Option<usize>)
    ensures
        match r {
            Some(k) => first_index(views(labels@), x@, 0) == Some(k as int) && k < labels.len(),
            None => first_index(views(labels@), x@, 0) is None,
        },
{
    position(labels, x)
}

fn with_renamed_label_exec(labels: &Vec<Ident>, from: &Ident, to: &Ident) -> (r: Vec<Ident>)
    ensures
        views(r@) == with_renamed_label(views(labels@), from@, to@),
{
    let mut out: Vec<Ident> = Vec::new();
    let n = labels.len();
    let mut i: usize = 0;
    while i < n
        invariant
            i <= n,
            n == labels.len(),
            out.len() == i,
            forall|x: int|
                0 <= x < i ==> (#[trigger] out@[x])@ == (if labels@[x]@ == from@ {
                    to@
                } else {
                    labels@[x]@
                }),
        decreases n - i,
    {
        let l = if labels[i].same(from) {
            to.dup()
        } else {
            labels[i].dup()
        };
        out.push(l);
        i = i + 1;
    }
    assert(views(out@) =~= with_renamed_label(views(labels@), from@, to@));
    out
}

/// The type after `ALTER TYPE`.
pub fn migrate_alter_type(t: &CreateType, m: &AlterType) -> (r: Result<CreateType, MigrateError>)
    ensures
        match r {
            Ok(u) => altered_type(t@, m@) == Ok::<CreateTypeView, MigrateErrorView>(u@),
            Err(e) => altered_type(t@, m@) == Err::<CreateTypeView, MigrateErrorView>(e@),
        },
{
    match &m.operation {
        AlterTypeOperation::Rename { new_name } => Ok(
            CreateType {
                name: renamed_exec(&t.name, new_name),
                representation: t.representation.dup(),
            },
        ),
        AlterTypeOperation::AddValue { value, position, .. } => match &t.representation {
            TypeRepresentation::Enum { labels } => Ok(
                CreateType {
                    name: t.name.dup(),
                    representation: TypeRepresentation::Enum {
                        labels: with_label_exec(labels, value, position),
                    },
                },
            ),
            TypeRepresentation::Composite { .. } => {
                let a = Statement::CreateType(t.dup());
                let b = Statement::AlterType(m.dup());
                fail(MigrateErrorKind::AlterTypeInvalidOp(m.operation.dup()), Some(&a), Some(&b))
            },
        },
        AlterTypeOperation::RenameValue { from, to } => match &t.representation {
            TypeRepresentation::Enum { labels } => Ok(
                CreateType {
                    name: t.name.dup(),
                    representation: TypeRepresentation::Enum {
                        labels: with_renamed_label_exec(labels, from, to),
                    },
                },
            ),
            TypeRepresentation::Composite { .. } => {
                let a = Statement::CreateType(t.dup());
                let b = Statement::AlterType(m.dup());
                fail(MigrateErrorKind::AlterTypeInvalidOp(m.operation.dup()), Some(&a), Some(&b))
            },
        },
    }
}

fn targets_exec(m: &Statement, a: &Statement) -> (r: bool)
    ensures
        r == targets(m@, a@),
{
    match a {
        Statement::CreateTable(t) => match m {
            Statement::AlterTable(x) => x.name.same(&t.name),
            Statement::Drop(d) => {
                if d.names.len() == 1 {
                    assert(views(d.names@)[0] == d.names@[0]@);
                }
                matches!(d.object_type, ObjectType::Table) && d.names.len() == 1
                    && d.names[0].same(&t.name)
            },
            _ => false,
        },
        Statement::CreateIndex(i) => match m {
            Statement::Drop(d) => {
                if d.names.len() == 1 {
                    assert(views(d.names@)[0] == d.names@[0]@);
                }
                matches!(d.object_type, ObjectType::Index) && d.names.len() == 1 && match &i.name {
                    Some(name) => d.names[0].same(name),
                    None => false,
                }
            },
            _ => false,
        },
        Statement::CreateType(t) => match m {
            Statement::AlterType(x) => x.name.same(&t.name),
            Statement::Drop(d) => {
                if d.names.len() == 1 {
                    assert(views(d.names@)[0] == d.names@[0]@);
                }
                matches!(d.object_type, ObjectType::Type) && d.names.len() == 1
                    && d.names[0].same(&t.name)
            },
            _ => false,
        },
        Statement::CreateExtension(e) => match m {
            Statement::DropExtension(d) => contains(&d.names, &e.name),
            _ => false,
        },
        Statement::CreateDomain(x) => match m {
            Statement::DropDomain(d) => d.name.same(&x.name),
            _ => false,
        },
        _ => false,
    }
}

/// The place of the first statement of the migration that targets `a`.
pub fn find(m: &Vec<Statement>, a: &Statement) -> (r: Option<usize>)
    ensures
        match r {
            Some(k) => find_target(views(m@), a@, 0) == Some(k as int) && k < m.len(),
            None => find_target(views(m@), a@, 0) is None,
        },
{
    let n = m.len();
    let mut i: usize = 0;
    while i < n
        invariant
            i <= n,
            n == m.len(),
            find_target(views(m@), a@, 0) == find_target(views(m@), a@, i as int),
        decreases n - i,
    {
        assert(views(m@)[i as int] == m@[i as int]@);
        if targets_exec(&m[i], a) {
            return Some(i);
        }
        i = i + 1;
    }
    None
}

/// The view of what becomes of one statement.
pub open spec fn fate_view(r: Result<Option<Statement>, MigrateError>) -> Result<
    Option<StatementView>,
    MigrateErrorView,
> {
    match r {
        Ok(s) => Ok(opt_view(s)),
        Err(e) => Err(e@),
    }
}

fn kept_as_is(a: &Statement) -> (r: Result<Option<Statement>, MigrateError>)
    ensures
        fate_view(r) == Ok::<Option<StatementView>, MigrateErrorView>(Some(a@)),
{
    Ok(Some(a.dup()))
}

/// What one statement of a migration makes of one statement of the schema.
pub fn migrate_statement(a: &Statement, m: &Statement) -> (r: Result<Option<Statement>, MigrateError>)
    ensures
        fate_view(r) == applied(a@, m@),
{
    match a {
        Statement::CreateTable(t) => match m {
            Statement::AlterTable(x) => {
                if x.name.same(&t.name) {
                    match migrate_alter_table(t.dup(), &x.operations) {
                        Ok(u) => Ok(Some(Statement::CreateTable(u))),
                        Err(e) => Err(e),
                    }
                } else {
                    kept_as_is(a)
                }
            },
            Statement::Drop(d) => {
                if matches!(d.object_type, ObjectType::Table) && contains(&d.names, &t.name) {
                    Ok(None)
                } else {
                    kept_as_is(a)
                }
            },
            _ => fail(MigrateErrorKind::NotImplemented, Some(a), Some(m)),
        },
        Statement::CreateIndex(i) => match m {
            Statement::Drop(d) => match &i.name {
                Some(name) => {
                    if matches!(d.object_type, ObjectType::Index) && contains(&d.names, name) {
                        Ok(None)
                    } else {
                        kept_as_is(a)
                    }
                },
                None => fail(MigrateErrorKind::UnnamedIndex, Some(a), Some(m)),
            },
            _ => fail(MigrateErrorKind::NotImplemented, Some(a), Some(m)),
        },
        Statement::CreateType(t) => match m {
            Statement::AlterType(x) => {
                if x.name.same(&t.name) {
                    match migrate_alter_type(t, x) {
                        Ok(u) => Ok(Some(Statement::CreateType(u))),
                        Err(e) => Err(e),
                    }
                } else {
                    kept_as_is(a)
                }
            },
            Statement::Drop(d) => {
                if matches!(d.object_type, ObjectType::Type) && contains(&d.names, &t.name) {
                    Ok(None)
                } else {
                    kept_as_is(a)
                }
            },
            _ => fail(MigrateErrorKind::NotImplemented, Some(a), Some(m)),
        },
        Statement::CreateExtension(e) => match m {
            Statement::DropExtension(d) => {
                if contains(&d.names, &e.name) {
                    Ok(None)
                } else {
                    kept_as_is(a)
                }
            },
            _ => fail(MigrateErrorKind::NotImplemented, Some(a), Some(m)),
        },
        Statement::CreateDomain(x) => match m {
            Statement::DropDomain(d) => {
                if d.name.same(&x.name) {
                    Ok(None)
                } else {
                    kept_as_is(a)
                }
            },
            _ => fail(MigrateErrorKind::NotImplemented, Some(a), Some(m)),
        },
        _ => fail(MigrateErrorKind::NotImplemented, Some(a), Some(m)),
    }
}

fn is_create_exec(s: &Statement) -> (r: bool)
    ensures
        r == is_create(s@),
{
    matches!(
        s,
        Statement::CreateTable(_) | Statement::CreateIndex(_) | Statement::CreateType(_)
            | Statement::CreateExtension(_) | Statement::CreateDomain(_)
    )
}

fn rewrite(a: &Statement, m: &Vec<Statement>) -> (r: Result<Option<Statement>, MigrateError>)
    ensures
        fate_view(r) == rewritten(a@, views(m@)),
{
    if !is_create_exec(a) {
        return fail(MigrateErrorKind::NotImplemented, Some(a), None);
    }
    match find(m, a) {
        Some(k) => {
            assert(views(m@)[k as int] == m@[k as int]@);
            migrate_statement(a, &m[k])
        },
        None => kept_as_is(a),
    }
}

/// The view of the outcome of a migration.
pub open spec fn outcome_view(r: Result<Vec<Statement>, MigrateError>) -> Result<
    Seq<StatementView>,
    MigrateErrorView,
> {
    match r {
        Ok(v) => Ok(views(v@)),
        Err(e) => Err(e@),
    }
}

/// The schema `a` after the migration `m`.
pub fn migrate_statements(a: &Vec<Statement>, m: &Vec<Statement>) -> (r: Result<
    Vec<Statement>,
    MigrateError,
>)
    ensures
        outcome_view(r) == tree_migrate(views(a@), views(m@)),
{
    let ghost va = views(a@);
    let ghost vm = views(m@);
    let mut out: Vec<Statement> = Vec::new();
    assert(views(out@) =~= Seq::<StatementView>::empty());
    let n = a.len();
    let mut i: usize = 0;
    while i < n
        invariant
            i <= n,
            n == a.len(),
            va == views(a@),
            vm == views(m@),
            rewritten_all(va, vm, i as int) == Ok::<Seq<StatementView>, MigrateErrorView>(
                views(out@),
            ),
        decreases n - i,
    {
        assert(va[i as int] == a@[i as int]@);
        match rewrite(&a[i], m) {
            Ok(Some(s)) => {
                let ghost before = out@;
                out.push(s);
                proof {
                    lemma_views_push(before, s);
                }
            },
            Ok(None) => {},
            Err(e) => {
                proof {
                    lemma_rewritten_fails(va, vm, i + 1, n as int);
                }
                return Err(e);
            },
        }
        i = i + 1;
    }
    let ghost keep = |s: StatementView| is_create(s);
    let mut back: Vec<Statement> = Vec::new();
    assert(views(back@) =~= Seq::<StatementView>::empty());
    let k = m.len();
    let mut j: usize = 0;
    while j < k
        invariant
            j <= k,
            k == m.len(),
            vm == views(m@),
            keep == |s: StatementView| is_create(s),
            views(back@) == kept(vm, keep, j as int),
        decreases k - j,
    {
        assert(vm[j as int] == m@[j as int]@);
        if is_create_exec(&m[j]) {
            let ghost before = back@;
            let s = m[j].dup();
            back.push(s);
            proof {
                lemma_views_push(before, s);
            }
        }
        j = j + 1;
    }
    append(&mut out, back);
    Ok(out)
}

/// Once a statement of the schema cannot be migrated, no longer part of the schema can.
pub proof fn lemma_rewritten_fails(a: Seq<StatementView>, m: Seq<StatementView>, k: int, n: int)
    requires
        0 <= k <= n,
        rewritten_all(a, m, k) is Err,
    ensures
        rewritten_all(a, m, n) == rewritten_all(a, m, k),
    decreases n - k,
{
    if k < n {
        lemma_rewritten_fails(a, m, k, n - 1);
    }
}

} // verus!
