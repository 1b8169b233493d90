//! The statements of a schema or a migration, as far as this library reads
//! them. What it only carries along, such as a data type, a default
//! expression or the body of an index, is held as SQL text.

use crate::model::{dup_opt, dup_vec, opt_view, same_opt, same_vec, views, Model};
use vstd::prelude::*;

verus! {

/// The quote that an identifier is written in.
#[derive(Debug, Clone, Copy, PartialEq, Eq, Structural)]
pub enum Quote {
    /// `"name"`
    Double,
    /// `'name'`
    Single,
    /// `` `name` ``
    Backtick,
    /// `[name]`
    Bracket,
}

/// An identifier with the quote it was written in, if any.
#[derive(Debug, Clone, PartialEq, Eq)]
pub struct Ident {
    pub value: String,
    pub quote_style: Option<Quote>,
}

pub ghost struct IdentView {
    pub value: Seq<char>,
    pub quote_style: Option<Quote>,
}

impl View for Ident {
    type V = IdentView;

    open spec fn view(&self) -> IdentView {
        IdentView { value: self.value@, quote_style: self.quote_style }
    }
}

impl Model for Ident {
    fn same(&self, other: &Self) -> (r: bool) {
        self.value.same(&other.value) && self.quote_style == other.quote_style
    }

    fn dup(&self) -> (r: Self) {
        Ident { value: self.value.dup(), quote_style: self.quote_style }
    }
}

/// A name of one or more parts, such as `schema.table`.
#[derive(Debug, Clone, PartialEq, Eq)]
pub struct ObjectName {
    pub parts: Vec<Ident>,
}

impl View for ObjectName {
    type V = Seq<IdentView>;

    open spec fn view(&self) -> Seq<IdentView> {
        views(self.parts@)
    }
}

impl Model for ObjectName {
    fn same(&self, other: &Self) -> (r: bool) {
        same_vec(&self.parts, &other.parts)
    }

    fn dup(&self) -> (r: Self) {
        ObjectName { parts: dup_vec(&self.parts) }
    }
}

/// When a generated column takes its value from the generator.
#[derive(Debug, Clone, Copy, PartialEq, Eq, Structural)]
pub enum GeneratedAs {
    Always,
    ByDefault,
    ExpStored,
}

/// An option of a column.
#[derive(Debug, Clone, PartialEq, Eq)]
pub enum ColumnOption {
    /// `NOT NULL`
    NotNull,
    /// `DEFAULT <expression>`
    Default(String),
    /// `GENERATED ... AS IDENTITY`, or a column computed from an expression
    Generated {
        generated_as: GeneratedAs,
        /// the options of the sequence behind an identity column, each as SQL text
        sequence_options: Option<Vec<String>>,
        /// the whole option as SQL text, where the column is computed from an expression
        expression: Option<String>,
    },
    /// any other option, as SQL text
    Other(String),
}

pub ghost enum ColumnOptionView {
    NotNull,
    Default(Seq<char>),
    Generated {
        generated_as: GeneratedAs,
        sequence_options: Option<Seq<Seq<char>>>,
        expression: Option<Seq<char>>,
    },
    Other(Seq<char>),
}

/// The views of a list that may be absent.
pub open spec fn opt_views<T: View>(o: Option<Vec<T>>) -> Option<Seq<T::V>> {
    match o {
        Some(v) => Some(views(v@)),
        None => None,
    }
}

/// Whether two optional lists have the same views.
pub fn same_opt_vec<T: Model>(a: &Option<Vec<T>>, b: &Option<Vec<T>>) -> (r: bool)
    ensures
        r == (opt_views(*a) == opt_views(*b)),
{
    match (a, b) {
        (Some(x), Some(y)) => same_vec(x, y),
        (None, None) => true,
        _ => false,
    }
}

/// A copy of an optional list.
pub fn dup_opt_vec<T: Model>(a: &Option<Vec<T>>) -> (r: Option<Vec<T>>)
    ensures
        opt_views(r) == opt_views(*a),
{
    match a {
        Some(x) => Some(dup_vec(x)),
        None => None,
    }
}

impl View for ColumnOption {
    type V = ColumnOptionView;

    open spec fn view(&self) -> ColumnOptionView {
        match self {
            ColumnOption::NotNull => ColumnOptionView::NotNull,
            ColumnOption::Default(e) => ColumnOptionView::Default(e@),
            ColumnOption::Generated {
                generated_as,
                sequence_options,
                expression,
            } => ColumnOptionView::Generated {
                generated_as: *generated_as,
                sequence_options: opt_views(*sequence_options),
                expression: opt_view(*expression),
            },
            ColumnOption::Other(t) => ColumnOptionView::Other(t@),
        }
    }
}

impl Model for ColumnOption {
    fn same(&self, other: &Self) -> (r: bool) {
        match (self, other) {
            (ColumnOption::NotNull, ColumnOption::NotNull) => true,
            (ColumnOption::Default(a), ColumnOption::Default(b)) => a.same(b),
            (
                ColumnOption::Generated { generated_as: a1, sequence_options: a2, expression: a3 },
                ColumnOption::Generated { generated_as: b1, sequence_options: b2, expression: b3 },
            ) => *a1 == *b1 && same_opt_vec(a2, b2) && same_opt(a3, b3),
            (ColumnOption::Other(a), ColumnOption::Other(b)) => a.same(b),
            _ => false,
        }
    }

    fn dup(&self) -> (r: Self) {
        match self {
            ColumnOption::NotNull => ColumnOption::NotNull,
            ColumnOption::Default(e) => ColumnOption::Default(e.dup()),
            ColumnOption::Generated {
                generated_as,
                sequence_options,
                expression,
            } => ColumnOption::Generated {
                generated_as: *generated_as,
                sequence_options: dup_opt_vec(sequence_options),
                expression: dup_opt(expression),
            },
            ColumnOption::Other(t) => ColumnOption::Other(t.dup()),
        }
    }
}

/// An option of a column, with the name of its constraint where it has one.
#[derive(Debug, Clone, PartialEq, Eq)]
pub struct ColumnOptionDef {
    pub name: Option<Ident>,
    pub option: ColumnOption,
}

pub ghost struct ColumnOptionDefView {
    pub name: Option<IdentView>,
    pub option: ColumnOptionView,
}

impl View for ColumnOptionDef {
    type V = ColumnOptionDefView;

    open spec fn view(&self) -> ColumnOptionDefView {
        ColumnOptionDefView { name: opt_view(self.name), option: self.option@ }
    }
}

impl Model for ColumnOptionDef {
    fn same(&self, other: &Self) -> (r: bool) {
        same_opt(&self.name, &other.name) && self.option.same(&other.option)
    }

    fn dup(&self) -> (r: Self) {
        ColumnOptionDef { name: dup_opt(&self.name), option: self.option.dup() }
    }
}

/// A column of a table.
#[derive(Debug, Clone, PartialEq, Eq)]
pub struct ColumnDef {
    pub name: Ident,
    /// the data type as SQL text, where one is given
    pub data_type: Option<String>,
    pub options: Vec<ColumnOptionDef>,
}

pub ghost struct ColumnDefView {
    pub name: IdentView,
    pub data_type: Option<Seq<char>>,
    pub options: Seq<ColumnOptionDefView>,
}

impl View for ColumnDef {
    type V = ColumnDefView;

    open spec fn view(&self) -> ColumnDefView {
        ColumnDefView {
            name: self.name@,
            data_type: opt_view(self.data_type),
            options: views(self.options@),
        }
    }
}

impl Model for ColumnDef {
    fn same(&self, other: &Self) -> (r: bool) {
        self.name.same(&other.name) && same_opt(&self.data_type, &other.data_type) && same_vec(
            &self.options,
            &other.options,
        )
    }

    fn dup(&self) -> (r: Self) {
        ColumnDef {
            name: self.name.dup(),
            data_type: dup_opt(&self.data_type),
            options: dup_vec(&self.options),
        }
    }
}

/// `CREATE TABLE`.
#[derive(Debug, Clone, PartialEq, Eq)]
pub struct CreateTable {
    pub name: ObjectName,
    pub columns: Vec<ColumnDef>,
    /// the constraints of the table, each as SQL text
    pub constraints: Vec<String>,
    pub if_not_exists: bool,
    pub on_cluster: Option<Ident>,
}

pub ghost struct CreateTableView {
    pub name: Seq<IdentView>,
    pub columns: Seq<ColumnDefView>,
    pub constraints: Seq<Seq<char>>,
    pub if_not_exists: bool,
    pub on_cluster: Option<IdentView>,
}

impl View for CreateTable {
    type V = CreateTableView;

    open spec fn view(&self) -> CreateTableView {
        CreateTableView {
            name: self.name@,
            columns: views(self.columns@),
            constraints: views(self.constraints@),
            if_not_exists: self.if_not_exists,
            on_cluster: opt_view(self.on_cluster),
        }
    }
}

impl Model for CreateTable {
    fn same(&self, other: &Self) -> (r: bool) {
        self.name.same(&other.name) && same_vec(&self.columns, &other.columns) && same_vec(
            &self.constraints,
            &other.constraints,
        ) && self.if_not_exists == other.if_not_exists && same_opt(
            &self.on_cluster,
            &other.on_cluster,
        )
    }

    fn dup(&self) -> (r: Self) {
        CreateTable {
            name: self.name.dup(),
            columns: dup_vec(&self.columns),
            constraints: dup_vec(&self.constraints),
            if_not_exists: self.if_not_exists,
            on_cluster: dup_opt(&self.on_cluster),
        }
    }
}

/// `CREATE INDEX`. The statement is carried as SQL text; beside it stand
/// the parts that are read.
#[derive(Debug, Clone, PartialEq, Eq)]
pub struct CreateIndex {
    pub name: Option<ObjectName>,
    pub table_name: ObjectName,
    pub if_not_exists: bool,
    /// the whole statement
    pub sql: String,
}

pub ghost struct CreateIndexView {
    pub name: Option<Seq<IdentView>>,
    pub table_name: Seq<IdentView>,
    pub if_not_exists: bool,
    pub sql: Seq<char>,
}

impl View for CreateIndex {
    type V = CreateIndexView;

    open spec fn view(&self) -> CreateIndexView {
        CreateIndexView {
            name: opt_view(self.name),
            table_name: self.table_name@,
            if_not_exists: self.if_not_exists,
            sql: self.sql@,
        }
    }
}

impl Model for CreateIndex {
    fn same(&self, other: &Self) -> (r: bool) {
        same_opt(&self.name, &other.name) && self.table_name.same(&other.table_name)
            && self.if_not_exists == other.if_not_exists && self.sql.same(&other.sql)
    }

    fn dup(&self) -> (r: Self) {
        CreateIndex {
            name: dup_opt(&self.name),
            table_name: self.table_name.dup(),
            if_not_exists: self.if_not_exists,
            sql: self.sql.dup(),
        }
    }
}

/// What a user-defined type is made of.
#[derive(Debug, Clone, PartialEq, Eq)]
pub enum TypeRepresentation {
    /// the labels of an enum, in order
    Enum { labels: Vec<Ident> },
    /// the attributes of a composite type, each as SQL text
    Composite { attributes: Vec<String> },
}

pub ghost enum TypeRepresentationView {
    Enum { labels: Seq<IdentView> },
    Composite { attributes: Seq<Seq<char>> },
}

impl View for TypeRepresentation {
    type V = TypeRepresentationView;

    open spec fn view(&self) -> TypeRepresentationView {
        match self {
            TypeRepresentation::Enum { labels } => TypeRepresentationView::Enum {
                labels: views(labels@),
            },
            TypeRepresentation::Composite { attributes } => TypeRepresentationView::Composite {
                attributes: views(attributes@),
            },
        }
    }
}

impl Model for TypeRepresentation {
    fn same(&self, other: &Self) -> (r: bool) {
        match (self, other) {
            (
                TypeRepresentation::Enum { labels: a },
                TypeRepresentation::Enum { labels: b },
            ) => same_vec(a, b),
            (
                TypeRepresentation::Composite { attributes: a },
                TypeRepresentation::Composite { attributes: b },
            ) => same_vec(a, b),
            _ => false,
        }
    }

    fn dup(&self) -> (r: Self) {
        match self {
            TypeRepresentation::Enum { labels } => TypeRepresentation::Enum {
                labels: dup_vec(labels),
            },
            TypeRepresentation::Composite { attributes } => TypeRepresentation::Composite {
                attributes: dup_vec(attributes),
            },
        }
    }
}

/// `CREATE TYPE`.
#[derive(Debug, Clone, PartialEq, Eq)]
pub struct CreateType {
    pub name: ObjectName,
    pub representation: TypeRepresentation,
}

pub ghost struct CreateTypeView {
    pub name: Seq<IdentView>,
    pub representation: TypeRepresentationView,
}

impl View for CreateType {
    type V = CreateTypeView;

    open spec fn view(&self) -> CreateTypeView {
        CreateTypeView { name: self.name@, representation: self.representation@ }
    }
}

impl Model for CreateType {
    fn same(&self, other: &Self) -> (r: bool) {
        self.name.same(&other.name) && self.representation.same(&other.representation)
    }

    fn dup(&self) -> (r: Self) {
        CreateType { name: self.name.dup(), representation: self.representation.dup() }
    }
}

/// `CREATE EXTENSION`.
#[derive(Debug, Clone, PartialEq, Eq)]
pub struct CreateExtension {
    pub name: Ident,
    pub if_not_exists: bool,
    pub cascade: bool,
    pub schema: Option<Ident>,
    pub version: Option<Ident>,
}

pub ghost struct CreateExtensionView {
    pub name: IdentView,
    pub if_not_exists: bool,
    pub cascade: bool,
    pub schema: Option<IdentView>,
    pub version: Option<IdentView>,
}

impl View for CreateExtension {
    type V = CreateExtensionView;

    open spec fn view(&self) -> CreateExtensionView {
        CreateExtensionView {
            name: self.name@,
            if_not_exists: self.if_not_exists,
            cascade: self.cascade,
            schema: opt_view(self.schema),
            version: opt_view(self.version),
        }
    }
}

impl Model for CreateExtension {
    fn same(&self, other: &Self) -> (r: bool) {
        self.name.same(&other.name) && self.if_not_exists == other.if_not_exists && self.cascade
            == other.cascade && same_opt(&self.schema, &other.schema) && same_opt(
            &self.version,
            &other.version,
        )
    }

    fn dup(&self) -> (r: Self) {
        CreateExtension {
            name: self.name.dup(),
            if_not_exists: self.if_not_exists,
            cascade: self.cascade,
            schema: dup_opt(&self.schema),
            version: dup_opt(&self.version),
        }
    }
}

/// `CREATE DOMAIN`. The statement is carried as SQL text; beside it stands
/// the name, which is read.
#[derive(Debug, Clone, PartialEq, Eq)]
pub struct CreateDomain {
    pub name: ObjectName,
    /// the whole statement
    pub sql: String,
}

pub ghost struct CreateDomainView {
    pub name: Seq<IdentView>,
    pub sql: Seq<char>,
}

impl View for CreateDomain {
    type V = CreateDomainView;

    open spec fn view(&self) -> CreateDomainView {
        CreateDomainView { name: self.name@, sql: self.sql@ }
    }
}

impl Model for CreateDomain {
    fn same(&self, other: &Self) -> (r: bool) {
        self.name.same(&other.name) && self.sql.same(&other.sql)
    }

    fn dup(&self) -> (r: Self) {
        CreateDomain { name: self.name.dup(), sql: self.sql.dup() }
    }
}

/// The kinds of object that `DROP` removes.
#[derive(Debug, Clone, Copy, PartialEq, Eq, Structural)]
pub enum ObjectType {
    Table,
    View,
    MaterializedView,
    Index,
    Schema,
    Database,
    Role,
    Sequence,
    Stage,
    Type,
}

/// What becomes of the objects that depend on a dropped one.
#[derive(Debug, Clone, Copy, PartialEq, Eq, Structural)]
pub enum DropBehavior {
    Restrict,
    Cascade,
}

/// `DROP <object type>`.
#[derive(Debug, Clone, PartialEq, Eq)]
pub struct Drop {
    pub object_type: ObjectType,
    pub if_exists: bool,
    pub names: Vec<ObjectName>,
    pub cascade: bool,
    pub restrict: bool,
    pub purge: bool,
    pub temporary: bool,
}

pub ghost struct DropView {
    pub object_type: ObjectType,
    pub if_exists: bool,
    pub names: Seq<Seq<IdentView>>,
    pub cascade: bool,
    pub restrict: bool,
    pub purge: bool,
    pub temporary: bool,
}

impl View for Drop {
    type V = DropView;

    open spec fn view(&self) -> DropView {
        DropView {
            object_type: self.object_type,
            if_exists: self.if_exists,
            names: views(self.names@),
            cascade: self.cascade,
            restrict: self.restrict,
            purge: self.purge,
            temporary: self.temporary,
        }
    }
}

impl Model for Drop {
    fn same(&self, other: &Self) -> (r: bool) {
        self.object_type == other.object_type && self.if_exists == other.if_exists && same_vec(
            &self.names,
            &other.names,
        ) && self.cascade == other.cascade && self.restrict == other.restrict && self.purge
            == other.purge && self.temporary == other.temporary
    }

    fn dup(&self) -> (r: Self) {
        Drop {
            object_type: self.object_type,
            if_exists: self.if_exists,
            names: dup_vec(&self.names),
            cascade: self.cascade,
            restrict: self.restrict,
            purge: self.purge,
            temporary: self.temporary,
        }
    }
}

/// `DROP EXTENSION`.
#[derive(Debug, Clone, PartialEq, Eq)]
pub struct DropExtension {
    pub names: Vec<Ident>,
    pub if_exists: bool,
    pub cascade_or_restrict: Option<DropBehavior>,
}

pub ghost struct DropExtensionView {
    pub names: Seq<IdentView>,
    pub if_exists: bool,
    pub cascade_or_restrict: Option<DropBehavior>,
}

impl View for DropExtension {
    type V = DropExtensionView;

    open spec fn view(&self) -> DropExtensionView {
        DropExtensionView {
            names: views(self.names@),
            if_exists: self.if_exists,
            cascade_or_restrict: self.cascade_or_restrict,
        }
    }
}

impl Model for DropExtension {
    fn same(&self, other: &Self) -> (r: bool) {
        same_vec(&self.names, &other.names) && self.if_exists == other.if_exists
            && self.cascade_or_restrict == other.cascade_or_restrict
    }

    fn dup(&self) -> (r: Self) {
        DropExtension {
            names: dup_vec(&self.names),
            if_exists: self.if_exists,
            cascade_or_restrict: self.cascade_or_restrict,
        }
    }
}

/// `DROP DOMAIN`.
#[derive(Debug, Clone, PartialEq, Eq)]
pub struct DropDomain {
    pub if_exists: bool,
    pub name: ObjectName,
    pub drop_behavior: Option<DropBehavior>,
}

pub ghost struct DropDomainView {
    pub if_exists: bool,
    pub name: Seq<IdentView>,
    pub drop_behavior: Option<DropBehavior>,
}

impl View for DropDomain {
    type V = DropDomainView;

    open spec fn view(&self) -> DropDomainView {
        DropDomainView {
            if_exists: self.if_exists,
            name: self.name@,
            drop_behavior: self.drop_behavior,
        }
    }
}

impl Model for DropDomain {
    fn same(&self, other: &Self) -> (r: bool) {
        self.if_exists == other.if_exists && self.name.same(&other.name) && self.drop_behavior
            == other.drop_behavior
    }

    fn dup(&self) -> (r: Self) {
        DropDomain {
            if_exists: self.if_exists,
            name: self.name.dup(),
            drop_behavior: self.drop_behavior,
        }
    }
}

/// What `ALTER TABLE ... ALTER COLUMN` does to a column.
#[derive(Debug, Clone, PartialEq, Eq)]
pub enum AlterColumnOperation {
    SetNotNull,
    DropNotNull,
    /// the new default, as SQL text
    SetDefault { value: String },
    DropDefault,
    /// the new data type and the conversion of the old values, as SQL text
    SetDataType { data_type: String, using: Option<String> },
    AddGenerated { generated_as: Option<GeneratedAs>, sequence_options: Option<Vec<String>> },
}

pub ghost enum AlterColumnOperationView {
    SetNotNull,
    DropNotNull,
    SetDefault { value: Seq<char> },
    DropDefault,
    SetDataType { data_type: Seq<char>, using: Option<Seq<char>> },
    AddGenerated { generated_as: Option<GeneratedAs>, sequence_options: Option<Seq<Seq<char>>> },
}

impl View for AlterColumnOperation {
    type V = AlterColumnOperationView;

    open spec fn view(&self) -> AlterColumnOperationView {
        match self {
            AlterColumnOperation::SetNotNull => AlterColumnOperationView::SetNotNull,
            AlterColumnOperation::DropNotNull => AlterColumnOperationView::DropNotNull,
            AlterColumnOperation::SetDefault { value } => AlterColumnOperationView::SetDefault {
                value: value@,
            },
            AlterColumnOperation::DropDefault => AlterColumnOperationView::DropDefault,
            AlterColumnOperation::SetDataType {
                data_type,
                using,
            } => AlterColumnOperationView::SetDataType {
                data_type: data_type@,
                using: opt_view(*using),
            },
            AlterColumnOperation::AddGenerated {
                generated_as,
                sequence_options,
            } => AlterColumnOperationView::AddGenerated {
                generated_as: *generated_as,
                sequence_options: opt_views(*sequence_options),
            },
        }
    }
}

impl Model for AlterColumnOperation {
    fn same(&self, other: &Self) -> (r: bool) {
        match (self, other) {
            (AlterColumnOperation::SetNotNull, AlterColumnOperation::SetNotNull) => true,
            (AlterColumnOperation::DropNotNull, AlterColumnOperation::DropNotNull) => true,
            (
                AlterColumnOperation::SetDefault { value: a },
                AlterColumnOperation::SetDefault { value: b },
            ) => a.same(b),
            (AlterColumnOperation::DropDefault, AlterColumnOperation::DropDefault) => true,
            (
                AlterColumnOperation::SetDataType { data_type: a1, using: a2 },
                AlterColumnOperation::SetDataType { data_type: b1, using: b2 },
            ) => a1.same(b1) && same_opt(a2, b2),
            (
                AlterColumnOperation::AddGenerated { generated_as: a1, sequence_options: a2 },
                AlterColumnOperation::AddGenerated { generated_as: b1, sequence_options: b2 },
            ) => *a1 == *b1 && same_opt_vec(a2, b2),
            _ => false,
        }
    }

    fn dup(&self) -> (r: Self) {
        match self {
            AlterColumnOperation::SetNotNull => AlterColumnOperation::SetNotNull,
            AlterColumnOperation::DropNotNull => AlterColumnOperation::DropNotNull,
            AlterColumnOperation::SetDefault { value } => AlterColumnOperation::SetDefault {
                value: value.dup(),
            },
            AlterColumnOperation::DropDefault => AlterColumnOperation::DropDefault,
            AlterColumnOperation::SetDataType {
                data_type,
                using,
            } => AlterColumnOperation::SetDataType {
                data_type: data_type.dup(),
                using: dup_opt(using),
            },
            AlterColumnOperation::AddGenerated {
                generated_as,
                sequence_options,
            } => AlterColumnOperation::AddGenerated {
                generated_as: *generated_as,
                sequence_options: dup_opt_vec(sequence_options),
            },
        }
    }
}

/// One operation of `ALTER TABLE`.
#[derive(Debug, Clone, PartialEq, Eq)]
pub enum AlterTableOperation {
    AddColumn { column_keyword: bool, if_not_exists: bool, column_def: ColumnDef },
    DropColumn {
        has_column_keyword: bool,
        column_name: Ident,
        if_exists: bool,
        drop_behavior: Option<DropBehavior>,
    },
    AlterColumn { column_name: Ident, op: AlterColumnOperation },
    RenameColumn { old_column_name: Ident, new_column_name: Ident },
    RenameTable { table_name: ObjectName },
    /// any other operation, as SQL text
    Other(String),
}

pub ghost enum AlterTableOperationView {
    AddColumn { column_keyword: bool, if_not_exists: bool, column_def: ColumnDefView },
    DropColumn {
        has_column_keyword: bool,
        column_name: IdentView,
        if_exists: bool,
        drop_behavior: Option<DropBehavior>,
    },
    AlterColumn { column_name: IdentView, op: AlterColumnOperationView },
    RenameColumn { old_column_name: IdentView, new_column_name: IdentView },
    RenameTable { table_name: Seq<IdentView> },
    Other(Seq<char>),
}

impl View for AlterTableOperation {
    type V = AlterTableOperationView;

    open spec fn view(&self) -> AlterTableOperationView {
        match self {
            AlterTableOperation::AddColumn {
                column_keyword,
                if_not_exists,
                column_def,
            } => AlterTableOperationView::AddColumn {
                column_keyword: *column_keyword,
                if_not_exists: *if_not_exists,
                column_def: column_def@,
            },
            AlterTableOperation::DropColumn {
                has_column_keyword,
                column_name,
                if_exists,
                drop_behavior,
            } => AlterTableOperationView::DropColumn {
                has_column_keyword: *has_column_keyword,
                column_name: column_name@,
                if_exists: *if_exists,
                drop_behavior: *drop_behavior,
            },
            AlterTableOperation::AlterColumn {
                column_name,
                op,
            } => AlterTableOperationView::AlterColumn { column_name: column_name@, op: op@ },
            AlterTableOperation::RenameColumn {
                old_column_name,
                new_column_name,
            } => AlterTableOperationView::RenameColumn {
                old_column_name: old_column_name@,
                new_column_name: new_column_name@,
            },
            AlterTableOperation::RenameTable { table_name } => AlterTableOperationView::RenameTable {
                table_name: table_name@,
            },
            AlterTableOperation::Other(t) => AlterTableOperationView::Other(t@),
        }
    }
}

impl Model for AlterTableOperation {
    fn same(&self, other: &Self) -> (r: bool) {
        match (self, other) {
            (
                AlterTableOperation::AddColumn { column_keyword: a1, if_not_exists: a2, column_def: a3 },
                AlterTableOperation::AddColumn { column_keyword: b1, if_not_exists: b2, column_def: b3 },
            ) => *a1 == *b1 && *a2 == *b2 && a3.same(b3),
            (
                AlterTableOperation::DropColumn {
                    has_column_keyword: a1,
                    column_name: a2,
                    if_exists: a3,
                    drop_behavior: a4,
                },
                AlterTableOperation::DropColumn {
                    has_column_keyword: b1,
                    column_name: b2,
                    if_exists: b3,
                    drop_behavior: b4,
                },
            ) => *a1 == *b1 && a2.same(b2) && *a3 == *b3 && *a4 == *b4,
            (
                AlterTableOperation::AlterColumn { column_name: a1, op: a2 },
                AlterTableOperation::AlterColumn { column_name: b1, op: b2 },
            ) => a1.same(b1) && a2.same(b2),
            (
                AlterTableOperation::RenameColumn { old_column_name: a1, new_column_name: a2 },
                AlterTableOperation::RenameColumn { old_column_name: b1, new_column_name: b2 },
            ) => a1.same(b1) && a2.same(b2),
            (
                AlterTableOperation::RenameTable { table_name: a },
                AlterTableOperation::RenameTable { table_name: b },
            ) => a.same(b),
            (AlterTableOperation::Other(a), AlterTableOperation::Other(b)) => a.same(b),
            _ => false,
        }
    }

    fn dup(&self) -> (r: Self) {
        match self {
            AlterTableOperation::AddColumn {
                column_keyword,
                if_not_exists,
                column_def,
            } => AlterTableOperation::AddColumn {
                column_keyword: *column_keyword,
                if_not_exists: *if_not_exists,
                column_def: column_def.dup(),
            },
            AlterTableOperation::DropColumn {
                has_column_keyword,
                column_name,
                if_exists,
                drop_behavior,
            } => AlterTableOperation::DropColumn {
                has_column_keyword: *has_column_keyword,
                column_name: column_name.dup(),
                if_exists: *if_exists,
                drop_behavior: *drop_behavior,
            },
            AlterTableOperation::AlterColumn { column_name, op } => AlterTableOperation::AlterColumn {
                column_name: column_name.dup(),
                op: op.dup(),
            },
            AlterTableOperation::RenameColumn {
                old_column_name,
                new_column_name,
            } => AlterTableOperation::RenameColumn {
                old_column_name: old_column_name.dup(),
                new_column_name: new_column_name.dup(),
            },
            AlterTableOperation::RenameTable { table_name } => AlterTableOperation::RenameTable {
                table_name: table_name.dup(),
            },
            AlterTableOperation::Other(t) => AlterTableOperation::Other(t.dup()),
        }
    }
}

/// `ALTER TABLE`.
#[derive(Debug, Clone, PartialEq, Eq)]
pub struct AlterTable {
    pub name: ObjectName,
    pub if_exists: bool,
    pub only: bool,
    pub operations: Vec<AlterTableOperation>,
    pub on_cluster: Option<Ident>,
}

pub ghost struct AlterTableView {
    pub name: Seq<IdentView>,
    pub if_exists: bool,
    pub only: bool,
    pub operations: Seq<AlterTableOperationView>,
    pub on_cluster: Option<IdentView>,
}

impl View for AlterTable {
    type V = AlterTableView;

    open spec fn view(&self) -> AlterTableView {
        AlterTableView {
            name: self.name@,
            if_exists: self.if_exists,
            only: self.only,
            operations: views(self.operations@),
            on_cluster: opt_view(self.on_cluster),
        }
    }
}

impl Model for AlterTable {
    fn same(&self, other: &Self) -> (r: bool) {
        self.name.same(&other.name) && self.if_exists == other.if_exists && self.only == other.only
            && same_vec(&self.operations, &other.operations) && same_opt(
            &self.on_cluster,
            &other.on_cluster,
        )
    }

    fn dup(&self) -> (r: Self) {
        AlterTable {
            name: self.name.dup(),
            if_exists: self.if_exists,
            only: self.only,
            operations: dup_vec(&self.operations),
            on_cluster: dup_opt(&self.on_cluster),
        }
    }
}

/// Where a new label of an enum goes.
#[derive(Debug, Clone, PartialEq, Eq)]
pub enum AddValuePosition {
    Before(Ident),
    After(Ident),
}

pub ghost enum AddValuePositionView {
    Before(IdentView),
    After(IdentView),
}

impl View for AddValuePosition {
    type V = AddValuePositionView;

    open spec fn view(&self) -> AddValuePositionView {
        match self {
            AddValuePosition::Before(i) => AddValuePositionView::Before(i@),
            AddValuePosition::After(i) => AddValuePositionView::After(i@),
        }
    }
}

impl Model for AddValuePosition {
    fn same(&self, other: &Self) -> (r: bool) {
        match (self, other) {
            (AddValuePosition::Before(a), AddValuePosition::Before(b)) => a.same(b),
            (AddValuePosition::After(a), AddValuePosition::After(b)) => a.same(b),
            _ => false,
        }
    }

    fn dup(&self) -> (r: Self) {
        match self {
            AddValuePosition::Before(i) => AddValuePosition::Before(i.dup()),
            AddValuePosition::After(i) => AddValuePosition::After(i.dup()),
        }
    }
}

/// What `ALTER TYPE` does to a type.
#[derive(Debug, Clone, PartialEq, Eq)]
pub enum AlterTypeOperation {
    Rename { new_name: Ident },
    AddValue { if_not_exists: bool, value: Ident, position: Option<AddValuePosition> },
    RenameValue { from: Ident, to: Ident },
}

pub ghost enum AlterTypeOperationView {
    Rename { new_name: IdentView },
    AddValue { if_not_exists: bool, value: IdentView, position: Option<AddValuePositionView> },
    RenameValue { from: IdentView, to: IdentView },
}

impl View for AlterTypeOperation {
    type V = AlterTypeOperationView;

    open spec fn view(&self) -> AlterTypeOperationView {
        match self {
            AlterTypeOperation::Rename { new_name } => AlterTypeOperationView::Rename {
                new_name: new_name@,
            },
            AlterTypeOperation::AddValue {
                if_not_exists,
                value,
                position,
            } => AlterTypeOperationView::AddValue {
                if_not_exists: *if_not_exists,
                value: value@,
                position: opt_view(*position),
            },
            AlterTypeOperation::RenameValue { from, to } => AlterTypeOperationView::RenameValue {
                from: from@,
                to: to@,
            },
        }
    }
}

impl Model for AlterTypeOperation {
    fn same(&self, other: &Self) -> (r: bool) {
        match (self, other) {
            (
                AlterTypeOperation::Rename { new_name: a },
                AlterTypeOperation::Rename { new_name: b },
            ) => a.same(b),
            (
                AlterTypeOperation::AddValue { if_not_exists: a1, value: a2, position: a3 },
                AlterTypeOperation::AddValue { if_not_exists: b1, value: b2, position: b3 },
            ) => *a1 == *b1 && a2.same(b2) && same_opt(a3, b3),
            (
                AlterTypeOperation::RenameValue { from: a1, to: a2 },
                AlterTypeOperation::RenameValue { from: b1, to: b2 },
            ) => a1.same(b1) && a2.same(b2),
            _ => false,
        }
    }

    fn dup(&self) -> (r: Self) {
        match self {
            AlterTypeOperation::Rename { new_name } => AlterTypeOperation::Rename {
                new_name: new_name.dup(),
            },
            AlterTypeOperation::AddValue {
                if_not_exists,
                value,
                position,
            } => AlterTypeOperation::AddValue {
                if_not_exists: *if_not_exists,
                value: value.dup(),
                position: dup_opt(position),
            },
            AlterTypeOperation::RenameValue { from, to } => AlterTypeOperation::RenameValue {
                from: from.dup(),
                to: to.dup(),
            },
        }
    }
}

/// `ALTER TYPE`.
#[derive(Debug, Clone, PartialEq, Eq)]
pub struct AlterType {
    pub name: ObjectName,
    pub operation: AlterTypeOperation,
}

pub ghost struct AlterTypeView {
    pub name: Seq<IdentView>,
    pub operation: AlterTypeOperationView,
}

impl View for AlterType {
    type V = AlterTypeView;

    open spec fn view(&self) -> AlterTypeView {
        AlterTypeView { name: self.name@, operation: self.operation@ }
    }
}

impl Model for AlterType {
    fn same(&self, other: &Self) -> (r: bool) {
        self.name.same(&other.name) && self.operation.same(&other.operation)
    }

    fn dup(&self) -> (r: Self) {
        AlterType { name: self.name.dup(), operation: self.operation.dup() }
    }
}

/// A statement of a schema or of a migration.
#[derive(Debug, Clone, PartialEq, Eq)]
pub enum Statement {
    CreateTable(CreateTable),
    AlterTable(AlterTable),
    Drop(Drop),
    CreateIndex(CreateIndex),
    CreateType(CreateType),
    AlterType(AlterType),
    CreateExtension(CreateExtension),
    DropExtension(DropExtension),
    CreateDomain(CreateDomain),
    DropDomain(DropDomain),
    /// any other statement, as SQL text
    Unsupported(String),
}

pub ghost enum StatementView {
    CreateTable(CreateTableView),
    AlterTable(AlterTableView),
    Drop(DropView),
    CreateIndex(CreateIndexView),
    CreateType(CreateTypeView),
    AlterType(AlterTypeView),
    CreateExtension(CreateExtensionView),
    DropExtension(DropExtensionView),
    CreateDomain(CreateDomainView),
    DropDomain(DropDomainView),
    Unsupported(Seq<char>),
}

impl View for Statement {
    type V = StatementView;

    open spec fn view(&self) -> StatementView {
        match self {
            Statement::CreateTable(x) => StatementView::CreateTable(x@),
            Statement::AlterTable(x) => StatementView::AlterTable(x@),
            Statement::Drop(x) => StatementView::Drop(x@),
            Statement::CreateIndex(x) => StatementView::CreateIndex(x@),
            Statement::CreateType(x) => StatementView::CreateType(x@),
            Statement::AlterType(x) => StatementView::AlterType(x@),
            Statement::CreateExtension(x) => StatementView::CreateExtension(x@),
            Statement::DropExtension(x) => StatementView::DropExtension(x@),
            Statement::CreateDomain(x) => StatementView::CreateDomain(x@),
            Statement::DropDomain(x) => StatementView::DropDomain(x@),
            Statement::Unsupported(t) => StatementView::Unsupported(t@),
        }
    }
}

impl Model for Statement {
    fn same(&self, other: &Self) -> (r: bool) {
        match (self, other) {
            (Statement::CreateTable(a), Statement::CreateTable(b)) => a.same(b),
            (Statement::AlterTable(a), Statement::AlterTable(b)) => a.same(b),
            (Statement::Drop(a), Statement::Drop(b)) => a.same(b),
            (Statement::CreateIndex(a), Statement::CreateIndex(b)) => a.same(b),
            (Statement::CreateType(a), Statement::CreateType(b)) => a.same(b),
            (Statement::AlterType(a), Statement::AlterType(b)) => a.same(b),
            (Statement::CreateExtension(a), Statement::CreateExtension(b)) => a.same(b),
            (Statement::DropExtension(a), Statement::DropExtension(b)) => a.same(b),
            (Statement::CreateDomain(a), Statement::CreateDomain(b)) => a.same(b),
            (Statement::DropDomain(a), Statement::DropDomain(b)) => a.same(b),
            (Statement::Unsupported(a), Statement::Unsupported(b)) => a.same(b),
            _ => false,
        }
    }

    fn dup(&self) -> (r: Self) {
        match self {
            Statement::CreateTable(x) => Statement::CreateTable(x.dup()),
            Statement::AlterTable(x) => Statement::AlterTable(x.dup()),
            Statement::Drop(x) => Statement::Drop(x.dup()),
            Statement::CreateIndex(x) => Statement::CreateIndex(x.dup()),
            Statement::CreateType(x) => Statement::CreateType(x.dup()),
            Statement::AlterType(x) => Statement::AlterType(x.dup()),
            Statement::CreateExtension(x) => Statement::CreateExtension(x.dup()),
            Statement::DropExtension(x) => Statement::DropExtension(x.dup()),
            Statement::CreateDomain(x) => Statement::CreateDomain(x.dup()),
            Statement::DropDomain(x) => Statement::DropDomain(x.dup()),
            Statement::Unsupported(t) => Statement::Unsupported(t.dup()),
        }
    }
}

} // verus!
