//! Writes statements out as SQL.
//!
//! Each statement is written on one line, in the form that the SQL parser
//! of the `sqlparser` crate reads back. A tree is written statement by
//! statement: each gets a `;`, is laid out by the `sqlformat` crate, and is
//! set apart from the next by an empty line.

use crate::ast::{
    AddValuePositionView, AlterColumnOperation, AlterColumnOperationView, AlterTable,
    AlterTableOperation, AlterTableOperationView, AlterTableView, AlterType, AlterTypeOperation,
    AlterTypeOperationView, AlterTypeView, AddValuePosition, ColumnDef, ColumnDefView,
    ColumnOption, ColumnOptionDef, ColumnOptionDefView, ColumnOptionView, CreateExtension,
    CreateExtensionView, CreateTable, CreateTableView, CreateType, CreateTypeView, Drop,
    DropBehavior, DropDomain, DropDomainView, DropExtension, DropExtensionView, DropView,
    GeneratedAs, Ident, IdentView, ObjectName, ObjectType, Quote, Statement, StatementView,
    TypeRepresentation, TypeRepresentationView,
};
use crate::model::views;
use crate::text::{joined, texts};
use vstd::prelude::*;
use vstd::string::*;

verus! {

/// An identifier as the `sqlparser` crate writes it: as it is where it has
/// no quote, else in its quotes, with the quotes inside it doubled where
/// they are not escaped yet.
pub uninterp spec fn ident_text(value: Seq<char>, quote: Option<Quote>) -> Seq<char>;

/// A statement with its `;`, laid out by the `sqlformat` crate with its
/// default options and no parameters.
pub uninterp spec fn formatted(sql: Seq<char>) -> Seq<char>;

/// `Display` of `sqlparser::ast::Ident`, on an identifier made by
/// `Ident::new` or `Ident::with_quote` from the value and the character of
/// the quote. The contract gives the text its name, and says that an
/// identifier without a quote is written as it is.
#[verifier::external_body]
fn write_ident(value: &str, quote: Option<Quote>) -> (r: String)
    ensures
        r@ == ident_text(value@, quote),
        quote is None ==> r@ == value@,
{
    let ident = match quote {
        Some(Quote::Double) => sqlparser::ast::Ident::with_quote('"', value),
        Some(Quote::Single) => sqlparser::ast::Ident::with_quote('\'', value),
        Some(Quote::Backtick) => sqlparser::ast::Ident::with_quote('`', value),
        Some(Quote::Bracket) => sqlparser::ast::Ident::with_quote('[', value),
        None => sqlparser::ast::Ident::new(value),
    };
    ident.to_string()
}

/// `sqlformat::format` with no parameters and the default options. The
/// contract only gives the result its name.
#[verifier::external_body]
fn format_sql(sql: &str) -> (r: String)
    ensures
        r@ == formatted(sql@),
{
    sqlformat::format(sql, &sqlformat::QueryParams::None, &sqlformat::FormatOptions::default())
}

/// `s` where `cond` holds, else nothing.
pub open spec fn when(cond: bool, s: Seq<char>) -> Seq<char> {
    if cond {
        s
    } else {
        Seq::empty()
    }
}

/// An identifier as SQL.
pub open spec fn ident_sql(i: IdentView) -> Seq<char> {
    ident_text(i.value, i.quote_style)
}

/// Identifiers as SQL, each by itself.
pub open spec fn idents_sql(list: Seq<IdentView>) -> Seq<Seq<char>> {
    list.map_values(|i: IdentView| ident_sql(i))
}

/// The parts of a name with dots between them.
pub open spec fn name_sql(name: Seq<IdentView>) -> Seq<char> {
    joined(idents_sql(name), "."@)
}

/// Names as SQL, each by itself.
pub open spec fn names_sql(list: Seq<Seq<IdentView>>) -> Seq<Seq<char>> {
    list.map_values(|n: Seq<IdentView>| name_sql(n))
}

/// ` (<options> )` for the options of a sequence, each written with a space before it.
pub open spec fn sequence_sql(options: Seq<Seq<char>>) -> Seq<char> {
    " ("@ + joined(options, ""@) + " )"@
}

/// An option of a column as SQL.
pub open spec fn option_sql(o: ColumnOptionView) -> Seq<char> {
    match o {
        ColumnOptionView::NotNull => "NOT NULL"@,
        ColumnOptionView::Default(e) => "DEFAULT "@ + e,
        ColumnOptionView::Generated { generated_as, sequence_options, expression } => match expression {
            Some(text) => text,
            None => "GENERATED "@ + (if generated_as == GeneratedAs::ByDefault {
                "BY DEFAULT"@
            } else {
                "ALWAYS"@
            }) + " AS IDENTITY"@ + (match sequence_options {
                Some(so) if so.len() > 0 => sequence_sql(so),
                _ => Seq::empty(),
            }),
        },
        ColumnOptionView::Other(t) => t,
    }
}

/// An option of a column as SQL, after the name of its constraint where it has one.
pub open spec fn option_def_sql(d: ColumnOptionDefView) -> Seq<char> {
    (match d.name {
        Some(n) => "CONSTRAINT "@ + ident_sql(n) + " "@,
        None => Seq::empty(),
    }) + option_sql(d.option)
}

/// The options of a column, each with a space before it.
pub open spec fn options_sql(options: Seq<ColumnOptionDefView>, n: int) -> Seq<char>
    decreases n,
{
    if n <= 0 {
        Seq::empty()
    } else {
        options_sql(options, n - 1) + " "@ + option_def_sql(options[n - 1])
    }
}

/// A column as SQL: its name, its data type and its options.
pub open spec fn column_sql(c: ColumnDefView) -> Seq<char> {
    ident_sql(c.name) + (match c.data_type {
        Some(t) => " "@ + t,
        None => Seq::empty(),
    }) + options_sql(c.options, c.options.len() as int)
}

/// Columns as SQL, each by itself.
pub open spec fn columns_sql(list: Seq<ColumnDefView>) -> Seq<Seq<char>> {
    list.map_values(|c: ColumnDefView| column_sql(c))
}

/// `CREATE TABLE` with the columns and then the constraints in brackets.
pub open spec fn create_table_sql(t: CreateTableView) -> Seq<char> {
    "CREATE TABLE "@ + when(t.if_not_exists, "IF NOT EXISTS "@) + name_sql(t.name) + (match t.on_cluster {
        Some(c) => " ON CLUSTER "@ + ident_sql(c),
        None => Seq::empty(),
    }) + " ("@ + joined(columns_sql(t.columns) + t.constraints, ", "@) + ")"@
}

/// ` RESTRICT` or ` CASCADE`, or nothing.
pub open spec fn behavior_sql(b: Option<DropBehavior>) -> Seq<char> {
    match b {
        Some(DropBehavior::Restrict) => " RESTRICT"@,
        Some(DropBehavior::Cascade) => " CASCADE"@,
        None => Seq::empty(),
    }
}

/// What `ALTER COLUMN` does, as SQL.
pub open spec fn alter_column_sql(op: AlterColumnOperationView) -> Seq<char> {
    match op {
        AlterColumnOperationView::SetNotNull => "SET NOT NULL"@,
        AlterColumnOperationView::DropNotNull => "DROP NOT NULL"@,
        AlterColumnOperationView::SetDefault { value } => "SET DEFAULT "@ + value,
        AlterColumnOperationView::DropDefault => "DROP DEFAULT"@,
        AlterColumnOperationView::SetDataType { data_type, using } => "SET DATA TYPE "@ + data_type
            + (match using {
            Some(e) => " USING "@ + e,
            None => Seq::empty(),
        }),
        AlterColumnOperationView::AddGenerated { generated_as, sequence_options } => "ADD GENERATED"@
            + (match generated_as {
            Some(GeneratedAs::Always) => " ALWAYS"@,
            Some(GeneratedAs::ByDefault) => " BY DEFAULT"@,
            _ => Seq::empty(),
        }) + " AS IDENTITY"@ + (match sequence_options {
            Some(so) => sequence_sql(so),
            None => Seq::empty(),
        }),
    }
}

/// An operation of `ALTER TABLE` as SQL.
pub open spec fn operation_sql(op: AlterTableOperationView) -> Seq<char> {
    match op {
        AlterTableOperationView::AddColumn { column_keyword, if_not_exists, column_def } => "ADD"@
            + when(column_keyword, " COLUMN"@) + when(if_not_exists, " IF NOT EXISTS"@) + " "@
            + column_sql(column_def),
        AlterTableOperationView::DropColumn {
            has_column_keyword,
            column_name,
            if_exists,
            drop_behavior,
        } => "DROP "@ + when(has_column_keyword, "COLUMN "@) + when(if_exists, "IF EXISTS "@)
            + ident_sql(column_name) + behavior_sql(drop_behavior),
        AlterTableOperationView::AlterColumn { column_name, op } => "ALTER COLUMN "@ + ident_sql(
            column_name,
        ) + " "@ + alter_column_sql(op),
        AlterTableOperationView::RenameColumn { old_column_name, new_column_name } => "RENAME COLUMN "@
            + ident_sql(old_column_name) + " TO "@ + ident_sql(new_column_name),
        AlterTableOperationView::RenameTable { table_name } => "RENAME TO "@ + name_sql(table_name),
        AlterTableOperationView::Other(t) => t,
    }
}

/// Operations of `ALTER TABLE` as SQL, each by itself.
pub open spec fn operations_sql(list: Seq<AlterTableOperationView>) -> Seq<Seq<char>> {
    list.map_values(|op: AlterTableOperationView| operation_sql(op))
}

/// `ALTER TABLE` with its operations, commas between them.
pub open spec fn alter_table_sql(t: AlterTableView) -> Seq<char> {
    "ALTER TABLE "@ + when(t.if_exists, "IF EXISTS "@) + when(t.only, "ONLY "@) + name_sql(t.name)
        + " "@ + (match t.on_cluster {
        Some(c) => "ON CLUSTER "@ + ident_sql(c) + " "@,
        None => Seq::empty(),
    }) + joined(operations_sql(t.operations), ", "@)
}

/// The kind of a dropped object as SQL.
pub open spec fn object_type_sql(t: ObjectType) -> Seq<char> {
    match t {
        ObjectType::Table => "TABLE"@,
        ObjectType::View => "VIEW"@,
        ObjectType::MaterializedView => "MATERIALIZED VIEW"@,
        ObjectType::Index => "INDEX"@,
        ObjectType::Schema => "SCHEMA"@,
        ObjectType::Database => "DATABASE"@,
        ObjectType::Role => "ROLE"@,
        ObjectType::Sequence => "SEQUENCE"@,
        ObjectType::Stage => "STAGE"@,
        ObjectType::Type => "TYPE"@,
    }
}

/// `DROP` with the names of the objects, commas between them.
pub open spec fn drop_sql(d: DropView) -> Seq<char> {
    "DROP "@ + when(d.temporary, "TEMPORARY "@) + object_type_sql(d.object_type) + when(
        d.if_exists,
        " IF EXISTS"@,
    ) + " "@ + joined(names_sql(d.names), ", "@) + when(d.cascade, " CASCADE"@) + when(
        d.restrict,
        " RESTRICT"@,
    ) + when(d.purge, " PURGE"@)
}

/// `CREATE TYPE` with the labels or the attributes in brackets.
pub open spec fn create_type_sql(t: CreateTypeView) -> Seq<char> {
    "CREATE TYPE "@ + name_sql(t.name) + " AS "@ + (match t.representation {
        TypeRepresentationView::Enum { labels } => "ENUM ("@ + joined(idents_sql(labels), ", "@)
            + ")"@,
        TypeRepresentationView::Composite { attributes } => "("@ + joined(attributes, ", "@) + ")"@,
    })
}

/// What `ALTER TYPE` does, as SQL.
pub open spec fn alter_type_operation_sql(op: AlterTypeOperationView) -> Seq<char> {
    match op {
        AlterTypeOperationView::Rename { new_name } => "RENAME TO "@ + ident_sql(new_name),
        AlterTypeOperationView::AddValue { if_not_exists, value, position } => "ADD VALUE"@ + when(
            if_not_exists,
            " IF NOT EXISTS"@,
        ) + " "@ + ident_sql(value) + (match position {
            Some(AddValuePositionView::Before(x)) => " BEFORE "@ + ident_sql(x),
            Some(AddValuePositionView::After(x)) => " AFTER "@ + ident_sql(x),
            None => Seq::empty(),
        }),
        AlterTypeOperationView::RenameValue { from, to } => "RENAME VALUE "@ + ident_sql(from)
            + " TO "@ + ident_sql(to),
    }
}

/// `ALTER TYPE` with its operation.
pub open spec fn alter_type_sql(t: AlterTypeView) -> Seq<char> {
    "ALTER TYPE "@ + name_sql(t.name) + " "@ + alter_type_operation_sql(t.operation)
}

/// `CREATE EXTENSION` with what it is created with.
pub open spec fn create_extension_sql(e: CreateExtensionView) -> Seq<char> {
    "CREATE EXTENSION "@ + when(e.if_not_exists, "IF NOT EXISTS "@) + ident_sql(e.name) + when(
        e.cascade || e.schema is Some || e.version is Some,
        " WITH"@,
    ) + (match e.schema {
        Some(s) => " SCHEMA "@ + ident_sql(s),
        None => Seq::empty(),
    }) + (match e.version {
        Some(v) => " VERSION "@ + ident_sql(v),
        None => Seq::empty(),
    }) + when(e.cascade, " CASCADE"@)
}

/// `DROP EXTENSION` with the names of the extensions, commas between them.
pub open spec fn drop_extension_sql(d: DropExtensionView) -> Seq<char> {
    "DROP EXTENSION"@ + when(d.if_exists, " IF EXISTS"@) + " "@ + joined(idents_sql(d.names), ", "@)
        + behavior_sql(d.cascade_or_restrict)
}

/// `DROP DOMAIN`.
pub open spec fn drop_domain_sql(d: DropDomainView) -> Seq<char> {
    "DROP DOMAIN"@ + when(d.if_exists, " IF EXISTS"@) + " "@ + name_sql(d.name) + behavior_sql(
        d.drop_behavior,
    )
}

/// The statement as SQL, on one line and without a `;`.
pub open spec fn statement_sql(s: StatementView) -> Seq<char> {
    match s {
        StatementView::CreateTable(x) => create_table_sql(x),
        StatementView::AlterTable(x) => alter_table_sql(x),
        StatementView::Drop(x) => drop_sql(x),
        StatementView::CreateIndex(x) => x.sql,
        StatementView::CreateType(x) => create_type_sql(x),
        StatementView::AlterType(x) => alter_type_sql(x),
        StatementView::CreateExtension(x) => create_extension_sql(x),
        StatementView::DropExtension(x) => drop_extension_sql(x),
        StatementView::CreateDomain(x) => x.sql,
        StatementView::DropDomain(x) => drop_domain_sql(x),
        StatementView::Unsupported(t) => t,
    }
}

/// A statement as it stands in a file: with its `;`, and laid out.
pub open spec fn statement_text(s: StatementView) -> Seq<char> {
    formatted(statement_sql(s) + ";"@)
}

/// Statements as they stand in a file, each by itself.
pub open spec fn statement_texts(list: Seq<StatementView>) -> Seq<Seq<char>> {
    list.map_values(|s: StatementView| statement_text(s))
}

/// A tree as it stands in a file: its statements with an empty line between each two.
pub open spec fn tree_text(list: Seq<StatementView>) -> Seq<char> {
    joined(statement_texts(list), "\n\n"@)
}

// ---------------------------------------------------------------------

fn push_when(out: &mut String, cond: bool, s: &str)
    ensures
        final(out)@ == old(out)@ + when(cond, s@),
{
    if cond {
        out.append(s);
    } else {
        assert(old(out)@ + Seq::<char>::empty() =~= old(out)@);
    }
}

/// Appends the texts of `parts` with `sep` between each two.
pub fn push_joined(out: &mut String, parts: &Vec<String>, sep: &str)
    ensures
        final(out)@ == old(out)@ + joined(texts(parts@), sep@),
{
    let ghost all = texts(parts@);
    let n = parts.len();
    let mut i: usize = 0;
    assert(all.take(0) =~= Seq::<Seq<char>>::empty());
    assert(old(out)@ + joined(all.take(0), sep@) =~= old(out)@);
    while i < n
        invariant
            i <= n,
            n == parts.len(),
            all == texts(parts@),
            out@ == old(out)@ + joined(all.take(i as int), sep@),
        decreases n - i,
    {
        let ghost before = out@;
        if i > 0 {
            out.append(sep);
        }
        out.append(parts[i].as_str());
        proof {
            assert(all[i as int] == parts@[i as int]@);
            assert(all.take(i + 1).drop_last() =~= all.take(i as int));
            assert(all.take(i + 1).last() == all[i as int]);
            if i > 0 {
                assert(out@ =~= old(out)@ + (joined(all.take(i as int), sep@) + sep@
                    + all[i as int]));
            } else {
                assert(joined(all.take(0), sep@) =~= Seq::<char>::empty());
                assert(out@ =~= old(out)@ + all[0]);
            }
        }
        i = i + 1;
    }
    assert(all.take(n as int) =~= all);
}

/// An identifier as SQL.
pub fn ident_string(i: &Ident) -> (r: String)
    ensures
        r@ == ident_sql(i@),
{
    write_ident(i.value.as_str(), i.quote_style)
}

fn ident_strings(list: &Vec<Ident>) -> (r: Vec<String>)
    ensures
        texts(r@) == idents_sql(views(list@)),
{
    let mut out: Vec<String> = Vec::new();
    let n = list.len();
    let mut i: usize = 0;
    while i < n
        invariant
            i <= n,
            n == list.len(),
            out.len() == i,
            forall|x: int| 0 <= x < i ==> (#[trigger] out@[x])@ == ident_sql(list@[x]@),
        decreases n - i,
    {
        out.push(ident_string(&list[i]));
        i = i + 1;
    }
    assert(texts(out@) =~= idents_sql(views(list@)));
    out
}

/// A name as SQL.
pub fn name_string(name: &ObjectName) -> (r: String)
    ensures
        r@ == name_sql(name@),
{
    let parts = ident_strings(&name.parts);
    let mut out = String::new();
    push_joined(&mut out, &parts, ".");
    assert(out@ =~= name_sql(name@));
    out
}

fn name_strings(list: &Vec<ObjectName>) -> (r: Vec<String>)
    ensures
        texts(r@) == names_sql(views(list@)),
{
    let mut out: Vec<String> = Vec::new();
    let n = list.len();
    let mut i: usize = 0;
    while i < n
        invariant
            i <= n,
            n == list.len(),
            out.len() == i,
            forall|x: int| 0 <= x < i ==> (#[trigger] out@[x])@ == name_sql(list@[x]@),
        decreases n - i,
    {
        out.push(name_string(&list[i]));
        i = i + 1;
    }
    assert(texts(out@) =~= names_sql(views(list@)));
    out
}

fn push_sequence(out: &mut String, options: &Vec<String>)
    ensures
        final(out)@ == old(out)@ + sequence_sql(views(options@)),
{
    out.append(" (");
    push_joined(out, options, "");
    out.append(" )");
    assert(texts(options@) =~= views(options@));
    assert(out@ =~= old(out)@ + sequence_sql(views(options@)));
}

fn option_string(o: &ColumnOption) -> (r: String)
    ensures
        r@ == option_sql(o@),
{
    let mut out = String::new();
    match o {
        ColumnOption::NotNull => {
            out.append("NOT NULL");
        },
        ColumnOption::Default(e) => {
            out.append("DEFAULT ");
            out.append(e.as_str());
        },
        ColumnOption::Generated { generated_as, sequence_options, expression } => {
            match expression {
                Some(text) => {
                    out.append(text.as_str());
                },
                None => {
                    out.append("GENERATED ");
                    if matches!(generated_as, GeneratedAs::ByDefault) {
                        out.append("BY DEFAULT");
                    } else {
                        out.append("ALWAYS");
                    }
                    out.append(" AS IDENTITY");
                    match sequence_options {
                        Some(so) => {
                            assert(views(so@).len() == so@.len());
                            if so.len() > 0 {
                                push_sequence(&mut out, so);
                            }
                        },
                        None => {},
                    }
                },
            }
        },
        ColumnOption::Other(t) => {
            out.append(t.as_str());
        },
    }
    assert(out@ =~= option_sql(o@));
    out
}

fn option_def_string(d: &ColumnOptionDef) -> (r: String)
    ensures
        r@ == option_def_sql(d@),
{
    let mut out = String::new();
    match &d.name {
        Some(n) => {
            out.append("CONSTRAINT ");
            let s = ident_string(n);
            out.append(s.as_str());
            out.append(" ");
        },
        None => {},
    }
    let s = option_string(&d.option);
    out.append(s.as_str());
    assert(out@ =~= option_def_sql(d@));
    out
}

/// A column as SQL.
pub fn column_string(c: &ColumnDef) -> (r: String)
    ensures
        r@ == column_sql(c@),
{
    let mut out = ident_string(&c.name);
    match &c.data_type {
        Some(t) => {
            out.append(" ");
            out.append(t.as_str());
        },
        None => {},
    }
    let ghost head = out@;
    assert(head =~= ident_sql(c@.name) + (match c@.data_type {
        Some(t) => " "@ + t,
        None => Seq::empty(),
    }));
    let n = c.options.len();
    let mut i: usize = 0;
    assert(head + options_sql(c@.options, 0) =~= head);
    while i < n
        invariant
            i <= n,
            n == c.options.len(),
            out@ == head + options_sql(c@.options, i as int),
        decreases n - i,
    {
        assert(c@.options[i as int] == c.options@[i as int]@);
        out.append(" ");
        let s = option_def_string(&c.options[i]);
        out.append(s.as_str());
        i = i + 1;
        assert(out@ =~= head + options_sql(c@.options, i as int));
    }
    assert(c@.options.len() == n);
    out
}

fn column_strings(list: &Vec<ColumnDef>) -> (r: Vec<String>)
    ensures
        texts(r@) == columns_sql(views(list@)),
{
    let mut out: Vec<String> = Vec::new();
    let n = list.len();
    let mut i: usize = 0;
    while i < n
        invariant
            i <= n,
            n == list.len(),
            out.len() == i,
            forall|x: int| 0 <= x < i ==> (#[trigger] out@[x])@ == column_sql(list@[x]@),
        decreases n - i,
    {
        out.push(column_string(&list[i]));
        i = i + 1;
    }
    assert(texts(out@) =~= columns_sql(views(list@)));
    out
}

/// Appends copies of the strings of `more` to `list`.
fn extend_strings(list: &mut Vec<String>, more: &Vec<String>)
    ensures
        texts(final(list)@) == texts(old(list)@) + texts(more@),
{
    let n = more.len();
    let mut i: usize = 0;
    assert(texts(list@) + texts(more@).take(0) =~= texts(list@));
    while i < n
        invariant
            i <= n,
            n == more.len(),
            texts(list@) == texts(old(list)@) + texts(more@).take(i as int),
        decreases n - i,
    {
        let ghost before = list@;
        let s = more[i].clone();
        list.push(s);
        i = i + 1;
        assert(texts(list@) =~= texts(before).push(s@));
        assert(texts(old(list)@) + texts(more@).take(i - 1).push(s@) =~= texts(old(list)@) + texts(
            more@,
        ).take(i as int));
    }
    assert(texts(more@).take(n as int) =~= texts(more@));
}

/// `CREATE TABLE` as SQL.
pub fn create_table_string(t: &CreateTable) -> (r: String)
    ensures
        r@ == create_table_sql(t@),
{
    let mut out = String::new();
    out.append("CREATE TABLE ");
    push_when(&mut out, t.if_not_exists, "IF NOT EXISTS ");
    let name = name_string(&t.name);
    out.append(name.as_str());
    match &t.on_cluster {
        Some(c) => {
            out.append(" ON CLUSTER ");
            let s = ident_string(c);
            out.append(s.as_str());
        },
        None => {},
    }
    out.append(" (");
    let mut parts = column_strings(&t.columns);
    extend_strings(&mut parts, &t.constraints);
    assert(texts(t.constraints@) =~= t@.constraints);
    push_joined(&mut out, &parts, ", ");
    out.append(")");
    assert(out@ =~= create_table_sql(t@));
    out
}

fn push_behavior(out: &mut String, b: &Option<DropBehavior>)
    ensures
        final(out)@ == old(out)@ + behavior_sql(*b),
{
    match b {
        Some(DropBehavior::Restrict) => {
            out.append(" RESTRICT");
        },
        Some(DropBehavior::Cascade) => {
            out.append(" CASCADE");
        },
        None => {
            assert(old(out)@ + Seq::<char>::empty() =~= old(out)@);
        },
    }
}

fn alter_column_string(op: &AlterColumnOperation) -> (r: String)
    ensures
        r@ == alter_column_sql(op@),
{
    let mut out = String::new();
    match op {
        AlterColumnOperation::SetNotNull => {
            out.append("SET NOT NULL");
        },
        AlterColumnOperation::DropNotNull => {
            out.append("DROP NOT NULL");
        },
        AlterColumnOperation::SetDefault { value } => {
            out.append("SET DEFAULT ");
            out.append(value.as_str());
        },
        AlterColumnOperation::DropDefault => {
            out.append("DROP DEFAULT");
        },
        AlterColumnOperation::SetDataType { data_type, using } => {
            out.append("SET DATA TYPE ");
            out.append(data_type.as_str());
            match using {
                Some(e) => {
                    out.append(" USING ");
                    out.append(e.as_str());
                },
                None => {},
            }
        },
        AlterColumnOperation::AddGenerated { generated_as, sequence_options } => {
            out.append("ADD GENERATED");
            match generated_as {
                Some(GeneratedAs::Always) => {
                    out.append(" ALWAYS");
                },
                Some(GeneratedAs::ByDefault) => {
                    out.append(" BY DEFAULT");
                },
                _ => {},
            }
            out.append(" AS IDENTITY");
            match sequence_options {
                Some(so) => {
                    push_sequence(&mut out, so);
                },
                None => {},
            }
        },
    }
    assert(out@ =~= alter_column_sql(op@));
    out
}

/// An operation of `ALTER TABLE` as SQL.
pub fn operation_string(op: &AlterTableOperation) -> (r: String)
    ensures
        r@ == operation_sql(op@),
{
    let mut out = String::new();
    match op {
        AlterTableOperation::AddColumn { column_keyword, if_not_exists, column_def } => {
            out.append("ADD");
            push_when(&mut out, *column_keyword, " COLUMN");
            push_when(&mut out, *if_not_exists, " IF NOT EXISTS");
            out.append(" ");
            let s = column_string(column_def);
            out.append(s.as_str());
        },
        AlterTableOperation::DropColumn {
            has_column_keyword,
            column_name,
            if_exists,
            drop_behavior,
        } => {
            out.append("DROP ");
            push_when(&mut out, *has_column_keyword, "COLUMN ");
            push_when(&mut out, *if_exists, "IF EXISTS ");
            let s = ident_string(column_name);
            out.append(s.as_str());
            push_behavior(&mut out, drop_behavior);
        },
        AlterTableOperation::AlterColumn { column_name, op } => {
            out.append("ALTER COLUMN ");
            let s = ident_string(column_name);
            out.append(s.as_str());
            out.append(" ");
            let o = alter_column_string(op);
            out.append(o.as_str());
        },
        AlterTableOperation::RenameColumn { old_column_name, new_column_name } => {
            out.append("RENAME COLUMN ");
            let a = ident_string(old_column_name);
            out.append(a.as_str());
            out.append(" TO ");
            let b = ident_string(new_column_name);
            out.append(b.as_str());
        },
        AlterTableOperation::RenameTable { table_name } => {
            out.append("RENAME TO ");
            let s = name_string(table_name);
            out.append(s.as_str());
        },
        AlterTableOperation::Other(t) => {
            out.append(t.as_str());
        },
    }
    assert(out@ =~= operation_sql(op@));
    out
}

fn operation_strings(list: &Vec<AlterTableOperation>) -> (r: Vec<String>)
    ensures
        texts(r@) == operations_sql(views(list@)),
{
    let mut out: Vec<String> = Vec::new();
    let n = list.len();
    let mut i: usize = 0;
    while i < n
        invariant
            i <= n,
            n == list.len(),
            out.len() == i,
            forall|x: int| 0 <= x < i ==> (#[trigger] out@[x])@ == operation_sql(list@[x]@),
        decreases n - i,
    {
        out.push(operation_string(&list[i]));
        i = i + 1;
    }
    assert(texts(out@) =~= operations_sql(views(list@)));
    out
}

/// `ALTER TABLE` as SQL.
pub fn alter_table_string(t: &AlterTable) -> (r: String)
    ensures
        r@ == alter_table_sql(t@),
{
    let mut out = String::new();
    out.append("ALTER TABLE ");
    push_when(&mut out, t.if_exists, "IF EXISTS ");
    push_when(&mut out, t.only, "ONLY ");
    let name = name_string(&t.name);
    out.append(name.as_str());
    out.append(" ");
    match &t.on_cluster {
        Some(c) => {
            out.append("ON CLUSTER ");
            let s = ident_string(c);
            out.append(s.as_str());
            out.append(" ");
        },
        None => {},
    }
    let ops = operation_strings(&t.operations);
    push_joined(&mut out, &ops, ", ");
    assert(out@ =~= alter_table_sql(t@));
    out
}

fn object_type_str(t: ObjectType) -> (r: &'static str)
    ensures
        r@ == object_type_sql(t),
{
    match t {
        ObjectType::Table => "TABLE",
        ObjectType::View => "VIEW",
        ObjectType::MaterializedView => "MATERIALIZED VIEW",
        ObjectType::Index => "INDEX",
        ObjectType::Schema => "SCHEMA",
        ObjectType::Database => "DATABASE",
        ObjectType::Role => "ROLE",
        ObjectType::Sequence => "SEQUENCE",
        ObjectType::Stage => "STAGE",
        ObjectType::Type => "TYPE",
    }
}

/// `DROP` as SQL.
pub fn drop_string(d: &Drop) -> (r: String)
    ensures
        r@ == drop_sql(d@),
{
    let mut out = String::new();
    out.append("DROP ");
    push_when(&mut out, d.temporary, "TEMPORARY ");
    out.append(object_type_str(d.object_type));
    push_when(&mut out, d.if_exists, " IF EXISTS");
    out.append(" ");
    let names = name_strings(&d.names);
    push_joined(&mut out, &names, ", ");
    push_when(&mut out, d.cascade, " CASCADE");
    push_when(&mut out, d.restrict, " RESTRICT");
    push_when(&mut out, d.purge, " PURGE");
    assert(out@ =~= drop_sql(d@));
    out
}

/// `CREATE TYPE` as SQL.
pub fn create_type_string(t: &CreateType) -> (r: String)
    ensures
        r@ == create_type_sql(t@),
{
    let mut out = String::new();
    out.append("CREATE TYPE ");
    let name = name_string(&t.name);
    out.append(name.as_str());
    out.append(" AS ");
    match &t.representation {
        TypeRepresentation::Enum { labels } => {
            out.append("ENUM (");
            let parts = ident_strings(labels);
            push_joined(&mut out, &parts, ", ");
            out.append(")");
        },
        TypeRepresentation::Composite { attributes } => {
            out.append("(");
            assert(texts(attributes@) =~= views(attributes@));
            push_joined(&mut out, attributes, ", ");
            out.append(")");
        },
    }
    assert(out@ =~= create_type_sql(t@));
    out
}

/// What `ALTER TYPE` does, as SQL.
pub fn alter_type_operation_string(op: &AlterTypeOperation) -> (r: String)
    ensures
        r@ == alter_type_operation_sql(op@),
{
    let mut out = String::new();
    match op {
        AlterTypeOperation::Rename { new_name } => {
            out.append("RENAME TO ");
            let s = ident_string(new_name);
            out.append(s.as_str());
        },
        AlterTypeOperation::AddValue { if_not_exists, value, position } => {
            out.append("ADD VALUE");
            push_when(&mut out, *if_not_exists, " IF NOT EXISTS");
            out.append(" ");
            let s = ident_string(value);
            out.append(s.as_str());
            match position {
                Some(AddValuePosition::Before(x)) => {
                    out.append(" BEFORE ");
                    let n = ident_string(x);
                    out.append(n.as_str());
                },
                Some(AddValuePosition::After(x)) => {
                    out.append(" AFTER ");
                    let n = ident_string(x);
                    out.append(n.as_str());
                },
                None => {},
            }
        },
        AlterTypeOperation::RenameValue { from, to } => {
            out.append("RENAME VALUE ");
            let a = ident_string(from);
            out.append(a.as_str());
            out.append(" TO ");
            let b = ident_string(to);
            out.append(b.as_str());
        },
    }
    assert(out@ =~= alter_type_operation_sql(op@));
    out
}

/// `ALTER TYPE` as SQL.
pub fn alter_type_string(t: &AlterType) -> (r: String)
    ensures
        r@ == alter_type_sql(t@),
{
    let mut out = String::new();
    out.append("ALTER TYPE ");
    let name = name_string(&t.name);
    out.append(name.as_str());
    out.append(" ");
    let op = alter_type_operation_string(&t.operation);
    out.append(op.as_str());
    assert(out@ =~= alter_type_sql(t@));
    out
}

/// `CREATE EXTENSION` as SQL.
pub fn create_extension_string(e: &CreateExtension) -> (r: String)
    ensures
        r@ == create_extension_sql(e@),
{
    let mut out = String::new();
    out.append("CREATE EXTENSION ");
    push_when(&mut out, e.if_not_exists, "IF NOT EXISTS ");
    let name = ident_string(&e.name);
    out.append(name.as_str());
    push_when(&mut out, e.cascade || e.schema.is_some() || e.version.is_some(), " WITH");
    match &e.schema {
        Some(s) => {
            out.append(" SCHEMA ");
            let t = ident_string(s);
            out.append(t.as_str());
        },
        None => {},
    }
    match &e.version {
        Some(v) => {
            out.append(" VERSION ");
            let t = ident_string(v);
            out.append(t.as_str());
        },
        None => {},
    }
    push_when(&mut out, e.cascade, " CASCADE");
    assert(out@ =~= create_extension_sql(e@));
    out
}

/// `DROP EXTENSION` as SQL.
pub fn drop_extension_string(d: &DropExtension) -> (r: String)
    ensures
        r@ == drop_extension_sql(d@),
{
    let mut out = String::new();
    out.append("DROP EXTENSION");
    push_when(&mut out, d.if_exists, " IF EXISTS");
    out.append(" ");
    let names = ident_strings(&d.names);
    push_joined(&mut out, &names, ", ");
    push_behavior(&mut out, &d.cascade_or_restrict);
    assert(out@ =~= drop_extension_sql(d@));
    out
}

/// `DROP DOMAIN` as SQL.
pub fn drop_domain_string(d: &DropDomain) -> (r: String)
    ensures
        r@ == drop_domain_sql(d@),
{
    let mut out = String::new();
    out.append("DROP DOMAIN");
    push_when(&mut out, d.if_exists, " IF EXISTS");
    out.append(" ");
    let name = name_string(&d.name);
    out.append(name.as_str());
    push_behavior(&mut out, &d.drop_behavior);
    assert(out@ =~= drop_domain_sql(d@));
    out
}

/// The statement as SQL, on one line and without a `;`.
pub fn statement_string(s: &Statement) -> (r: String)
    ensures
        r@ == statement_sql(s@),
{
    match s {
        Statement::CreateTable(x) => create_table_string(x),
        Statement::AlterTable(x) => alter_table_string(x),
        Statement::Drop(x) => drop_string(x),
        Statement::CreateIndex(x) => x.sql.clone(),
        Statement::CreateType(x) => create_type_string(x),
        Statement::AlterType(x) => alter_type_string(x),
        Statement::CreateExtension(x) => create_extension_string(x),
        Statement::DropExtension(x) => drop_extension_string(x),
        Statement::CreateDomain(x) => x.sql.clone(),
        Statement::DropDomain(x) => drop_domain_string(x),
        Statement::Unsupported(t) => t.clone(),
    }
}

/// The statements as they stand in a file: each with its `;` and laid out,
/// with an empty line between each two.
pub fn tree_string(list: &Vec<Statement>) -> (r: String)
    ensures
        r@ == tree_text(views(list@)),
{
    let mut parts: Vec<String> = Vec::new();
    let n = list.len();
    let mut i: usize = 0;
    while i < n
        invariant
            i <= n,
            n == list.len(),
            parts.len() == i,
            forall|x: int| 0 <= x < i ==> (#[trigger] parts@[x])@ == statement_text(list@[x]@),
        decreases n - i,
    {
        let mut sql = statement_string(&list[i]);
        sql.append(";");
        parts.push(format_sql(sql.as_str()));
        i = i + 1;
    }
    assert(texts(parts@) =~= statement_texts(views(list@)));
    let mut out = String::new();
    push_joined(&mut out, &parts, "\n\n");
    assert(out@ =~= tree_text(views(list@)));
    out
}

} // verus!
