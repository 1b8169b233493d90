//! The engines on schemas and migrations that are read from SQL text.

use sql_schema::ast::{
    AddValuePosition, AlterColumnOperation, AlterTable, AlterTableOperation, AlterType,
    AlterTypeOperation, ColumnDef, ColumnOption, ColumnOptionDef, CreateDomain, CreateExtension,
    CreateIndex, CreateTable, CreateType, Drop, DropBehavior, DropDomain, DropExtension,
    GeneratedAs, Ident, ObjectName, ObjectType, Quote, Statement, TypeRepresentation,
};
use sql_schema::printer::statement_string;
use sql_schema::{generate_name, Dialect, DiffErrorKind, MigrateErrorKind, SyntaxTree};
use sqlparser::ast as sp;
use sqlparser::dialect;
use sqlparser::parser::Parser;

fn sql_dialect(d: Dialect) -> Box<dyn dialect::Dialect> {
    match d {
        Dialect::Ansi => Box::new(dialect::AnsiDialect {}),
        Dialect::BigQuery => Box::new(dialect::BigQueryDialect {}),
        Dialect::ClickHouse => Box::new(dialect::ClickHouseDialect {}),
        Dialect::Databricks => Box::new(dialect::DatabricksDialect {}),
        Dialect::DuckDb => Box::new(dialect::DuckDbDialect {}),
        Dialect::Hive => Box::new(dialect::HiveDialect {}),
        Dialect::MsSql => Box::new(dialect::MsSqlDialect {}),
        Dialect::MySql => Box::new(dialect::MySqlDialect {}),
        Dialect::PostgreSql => Box::new(dialect::PostgreSqlDialect {}),
        Dialect::RedshiftSql => Box::new(dialect::RedshiftSqlDialect {}),
        Dialect::Snowflake => Box::new(dialect::SnowflakeDialect {}),
        Dialect::SQLite => Box::new(dialect::SQLiteDialect {}),
        _ => Box::new(dialect::GenericDialect {}),
    }
}

fn ident(i: &sp::Ident) -> Option<Ident> {
    let quote_style = match i.quote_style {
        None => None,
        Some('"') => Some(Quote::Double),
        Some('\'') => Some(Quote::Single),
        Some('`') => Some(Quote::Backtick),
        Some('[') => Some(Quote::Bracket),
        Some(_) => return None,
    };
    Some(Ident { value: i.value.clone(), quote_style })
}

fn idents(list: &[sp::Ident]) -> Option<Vec<Ident>> {
    list.iter().map(ident).collect()
}

fn name(n: &sp::ObjectName) -> Option<ObjectName> {
    let mut parts = Vec::new();
    for p in &n.0 {
        match p {
            sp::ObjectNamePart::Identifier(i) => parts.push(ident(i)?),
        }
    }
    Some(ObjectName { parts })
}

fn generated_as(g: &sp::GeneratedAs) -> GeneratedAs {
    match g {
        sp::GeneratedAs::Always => GeneratedAs::Always,
        sp::GeneratedAs::ByDefault => GeneratedAs::ByDefault,
        sp::GeneratedAs::ExpStored => GeneratedAs::ExpStored,
    }
}

fn sequence(options: &Option<Vec<sp::SequenceOptions>>) -> Option<Vec<String>> {
    options.as_ref().map(|v| v.iter().map(|o| o.to_string()).collect())
}

fn column_option(d: &sp::ColumnOptionDef) -> Option<ColumnOptionDef> {
    let option = match &d.option {
        sp::ColumnOption::NotNull => ColumnOption::NotNull,
        sp::ColumnOption::Default(e) => ColumnOption::Default(e.to_string()),
        sp::ColumnOption::Generated {
            generated_as: g,
            sequence_options,
            generation_expr,
            ..
        } => {
            if generation_expr.is_some() {
                ColumnOption::Generated {
                    generated_as: generated_as(g),
                    sequence_options: None,
                    expression: Some(d.option.to_string()),
                }
            } else {
                ColumnOption::Generated {
                    generated_as: generated_as(g),
                    sequence_options: sequence(sequence_options),
                    expression: None,
                }
            }
        }
        other => ColumnOption::Other(other.to_string()),
    };
    let name = match &d.name {
        Some(n) => Some(ident(n)?),
        None => None,
    };
    Some(ColumnOptionDef { name, option })
}

fn column(c: &sp::ColumnDef) -> Option<ColumnDef> {
    let data_type = match &c.data_type {
        sp::DataType::Unspecified => None,
        t => Some(t.to_string()),
    };
    let mut options = Vec::new();
    for o in &c.options {
        options.push(column_option(o)?);
    }
    Some(ColumnDef { name: ident(&c.name)?, data_type, options })
}

fn table(t: &sp::CreateTable) -> Option<CreateTable> {
    let mut columns = Vec::new();
    for c in &t.columns {
        columns.push(column(c)?);
    }
    let on_cluster = match &t.on_cluster {
        Some(c) => Some(ident(c)?),
        None => None,
    };
    Some(CreateTable {
        name: name(&t.name)?,
        columns,
        constraints: t.constraints.iter().map(|c| c.to_string()).collect(),
        if_not_exists: t.if_not_exists,
        on_cluster,
    })
}

fn behavior(b: &Option<sp::DropBehavior>) -> Option<DropBehavior> {
    match b {
        Some(sp::DropBehavior::Restrict) => Some(DropBehavior::Restrict),
        Some(sp::DropBehavior::Cascade) => Some(DropBehavior::Cascade),
        None => None,
    }
}

fn alter_column(op: &sp::AlterColumnOperation) -> AlterColumnOperation {
    match op {
        sp::AlterColumnOperation::SetNotNull => AlterColumnOperation::SetNotNull,
        sp::AlterColumnOperation::DropNotNull => AlterColumnOperation::DropNotNull,
        sp::AlterColumnOperation::SetDefault { value } => {
            AlterColumnOperation::SetDefault { value: value.to_string() }
        }
        sp::AlterColumnOperation::DropDefault => AlterColumnOperation::DropDefault,
        sp::AlterColumnOperation::SetDataType { data_type, using } => {
            AlterColumnOperation::SetDataType {
                data_type: data_type.to_string(),
                using: using.as_ref().map(|e| e.to_string()),
            }
        }
        sp::AlterColumnOperation::AddGenerated { generated_as: g, sequence_options } => {
            AlterColumnOperation::AddGenerated {
                generated_as: g.as_ref().map(generated_as),
                sequence_options: sequence(sequence_options),
            }
        }
    }
}

fn known_operation(op: &sp::AlterTableOperation) -> Option<AlterTableOperation> {
    match op {
        sp::AlterTableOperation::AddColumn {
            column_keyword,
            if_not_exists,
            column_def,
            column_position: None,
        } => Some(AlterTableOperation::AddColumn {
            column_keyword: *column_keyword,
            if_not_exists: *if_not_exists,
            column_def: column(column_def)?,
        }),
        sp::AlterTableOperation::DropColumn {
            has_column_keyword,
            column_name,
            if_exists,
            drop_behavior,
        } => Some(AlterTableOperation::DropColumn {
            has_column_keyword: *has_column_keyword,
            column_name: ident(column_name)?,
            if_exists: *if_exists,
            drop_behavior: behavior(drop_behavior),
        }),
        sp::AlterTableOperation::AlterColumn { column_name, op } => {
            Some(AlterTableOperation::AlterColumn {
                column_name: ident(column_name)?,
                op: alter_column(op),
            })
        }
        sp::AlterTableOperation::RenameColumn { old_column_name, new_column_name } => {
            Some(AlterTableOperation::RenameColumn {
                old_column_name: ident(old_column_name)?,
                new_column_name: ident(new_column_name)?,
            })
        }
        sp::AlterTableOperation::RenameTable { table_name } => {
            Some(AlterTableOperation::RenameTable { table_name: name(table_name)? })
        }
        _ => None,
    }
}

fn operation(op: &sp::AlterTableOperation) -> AlterTableOperation {
    known_operation(op).unwrap_or_else(|| AlterTableOperation::Other(op.to_string()))
}

fn alter_type(t: &sp::AlterType) -> Option<AlterType> {
    let operation = match &t.operation {
        sp::AlterTypeOperation::Rename(r) => {
            AlterTypeOperation::Rename { new_name: ident(&r.new_name)? }
        }
        sp::AlterTypeOperation::AddValue(a) => AlterTypeOperation::AddValue {
            if_not_exists: a.if_not_exists,
            value: ident(&a.value)?,
            position: match &a.position {
                Some(sp::AlterTypeAddValuePosition::Before(x)) => {
                    Some(AddValuePosition::Before(ident(x)?))
                }
                Some(sp::AlterTypeAddValuePosition::After(x)) => {
                    Some(AddValuePosition::After(ident(x)?))
                }
                None => None,
            },
        },
        sp::AlterTypeOperation::RenameValue(r) => {
            AlterTypeOperation::RenameValue { from: ident(&r.from)?, to: ident(&r.to)? }
        }
    };
    Some(AlterType { name: name(&t.name)?, operation })
}

fn object_type(t: &sp::ObjectType) -> ObjectType {
    match t {
        sp::ObjectType::Table => ObjectType::Table,
        sp::ObjectType::View => ObjectType::View,
        sp::ObjectType::MaterializedView => ObjectType::MaterializedView,
        sp::ObjectType::Index => ObjectType::Index,
        sp::ObjectType::Schema => ObjectType::Schema,
        sp::ObjectType::Database => ObjectType::Database,
        sp::ObjectType::Role => ObjectType::Role,
        sp::ObjectType::Sequence => ObjectType::Sequence,
        sp::ObjectType::Stage => ObjectType::Stage,
        sp::ObjectType::Type => ObjectType::Type,
    }
}

fn known_statement(s: &sp::Statement) -> Option<Statement> {
    match s {
        sp::Statement::CreateTable(t) => Some(Statement::CreateTable(table(t)?)),
        sp::Statement::AlterTable {
            name: n,
            if_exists,
            only,
            operations,
            location: None,
            on_cluster,
            iceberg: false,
        } => Some(Statement::AlterTable(AlterTable {
            name: name(n)?,
            if_exists: *if_exists,
            only: *only,
            operations: operations.iter().map(operation).collect(),
            on_cluster: match on_cluster {
                Some(c) => Some(ident(c)?),
                None => None,
            },
        })),
        sp::Statement::Drop {
            object_type: t,
            if_exists,
            names,
            cascade,
            restrict,
            purge,
            temporary,
            table: None,
        } => {
            let mut list = Vec::new();
            for n in names {
                list.push(name(n)?);
            }
            Some(Statement::Drop(Drop {
                object_type: object_type(t),
                if_exists: *if_exists,
                names: list,
                cascade: *cascade,
                restrict: *restrict,
                purge: *purge,
                temporary: *temporary,
            }))
        }
        sp::Statement::CreateIndex(i) => Some(Statement::CreateIndex(CreateIndex {
            name: match &i.name {
                Some(n) => Some(name(n)?),
                None => None,
            },
            table_name: name(&i.table_name)?,
            if_not_exists: i.if_not_exists,
            sql: s.to_string(),
        })),
        sp::Statement::CreateType { name: n, representation } => {
            let representation = match representation {
                sp::UserDefinedTypeRepresentation::Enum { labels } => {
                    TypeRepresentation::Enum { labels: idents(labels)? }
                }
                sp::UserDefinedTypeRepresentation::Composite { attributes } => {
                    TypeRepresentation::Composite {
                        attributes: attributes.iter().map(|a| a.to_string()).collect(),
                    }
                }
            };
            Some(Statement::CreateType(CreateType { name: name(n)?, representation }))
        }
        sp::Statement::AlterType(t) => Some(Statement::AlterType(alter_type(t)?)),
        sp::Statement::CreateExtension { name: n, if_not_exists, cascade, schema, version } => {
            Some(Statement::CreateExtension(CreateExtension {
                name: ident(n)?,
                if_not_exists: *if_not_exists,
                cascade: *cascade,
                schema: match schema {
                    Some(x) => Some(ident(x)?),
                    None => None,
                },
                version: match version {
                    Some(x) => Some(ident(x)?),
                    None => None,
                },
            }))
        }
        sp::Statement::DropExtension { names, if_exists, cascade_or_restrict } => {
            let cascade_or_restrict = match cascade_or_restrict {
                None => None,
                Some(sp::ReferentialAction::Cascade) => Some(DropBehavior::Cascade),
                Some(sp::ReferentialAction::Restrict) => Some(DropBehavior::Restrict),
                Some(_) => return None,
            };
            Some(Statement::DropExtension(DropExtension {
                names: idents(names)?,
                if_exists: *if_exists,
                cascade_or_restrict,
            }))
        }
        sp::Statement::CreateDomain(d) => {
            Some(Statement::CreateDomain(CreateDomain { name: name(&d.name)?, sql: s.to_string() }))
        }
        sp::Statement::DropDomain(d) => Some(Statement::DropDomain(DropDomain {
            if_exists: d.if_exists,
            name: name(&d.name)?,
            drop_behavior: behavior(&d.drop_behavior),
        })),
        _ => None,
    }
}

/// The statement in the library's terms, where the library writes it out
/// as the parser does; any other statement is carried as text.
fn statement(s: &sp::Statement) -> Statement {
    let text = s.to_string();
    match known_statement(s) {
        Some(known) if statement_string(&known) == text => known,
        _ => Statement::Unsupported(text),
    }
}

fn parse(d: Dialect, sql: &str) -> SyntaxTree {
    let ast = Parser::parse_sql(sql_dialect(d).as_ref(), sql)
        .unwrap_or_else(|e| panic!("invalid SQL: {sql:?}: {e}"));
    SyntaxTree::new(ast.iter().map(statement).collect())
}

struct TestCase {
    dialect: Dialect,
    sql_a: &'static str,
    sql_b: &'static str,
    expect: &'static str,
}

fn run_diff(test_cases: Vec<TestCase>) {
    for tc in test_cases {
        let a = parse(tc.dialect, tc.sql_a);
        let b = parse(tc.dialect, tc.sql_b);
        parse(tc.dialect, tc.expect);
        let actual = a.diff(&b).unwrap().unwrap();
        assert_eq!(actual.to_string(), tc.expect, "{:?} -> {:?}", tc.sql_a, tc.sql_b);
    }
}

fn run_migrate(test_cases: Vec<TestCase>) {
    for tc in test_cases {
        let a = parse(tc.dialect, tc.sql_a);
        let b = parse(tc.dialect, tc.sql_b);
        parse(tc.dialect, tc.expect);
        let actual = a.migrate(&b).unwrap().unwrap();
        assert_eq!(actual.to_string(), tc.expect, "{:?} + {:?}", tc.sql_a, tc.sql_b);
    }
}

#[test]
fn diff_create_table() {
    run_diff(vec![TestCase {
        dialect: Dialect::Generic,
        sql_a: "CREATE TABLE foo(\
                    id int PRIMARY KEY
                )",
        sql_b: "CREATE TABLE foo(\
                    id int PRIMARY KEY
                );\
                CREATE TABLE bar (id INT PRIMARY KEY);",
        expect: "CREATE TABLE bar (id INT PRIMARY KEY);",
    }]);
}

#[test]
fn diff_drop_table() {
    run_diff(vec![TestCase {
        dialect: Dialect::Generic,
        sql_a: "CREATE TABLE foo(\
                id int PRIMARY KEY
            );\
            CREATE TABLE bar (id INT PRIMARY KEY);",
        sql_b: "CREATE TABLE foo(\
                id int PRIMARY KEY
            )",
        expect: "DROP TABLE bar;",
    }]);
}

#[test]
fn diff_add_column() {
    run_diff(vec![TestCase {
        dialect: Dialect::Generic,
        sql_a: "CREATE TABLE foo(\
                id int PRIMARY KEY
            )",
        sql_b: "CREATE TABLE foo(\
                id int PRIMARY KEY,
                bar text
            )",
        expect: "ALTER TABLE\n  foo\nADD\n  COLUMN bar TEXT;",
    }]);
}

#[test]
fn diff_drop_column() {
    run_diff(vec![TestCase {
        dialect: Dialect::Generic,
        sql_a: "CREATE TABLE foo(\
                id int PRIMARY KEY,
                bar text
            )",
        sql_b: "CREATE TABLE foo(\
                id int PRIMARY KEY
            )",
        expect: "ALTER TABLE\n  foo DROP COLUMN bar;",
    }]);
}

#[test]
fn diff_create_index() {
    run_diff(vec![
        TestCase {
            dialect: Dialect::Generic,
            sql_a: "CREATE UNIQUE INDEX title_idx ON films (title);",
            sql_b: "CREATE UNIQUE INDEX title_idx ON films ((lower(title)));",
            expect: "DROP INDEX title_idx;\n\nCREATE UNIQUE INDEX title_idx ON films((lower(title)));",
        },
        TestCase {
            dialect: Dialect::Generic,
            sql_a: "CREATE UNIQUE INDEX IF NOT EXISTS title_idx ON films (title);",
            sql_b: "CREATE UNIQUE INDEX IF NOT EXISTS title_idx ON films ((lower(title)));",
            expect: "DROP INDEX IF EXISTS title_idx;\n\nCREATE UNIQUE INDEX IF NOT EXISTS title_idx ON films((lower(title)));",
        },
    ]);
}

#[test]
fn diff_create_type() {
    run_diff(vec![
        TestCase {
            dialect: Dialect::Generic,
            sql_a: "CREATE TYPE bug_status AS ENUM ('new', 'open');",
            sql_b: "CREATE TYPE foo AS ENUM ('bar');",
            expect: "DROP TYPE bug_status;\n\nCREATE TYPE foo AS ENUM ('bar');",
        },
        TestCase {
            dialect: Dialect::Generic,
            sql_a: "CREATE TYPE bug_status AS ENUM ('new', 'open', 'closed');",
            sql_b: "CREATE TYPE bug_status AS ENUM ('new', 'open', 'assigned', 'closed');",
            expect: "ALTER TYPE bug_status\nADD\n  VALUE 'assigned'\nAFTER\n  'open';",
        },
        TestCase {
            dialect: Dialect::Generic,
            sql_a: "CREATE TYPE bug_status AS ENUM ('open', 'closed');",
            sql_b: "CREATE TYPE bug_status AS ENUM ('new', 'open', 'closed');",
            expect: "ALTER TYPE bug_status\nADD\n  VALUE 'new' BEFORE 'open';",
        },
        TestCase {
            dialect: Dialect::Generic,
            sql_a: "CREATE TYPE bug_status AS ENUM ('new', 'open');",
            sql_b: "CREATE TYPE bug_status AS ENUM ('new', 'open', 'closed');",
            expect: "ALTER TYPE bug_status\nADD\n  VALUE 'closed';",
        },
        TestCase {
            dialect: Dialect::Generic,
            sql_a: "CREATE TYPE bug_status AS ENUM ('new', 'open');",
            sql_b: "CREATE TYPE bug_status AS ENUM ('new', 'open', 'assigned', 'closed');",
            expect: "ALTER TYPE bug_status\nADD\n  VALUE 'assigned';\n\nALTER TYPE bug_status\nADD\n  VALUE 'closed';",
        },
        TestCase {
            dialect: Dialect::Generic,
            sql_a: "CREATE TYPE bug_status AS ENUM ('open', 'critical');",
            sql_b: "CREATE TYPE bug_status AS ENUM ('new', 'open', 'assigned', 'closed', 'critical');",
            expect: "ALTER TYPE bug_status\nADD\n  VALUE 'new' BEFORE 'open';\n\nALTER TYPE bug_status\nADD\n  VALUE 'assigned'\nAFTER\n  'open';\n\nALTER TYPE bug_status\nADD\n  VALUE 'closed'\nAFTER\n  'assigned';",
        },
        TestCase {
            dialect: Dialect::Generic,
            sql_a: "CREATE TYPE bug_status AS ENUM ('open');",
            sql_b: "CREATE TYPE bug_status AS ENUM ('new', 'open', 'closed');",
            expect: "ALTER TYPE bug_status\nADD\n  VALUE 'new' BEFORE 'open';\n\nALTER TYPE bug_status\nADD\n  VALUE 'closed';",
        },
    ]);
}

#[test]
fn diff_create_extension() {
    run_diff(vec![TestCase {
        dialect: Dialect::Generic,
        sql_a: "CREATE EXTENSION hstore;",
        sql_b: "CREATE EXTENSION IF NOT EXISTS \"uuid-ossp\";",
        expect: "DROP EXTENSION hstore;\n\nCREATE EXTENSION IF NOT EXISTS \"uuid-ossp\";",
    }]);
}

#[test]
fn apply_create_table() {
    run_migrate(vec![TestCase {
        dialect: Dialect::Generic,
        sql_a: "CREATE TABLE bar (id INT PRIMARY KEY);",
        sql_b: "CREATE TABLE foo (id INT PRIMARY KEY);",
        expect: "CREATE TABLE bar (id INT PRIMARY KEY);\n\nCREATE TABLE foo (id INT PRIMARY KEY);",
    }]);
}

#[test]
fn apply_drop_table() {
    run_migrate(vec![TestCase {
        dialect: Dialect::Generic,
        sql_a: "CREATE TABLE bar (id INT PRIMARY KEY)",
        sql_b: "DROP TABLE bar; CREATE TABLE foo (id INT PRIMARY KEY)",
        expect: "CREATE TABLE foo (id INT PRIMARY KEY);",
    }]);
}

#[test]
fn apply_alter_table_add_column() {
    run_migrate(vec![TestCase {
        dialect: Dialect::Generic,
        sql_a: "CREATE TABLE bar (id INT PRIMARY KEY)",
        sql_b: "ALTER TABLE bar ADD COLUMN bar TEXT",
        expect: "CREATE TABLE bar (id INT PRIMARY KEY, bar TEXT);",
    }]);
}

#[test]
fn apply_alter_table_drop_column() {
    run_migrate(vec![TestCase {
        dialect: Dialect::Generic,
        sql_a: "CREATE TABLE bar (bar TEXT, id INT PRIMARY KEY)",
        sql_b: "ALTER TABLE bar DROP COLUMN bar",
        expect: "CREATE TABLE bar (id INT PRIMARY KEY);",
    }]);
}

#[test]
fn apply_alter_table_alter_column() {
    run_migrate(vec![
        TestCase {
            dialect: Dialect::Generic,
            sql_a: "CREATE TABLE bar (bar TEXT, id INT PRIMARY KEY)",
            sql_b: "ALTER TABLE bar ALTER COLUMN bar SET NOT NULL",
            expect: "CREATE TABLE bar (bar TEXT NOT NULL, id INT PRIMARY KEY);",
        },
        TestCase {
            dialect: Dialect::Generic,
            sql_a: "CREATE TABLE bar (bar TEXT NOT NULL, id INT PRIMARY KEY)",
            sql_b: "ALTER TABLE bar ALTER COLUMN bar DROP NOT NULL",
            expect: "CREATE TABLE bar (bar TEXT, id INT PRIMARY KEY);",
        },
        TestCase {
            dialect: Dialect::Generic,
            sql_a: "CREATE TABLE bar (bar TEXT NOT NULL DEFAULT 'foo', id INT PRIMARY KEY)",
            sql_b: "ALTER TABLE bar ALTER COLUMN bar DROP DEFAULT",
            expect: "CREATE TABLE bar (bar TEXT NOT NULL, id INT PRIMARY KEY);",
        },
        TestCase {
            dialect: Dialect::Generic,
            sql_a: "CREATE TABLE bar (bar TEXT, id INT PRIMARY KEY)",
            sql_b: "ALTER TABLE bar ALTER COLUMN bar SET DATA TYPE INTEGER",
            expect: "CREATE TABLE bar (bar INTEGER, id INT PRIMARY KEY);",
        },
        TestCase {
            dialect: Dialect::PostgreSql,
            sql_a: "CREATE TABLE bar (bar TEXT, id INT PRIMARY KEY)",
            sql_b: "ALTER TABLE bar ALTER COLUMN bar SET DATA TYPE timestamp with time zone\n USING timestamp with time zone 'epoch' + foo_timestamp * interval '1 second'",
            expect: "CREATE TABLE bar (bar TIMESTAMP WITH TIME ZONE, id INT PRIMARY KEY);",
        },
        TestCase {
            dialect: Dialect::Generic,
            sql_a: "CREATE TABLE bar (bar INTEGER, id INT PRIMARY KEY)",
            sql_b: "ALTER TABLE bar ALTER COLUMN bar ADD GENERATED BY DEFAULT AS IDENTITY",
            expect: "CREATE TABLE bar (\n  bar INTEGER GENERATED BY DEFAULT AS IDENTITY,\n  id INT PRIMARY KEY\n);",
        },
        TestCase {
            dialect: Dialect::Generic,
            sql_a: "CREATE TABLE bar (bar INTEGER, id INT PRIMARY KEY)",
            sql_b: "ALTER TABLE bar ALTER COLUMN bar ADD GENERATED ALWAYS AS IDENTITY (START WITH 10)",
            expect: "CREATE TABLE bar (\n  bar INTEGER GENERATED ALWAYS AS IDENTITY (START WITH 10),\n  id INT PRIMARY KEY\n);",
        },
    ]);
}

#[test]
fn apply_create_index() {
    run_migrate(vec![
        TestCase {
            dialect: Dialect::Generic,
            sql_a: "CREATE UNIQUE INDEX title_idx ON films (title);",
            sql_b: "CREATE INDEX code_idx ON films (code);",
            expect: "CREATE UNIQUE INDEX title_idx ON films(title);\n\nCREATE INDEX code_idx ON films(code);",
        },
        TestCase {
            dialect: Dialect::Generic,
            sql_a: "CREATE UNIQUE INDEX title_idx ON films (title);",
            sql_b: "DROP INDEX title_idx;",
            expect: "",
        },
        TestCase {
            dialect: Dialect::Generic,
            sql_a: "CREATE UNIQUE INDEX title_idx ON films (title);",
            sql_b: "DROP INDEX title_idx;CREATE INDEX code_idx ON films (code);",
            expect: "CREATE INDEX code_idx ON films(code);",
        },
    ]);
}

#[test]
fn apply_alter_create_type() {
    run_migrate(vec![TestCase {
        dialect: Dialect::Generic,
        sql_a: "CREATE TYPE bug_status AS ENUM ('open', 'closed');",
        sql_b: "CREATE TYPE compfoo AS (f1 int, f2 text);",
        expect: "CREATE TYPE bug_status AS ENUM ('open', 'closed');\n\nCREATE TYPE compfoo AS (f1 INT, f2 TEXT);",
    }]);
}

#[test]
fn apply_alter_type_rename() {
    run_migrate(vec![TestCase {
        dialect: Dialect::Generic,
        sql_a: "CREATE TYPE bug_status AS ENUM ('open', 'closed');",
        sql_b: "ALTER TYPE bug_status RENAME TO issue_status",
        expect: "CREATE TYPE issue_status AS ENUM ('open', 'closed');",
    }]);
}

#[test]
fn apply_alter_type_add_value() {
    run_migrate(vec![
        TestCase {
            dialect: Dialect::Generic,
            sql_a: "CREATE TYPE bug_status AS ENUM ('open');",
            sql_b: "ALTER TYPE bug_status ADD VALUE 'new' BEFORE 'open';",
            expect: "CREATE TYPE bug_status AS ENUM ('new', 'open');",
        },
        TestCase {
            dialect: Dialect::Generic,
            sql_a: "CREATE TYPE bug_status AS ENUM ('open');",
            sql_b: "ALTER TYPE bug_status ADD VALUE 'closed' AFTER 'open';",
            expect: "CREATE TYPE bug_status AS ENUM ('open', 'closed');",
        },
        TestCase {
            dialect: Dialect::Generic,
            sql_a: "CREATE TYPE bug_status AS ENUM ('open');",
            sql_b: "ALTER TYPE bug_status ADD VALUE 'closed';",
            expect: "CREATE TYPE bug_status AS ENUM ('open', 'closed');",
        },
    ]);
}

#[test]
fn apply_alter_type_rename_value() {
    run_migrate(vec![TestCase {
        dialect: Dialect::Generic,
        sql_a: "CREATE TYPE bug_status AS ENUM ('new', 'closed');",
        sql_b: "ALTER TYPE bug_status RENAME VALUE 'new' TO 'open';",
        expect: "CREATE TYPE bug_status AS ENUM ('open', 'closed');",
    }]);
}

#[test]
fn apply_create_extension() {
    run_migrate(vec![TestCase {
        dialect: Dialect::Generic,
        sql_a: "CREATE EXTENSION hstore;",
        sql_b: "CREATE EXTENSION IF NOT EXISTS \"uuid-ossp\";",
        expect: "CREATE EXTENSION hstore;\n\nCREATE EXTENSION IF NOT EXISTS \"uuid-ossp\";",
    }]);
}

fn name_case(sql: &str, expected: &str) {
    let tree = parse(Dialect::Generic, sql);
    assert_eq!(generate_name(&tree, None), Some(expected.to_owned()), "{sql:?}");
}

#[test]
fn test_generate_name() {
    name_case("CREATE TABLE foo(bar TEXT);", "create_foo");
    name_case("CREATE TABLE foo(bar TEXT); CREATE TABLE bar(foo TEXT);", "create_foo__create_bar");
    name_case(
        "CREATE TABLE foo(bar TEXT); CREATE TABLE bar(foo TEXT); CREATE TABLE baz(id INT); CREATE TABLE some_really_long_name(id INT);",
        "create_foo__create_bar__create_baz__etc",
    );
    name_case("ALTER TABLE foo DROP COLUMN bar;", "alter_foo_drop_bar");
    name_case("ALTER TABLE foo ADD COLUMN bar TEXT;", "alter_foo_add_bar");
    name_case("ALTER TABLE foo ALTER COLUMN bar SET DATA TYPE INT;", "alter_foo_alter_bar");
    name_case("ALTER TABLE foo RENAME bar TO id;", "alter_foo_rename_bar_to_id");
    name_case("ALTER TABLE foo RENAME TO bar;", "rename_foo_to_bar");
    name_case("DROP TABLE foo;", "drop_foo");
    name_case("CREATE TYPE status AS ENUM('one', 'two', 'three');", "create_type_status");
    name_case("DROP TYPE status;", "drop_type_status");
    name_case("CREATE UNIQUE INDEX title_idx ON films (title);", "create_films_title_idx");
    name_case("DROP INDEX title_idx", "drop_index_title_idx");
}

fn plain(value: &str) -> Ident {
    Ident { value: value.to_owned(), quote_style: None }
}

fn single(value: &str) -> ObjectName {
    ObjectName { parts: vec![plain(value)] }
}

fn col(name: &str, data_type: &str) -> ColumnDef {
    ColumnDef { name: plain(name), data_type: Some(data_type.to_owned()), options: vec![] }
}

fn table_of(name: &str, columns: Vec<ColumnDef>) -> Statement {
    Statement::CreateTable(CreateTable {
        name: single(name),
        columns,
        constraints: vec![],
        if_not_exists: false,
        on_cluster: None,
    })
}

fn index_of(name: Option<&str>, sql: &str) -> Statement {
    Statement::CreateIndex(CreateIndex {
        name: name.map(single),
        table_name: single("films"),
        if_not_exists: false,
        sql: sql.to_owned(),
    })
}

fn enum_of(name: &str, labels: &[&str]) -> Statement {
    Statement::CreateType(CreateType {
        name: single(name),
        representation: TypeRepresentation::Enum {
            labels: labels
                .iter()
                .map(|l| Ident { value: (*l).to_owned(), quote_style: Some(Quote::Single) })
                .collect(),
        },
    })
}

#[test]
fn the_adapter_reads_statements_into_the_model() {
    let tree = parse(
        Dialect::Generic,
        "CREATE TABLE IF NOT EXISTS s.foo (id INT PRIMARY KEY, n TEXT NOT NULL DEFAULT 'x', CONSTRAINT u UNIQUE (n))",
    );
    assert_eq!(
        tree,
        SyntaxTree::new(vec![Statement::CreateTable(CreateTable {
            name: ObjectName { parts: vec![plain("s"), plain("foo")] },
            columns: vec![
                ColumnDef {
                    name: plain("id"),
                    data_type: Some("INT".to_owned()),
                    options: vec![ColumnOptionDef {
                        name: None,
                        option: ColumnOption::Other("PRIMARY KEY".to_owned()),
                    }],
                },
                ColumnDef {
                    name: plain("n"),
                    data_type: Some("TEXT".to_owned()),
                    options: vec![
                        ColumnOptionDef { name: None, option: ColumnOption::NotNull },
                        ColumnOptionDef {
                            name: None,
                            option: ColumnOption::Default("'x'".to_owned()),
                        },
                    ],
                },
            ],
            constraints: vec!["CONSTRAINT u UNIQUE (n)".to_owned()],
            if_not_exists: true,
            on_cluster: None,
        })])
    );
    assert_eq!(
        statement_string(&tree.0[0]),
        "CREATE TABLE IF NOT EXISTS s.foo (id INT PRIMARY KEY, n TEXT NOT NULL DEFAULT 'x', CONSTRAINT u UNIQUE (n))"
    );
    // what the library does not read is carried as text
    let tree = parse(Dialect::Generic, "SELECT 1; CREATE TEMPORARY TABLE t (id INT)");
    assert_eq!(tree.0[0], Statement::Unsupported("SELECT 1".to_owned()));
    assert_eq!(tree.0[1], Statement::Unsupported("CREATE TEMPORARY TABLE t (id INT)".to_owned()));
    assert_eq!(tree.to_string(), "SELECT\n  1;\n\nCREATE TEMPORARY TABLE t (id INT);");
}

#[test]
fn statements_are_written_as_the_parser_reads_them() {
    for sql in [
        "CREATE TABLE t ()",
        "CREATE TABLE \"my table\" (\"a b\" INT, c TEXT CONSTRAINT nn NOT NULL)",
        "CREATE TABLE t (id INT GENERATED BY DEFAULT AS IDENTITY ( START WITH 10 ))",
        "ALTER TABLE IF EXISTS ONLY t ADD COLUMN IF NOT EXISTS a INT, DROP COLUMN IF EXISTS b CASCADE",
        "ALTER TABLE t ALTER COLUMN a SET DEFAULT 1, ALTER COLUMN a DROP DEFAULT",
        "ALTER TABLE t ALTER COLUMN a SET DATA TYPE TEXT USING a::TEXT",
        "ALTER TABLE t ALTER COLUMN a ADD GENERATED ALWAYS AS IDENTITY ( START WITH 10 )",
        "ALTER TABLE t RENAME COLUMN a TO b",
        "ALTER TABLE t RENAME TO u",
        "DROP TABLE IF EXISTS a, b CASCADE",
        "DROP INDEX i",
        "DROP TYPE t RESTRICT",
        "CREATE TYPE t AS ENUM ('a', 'b')",
        "CREATE TYPE t AS (a INT, b TEXT)",
        "ALTER TYPE t RENAME TO u",
        "ALTER TYPE t ADD VALUE IF NOT EXISTS 'c' BEFORE 'a'",
        "ALTER TYPE t RENAME VALUE 'a' TO 'b'",
        "CREATE EXTENSION IF NOT EXISTS e WITH SCHEMA s VERSION v CASCADE",
        "DROP EXTENSION IF EXISTS a, b CASCADE",
        "DROP DOMAIN IF EXISTS d CASCADE",
    ] {
        let tree = parse(Dialect::PostgreSql, sql);
        assert!(!matches!(tree.0[0], Statement::Unsupported(_)), "{sql}");
        assert_eq!(statement_string(&tree.0[0]), sql);
    }
}

#[test]
fn diff_of_a_schema_with_itself_is_none() {
    let a = parse(
        Dialect::PostgreSql,
        "CREATE TABLE foo (id INT); CREATE INDEX i ON foo (id); CREATE TYPE t AS ENUM ('a');
         CREATE EXTENSION hstore; CREATE DOMAIN d AS INT;",
    );
    assert_eq!(a.0.len(), 5);
    assert!(a.0.iter().all(|s| !matches!(s, Statement::Unsupported(_))));
    assert_eq!(a.diff(&a).unwrap(), None);
    assert_eq!(SyntaxTree::empty().diff(&SyntaxTree::empty()).unwrap(), None);
}

#[test]
fn an_empty_migration_changes_nothing() {
    let a = parse(
        Dialect::PostgreSql,
        "CREATE TABLE foo (id INT); CREATE INDEX i ON foo (id); CREATE TYPE t AS ENUM ('a');",
    );
    assert_eq!(a.clone().migrate(&SyntaxTree::empty()).unwrap(), Some(a));
    assert_eq!(
        SyntaxTree::empty().migrate(&SyntaxTree::empty()).unwrap(),
        Some(SyntaxTree::empty())
    );
}

#[test]
fn applying_the_diff_gives_the_other_schema() {
    let a = parse(
        Dialect::PostgreSql,
        "CREATE TABLE foo (id INT); CREATE TABLE gone (id INT); CREATE INDEX i ON foo (id);
         CREATE EXTENSION hstore; CREATE DOMAIN d AS INT; CREATE TYPE old AS ENUM ('a');",
    );
    let b = parse(
        Dialect::PostgreSql,
        "CREATE TYPE t AS ENUM ('a'); CREATE TABLE foo (id INT); CREATE TABLE bar (id INT);
         CREATE DOMAIN d AS INT;",
    );
    let diff = a.diff(&b).unwrap().unwrap();
    assert_eq!(
        diff.to_string(),
        "DROP TABLE gone;\n\nDROP INDEX i;\n\nDROP EXTENSION hstore;\n\nDROP TYPE old;\n\nCREATE TYPE t AS ENUM ('a');\n\nCREATE TABLE bar (id INT);"
    );
    let applied = a.migrate(&diff).unwrap().unwrap();
    assert_eq!(
        applied.to_string(),
        "CREATE TABLE foo (id INT);\n\nCREATE DOMAIN d AS INT;\n\nCREATE TYPE t AS ENUM ('a');\n\nCREATE TABLE bar (id INT);"
    );
    assert_eq!(applied.0.len(), b.0.len());
    assert!(applied.0.iter().all(|s| b.0.contains(s)));
    assert!(b.0.iter().all(|s| applied.0.contains(s)));
}

#[test]
fn tables_that_differ_give_one_alter_table() {
    let a = SyntaxTree::new(vec![table_of("foo", vec![col("id", "INT"), col("old", "TEXT")])]);
    let b = SyntaxTree::new(vec![table_of(
        "foo",
        vec![col("id", "INT"), col("new", "TEXT"), col("newer", "TEXT")],
    )]);
    let diff = a.diff(&b).unwrap().unwrap();
    assert_eq!(
        diff.0,
        vec![Statement::AlterTable(AlterTable {
            name: single("foo"),
            if_exists: false,
            only: false,
            operations: vec![
                AlterTableOperation::DropColumn {
                    has_column_keyword: true,
                    column_name: plain("old"),
                    if_exists: false,
                    drop_behavior: None,
                },
                AlterTableOperation::AddColumn {
                    column_keyword: true,
                    if_not_exists: false,
                    column_def: col("new", "TEXT"),
                },
                AlterTableOperation::AddColumn {
                    column_keyword: true,
                    if_not_exists: false,
                    column_def: col("newer", "TEXT"),
                },
            ],
            on_cluster: None,
        })]
    );
    assert_eq!(a.migrate(&diff).unwrap(), Some(b));
    // a column that is only altered gives an alteration without operations
    let a = SyntaxTree::new(vec![table_of("foo", vec![col("id", "INT")])]);
    let b = SyntaxTree::new(vec![table_of("foo", vec![col("id", "BIGINT")])]);
    match &a.diff(&b).unwrap().unwrap().0[..] {
        [Statement::AlterTable(t)] => assert!(t.operations.is_empty()),
        other => panic!("{other:?}"),
    }
}

#[test]
fn diff_errors() {
    // an index without a name cannot be dropped
    let unnamed = index_of(None, "CREATE INDEX ON films (title)");
    let e = SyntaxTree::new(vec![unnamed.clone()]).diff(&SyntaxTree::empty()).unwrap_err();
    assert_eq!(e.kind, DiffErrorKind::DropUnnamedIndex);
    assert_eq!(e.statement_a, Some(unnamed.clone()));
    assert_eq!(e.statement_b, None);
    assert_eq!(
        e.to_string(),
        "Oops, we couldn't diff that: can't drop unnamed index\n\nStatement A:\nCREATE INDEX ON films (title)"
    );
    // nor compared with another
    let other = index_of(None, "CREATE INDEX ON films (year)");
    let e = SyntaxTree::new(vec![unnamed.clone()])
        .diff(&SyntaxTree::new(vec![other.clone()]))
        .unwrap_err();
    assert_eq!(e.kind, DiffErrorKind::CompareUnnamedIndex);
    assert_eq!(e.statement_a, Some(unnamed.clone()));
    assert_eq!(e.statement_b, Some(other));
    assert_eq!(
        e.to_string(),
        "Oops, we couldn't diff that: can't compare unnamed index\n\nStatement A:\nCREATE INDEX ON films (title)\n\nStatement B:\nCREATE INDEX ON films (year)"
    );
    // an index without a name that stays as it is needs nothing done
    assert_eq!(
        SyntaxTree::new(vec![unnamed.clone()]).diff(&SyntaxTree::new(vec![unnamed])).unwrap(),
        None
    );
    // labels cannot be removed
    let long = enum_of("t", &["a", "b"]);
    let short = enum_of("t", &["a"]);
    let e = SyntaxTree::new(vec![long.clone()])
        .diff(&SyntaxTree::new(vec![short.clone()]))
        .unwrap_err();
    assert_eq!(e.kind, DiffErrorKind::RemoveEnumLabel);
    assert_eq!((e.statement_a, e.statement_b), (Some(long.clone()), Some(short)));
    // an enum and a composite type are not compared
    let composite = Statement::CreateType(CreateType {
        name: single("t"),
        representation: TypeRepresentation::Composite { attributes: vec!["a INT".to_owned()] },
    });
    let e = SyntaxTree::new(vec![long]).diff(&SyntaxTree::new(vec![composite])).unwrap_err();
    assert_eq!(e.kind, DiffErrorKind::NotImplemented);
    // nothing but the creation of objects is compared
    let drop = parse(Dialect::Generic, "DROP TABLE foo");
    let e = drop.diff(&SyntaxTree::empty()).unwrap_err();
    assert_eq!(e.kind, DiffErrorKind::NotImplemented);
    assert_eq!(e.statement_a, Some(drop.0[0].clone()));
    let e = SyntaxTree::empty().diff(&drop).unwrap_err();
    assert_eq!(e.kind, DiffErrorKind::NotImplemented);
    assert_eq!(e.statement_a, Some(drop.0[0].clone()));
    assert_eq!(e.to_string(), "Oops, we couldn't diff that: not yet supported\n\nStatement A:\nDROP TABLE foo");
    // the first statement that fails tells the error
    let both = SyntaxTree::new(vec![drop.0[0].clone(), index_of(None, "CREATE INDEX ON films (title)")]);
    assert_eq!(both.diff(&SyntaxTree::empty()).unwrap_err().kind, DiffErrorKind::NotImplemented);
}

#[test]
fn enum_labels_renamed() {
    let a = SyntaxTree::new(vec![enum_of("t", &["a", "b", "c"])]);
    let b = SyntaxTree::new(vec![enum_of("t", &["a", "x", "c"])]);
    let diff = a.diff(&b).unwrap().unwrap();
    assert_eq!(diff.to_string(), "ALTER TYPE t RENAME VALUE 'b' TO 'x';");
    assert_eq!(a.migrate(&diff).unwrap(), Some(b));
    // a label that the enum has already is not added at the end again
    let a = SyntaxTree::new(vec![enum_of("t", &["a", "b"])]);
    let b = SyntaxTree::new(vec![enum_of("t", &["a", "b", "a", "z"])]);
    assert_eq!(a.diff(&b).unwrap().unwrap().to_string(), "ALTER TYPE t\nADD\n  VALUE 'z';");
}

#[test]
fn domains_and_extensions() {
    let a = parse(Dialect::PostgreSql, "CREATE DOMAIN d AS INT; CREATE DOMAIN gone AS TEXT; CREATE EXTENSION e;");
    let b = parse(Dialect::PostgreSql, "CREATE DOMAIN d AS BIGINT; CREATE EXTENSION IF NOT EXISTS e;");
    let diff = a.diff(&b).unwrap().unwrap();
    assert_eq!(
        diff.0.iter().map(statement_string).collect::<Vec<_>>(),
        vec![
            "DROP DOMAIN IF EXISTS d",
            "CREATE DOMAIN d AS BIGINT",
            "DROP DOMAIN IF EXISTS gone",
        ]
    );
    let applied = a.migrate(&diff).unwrap().unwrap();
    assert_eq!(
        applied.0.iter().map(statement_string).collect::<Vec<_>>(),
        vec!["CREATE EXTENSION e", "CREATE DOMAIN d AS BIGINT"]
    );
    let dropped = parse(Dialect::PostgreSql, "CREATE EXTENSION e; CREATE EXTENSION f")
        .migrate(&parse(Dialect::PostgreSql, "DROP EXTENSION f, g"))
        .unwrap()
        .unwrap();
    assert_eq!(dropped.to_string(), "CREATE EXTENSION e;");
}

#[test]
fn migrate_renames() {
    let a = parse(Dialect::Generic, "CREATE TABLE foo (a INT, b TEXT)");
    let renamed = a
        .clone()
        .migrate(&parse(Dialect::Generic, "ALTER TABLE foo RENAME COLUMN a TO c, RENAME TO bar"))
        .unwrap()
        .unwrap();
    assert_eq!(renamed.to_string(), "CREATE TABLE bar (c INT, b TEXT);");
    // only the first statement that targets an object is applied
    let twice = a
        .migrate(&parse(
            Dialect::Generic,
            "ALTER TABLE other ADD COLUMN x INT; ALTER TABLE foo ADD COLUMN c INT; ALTER TABLE foo ADD COLUMN d INT",
        ))
        .unwrap()
        .unwrap();
    assert_eq!(twice.to_string(), "CREATE TABLE foo (a INT, b TEXT, c INT);");
    // labels of enums
    let t = parse(Dialect::Generic, "CREATE TYPE s.t AS ENUM ('a', 'b')");
    let moved = |sql: &str| {
        t.clone().migrate(&parse(Dialect::Generic, sql)).unwrap().unwrap().to_string()
    };
    assert_eq!(moved("ALTER TYPE s.t RENAME TO u"), "CREATE TYPE s.u AS ENUM ('a', 'b');");
    assert_eq!(moved("ALTER TYPE s.t ADD VALUE 'c' BEFORE 'b'"), "CREATE TYPE s.t AS ENUM ('a', 'c', 'b');");
    assert_eq!(moved("ALTER TYPE s.t ADD VALUE 'c' BEFORE 'x'"), "CREATE TYPE s.t AS ENUM ('c', 'a', 'b');");
    assert_eq!(moved("ALTER TYPE s.t ADD VALUE 'c' AFTER 'a'"), "CREATE TYPE s.t AS ENUM ('a', 'c', 'b');");
    assert_eq!(moved("ALTER TYPE s.t ADD VALUE 'c' AFTER 'x'"), "CREATE TYPE s.t AS ENUM ('a', 'b', 'c');");
    assert_eq!(moved("DROP TYPE s.t"), "");
    assert_eq!(moved("DROP TYPE t"), "CREATE TYPE s.t AS ENUM ('a', 'b');");
}

#[test]
fn migrate_errors() {
    let table = parse(Dialect::Generic, "CREATE TABLE foo (a INT)");
    // an operation that is not applied
    let m = parse(Dialect::Generic, "ALTER TABLE foo ADD COLUMN b INT, ADD CONSTRAINT u UNIQUE (a)");
    let e = table.clone().migrate(&m).unwrap_err();
    assert_eq!(
        e.kind,
        MigrateErrorKind::AlterTableOpNotImplemented(AlterTableOperation::Other(
            "ADD CONSTRAINT u UNIQUE (a)".to_owned()
        ))
    );
    assert_eq!(e.statement_a, Some(table_of("foo", vec![col("a", "INT"), col("b", "INT")])));
    assert_eq!(e.statement_b, None);
    assert_eq!(
        e.to_string(),
        "Oops, we couldn't migrate that: ALTER TABLE operation \"ADD CONSTRAINT u UNIQUE (a)\" not yet supported\n\nSubject:\nCREATE TABLE foo (a INT, b INT)"
    );
    // a label for a type that has none
    let composite = parse(Dialect::Generic, "CREATE TYPE t AS (a INT)");
    let add = parse(Dialect::Generic, "ALTER TYPE t ADD VALUE 'x'");
    let e = composite.clone().migrate(&add).unwrap_err();
    assert!(matches!(e.kind, MigrateErrorKind::AlterTypeInvalidOp(AlterTypeOperation::AddValue { .. })));
    assert_eq!(e.statement_a, Some(composite.0[0].clone()));
    assert_eq!(e.statement_b, Some(add.0[0].clone()));
    assert_eq!(
        e.to_string(),
        "Oops, we couldn't migrate that: invalid ALTER TYPE operation \"ADD VALUE 'x'\"\n\nSubject:\nCREATE TYPE t AS (a INT)\n\nMigration:\nALTER TYPE t ADD VALUE 'x'"
    );
    let rename = parse(Dialect::Generic, "ALTER TYPE t RENAME VALUE 'x' TO 'y'");
    let e = composite.migrate(&rename).unwrap_err();
    assert!(matches!(e.kind, MigrateErrorKind::AlterTypeInvalidOp(AlterTypeOperation::RenameValue { .. })));
    // a schema holds nothing but the creation of objects
    let drop = parse(Dialect::Generic, "DROP TABLE foo");
    let e = drop.clone().migrate(&SyntaxTree::empty()).unwrap_err();
    assert_eq!(e.kind, MigrateErrorKind::NotImplemented);
    assert_eq!(e.statement_a, Some(drop.0[0].clone()));
    assert_eq!(e.to_string(), "Oops, we couldn't migrate that: not yet supported\n\nSubject:\nDROP TABLE foo");
    // one statement applied to one statement
    let unnamed = index_of(None, "CREATE INDEX ON films (title)");
    let e = sql_schema::migration::migrate_statement(&unnamed, &drop.0[0]).unwrap_err();
    assert_eq!(e.kind, MigrateErrorKind::UnnamedIndex);
    assert_eq!(e.to_string(), "Oops, we couldn't migrate that: can't migrate unnamed index\n\nSubject:\nCREATE INDEX ON films (title)\n\nMigration:\nDROP TABLE foo");
    let e = sql_schema::migration::migrate_statement(&table.0[0], &table.0[0]).unwrap_err();
    assert_eq!(e.kind, MigrateErrorKind::NotImplemented);
    // an index without a name is passed over by what drops an index
    let kept = SyntaxTree::new(vec![unnamed.clone()])
        .migrate(&parse(Dialect::Generic, "DROP INDEX i"))
        .unwrap();
    assert_eq!(kept, Some(SyntaxTree::new(vec![unnamed])));
}

#[test]
fn names_of_migrations() {
    let tree = parse(Dialect::Generic, "CREATE TABLE foo(bar TEXT); CREATE TABLE bar(foo TEXT);");
    assert_eq!(generate_name(&tree, Some(22)), Some("create_foo__create_bar".to_owned()));
    assert_eq!(generate_name(&tree, Some(21)), Some("create_foo__etc".to_owned()));
    assert_eq!(generate_name(&tree, Some(9)), Some("__etc".to_owned()));
    assert_eq!(generate_name(&tree, Some(0)), Some("__etc".to_owned()));
    assert_eq!(generate_name(&SyntaxTree::empty(), None), None);
    assert_eq!(generate_name(&parse(Dialect::Generic, "CREATE EXTENSION e"), None), None);
    let name = |sql: &str| generate_name(&parse(Dialect::PostgreSql, sql), Some(200)).unwrap();
    assert_eq!(name("DROP TABLE a, b"), "drop_a_and_b");
    assert_eq!(name("DROP MATERIALIZED VIEW v"), "drop_materialized view_v");
    assert_eq!(name("ALTER TYPE t ADD VALUE 'x'"), "alter_type_t");
    assert_eq!(name("CREATE INDEX ON films (title)"), "create_films");
    assert_eq!(name("CREATE TABLE \"a b\" (id INT)"), "create_\"a b\"");
    assert_eq!(name("ALTER TABLE t ADD COLUMN a INT, DROP COLUMN b"), "alter_t_add_a_drop_b");
    assert_eq!(name("ALTER TABLE t ADD COLUMN a INT, DROP COLUMN b, DROP COLUMN c"), "alter_t");
    assert_eq!(name("ALTER TABLE t ADD CONSTRAINT u UNIQUE (a)"), "alter_t");
    assert_eq!(name("ALTER TABLE t ADD COLUMN a INT, RENAME TO u"), "rename_t_add_a_to_u");
    // the limit counts bytes
    let tree = parse(Dialect::Generic, "CREATE TABLE \"é\" (id INT); CREATE TABLE b (id INT)");
    assert_eq!(generate_name(&tree, Some(20)), Some("create_\"é\"__etc".to_owned()));
    assert_eq!(generate_name(&tree, Some(21)), Some("create_\"é\"__create_b".to_owned()));
}

#[test]
fn names_of_dialects() {
    assert_eq!(Dialect::default(), Dialect::Generic);
    assert_eq!(Dialect::PostgreSql.to_string(), "postgresql");
    assert_eq!(Dialect::SQLite.to_string(), "sqlite");
    assert_eq!(Dialect::BigQuery.as_str(), "bigquery");
    assert_eq!(Dialect::MsSql.to_string(), "mssql");
}
