//! Keeps a declarative SQL schema and an ordered set of migration scripts in
//! step: schema trees can be compared, migrations applied to them, and new
//! migration file names derived from the naming pattern already in use.

use vstd::prelude::*;
use vstd::string::StringExecFns;

pub mod ast;
pub mod diff;
pub mod instant;
pub mod laws;
pub mod migration;
pub mod model;
pub mod name_gen;
pub mod path_template;
pub mod printer;
pub mod round_trip;
pub mod sync;
pub mod text;

pub use crate::diff::{DiffError, DiffErrorKind};
pub use crate::migration::{MigrateError, MigrateErrorKind};
pub use crate::name_gen::generate_name;

use crate::ast::{Statement, StatementView};
use crate::diff::{diff_statements, tree_diff, DiffErrorView};
use crate::migration::{migrate_statements, tree_migrate, MigrateErrorView};
use crate::model::views;
use crate::printer::{tree_string, tree_text};

verus! {

/// The dialects of SQL that a schema can be written in.
#[derive(Debug, Copy, Clone, PartialEq, Eq, PartialOrd, Ord)]
#[non_exhaustive]
pub enum Dialect {
    Ansi,
    BigQuery,
    ClickHouse,
    Databricks,
    DuckDb,
    Generic,
    Hive,
    MsSql,
    MySql,
    PostgreSql,
    RedshiftSql,
    Snowflake,
    SQLite,
}

impl Dialect {
    /// The name of the dialect, in lower case.
    pub open spec fn name(self) -> Seq<char> {
        match self {
            Dialect::Ansi => "ansi"@,
            Dialect::BigQuery => "bigquery"@,
            Dialect::ClickHouse => "clickhouse"@,
            Dialect::Databricks => "databricks"@,
            Dialect::DuckDb => "duckdb"@,
            Dialect::Generic => "generic"@,
            Dialect::Hive => "hive"@,
            Dialect::MsSql => "mssql"@,
            Dialect::MySql => "mysql"@,
            Dialect::PostgreSql => "postgresql"@,
            Dialect::RedshiftSql => "redshiftsql"@,
            Dialect::Snowflake => "snowflake"@,
            Dialect::SQLite => "sqlite"@,
        }
    }

    /// The name of the dialect, in lower case.
    pub fn as_str(&self) -> (r: &'static str)
        ensures
            r@ == self.name(),
    {
        match self {
            Dialect::Ansi => "ansi",
            Dialect::BigQuery => "bigquery",
            Dialect::ClickHouse => "clickhouse",
            Dialect::Databricks => "databricks",
            Dialect::DuckDb => "duckdb",
            Dialect::Generic => "generic",
            Dialect::Hive => "hive",
            Dialect::MsSql => "mssql",
            Dialect::MySql => "mysql",
            Dialect::PostgreSql => "postgresql",
            Dialect::RedshiftSql => "redshiftsql",
            Dialect::Snowflake => "snowflake",
            Dialect::SQLite => "sqlite",
        }
    }

    /// The name of the dialect, in lower case.
    pub fn to_string(&self) -> (r: String)
        ensures
            r@ == self.name(),
    {
        String::from_str(self.as_str())
    }
}

impl Default for Dialect {
    fn default() -> (r: Dialect)
        ensures
            r == Dialect::Generic,
    {
        Dialect::Generic
    }
}

/// The statements of a schema or of a migration, in their order.
#[derive(Debug, Clone, PartialEq, Eq)]
pub struct SyntaxTree(pub Vec<Statement>);

impl View for SyntaxTree {
    type V = Seq<StatementView>;

    open spec fn view(&self) -> Seq<StatementView> {
        views(self.0@)
    }
}

/// What comparing two trees gives: nothing where there is nothing to do,
/// else the statements to run.
pub open spec fn spec_diff(a: Seq<StatementView>, b: Seq<StatementView>) -> Result<
    Option<Seq<StatementView>>,
    DiffErrorView,
> {
    match tree_diff(a, b) {
        Ok(d) => if d.len() == 0 {
            Ok(None)
        } else {
            Ok(Some(d))
        },
        Err(e) => Err(e),
    }
}

/// What applying a migration to a tree gives.
pub open spec fn spec_migrate(a: Seq<StatementView>, m: Seq<StatementView>) -> Result<
    Option<Seq<StatementView>>,
    MigrateErrorView,
> {
    match tree_migrate(a, m) {
        Ok(t) => Ok(Some(t)),
        Err(e) => Err(e),
    }
}

/// The view of a tree that may be absent.
pub open spec fn opt_tree_view(t: Option<SyntaxTree>) -> Option<Seq<StatementView>> {
    match t {
        Some(x) => Some(x@),
        None => None,
    }
}

impl SyntaxTree {
    /// The tree of the given statements.
    pub fn new(statements: Vec<Statement>) -> (r: SyntaxTree)
        ensures
            r@ == views(statements@),
    {
        SyntaxTree(statements)
    }

    /// The tree without statements.
    pub fn empty() -> (r: SyntaxTree)
        ensures
            r@ == Seq::<StatementView>::empty(),
    {
        let r = SyntaxTree(Vec::new());
        assert(r@ =~= Seq::<StatementView>::empty());
        r
    }

    /// The statements that turn this schema into `other`; `None` where
    /// there is nothing to do.
    pub fn diff(&self, other: &SyntaxTree) -> (r: Result<Option<SyntaxTree>, DiffError>)
        ensures
            match r {
                Ok(t) => spec_diff(self@, other@) == Ok::<_, DiffErrorView>(opt_tree_view(t)),
                Err(e) => spec_diff(self@, other@) == Err::<Option<Seq<StatementView>>, _>(e@),
            },
    {
        match diff_statements(&self.0, &other.0) {
            Ok(d) => {
                assert(views(d@).len() == d@.len());
                if d.len() == 0 {
                    Ok(None)
                } else {
                    Ok(Some(SyntaxTree(d)))
                }
            },
            Err(e) => Err(e),
        }
    }

    /// This schema after the migration `other`.
    pub fn migrate(self, other: &SyntaxTree) -> (r: Result<Option<SyntaxTree>, MigrateError>)
        ensures
            match r {
                Ok(t) => spec_migrate(self@, other@) == Ok::<_, MigrateErrorView>(opt_tree_view(t)),
                Err(e) => spec_migrate(self@, other@) == Err::<Option<Seq<StatementView>>, _>(e@),
            },
    {
        match migrate_statements(&self.0, &other.0) {
            Ok(t) => Ok(Some(SyntaxTree(t))),
            Err(e) => Err(e),
        }
    }

    /// The tree as it stands in a file.
    pub fn to_string(&self) -> (r: String)
        ensures
            r@ == tree_text(self@),
    {
        tree_string(&self.0)
    }
}

} // verus!
