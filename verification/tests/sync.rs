//! Keeping a schema and its migrations in step.

use sql_schema::ast::{
    AlterTable, AlterTableOperation, ColumnDef, CreateTable, Drop, Ident, ObjectName, ObjectType,
    Statement,
};
use sql_schema::path_template::{PathTemplate, UtcInstant};
use sql_schema::sync::{
    fold_migrations, infer_options, is_reverse_migration, plan_migration, regenerate_schema,
    MigrationOptions, SyncError,
};
use sql_schema::{DiffErrorKind, MigrateErrorKind, SyntaxTree};

fn name(value: &str) -> ObjectName {
    ObjectName { parts: vec![Ident { value: value.to_owned(), quote_style: None }] }
}

fn table(n: &str, columns: &[&str]) -> Statement {
    Statement::CreateTable(CreateTable {
        name: name(n),
        columns: columns
            .iter()
            .map(|c| ColumnDef {
                name: Ident { value: (*c).to_owned(), quote_style: None },
                data_type: Some("INT".to_owned()),
                options: vec![],
            })
            .collect(),
        constraints: vec![],
        if_not_exists: false,
        on_cluster: None,
    })
}

fn drop_table(n: &str) -> Statement {
    Statement::Drop(Drop {
        object_type: ObjectType::Table,
        if_exists: false,
        names: vec![name(n)],
        cascade: false,
        restrict: false,
        purge: false,
        temporary: false,
    })
}

#[test]
fn reverse_migrations_are_told_by_their_stem() {
    for stem in ["down", "undo", "001_x.down", "001_x.undo", ".down"] {
        assert!(is_reverse_migration(stem), "{stem}");
    }
    for stem in ["up", "do", "001_x", "001_x.up", "001_x.do", "breakdown", "001_x_down", "", "own"] {
        assert!(!is_reverse_migration(stem), "{stem}");
    }
}

#[test]
fn migrations_add_up_in_their_order() {
    let first = SyntaxTree::new(vec![table("a", &["id"]), table("b", &["id"])]);
    let second = SyntaxTree::new(vec![drop_table("a"), table("c", &["id"])]);
    let schema = fold_migrations(&vec![first.clone(), second.clone()]).unwrap();
    assert_eq!(schema, SyntaxTree::new(vec![table("b", &["id"]), table("c", &["id"])]));
    // in the other order the table is dropped before it is there
    let schema = fold_migrations(&vec![second.clone(), first]).unwrap();
    assert_eq!(
        schema,
        SyntaxTree::new(vec![table("c", &["id"]), table("a", &["id"]), table("b", &["id"])])
    );
    assert_eq!(fold_migrations(&vec![]).unwrap(), SyntaxTree::empty());
    // what a migration holds beside creations, alterations and drops is passed over
    let other = SyntaxTree::new(vec![Statement::Unsupported("SELECT 1".to_owned())]);
    let schema = fold_migrations(&vec![table_tree(), other.clone()]).unwrap();
    assert_eq!(schema, table_tree());
    let schema = fold_migrations(&vec![table_tree(), second, other]).unwrap();
    assert_eq!(schema.0.len(), 2);
    // the first migration that cannot be applied ends it
    let alter = |operation: &str| {
        SyntaxTree::new(vec![Statement::AlterTable(AlterTable {
            name: name("t"),
            if_exists: false,
            only: false,
            operations: vec![AlterTableOperation::Other(operation.to_owned())],
            on_cluster: None,
        })])
    };
    let e = fold_migrations(&vec![table_tree(), alter("ENABLE RULE r"), alter("DISABLE RULE r")])
        .unwrap_err();
    assert_eq!(
        e.kind,
        MigrateErrorKind::AlterTableOpNotImplemented(AlterTableOperation::Other(
            "ENABLE RULE r".to_owned()
        ))
    );
}

fn table_tree() -> SyntaxTree {
    SyntaxTree::new(vec![table("t", &["id"])])
}

#[test]
fn options_follow_the_latest_migration() {
    let opts = infer_options(Some("0007_add_users.up.sql")).unwrap();
    assert!(opts.include_down);
    assert_eq!(opts.path_template, PathTemplate::parse("0007_add_users.up.sql").unwrap());
    let opts = infer_options(Some("0007_add_users.sql")).unwrap();
    assert!(!opts.include_down);
    let opts = infer_options(None).unwrap();
    assert!(opts.include_down);
    assert_eq!(opts.path_template, PathTemplate::default());
    let e = infer_options(Some("README.sql")).unwrap_err();
    assert_eq!(e.input, "README.sql");
    // the wish of the caller wins
    assert!(!infer_options(None).unwrap().reconcile(Some(false)).include_down);
    assert!(infer_options(Some("1_x.sql")).unwrap().reconcile(Some(true)).include_down);
    assert!(infer_options(None).unwrap().reconcile(None).include_down);
    let defaults = MigrationOptions::default();
    assert!(!defaults.include_down);
    assert_eq!(defaults.path_template, PathTemplate::default());
}

#[test]
fn a_schema_is_brought_up_to_its_migrations() {
    let schema = SyntaxTree::new(vec![table("a", &["id"]), table("old", &["id"])]);
    let migrations = SyntaxTree::new(vec![table("a", &["id", "n"]), table("b", &["id"])]);
    let next = regenerate_schema(schema, &migrations).unwrap();
    assert_eq!(next, SyntaxTree::new(vec![table("a", &["id", "n"]), table("b", &["id"])]));
    let same = regenerate_schema(migrations.clone(), &migrations).unwrap();
    assert_eq!(same, migrations);
    let bad = SyntaxTree::new(vec![drop_table("a")]);
    match regenerate_schema(bad, &migrations) {
        Err(SyncError::Diff(e)) => assert_eq!(e.kind, DiffErrorKind::NotImplemented),
        other => panic!("{other:?}"),
    }
    let odd = SyntaxTree::new(vec![Statement::Unsupported("x".to_owned())]);
    match regenerate_schema(SyntaxTree::empty(), &odd) {
        Err(SyncError::Diff(e)) => assert_eq!(e.kind, DiffErrorKind::NotImplemented),
        other => panic!("{other:?}"),
    }
}

#[test]
fn a_migration_is_planned_with_its_reverse() {
    let at = UtcInstant::from_timestamp(1741141452, 0).unwrap();
    let migrations = SyntaxTree::new(vec![table("a", &["id"])]);
    let schema = SyntaxTree::new(vec![table("a", &["id"]), table("b", &["id"])]);
    let plan = plan_migration(&migrations, &schema, infer_options(None).unwrap(), "add_b", at)
        .unwrap()
        .unwrap();
    assert_eq!(plan.up_path, "1741141452_add_b.up.sql");
    assert_eq!(plan.up, SyntaxTree::new(vec![table("b", &["id"])]));
    let down = plan.down.unwrap();
    assert_eq!(down.path, "1741141452_add_b.down.sql");
    assert_eq!(down.tree, SyntaxTree::new(vec![drop_table("b")]));
    assert!(down.warning.is_none());
    // without a reverse the name has no direction
    let opts = infer_options(Some("0007_first.sql")).unwrap();
    let plan = plan_migration(&migrations, &schema, opts, "add_b", at).unwrap().unwrap();
    assert_eq!(plan.up_path, "0008_add_b.sql");
    assert!(plan.down.is_none());
    // a reverse is named like the migration
    let opts = infer_options(Some("0007_first.sql")).unwrap().reconcile(Some(true));
    let plan = plan_migration(&migrations, &schema, opts, "add_b", at).unwrap().unwrap();
    assert_eq!(plan.up_path, "0008_add_b.up.sql");
    assert_eq!(plan.down.unwrap().path, "0008_add_b.down.sql");
    let opts = infer_options(Some("0007_first.undo.sql")).unwrap().reconcile(Some(false));
    let plan = plan_migration(&migrations, &schema, opts, "add_b", at).unwrap().unwrap();
    assert_eq!(plan.up_path, "0008_add_b.sql");
    // nothing to do
    let opts = infer_options(None).unwrap();
    assert!(plan_migration(&schema, &schema, opts, "x", at).unwrap().is_none());
    // a migration that cannot be worked out
    let bad = SyntaxTree::new(vec![drop_table("a")]);
    let e = plan_migration(&bad, &schema, infer_options(None).unwrap(), "x", at).unwrap_err();
    assert_eq!(e.kind, DiffErrorKind::NotImplemented);
}

#[test]
fn a_reverse_that_cannot_be_worked_out_is_empty() {
    let at = UtcInstant::from_timestamp(1741141452, 0).unwrap();
    // labels of an enum can be added but not removed again
    let label = |l: &str| Ident {
        value: l.to_owned(),
        quote_style: Some(sql_schema::ast::Quote::Single),
    };
    let enum_of = |labels: &[&str]| {
        Statement::CreateType(sql_schema::ast::CreateType {
            name: name("t"),
            representation: sql_schema::ast::TypeRepresentation::Enum {
                labels: labels.iter().map(|l| label(l)).collect(),
            },
        })
    };
    let migrations = SyntaxTree::new(vec![enum_of(&["a"])]);
    let schema = SyntaxTree::new(vec![enum_of(&["a", "b"])]);
    let plan = plan_migration(&migrations, &schema, infer_options(None).unwrap(), "grow", at)
        .unwrap()
        .unwrap();
    assert_eq!(plan.up.to_string(), "ALTER TYPE t\nADD\n  VALUE 'b';");
    let down = plan.down.unwrap();
    assert_eq!(down.tree, SyntaxTree::empty());
    assert_eq!(down.warning.unwrap().kind, DiffErrorKind::RemoveEnumLabel);
    assert_eq!(down.path, "1741141452_grow.down.sql");
}
