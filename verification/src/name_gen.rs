//! A short name for a migration, made from what the migration does.

use crate::ast::{
    AlterTable, AlterTableOperation, AlterTableOperationView, AlterTableView, Drop, ObjectType,
    Statement, StatementView,
};
use crate::printer::{
    ident_sql, ident_string, name_sql, name_string, names_sql,
};
use crate::text::{byte_len, byte_length, joined, texts};
use crate::printer::push_joined;
use crate::SyntaxTree;
use crate::model::{opt_view};
use vstd::prelude::*;
use vstd::string::*;

verus! {

/// The longest name that is made where no limit is given, in bytes.
pub const DEFAULT_MAX_LEN: usize = 50;

/// The kind of a dropped object as it stands in a name: nothing for a
/// table, else the kind in lower case and an underscore.
pub open spec fn kind_fragment(t: ObjectType) -> Seq<char> {
    match t {
        ObjectType::Table => ""@,
        ObjectType::View => "view_"@,
        ObjectType::MaterializedView => "materialized view_"@,
        ObjectType::Index => "index_"@,
        ObjectType::Schema => "schema_"@,
        ObjectType::Database => "database_"@,
        ObjectType::Role => "role_"@,
        ObjectType::Sequence => "sequence_"@,
        ObjectType::Stage => "stage_"@,
        ObjectType::Type => "type_"@,
    }
}

/// What an operation of `ALTER TABLE` adds to a name, if anything.
pub open spec fn operation_fragment(op: AlterTableOperationView) -> Option<Seq<char>> {
    match op {
        AlterTableOperationView::AddColumn { column_def, .. } => Some(
            "add_"@ + ident_sql(column_def.name),
        ),
        AlterTableOperationView::DropColumn { column_name, .. } => Some(
            "drop_"@ + ident_sql(column_name),
        ),
        AlterTableOperationView::RenameColumn { old_column_name, new_column_name } => Some(
            "rename_"@ + ident_sql(old_column_name) + "_to_"@ + ident_sql(new_column_name),
        ),
        AlterTableOperationView::AlterColumn { column_name, .. } => Some(
            "alter_"@ + ident_sql(column_name),
        ),
        AlterTableOperationView::RenameTable { table_name } => Some("to_"@ + name_sql(table_name)),
        AlterTableOperationView::Other(_) => None,
    }
}

/// What the first `n` operations add to a name, in their order.
pub open spec fn operation_fragments(ops: Seq<AlterTableOperationView>, n: int) -> Seq<Seq<char>>
    decreases n,
{
    if n <= 0 {
        Seq::empty()
    } else {
        match operation_fragment(ops[n - 1]) {
            Some(f) => operation_fragments(ops, n - 1).push(f),
            None => operation_fragments(ops, n - 1),
        }
    }
}

/// Whether one of the first `n` operations renames the table.
pub open spec fn renames_table(ops: Seq<AlterTableOperationView>, n: int) -> bool
    decreases n,
{
    if n <= 0 {
        false
    } else {
        ops[n - 1] is RenameTable || renames_table(ops, n - 1)
    }
}

/// The name of an `ALTER TABLE`: `alter_<table>`, or `rename_<table>` where
/// the table is renamed, followed by what its operations add where there
/// are one or two of them.
pub open spec fn alter_table_fragment(t: AlterTableView) -> Seq<char> {
    let n = t.operations.len() as int;
    let parts = operation_fragments(t.operations, n);
    (if renames_table(t.operations, n) {
        "rename"@
    } else {
        "alter"@
    }) + "_"@ + name_sql(t.name) + (if parts.len() == 0 || parts.len() > 2 {
        Seq::empty()
    } else {
        "_"@ + joined(parts, "_"@)
    })
}

/// What a statement adds to the name of a migration, if anything.
pub open spec fn fragment(s: StatementView) -> Option<Seq<char>> {
    match s {
        StatementView::CreateTable(t) => Some("create_"@ + name_sql(t.name)),
        StatementView::AlterTable(t) => Some(alter_table_fragment(t)),
        StatementView::Drop(d) => Some(
            "drop_"@ + kind_fragment(d.object_type) + joined(names_sql(d.names), "_and_"@),
        ),
        StatementView::CreateType(t) => Some("create_type_"@ + name_sql(t.name)),
        StatementView::AlterType(t) => Some("alter_type_"@ + name_sql(t.name)),
        StatementView::CreateIndex(i) => Some(
            "create_"@ + name_sql(i.table_name) + (match i.name {
                Some(n) => "_"@ + name_sql(n),
                None => Seq::empty(),
            }),
        ),
        _ => None,
    }
}

/// What the first `n` statements add to the name, in their order.
pub open spec fn fragments(list: Seq<StatementView>, n: int) -> Seq<Seq<char>>
    decreases n,
{
    if n <= 0 {
        Seq::empty()
    } else {
        match fragment(list[n - 1]) {
            Some(f) => fragments(list, n - 1).push(f),
            None => fragments(list, n - 1),
        }
    }
}

/// The first `k` fragments with `__` between each two.
pub open spec fn name_of(parts: Seq<Seq<char>>, k: int) -> Seq<char> {
    joined(parts.take(k), "__"@)
}

/// How many of the first `k` fragments stay: fragments are left off at the
/// end until the name takes no more than `max_len` bytes.
pub open spec fn fitting(parts: Seq<Seq<char>>, k: int, max_len: nat) -> int
    decreases k,
{
    if k > 0 && byte_length(name_of(parts, k)) > max_len {
        fitting(parts, k - 1, max_len)
    } else {
        k
    }
}

/// The name made of the fragments: all of them where that fits, else as
/// many as fit and `__etc`. There is no name where it would be empty.
pub open spec fn name_from(parts: Seq<Seq<char>>, max_len: nat) -> Option<Seq<char>> {
    let k = fitting(parts, parts.len() as int, max_len);
    let name = name_of(parts, k) + (if k < parts.len() {
        "__etc"@
    } else {
        Seq::empty()
    });
    if name.len() == 0 {
        None
    } else {
        Some(name)
    }
}

/// The name of the migration that the tree is: what its statements add,
/// with `__` between each two, cut to `max_len` bytes, or to 50 where no
/// limit is given.
pub open spec fn spec_generate_name(tree: Seq<StatementView>, max_len: Option<usize>) -> Option<
    Seq<char>,
> {
    name_from(
        fragments(tree, tree.len() as int),
        match max_len {
            Some(m) => m as nat,
            None => DEFAULT_MAX_LEN as nat,
        },
    )
}

fn kind_str(t: ObjectType) -> (r: &'static str)
    ensures
        r@ == kind_fragment(t),
{
    match t {
        ObjectType::Table => "",
        ObjectType::View => "view_",
        ObjectType::MaterializedView => "materialized view_",
        ObjectType::Index => "index_",
        ObjectType::Schema => "schema_",
        ObjectType::Database => "database_",
        ObjectType::Role => "role_",
        ObjectType::Sequence => "sequence_",
        ObjectType::Stage => "stage_",
        ObjectType::Type => "type_",
    }
}

fn operation_name(op: &AlterTableOperation) -> (r: Option<String>)
    ensures
        opt_view(r) == operation_fragment(op@),
{
    let mut out = String::new();
    match op {
        AlterTableOperation::AddColumn { column_def, .. } => {
            out.append("add_");
            let s = ident_string(&column_def.name);
            out.append(s.as_str());
        },
        AlterTableOperation::DropColumn { column_name, .. } => {
            out.append("drop_");
            let s = ident_string(column_name);
            out.append(s.as_str());
        },
        AlterTableOperation::RenameColumn { old_column_name, new_column_name } => {
            out.append("rename_");
            let a = ident_string(old_column_name);
            out.append(a.as_str());
            out.append("_to_");
            let b = ident_string(new_column_name);
            out.append(b.as_str());
        },
        AlterTableOperation::AlterColumn { column_name, .. } => {
            out.append("alter_");
            let s = ident_string(column_name);
            out.append(s.as_str());
        },
        AlterTableOperation::RenameTable { table_name } => {
            out.append("to_");
            let s = name_string(table_name);
            out.append(s.as_str());
        },
        AlterTableOperation::Other(_) => {
            return None;
        },
    }
    assert(out@ =~= operation_fragment(op@)->0);
    Some(out)
}

/// The name of an `ALTER TABLE`.
pub fn alter_table_name(t: &AlterTable) -> (r: String)
    ensures
        r@ == alter_table_fragment(t@),
{
    let ghost ops = t@.operations;
    let mut renamed = false;
    let mut parts: Vec<String> = Vec::new();
    assert(texts(parts@) =~= Seq::<Seq<char>>::empty());
    let n = t.operations.len();
    let mut i: usize = 0;
    while i < n
        invariant
            i <= n,
            n == t.operations.len(),
            ops == t@.operations,
            texts(parts@) == operation_fragments(ops, i as int),
            renamed == renames_table(ops, i as int),
        decreases n - i,
    {
        assert(ops[i as int] == t.operations@[i as int]@);
        if matches!(t.operations[i], AlterTableOperation::RenameTable { .. }) {
            renamed = true;
        }
        match operation_name(&t.operations[i]) {
            Some(s) => {
                let ghost before = parts@;
                parts.push(s);
                assert(texts(parts@) =~= texts(before).push(s@));
            },
            None => {},
        }
        i = i + 1;
    }
    assert(ops.len() == n);
    let mut out = String::new();
    if renamed {
        out.append("rename");
    } else {
        out.append("alter");
    }
    out.append("_");
    let name = name_string(&t.name);
    out.append(name.as_str());
    assert(texts(parts@).len() == parts.len());
    if !(parts.len() == 0 || parts.len() > 2) {
        out.append("_");
        push_joined(&mut out, &parts, "_");
    }
    assert(out@ =~= alter_table_fragment(t@));
    out
}

fn statement_name(s: &Statement) -> (r: Option<String>)
    ensures
        opt_view(r) == fragment(s@),
{
    let mut out = String::new();
    match s {
        Statement::CreateTable(t) => {
            out.append("create_");
            let n = name_string(&t.name);
            out.append(n.as_str());
        },
        Statement::AlterTable(t) => {
            return Some(alter_table_name(t));
        },
        Statement::Drop(d) => {
            out.append("drop_");
            out.append(kind_str(d.object_type));
            let names = drop_names(d);
            push_joined(&mut out, &names, "_and_");
        },
        Statement::CreateType(t) => {
            out.append("create_type_");
            let n = name_string(&t.name);
            out.append(n.as_str());
        },
        Statement::AlterType(t) => {
            out.append("alter_type_");
            let n = name_string(&t.name);
            out.append(n.as_str());
        },
        Statement::CreateIndex(i) => {
            out.append("create_");
            let t = name_string(&i.table_name);
            out.append(t.as_str());
            match &i.name {
                Some(n) => {
                    out.append("_");
                    let s = name_string(n);
                    out.append(s.as_str());
                },
                None => {},
            }
        },
        _ => {
            return None;
        },
    }
    assert(out@ =~= fragment(s@)->0);
    Some(out)
}

fn drop_names(d: &Drop) -> (r: Vec<String>)
    ensures
        texts(r@) == names_sql(d@.names),
{
    let mut out: Vec<String> = Vec::new();
    let n = d.names.len();
    let mut i: usize = 0;
    while i < n
        invariant
            i <= n,
            n == d.names.len(),
            out.len() == i,
            forall|x: int| 0 <= x < i ==> (#[trigger] out@[x])@ == name_sql(d.names@[x]@),
        decreases n - i,
    {
        out.push(name_string(&d.names[i]));
        i = i + 1;
    }
    assert(texts(out@) =~= names_sql(d@.names));
    out
}

/// The first `k` strings of `parts` with `__` between each two.
fn join_first(parts: &Vec<String>, k: usize) -> (r: String)
    requires
        k <= parts.len(),
    ensures
        r@ == name_of(texts(parts@), k as int),
{
    let mut head: Vec<String> = Vec::new();
    let mut i: usize = 0;
    while i < k
        invariant
            i <= k <= parts.len(),
            head.len() == i,
            forall|x: int| 0 <= x < i ==> (#[trigger] head@[x])@ == parts@[x]@,
        decreases k - i,
    {
        head.push(parts[i].clone());
        i = i + 1;
    }
    assert(texts(head@) =~= texts(parts@).take(k as int));
    let mut out = String::new();
    push_joined(&mut out, &head, "__");
    assert(out@ =~= name_of(texts(parts@), k as int));
    out
}

/// The name made of the fragments, cut to `max_len` bytes.
pub fn name_from_parts(parts: &Vec<String>, max_len: usize) -> (r: Option<String>)
    ensures
        opt_view(r) == name_from(texts(parts@), max_len as nat),
{
    let ghost all = texts(parts@);
    let n = parts.len();
    assert(all.len() == n);
    let mut k: usize = n;
    let mut name = join_first(parts, k);
    while k > 0 && byte_len(&name) > max_len
        invariant
            k <= n,
            n == parts.len(),
            all == texts(parts@),
            name@ == name_of(all, k as int),
            fitting(all, n as int, max_len as nat) == fitting(all, k as int, max_len as nat),
        decreases k,
    {
        k = k - 1;
        name = join_first(parts, k);
    }
    assert(fitting(all, k as int, max_len as nat) == k);
    let ghost cut = name@;
    if k < n {
        name.append("__etc");
    } else {
        assert(name@ + Seq::<char>::empty() =~= name@);
    }
    if name.as_str().unicode_len() == 0 {
        None
    } else {
        Some(name)
    }
}

/// A short name for the migration that the tree is, made of what its
/// statements do; `None` where they give no name. The name takes no more
/// than `max_len` bytes, or 50 where no limit is given, but for the `__etc`
/// that marks a name that was cut.
pub fn generate_name(tree: &SyntaxTree, max_len: Option<usize>) -> (r: Option<String>)
    ensures
        opt_view(r) == spec_generate_name(tree@, max_len),
{
    let ghost list = tree@;
    let mut parts: Vec<String> = Vec::new();
    assert(texts(parts@) =~= Seq::<Seq<char>>::empty());
    let n = tree.0.len();
    let mut i: usize = 0;
    while i < n
        invariant
            i <= n,
            n == tree.0.len(),
            list == tree@,
            texts(parts@) == fragments(list, i as int),
        decreases n - i,
    {
        assert(list[i as int] == tree.0@[i as int]@);
        match statement_name(&tree.0[i]) {
            Some(s) => {
                let ghost before = parts@;
                parts.push(s);
                assert(texts(parts@) =~= texts(before).push(s@));
            },
            None => {},
        }
        i = i + 1;
    }
    assert(list.len() == n);
    let limit = match max_len {
        Some(m) => m,
        None => DEFAULT_MAX_LEN,
    };
    name_from_parts(&parts, limit)
}

} // verus!
