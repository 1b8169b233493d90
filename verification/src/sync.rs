//! Keeping a schema and its migrations in step: which files of a
//! migrations directory are applied, what they add up to, and what a new
//! migration is to hold and to be called.

use crate::ast::StatementView;
use crate::diff::{DiffError, DiffErrorView};
use crate::instant::UtcInstant;
use crate::migration::{tree_migrate, MigrateError, MigrateErrorView};
use crate::path_template::ast::{
    default_template, has_direction, with_direction, PathTemplate, SegmentView, TemplateData,
    TemplateDataView, UpDown,
};
use crate::path_template::parser::{expected_text, parse_path, span_at, ParseError};
use crate::path_template::resolver::template_text;
use crate::text::chars_of;
use crate::{spec_diff, SyntaxTree};
use crate::path_template::resolver::{is_direction};
use vstd::prelude::*;
use vstd::string::StringExecFns;

verus! {

/// Whether `s` ends with `lit`.
pub open spec fn ends_with(s: Seq<char>, lit: Seq<char>) -> bool {
    s.len() >= lit.len() && s.subrange(s.len() - lit.len(), s.len() as int) == lit
}

/// Whether the stem of a file name marks a migration that undoes another:
/// the stem is `down` or `undo`, or ends with `.down` or `.undo`.
pub open spec fn marks_reverse(stem: Seq<char>) -> bool {
    stem == "down"@ || stem == "undo"@ || ends_with(stem, ".down"@) || ends_with(stem, ".undo"@)
}

fn ends_with_exec(s: &Vec<char>, lit: &str) -> (r: bool)
    ensures
        r == ends_with(s@, lit@),
{
    let l = chars_of(lit);
    if s.len() < l.len() {
        return false;
    }
    let from = s.len() - l.len();
    let mut i: usize = 0;
    while i < l.len()
        invariant
            i <= l.len(),
            l@ == lit@,
            from + l.len() == s.len(),
            forall|x: int| 0 <= x < i ==> s@[from + x] == l@[x],
        decreases l.len() - i,
    {
        if s[from + i] != l[i] {
            assert(s@.subrange(s.len() - lit@.len(), s.len() as int)[i as int] != lit@[i as int]);
            return false;
        }
        i = i + 1;
    }
    assert(s@.subrange(s.len() - lit@.len(), s.len() as int) =~= lit@);
    true
}

fn equals_exec(s: &Vec<char>, lit: &str) -> (r: bool)
    ensures
        r == (s@ == lit@),
{
    let l = chars_of(lit);
    if s.len() != l.len() {
        return false;
    }
    let whole = ends_with_exec(s, lit);
    assert(s@.subrange(0, s.len() as int) =~= s@);
    whole
}

/// Whether the file with this stem is a migration that undoes another;
/// such a file is passed over when migrations are applied.
pub fn is_reverse_migration(stem: &str) -> (r: bool)
    ensures
        r == marks_reverse(stem@),
{
    let s = chars_of(stem);
    equals_exec(&s, "down") || equals_exec(&s, "undo") || ends_with_exec(&s, ".down")
        || ends_with_exec(&s, ".undo")
}

/// What the first `n` migrations make of an empty schema, applied in
/// their order; the first that cannot be applied ends it with its error.
pub open spec fn folded(migrations: Seq<Seq<StatementView>>, n: int) -> Result<
    Seq<StatementView>,
    MigrateErrorView,
>
    decreases n,
{
    if n <= 0 {
        Ok(Seq::empty())
    } else {
        match folded(migrations, n - 1) {
            Ok(schema) => tree_migrate(schema, migrations[n - 1]),
            Err(e) => Err(e),
        }
    }
}

/// The views of a list of trees.
pub open spec fn tree_views(list: Seq<SyntaxTree>) -> Seq<Seq<StatementView>> {
    list.map_values(|t: SyntaxTree| t@)
}

/// The schema that the migrations add up to, applied in their order to an empty schema.
pub fn fold_migrations(migrations: &Vec<SyntaxTree>) -> (r: Result<SyntaxTree, MigrateError>)
    ensures
        match r {
            Ok(t) => folded(tree_views(migrations@), migrations.len() as int) == Ok::<
                Seq<StatementView>,
                MigrateErrorView,
            >(t@),
            Err(e) => folded(tree_views(migrations@), migrations.len() as int) == Err::<
                Seq<StatementView>,
                MigrateErrorView,
            >(e@),
        },
{
    let ghost all = tree_views(migrations@);
    let mut schema = SyntaxTree::empty();
    let n = migrations.len();
    let mut i: usize = 0;
    while i < n
        invariant
            i <= n,
            n == migrations.len(),
            all == tree_views(migrations@),
            folded(all, i as int) == Ok::<Seq<StatementView>, MigrateErrorView>(schema@),
        decreases n - i,
    {
        assert(all[i as int] == migrations@[i as int]@);
        match schema.migrate(&migrations[i]) {
            Ok(Some(next)) => {
                schema = next;
            },
            Ok(None) => {
                schema = SyntaxTree::empty();
            },
            Err(e) => {
                proof {
                    lemma_folded_fails(all, i + 1, n as int);
                }
                return Err(e);
            },
        }
        i = i + 1;
    }
    Ok(schema)
}

/// Once a migration cannot be applied, no longer run of migrations can.
pub proof fn lemma_folded_fails(migrations: Seq<Seq<StatementView>>, k: int, n: int)
    requires
        0 <= k <= n,
        folded(migrations, k) is Err,
    ensures
        folded(migrations, n) == folded(migrations, k),
    decreases n - k,
{
    if k < n {
        lemma_folded_fails(migrations, k, n - 1);
    }
}

/// How new migrations are named, and whether each comes with its reverse.
#[derive(Debug)]
pub struct MigrationOptions {
    pub path_template: PathTemplate,
    pub include_down: bool,
}

impl MigrationOptions {
    /// The options with the wish of the caller taken in, where there is one.
    pub fn reconcile(self, include_down: Option<bool>) -> (r: MigrationOptions)
        ensures
            r.path_template == self.path_template,
            r.include_down == (match include_down {
                Some(wish) => wish,
                None => self.include_down,
            }),
    {
        MigrationOptions {
            path_template: self.path_template,
            include_down: match include_down {
                Some(wish) => wish,
                None => self.include_down,
            },
        }
    }
}

impl Default for MigrationOptions {
    fn default() -> (r: MigrationOptions)
        ensures
            r.path_template@ == default_template(),
            !r.include_down,
    {
        MigrationOptions { path_template: PathTemplate::default(), include_down: false }
    }
}

/// The options that a migrations directory asks for. The path of its
/// latest migration, relative to the directory, gives the naming pattern; a
/// directory without migrations gets the default pattern. New migrations
/// come with their reverse if the pattern names a direction.
pub fn infer_options(latest: Option<&str>) -> (r: Result<MigrationOptions, ParseError>)
    ensures
        match latest {
            None => r is Ok && r->Ok_0.path_template@ == default_template()
                && r->Ok_0.include_down,
            Some(path) => match parse_path(path@) {
                Ok(segments) => r is Ok && r->Ok_0.path_template@ == segments
                    && r->Ok_0.include_down == has_direction(segments),
                Err((at, what)) => r is Err && r->Err_0.message@ == expected_text(what)
                    && r->Err_0.span == span_at(path@, at) && r->Err_0.input@ == path@
                    && r->Err_0.expected == what,
            },
        },
{
    let path_template = match latest {
        Some(path) => match PathTemplate::parse(path) {
            Ok(t) => t,
            Err(e) => {
                return Err(e);
            },
        },
        None => PathTemplate::default(),
    };
    let include_down = path_template.includes_up_down();
    proof {
        if latest is None {
            let tokens = default_template()[0].tokens;
            assert(is_direction(tokens[4]));
            assert(has_direction(default_template()));
        }
    }
    Ok(MigrationOptions { path_template, include_down })
}

/// Why a schema could not be brought up to its migrations.
#[derive(Debug, Clone, PartialEq, Eq)]
pub enum SyncError {
    Diff(DiffError),
    Migrate(MigrateError),
}

pub ghost enum SyncErrorView {
    Diff(DiffErrorView),
    Migrate(MigrateErrorView),
}

impl View for SyncError {
    type V = SyncErrorView;

    open spec fn view(&self) -> SyncErrorView {
        match self {
            SyncError::Diff(e) => SyncErrorView::Diff(e@),
            SyncError::Migrate(e) => SyncErrorView::Migrate(e@),
        }
    }
}

/// The statements that a comparison asks for; none where there is nothing to do.
pub open spec fn steps(d: Option<Seq<StatementView>>) -> Seq<StatementView> {
    match d {
        Some(s) => s,
        None => Seq::empty(),
    }
}

/// The schema brought up to what the migrations add up to: it is
/// compared with that, and what the comparison asks for is applied to it.
pub open spec fn regenerated(schema: Seq<StatementView>, migrations: Seq<StatementView>) -> Result<
    Seq<StatementView>,
    SyncErrorView,
> {
    match spec_diff(schema, migrations) {
        Ok(d) => match tree_migrate(schema, steps(d)) {
            Ok(t) => Ok(t),
            Err(e) => Err(SyncErrorView::Migrate(e)),
        },
        Err(e) => Err(SyncErrorView::Diff(e)),
    }
}

/// The schema file as it is to be written, given what the migrations add up to.
pub fn regenerate_schema(schema: SyntaxTree, migrations: &SyntaxTree) -> (r: Result<
    SyntaxTree,
    SyncError,
>)
    ensures
        match r {
            Ok(t) => regenerated(schema@, migrations@) == Ok::<Seq<StatementView>, SyncErrorView>(
                t@,
            ),
            Err(e) => regenerated(schema@, migrations@) == Err::<
                Seq<StatementView>,
                SyncErrorView,
            >(e@),
        },
{
    let diff = match schema.diff(migrations) {
        Ok(Some(d)) => d,
        Ok(None) => SyntaxTree::empty(),
        Err(e) => {
            return Err(SyncError::Diff(e));
        },
    };
    match schema.migrate(&diff) {
        Ok(Some(t)) => Ok(t),
        Ok(None) => Ok(SyntaxTree::empty()),
        Err(e) => Err(SyncError::Migrate(e)),
    }
}

/// The reverse of a new migration.
#[derive(Debug)]
pub struct DownMigration {
    /// where it is written, relative to the migrations directory
    pub path: String,
    /// what it holds; nothing where the reverse could not be worked out
    pub tree: SyntaxTree,
    /// why the reverse could not be worked out, if it could not
    pub warning: Option<DiffError>,
}

/// A new migration, with its reverse where one is asked for.
#[derive(Debug)]
pub struct MigrationPlan {
    /// where it is written, relative to the migrations directory
    pub up_path: String,
    /// what it holds
    pub up: SyntaxTree,
    pub down: Option<DownMigration>,
}

/// The template that new migrations are named by: with a direction where
/// each comes with its reverse.
pub open spec fn naming(template: Seq<SegmentView>, include_down: bool) -> Seq<SegmentView> {
    if include_down {
        with_direction(template)
    } else {
        template
    }
}

/// The data of a new migration.
pub open spec fn naming_data(name: Seq<char>, now: UtcInstant, up_down: Option<UpDown>) -> TemplateDataView {
    TemplateDataView {
        timestamp: now,
        name,
        up_down,
        counter: None,
        random: None,
        semver: None,
    }
}

/// Whether the plan is the one for the migration `up`: the migration is
/// named by the template with the time and the name given. Where each
/// migration comes with its reverse, the reverse is what turns the schema
/// back into what the migrations add up to, under the name of the migration
/// with the other direction; where that cannot be worked out, the reverse is
/// empty and the reason is kept as a warning.
pub open spec fn is_plan_for(
    plan: MigrationPlan,
    up: Seq<StatementView>,
    migrations: Seq<StatementView>,
    schema: Seq<StatementView>,
    template: Seq<SegmentView>,
    include_down: bool,
    name: Seq<char>,
    now: UtcInstant,
) -> bool {
    &&& plan.up@ == up
    &&& plan.up_path@ == template_text(
        naming(template, include_down),
        naming_data(
            name,
            now,
            if include_down {
                Some(UpDown::Up)
            } else {
                None
            },
        ),
    )
    &&& if include_down {
        &&& plan.down is Some
        &&& plan.down->0.path@ == template_text(
            with_direction(template),
            naming_data(name, now, Some(UpDown::Down)),
        )
        &&& match spec_diff(schema, migrations) {
            Ok(d) => plan.down->0.tree@ == steps(d) && plan.down->0.warning is None,
            Err(e) => plan.down->0.tree@ == Seq::<StatementView>::empty()
                && plan.down->0.warning is Some && plan.down->0.warning->0@ == e,
        }
    } else {
        plan.down is None
    }
}

/// The migration that brings what the migrations add up to in line with
/// the schema file; `None` where the two are in line already.
pub fn plan_migration(
    migrations: &SyntaxTree,
    schema: &SyntaxTree,
    options: MigrationOptions,
    name: &str,
    now: UtcInstant,
) -> (r: Result<Option<MigrationPlan>, DiffError>)
    ensures
        match spec_diff(migrations@, schema@) {
            Err(e) => r is Err && r->Err_0@ == e,
            Ok(None) => r is Ok && r->Ok_0 is None,
            Ok(Some(up)) => r is Ok && r->Ok_0 is Some && is_plan_for(
                r->Ok_0->0,
                up,
                migrations@,
                schema@,
                options.path_template@,
                options.include_down,
                name@,
                now,
            ),
        },
{
    let up = match migrations.diff(schema) {
        Ok(Some(up)) => up,
        Ok(None) => {
            return Ok(None);
        },
        Err(e) => {
            return Err(e);
        },
    };
    let include_down = options.include_down;
    let ghost given = options.path_template@;
    let template = if include_down {
        options.path_template.with_up_down()
    } else {
        options.path_template
    };
    let up_data = TemplateData {
        timestamp: now,
        name: String::from_str(name),
        up_down: if include_down {
            Some(UpDown::Up)
        } else {
            None
        },
        counter: None,
        random: None,
        semver: None,
    };
    let up_path = template.resolve(&up_data);
    if !include_down {
        return Ok(Some(MigrationPlan { up_path, up, down: None }));
    }
    let (tree, warning) = match schema.diff(migrations) {
        Ok(Some(d)) => (d, None),
        Ok(None) => (SyntaxTree::empty(), None),
        Err(e) => (SyntaxTree::empty(), Some(e)),
    };
    let down_data = TemplateData {
        timestamp: now,
        name: String::from_str(name),
        up_down: Some(UpDown::Down),
        counter: None,
        random: None,
        semver: None,
    };
    let path = template.resolve(&down_data);
    Ok(Some(MigrationPlan { up_path, up, down: Some(DownMigration { path, tree, warning }) }))
}

} // verus!
