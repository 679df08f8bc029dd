//! Migrations as units, and the runner that applies them and plans what is
//! left to apply.

use vstd::prelude::*;
use crate::migrations::operations::{operation_sql, MigrationField, MigrationOperation, ModelOptions};
use crate::orm::backend::DatabaseBackend;
use crate::text::{concat3, copy_strings, owned, str_eq, views};

verus! {

/// A single migration: its name, app, dependencies and operations.
/// `applied_at` is the time it was applied, in seconds since the epoch (UTC).
#[derive(Debug, Clone)]
pub struct Migration {
    pub name: String,
    pub app_label: String,
    pub dependencies: Vec<String>,
    pub operations: Vec<MigrationOperation>,
    pub applied_at: Option<i64>,
}

fn copy_fields(v: &Vec<MigrationField>) -> (r: Vec<MigrationField>)
    ensures
        r@ == v@,
{
    let mut r: Vec<MigrationField> = Vec::new();
    let mut i: usize = 0;
    while i < v.len()
        invariant
            i <= v.len(),
            r@ == v@.take(i as int),
        decreases v.len() - i,
    {
        r.push(v[i].duplicate());
        assert(v@.take(i + 1) =~= v@.take(i as int).push(v@[i as int]));
        i = i + 1;
    }
    assert(v@.take(v.len() as int) =~= v@);
    r
}

fn copy_opt_string(o: &Option<String>) -> (r: Option<String>)
    ensures
        r == *o,
{
    match o {
        Some(s) => Some(s.clone()),
        None => None,
    }
}

/// `a` and `b` hold the same options.
pub open spec fn same_options(a: ModelOptions, b: ModelOptions) -> bool {
    &&& a.table_name == b.table_name
    &&& a.verbose_name == b.verbose_name
    &&& a.verbose_name_plural == b.verbose_name_plural
    &&& match (a.ordering, b.ordering) {
        (Some(x), Some(y)) => x@ == y@,
        (None, None) => true,
        _ => false,
    }
}

/// `a` and `b` are the same operation with the same data.
pub open spec fn same_operation(a: MigrationOperation, b: MigrationOperation) -> bool {
    match (a, b) {
        (MigrationOperation::CreateModel { name: n1, fields: f1, options: o1 },
         MigrationOperation::CreateModel { name: n2, fields: f2, options: o2 }) =>
            n1 == n2 && f1@ == f2@ && same_options(o1, o2),
        (MigrationOperation::AddIndex { model_name: m1, index_name: i1, fields: f1 },
         MigrationOperation::AddIndex { model_name: m2, index_name: i2, fields: f2 }) =>
            m1 == m2 && i1 == i2 && f1@ == f2@,
        (MigrationOperation::CreateModel { .. }, _) => false,
        (MigrationOperation::AddIndex { .. }, _) => false,
        _ => a == b,
    }
}

/// `a` and `b` are the same migration with the same data.
pub open spec fn same_migration(a: Migration, b: Migration) -> bool {
    &&& a.name == b.name
    &&& a.app_label == b.app_label
    &&& a.dependencies@ == b.dependencies@
    &&& a.operations@.len() == b.operations@.len()
    &&& forall|i: int| 0 <= i < a.operations@.len() ==> same_operation(#[trigger] a.operations@[i], b.operations@[i])
    &&& a.applied_at == b.applied_at
}

fn copy_options(o: &ModelOptions) -> (r: ModelOptions)
    ensures
        same_options(r, *o),
{
    ModelOptions {
        table_name: copy_opt_string(&o.table_name),
        ordering: match &o.ordering {
            Some(v) => Some(copy_strings(v)),
            None => None,
        },
        verbose_name: copy_opt_string(&o.verbose_name),
        verbose_name_plural: copy_opt_string(&o.verbose_name_plural),
    }
}

/// An exact copy of an operation.
pub fn copy_operation(op: &MigrationOperation) -> (r: MigrationOperation)
    ensures
        same_operation(r, *op),
{
    match op {
        MigrationOperation::CreateModel { name, fields, options } => MigrationOperation::CreateModel {
            name: name.clone(),
            fields: copy_fields(fields),
            options: copy_options(options),
        },
        MigrationOperation::DeleteModel { name } => MigrationOperation::DeleteModel { name: name.clone() },
        MigrationOperation::RenameModel { old_name, new_name } => MigrationOperation::RenameModel {
            old_name: old_name.clone(),
            new_name: new_name.clone(),
        },
        MigrationOperation::AddField { model_name, field } => MigrationOperation::AddField {
            model_name: model_name.clone(),
            field: field.duplicate(),
        },
        MigrationOperation::RemoveField { model_name, field_name } => MigrationOperation::RemoveField {
            model_name: model_name.clone(),
            field_name: field_name.clone(),
        },
        MigrationOperation::AlterField { model_name, field } => MigrationOperation::AlterField {
            model_name: model_name.clone(),
            field: field.duplicate(),
        },
        MigrationOperation::RenameField { model_name, old_name, new_name } => MigrationOperation::RenameField {
            model_name: model_name.clone(),
            old_name: old_name.clone(),
            new_name: new_name.clone(),
        },
        MigrationOperation::AddIndex { model_name, index_name, fields } => MigrationOperation::AddIndex {
            model_name: model_name.clone(),
            index_name: index_name.clone(),
            fields: copy_strings(fields),
        },
        MigrationOperation::RemoveIndex { model_name, index_name } => MigrationOperation::RemoveIndex {
            model_name: model_name.clone(),
            index_name: index_name.clone(),
        },
        MigrationOperation::RunSQL { sql, reverse_sql } => MigrationOperation::RunSQL {
            sql: sql.clone(),
            reverse_sql: copy_opt_string(reverse_sql),
        },
    }
}

fn copy_operations(v: &Vec<MigrationOperation>) -> (r: Vec<MigrationOperation>)
    ensures
        r@.len() == v@.len(),
        forall|i: int| 0 <= i < v@.len() ==> same_operation(#[trigger] r@[i], v@[i]),
{
    let mut r: Vec<MigrationOperation> = Vec::new();
    let mut i: usize = 0;
    while i < v.len()
        invariant
            i <= v.len(),
            r@.len() == i,
            forall|j: int| 0 <= j < i ==> same_operation(#[trigger] r@[j], v@[j]),
        decreases v.len() - i,
    {
        r.push(copy_operation(&v[i]));
        i = i + 1;
    }
    r
}

/// `app_label_name`.
pub open spec fn full_name_text(m: Migration) -> Seq<char> {
    m.app_label@ + "_"@ + m.name@
}

impl Migration {
    /// A migration named `name` of the app `app_label`, with no dependencies
    /// and no operations, not applied.
    pub fn new(name: &str, app_label: &str) -> (r: Self)
        ensures
            r.name@ == name@,
            r.app_label@ == app_label@,
            r.dependencies@.len() == 0,
            r.operations@.len() == 0,
            r.applied_at is None,
    {
        Migration {
            name: owned(name),
            app_label: owned(app_label),
            dependencies: Vec::new(),
            operations: Vec::new(),
            applied_at: None,
        }
    }

    /// The same migration with `op` added as its last operation.
    pub fn operation(self, op: MigrationOperation) -> (r: Self)
        ensures
            r.operations@ == self.operations@.push(op),
            r.name == self.name,
            r.app_label == self.app_label,
            r.dependencies == self.dependencies,
            r.applied_at == self.applied_at,
    {
        let mut m = self;
        m.operations.push(op);
        m
    }

    /// The same migration depending also on `dep`.
    pub fn depends_on(self, dep: &str) -> (r: Self)
        ensures
            views(r.dependencies@) == views(self.dependencies@).push(dep@),
            r.name == self.name,
            r.app_label == self.app_label,
            r.operations == self.operations,
            r.applied_at == self.applied_at,
    {
        let mut m = self;
        let ghost before = m.dependencies@;
        m.dependencies.push(owned(dep));
        assert(views(m.dependencies@) =~= views(before).push(dep@));
        m
    }

    /// `app_label_name`.
    pub fn full_name(&self) -> (r: String)
        ensures
            r@ == full_name_text(*self),
    {
        concat3(self.app_label.as_str(), "_", self.name.as_str())
    }

    /// A copy with the same data.
    pub fn duplicate(&self) -> (r: Self)
        ensures
            same_migration(r, *self),
    {
        Migration {
            name: self.name.clone(),
            app_label: self.app_label.clone(),
            dependencies: copy_strings(&self.dependencies),
            operations: copy_operations(&self.operations),
            applied_at: self.applied_at,
        }
    }
}

/// The names of a list of migrations.
pub open spec fn migration_names(ms: Seq<Migration>) -> Seq<Seq<char>> {
    ms.map_values(|m: Migration| m.name@)
}

/// The migrations of `ms` whose name is not among `applied`, in order.
pub open spec fn pending(applied: Seq<Seq<char>>, ms: Seq<Migration>) -> Seq<Migration>
    decreases ms.len(),
{
    if ms.len() == 0 {
        Seq::empty()
    } else if applied.contains(ms.last().name@) {
        pending(applied, ms.drop_last())
    } else {
        pending(applied, ms.drop_last()).push(ms.last())
    }
}

/// The statements of a list of operations, one operation after another.
pub open spec fn operations_sql(ops: Seq<MigrationOperation>) -> Seq<Seq<char>>
    decreases ops.len(),
{
    if ops.len() == 0 {
        Seq::empty()
    } else {
        operations_sql(ops.drop_last()) + operation_sql(ops.last())
    }
}

/// The SQL plan of a list of migrations: each one's full name with its statements.
pub open spec fn sql_plan(ms: Seq<Migration>) -> Seq<(Seq<char>, Seq<Seq<char>>)> {
    ms.map_values(|m: Migration| (full_name_text(m), operations_sql(m.operations@)))
}

/// Applies migrations and plans the ones not applied yet.
pub struct MigrationRunner {
    pub database_url: String,
    pub applied_migrations: Vec<Migration>,
    pub backend: DatabaseBackend,
}

impl MigrationRunner {
    /// A runner for the database at `url` that has applied nothing yet.
    pub fn new(url: &str, backend: DatabaseBackend) -> (r: Self)
        ensures
            r.database_url@ == url@,
            r.applied_migrations@.len() == 0,
            r.backend == backend,
    {
        MigrationRunner { database_url: owned(url), applied_migrations: Vec::new(), backend }
    }

    /// Applies `migration`: records it as applied, after the ones before.
    pub fn apply(&mut self, migration: &Migration) -> (r: Result<(), String>)
        ensures
            r is Ok,
            final(self).applied_migrations@.len() == old(self).applied_migrations@.len() + 1,
            forall|i: int| 0 <= i < old(self).applied_migrations@.len()
                ==> #[trigger] final(self).applied_migrations@[i] == old(self).applied_migrations@[i],
            same_migration(final(self).applied_migrations@.last(), *migration),
            migration_names(final(self).applied_migrations@) == migration_names(old(self).applied_migrations@).push(migration.name@),
            final(self).database_url == old(self).database_url,
            final(self).backend == old(self).backend,
    {
        let ghost before = self.applied_migrations@;
        let copy = migration.duplicate();
        self.applied_migrations.push(copy);
        assert(migration_names(self.applied_migrations@) =~= migration_names(before).push(migration.name@));
        Ok(())
    }

    fn is_applied(&self, name: &str) -> (r: bool)
        ensures
            r == migration_names(self.applied_migrations@).contains(name@),
    {
        let ghost names = migration_names(self.applied_migrations@);
        let mut i: usize = 0;
        while i < self.applied_migrations.len()
            invariant
                i <= self.applied_migrations.len(),
                names == migration_names(self.applied_migrations@),
                forall|j: int| 0 <= j < i ==> names[j] != name@,
            decreases self.applied_migrations.len() - i,
        {
            if str_eq(self.applied_migrations[i].name.as_str(), name) {
                assert(names[i as int] == name@);
                return true;
            }
            i = i + 1;
        }
        false
    }

    /// The migrations of `migrations` not applied yet (by name), in order.
    pub fn plan<'a>(&self, migrations: &'a [Migration]) -> (r: Vec<&'a Migration>)
        ensures
            r@.map_values(|m: &Migration| *m) == pending(migration_names(self.applied_migrations@), migrations@),
    {
        let ghost applied = migration_names(self.applied_migrations@);
        let mut result: Vec<&'a Migration> = Vec::new();
        let mut i: usize = 0;
        while i < migrations.len()
            invariant
                i <= migrations.len(),
                applied == migration_names(self.applied_migrations@),
                result@.map_values(|m: &Migration| *m) == pending(applied, migrations@.take(i as int)),
            decreases migrations.len() - i,
        {
            let m = &migrations[i];
            assert(migrations@.take(i + 1).drop_last() =~= migrations@.take(i as int));
            if !self.is_applied(m.name.as_str()) {
                let ghost before = result@;
                result.push(m);
                assert(result@.map_values(|m: &Migration| *m) =~= before.map_values(|m: &Migration| *m).push(*m));
            }
            i = i + 1;
        }
        assert(migrations@.take(migrations.len() as int) =~= migrations@);
        result
    }

    fn statements(&self, ops: &Vec<MigrationOperation>) -> (r: Vec<String>)
        ensures
            views(r@) == operations_sql(ops@),
    {
        let mut out: Vec<String> = Vec::new();
        let mut i: usize = 0;
        while i < ops.len()
            invariant
                i <= ops.len(),
                views(out@) == operations_sql(ops@.take(i as int)),
            decreases ops.len() - i,
        {
            assert(ops@.take(i + 1).drop_last() =~= ops@.take(i as int));
            let mut sqls = ops[i].to_sql(&self.backend);
            let ghost before = views(out@);
            out.append(&mut sqls);
            assert(views(out@) =~= before + operation_sql(ops@[i as int]));
            i = i + 1;
        }
        assert(ops@.take(ops.len() as int) =~= ops@);
        out
    }

    /// Each migration's full name with its SQL statements, in order.
    pub fn to_sql(&self, migrations: &[Migration]) -> (r: Vec<(String, Vec<String>)>)
        ensures
            r@.map_values(|p: (String, Vec<String>)| (p.0@, views(p.1@))) == sql_plan(migrations@),
    {
        let ghost plan = sql_plan(migrations@);
        let mut out: Vec<(String, Vec<String>)> = Vec::new();
        let mut i: usize = 0;
        while i < migrations.len()
            invariant
                i <= migrations.len(),
                plan == sql_plan(migrations@),
                out@.map_values(|p: (String, Vec<String>)| (p.0@, views(p.1@))) == plan.take(i as int),
            decreases migrations.len() - i,
        {
            let name = migrations[i].full_name();
            let stmts = self.statements(&migrations[i].operations);
            let ghost before = out@;
            out.push((name, stmts));
            assert(out@.map_values(|p: (String, Vec<String>)| (p.0@, views(p.1@)))
                =~= before.map_values(|p: (String, Vec<String>)| (p.0@, views(p.1@))).push(plan[i as int]));
            assert(plan.take(i + 1) =~= plan.take(i as int).push(plan[i as int]));
            i = i + 1;
        }
        assert(plan.take(migrations.len() as int) =~= plan);
        out
    }
}

proof fn lemma_pending_unapplied(applied: Seq<Seq<char>>, ms: Seq<Migration>)
    ensures
        forall|i: int| 0 <= i < pending(applied, ms).len() ==> !applied.contains(#[trigger] pending(applied, ms)[i].name@),
        forall|i: int| 0 <= i < ms.len() && !applied.contains(#[trigger] ms[i].name@)
            ==> pending(applied, ms).contains(ms[i]),
    decreases ms.len(),
{
    if ms.len() > 0 {
        lemma_pending_unapplied(applied, ms.drop_last());
        let p = pending(applied, ms.drop_last());
        assert forall|i: int| 0 <= i < ms.len() && !applied.contains(#[trigger] ms[i].name@)
            implies pending(applied, ms).contains(ms[i]) by {
            if i < ms.len() - 1 {
                assert(ms.drop_last()[i] == ms[i]);
                let k = choose|k: int| 0 <= k < p.len() && p[k] == ms[i];
                if !applied.contains(ms.last().name@) {
                    assert(pending(applied, ms)[k] == ms[i]);
                }
            } else {
                assert(pending(applied, ms) == p.push(ms.last()));
                assert(pending(applied, ms)[p.len() as int] == ms[i]);
            }
        }
    }
}

/// The plan holds exactly the migrations not applied yet: none of its
/// migrations is applied, every migration not applied is in it, and once a
/// migration is applied no migration of that name is planned.
pub proof fn law_plan_is_unapplied(applied: Seq<Seq<char>>, ms: Seq<Migration>, m: Migration)
    ensures
        forall|i: int| 0 <= i < pending(applied, ms).len() ==> !applied.contains(#[trigger] pending(applied, ms)[i].name@),
        forall|i: int| 0 <= i < ms.len() && !applied.contains(#[trigger] ms[i].name@)
            ==> pending(applied, ms).contains(ms[i]),
        forall|i: int| 0 <= i < pending(applied.push(m.name@), ms).len()
            ==> #[trigger] pending(applied.push(m.name@), ms)[i].name@ != m.name@,
{
    lemma_pending_unapplied(applied, ms);
    lemma_pending_unapplied(applied.push(m.name@), ms);
    let p2 = pending(applied.push(m.name@), ms);
    assert forall|i: int| 0 <= i < p2.len() implies #[trigger] p2[i].name@ != m.name@ by {
        assert(applied.push(m.name@)[applied.len() as int] == m.name@);
    }
}

} // verus!
