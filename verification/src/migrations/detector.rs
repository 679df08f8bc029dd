//! Detecting schema changes between two model definitions.

use vstd::prelude::*;
use crate::migrations::operations::{MigrationField, MigrationOperation, ModelOptions};
use crate::text::{owned, seq_eq, chars_of, str_eq};

verus! {

/// Detects changes between model definitions and the database schema.
pub struct SchemaDetector;

/// Some field of `fields` is named `n`.
pub open spec fn has_field_named(fields: Seq<MigrationField>, n: Seq<char>) -> bool {
    exists|i: int| 0 <= i < fields.len() && fields[i].name@ == n
}

/// The fields of `a`, in order, whose names no field of `b` has.
pub open spec fn fields_missing_from(a: Seq<MigrationField>, b: Seq<MigrationField>) -> Seq<MigrationField>
    decreases a.len(),
{
    if a.len() == 0 {
        Seq::empty()
    } else {
        let prev = fields_missing_from(a.drop_last(), b);
        if has_field_named(b, a.last().name@) { prev } else { prev.push(a.last()) }
    }
}

/// `op` adds `f` to the model `model`.
pub open spec fn adds_field(op: MigrationOperation, model: Seq<char>, f: MigrationField) -> bool {
    op matches MigrationOperation::AddField { model_name, field } && model_name@ == model && field == f
}

/// `op` removes the field named `n` from the model `model`.
pub open spec fn removes_field(op: MigrationOperation, model: Seq<char>, n: Seq<char>) -> bool {
    op matches MigrationOperation::RemoveField { model_name, field_name } && model_name@ == model
        && field_name@ == n
}

fn has_name(fields: &[MigrationField], name: &str) -> (r: bool)
    ensures
        r == has_field_named(fields@, name@),
{
    let mut i: usize = 0;
    while i < fields.len()
        invariant
            i <= fields@.len(),
            forall|j: int| 0 <= j < i ==> fields@[j].name@ != name@,
        decreases fields.len() - i,
    {
        if str_eq(fields[i].name.as_str(), name) {
            return true;
        }
        i = i + 1;
    }
    false
}

impl SchemaDetector {
    pub fn new() -> (d: Self) {
        SchemaDetector
    }

    /// Field additions (in the order of `new_fields`) followed by field removals
    /// (in the order of `old_fields`), matching fields by name.
    pub fn detect_field_changes(
        old_fields: &[MigrationField],
        new_fields: &[MigrationField],
        model_name: &str,
    ) -> (ops: Vec<MigrationOperation>)
        ensures
            ({
                let added = fields_missing_from(new_fields@, old_fields@);
                let removed = fields_missing_from(old_fields@, new_fields@);
                &&& ops@.len() == added.len() + removed.len()
                &&& forall|k: int| 0 <= k < added.len() ==> adds_field(#[trigger] ops@[k], model_name@, added[k])
                &&& forall|k: int| 0 <= k < removed.len() ==>
                    removes_field(#[trigger] ops@[added.len() + k], model_name@, removed[k].name@)
            }),
    {
        let mut ops: Vec<MigrationOperation> = Vec::new();
        let mut i: usize = 0;
        while i < new_fields.len()
            invariant
                i <= new_fields@.len(),
                ops@.len() == fields_missing_from(new_fields@.take(i as int), old_fields@).len(),
                forall|k: int| 0 <= k < ops@.len() ==>
                    adds_field(#[trigger] ops@[k], model_name@, fields_missing_from(new_fields@.take(i as int), old_fields@)[k]),
            decreases new_fields.len() - i,
        {
            assert(new_fields@.take(i + 1).drop_last() =~= new_fields@.take(i as int));
            if !has_name(old_fields, new_fields[i].name.as_str()) {
                let f = new_fields[i].duplicate();
                ops.push(MigrationOperation::AddField { model_name: owned(model_name), field: f });
            }
            i = i + 1;
        }
        assert(new_fields@.take(new_fields.len() as int) =~= new_fields@);
        let ghost added = fields_missing_from(new_fields@, old_fields@);
        let mut j: usize = 0;
        while j < old_fields.len()
            invariant
                j <= old_fields@.len(),
                added == fields_missing_from(new_fields@, old_fields@),
                ops@.len() == added.len() + fields_missing_from(old_fields@.take(j as int), new_fields@).len(),
                forall|k: int| 0 <= k < added.len() ==> adds_field(#[trigger] ops@[k], model_name@, added[k]),
                forall|k: int| 0 <= k < fields_missing_from(old_fields@.take(j as int), new_fields@).len() ==>
                    removes_field(#[trigger] ops@[added.len() + k], model_name@,
                        fields_missing_from(old_fields@.take(j as int), new_fields@)[k].name@),
            decreases old_fields.len() - j,
        {
            assert(old_fields@.take(j + 1).drop_last() =~= old_fields@.take(j as int));
            if !has_name(new_fields, old_fields[j].name.as_str()) {
                ops.push(MigrationOperation::RemoveField {
                    model_name: owned(model_name),
                    field_name: old_fields[j].name.clone(),
                });
            }
            j = j + 1;
        }
        assert(old_fields@.take(old_fields.len() as int) =~= old_fields@);
        ops
    }

    /// A CreateModel operation for the given fields, with default options.
    pub fn create_model_op(name: &str, fields: Vec<MigrationField>) -> (op: MigrationOperation)
        ensures
            op matches MigrationOperation::CreateModel { name: n, fields: f, options }
                && n@ == name@ && f == fields && options.table_name is None && options.ordering is None
                && options.verbose_name is None && options.verbose_name_plural is None,
    {
        MigrationOperation::CreateModel { name: owned(name), fields, options: ModelOptions::default() }
    }
}

} // verus!
