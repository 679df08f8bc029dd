//! Relationship declarations between models.

use vstd::prelude::*;
use crate::text::owned;

verus! {

/// A foreign key relationship.
pub struct ForeignKey {
    pub field_name: String,
    pub to_model: String,
    pub to_field: String,
    pub on_delete: &'static str,
    pub related_name: Option<String>,
    pub related_query_name: Option<String>,
    pub db_constraint: bool,
}

/// `s` is `Some` of a string whose text is `t`.
pub open spec fn some_text(s: Option<String>, t: Seq<char>) -> bool {
    s matches Some(x) && x@ == t
}

impl ForeignKey {
    /// A relation from `field_name` to `to_model`'s `id`, deleted in cascade.
    pub fn new(field_name: &str, to_model: &str) -> (fk: Self)
        ensures
            fk.field_name@ == field_name@,
            fk.to_model@ == to_model@,
            fk.to_field@ == "id"@,
            fk.on_delete@ == "CASCADE"@,
            fk.related_name is None,
            fk.related_query_name is None,
            fk.db_constraint,
    {
        ForeignKey {
            field_name: owned(field_name),
            to_model: owned(to_model),
            to_field: owned("id"),
            on_delete: "CASCADE",
            related_name: None,
            related_query_name: None,
            db_constraint: true,
        }
    }

    pub fn on_delete(self, action: &'static str) -> (fk: Self)
        ensures
            fk.on_delete == action,
            fk.field_name == self.field_name, fk.to_model == self.to_model, fk.to_field == self.to_field,
            fk.related_name == self.related_name, fk.related_query_name == self.related_query_name,
            fk.db_constraint == self.db_constraint,
    {
        ForeignKey { on_delete: action, ..self }
    }

    pub fn related_name(self, name: &str) -> (fk: Self)
        ensures
            some_text(fk.related_name, name@),
            fk.on_delete == self.on_delete,
            fk.field_name == self.field_name, fk.to_model == self.to_model, fk.to_field == self.to_field,
            fk.related_query_name == self.related_query_name,
            fk.db_constraint == self.db_constraint,
    {
        ForeignKey { related_name: Some(owned(name)), ..self }
    }

    pub fn to_field(self, field: &str) -> (fk: Self)
        ensures
            fk.to_field@ == field@,
            fk.on_delete == self.on_delete,
            fk.field_name == self.field_name, fk.to_model == self.to_model,
            fk.related_name == self.related_name, fk.related_query_name == self.related_query_name,
            fk.db_constraint == self.db_constraint,
    {
        ForeignKey { to_field: owned(field), ..self }
    }

    pub fn related_query_name(self, name: &str) -> (fk: Self)
        ensures
            some_text(fk.related_query_name, name@),
            fk.on_delete == self.on_delete,
            fk.field_name == self.field_name, fk.to_model == self.to_model, fk.to_field == self.to_field,
            fk.related_name == self.related_name,
            fk.db_constraint == self.db_constraint,
    {
        ForeignKey { related_query_name: Some(owned(name)), ..self }
    }

    pub fn db_constraint(self, enabled: bool) -> (fk: Self)
        ensures
            fk.db_constraint == enabled,
            fk.on_delete == self.on_delete,
            fk.field_name == self.field_name, fk.to_model == self.to_model, fk.to_field == self.to_field,
            fk.related_name == self.related_name, fk.related_query_name == self.related_query_name,
    {
        ForeignKey { db_constraint: enabled, ..self }
    }
}

/// A one-to-one relationship.
pub struct OneToOne {
    pub field_name: String,
    pub to_model: String,
    pub on_delete: &'static str,
}

impl OneToOne {
    pub fn new(field_name: &str, to_model: &str) -> (r: Self)
        ensures
            r.field_name@ == field_name@,
            r.to_model@ == to_model@,
            r.on_delete@ == "CASCADE"@,
    {
        OneToOne { field_name: owned(field_name), to_model: owned(to_model), on_delete: "CASCADE" }
    }
}

/// A foreign key with a unique constraint (Django's `OneToOneField`).
pub struct OneToOneField {
    pub field_name: String,
    pub to_model: String,
    pub to_field: String,
    pub on_delete: &'static str,
    pub related_name: Option<String>,
    pub related_query_name: Option<String>,
    pub db_constraint: bool,
}

impl OneToOneField {
    pub fn new(field_name: &str, to_model: &str) -> (f: Self)
        ensures
            f.field_name@ == field_name@,
            f.to_model@ == to_model@,
            f.to_field@ == "id"@,
            f.on_delete@ == "CASCADE"@,
            f.related_name is None,
            f.related_query_name is None,
            f.db_constraint,
    {
        OneToOneField {
            field_name: owned(field_name),
            to_model: owned(to_model),
            to_field: owned("id"),
            on_delete: "CASCADE",
            related_name: None,
            related_query_name: None,
            db_constraint: true,
        }
    }

    pub fn on_delete(self, action: &'static str) -> (f: Self)
        ensures
            f.on_delete == action,
            f.field_name == self.field_name, f.to_model == self.to_model, f.to_field == self.to_field,
            f.related_name == self.related_name, f.related_query_name == self.related_query_name,
            f.db_constraint == self.db_constraint,
    {
        OneToOneField { on_delete: action, ..self }
    }

    pub fn related_name(self, name: &str) -> (f: Self)
        ensures
            some_text(f.related_name, name@),
            f.on_delete == self.on_delete,
            f.field_name == self.field_name, f.to_model == self.to_model, f.to_field == self.to_field,
            f.related_query_name == self.related_query_name,
            f.db_constraint == self.db_constraint,
    {
        OneToOneField { related_name: Some(owned(name)), ..self }
    }

    pub fn to_field(self, field: &str) -> (f: Self)
        ensures
            f.to_field@ == field@,
            f.on_delete == self.on_delete,
            f.field_name == self.field_name, f.to_model == self.to_model,
            f.related_name == self.related_name, f.related_query_name == self.related_query_name,
            f.db_constraint == self.db_constraint,
    {
        OneToOneField { to_field: owned(field), ..self }
    }

    pub fn related_query_name(self, name: &str) -> (f: Self)
        ensures
            some_text(f.related_query_name, name@),
            f.on_delete == self.on_delete,
            f.field_name == self.field_name, f.to_model == self.to_model, f.to_field == self.to_field,
            f.related_name == self.related_name,
            f.db_constraint == self.db_constraint,
    {
        OneToOneField { related_query_name: Some(owned(name)), ..self }
    }

    pub fn db_constraint(self, enabled: bool) -> (f: Self)
        ensures
            f.db_constraint == enabled,
            f.on_delete == self.on_delete,
            f.field_name == self.field_name, f.to_model == self.to_model, f.to_field == self.to_field,
            f.related_name == self.related_name, f.related_query_name == self.related_query_name,
    {
        OneToOneField { db_constraint: enabled, ..self }
    }
}

/// A many-to-many relationship.
pub struct ManyToMany {
    pub field_name: String,
    pub to_model: String,
    pub through: Option<String>,
    pub db_table: Option<String>,
}

impl ManyToMany {
    pub fn new(field_name: &str, to_model: &str) -> (m: Self)
        ensures
            m.field_name@ == field_name@,
            m.to_model@ == to_model@,
            m.through is None,
            m.db_table is None,
    {
        ManyToMany { field_name: owned(field_name), to_model: owned(to_model), through: None, db_table: None }
    }

    pub fn through(self, table: &str) -> (m: Self)
        ensures
            some_text(m.through, table@),
            m.field_name == self.field_name, m.to_model == self.to_model, m.db_table == self.db_table,
    {
        ManyToMany { through: Some(owned(table)), ..self }
    }

    pub fn db_table(self, table: &str) -> (m: Self)
        ensures
            some_text(m.db_table, table@),
            m.field_name == self.field_name, m.to_model == self.to_model, m.through == self.through,
    {
        ManyToMany { db_table: Some(owned(table)), ..self }
    }
}

} // verus!
