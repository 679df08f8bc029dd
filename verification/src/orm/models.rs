//! Model metadata: a model's app, name, table, fields and primary key.

use vstd::prelude::*;
use crate::orm::fields::Field;
use crate::text::{concat2, concat3, lowercase, owned, replace_char, replace_char_str, to_lowercase};

verus! {

/// What is known about a model: its app, its name, its table, its fields
/// and the name of its primary key.
pub struct ModelMetadata {
    pub app_label: String,
    pub model_name: String,
    pub table_name: String,
    pub fields: Vec<Box<dyn Field>>,
    pub pk_field: String,
    pub ordering: Option<Vec<String>>,
    pub verbose_name: String,
    pub verbose_name_plural: String,
}

/// The table of a model: `<app>_<model>` in lowercase.
pub open spec fn table_name_for(app_label: Seq<char>, model_name: Seq<char>) -> Seq<char> {
    lowercase(app_label + "_"@ + lowercase(model_name))
}

impl Clone for ModelMetadata {
    /// A copy without the fields (fields cannot be copied).
    fn clone(&self) -> (r: Self)
        ensures
            r.app_label@ == self.app_label@,
            r.model_name@ == self.model_name@,
            r.table_name@ == self.table_name@,
            r.fields@.len() == 0,
            r.pk_field@ == self.pk_field@,
            r.verbose_name@ == self.verbose_name@,
            r.verbose_name_plural@ == self.verbose_name_plural@,
    {
        ModelMetadata {
            app_label: self.app_label.clone(),
            model_name: self.model_name.clone(),
            table_name: self.table_name.clone(),
            fields: Vec::new(),
            pk_field: self.pk_field.clone(),
            ordering: match &self.ordering {
                Some(o) => Some(crate::text::copy_strings(o)),
                None => None,
            },
            verbose_name: self.verbose_name.clone(),
            verbose_name_plural: self.verbose_name_plural.clone(),
        }
    }
}

/// The name of the first field that is a primary key; `id` when none is.
pub open spec fn pk_name(fields: Seq<Box<dyn Field>>) -> Seq<char>
    decreases fields.len(),
{
    if fields.len() == 0 {
        "id"@
    } else if fields[0].primary() {
        fields[0].field_name()
    } else {
        pk_name(fields.drop_first())
    }
}

/// Builds model metadata from an app label, a model name and fields.
pub struct ModelBuilder {
    app_label: String,
    model_name: String,
    fields: Vec<Box<dyn Field>>,
}

impl ModelBuilder {
    /// The app label.
    pub closed spec fn spec_app_label(&self) -> Seq<char> {
        self.app_label@
    }

    /// The model name.
    pub closed spec fn spec_model_name(&self) -> Seq<char> {
        self.model_name@
    }

    /// The fields added, in order.
    pub closed spec fn spec_fields(&self) -> Seq<Box<dyn Field>> {
        self.fields@
    }

    /// A builder for model `model_name` of app `app_label`, without fields.
    pub fn new(app_label: &str, model_name: &str) -> (r: Self)
        ensures
            r.spec_app_label() == app_label@,
            r.spec_model_name() == model_name@,
            r.spec_fields().len() == 0,
    {
        ModelBuilder { app_label: owned(app_label), model_name: owned(model_name), fields: Vec::new() }
    }

    /// The same builder with field `f` added last.
    pub fn field(self, f: Box<dyn Field>) -> (r: Self)
        ensures
            r.spec_app_label() == self.spec_app_label(),
            r.spec_model_name() == self.spec_model_name(),
            r.spec_fields() == self.spec_fields().push(f),
    {
        let mut fields = self.fields;
        fields.push(f);
        ModelBuilder { app_label: self.app_label, model_name: self.model_name, fields }
    }

    /// The metadata: the table is `<app>_<model>` in lowercase, the primary
    /// key the first field that is one (`id` when none is), the verbose
    /// name the model name with `_` read as spaces, its plural with an `s`
    /// after it; no ordering.
    pub fn build(self) -> (r: ModelMetadata)
        ensures
            r.app_label@ == self.spec_app_label(),
            r.model_name@ == self.spec_model_name(),
            r.table_name@ == table_name_for(self.spec_app_label(), self.spec_model_name()),
            r.pk_field@ == pk_name(self.spec_fields()),
            r.fields@ == self.spec_fields(),
            r.ordering is None,
            r.verbose_name@ == replace_char(self.spec_model_name(), '_', " "@),
            r.verbose_name_plural@ == replace_char(self.spec_model_name(), '_', " "@) + "s"@,
    {
        let lowered_model = to_lowercase(self.model_name.as_str());
        let joined = concat3(self.app_label.as_str(), "_", lowered_model.as_str());
        let table_name = to_lowercase(joined.as_str());
        let ghost fs = self.fields@;
        assert(fs.skip(0) =~= fs);
        let mut pk: Option<String> = None;
        let mut i: usize = 0;
        while i < self.fields.len()
            invariant_except_break
                i <= self.fields@.len(),
                fs == self.fields@,
                pk is None,
                pk_name(fs) == pk_name(fs.skip(i as int)),
            ensures
                match pk {
                    Some(p) => p@ == pk_name(fs),
                    None => pk_name(fs) == "id"@,
                },
            decreases self.fields.len() - i,
        {
            assert(fs.skip(i as int)[0] == fs[i as int]);
            assert(fs.skip(i as int).drop_first() =~= fs.skip(i + 1));
            if self.fields[i].is_pk() {
                pk = Some(owned(self.fields[i].name()));
                break;
            }
            i = i + 1;
        }
        let pk_field = match pk {
            Some(p) => p,
            None => owned("id"),
        };
        let verbose = replace_char_str(self.model_name.as_str(), '_', " ");
        let plural = concat2(verbose.as_str(), "s");
        ModelMetadata {
            app_label: self.app_label,
            model_name: self.model_name,
            table_name,
            fields: self.fields,
            pk_field,
            ordering: None,
            verbose_name: verbose,
            verbose_name_plural: plural,
        }
    }
}

} // verus!
