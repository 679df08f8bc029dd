//! Deriving form fields from model field declarations.

use vstd::prelude::*;
use crate::apps::{assoc_get, key_position};
use crate::forms::fields::{FieldType, FormField};
use crate::forms::form::{Form, FormState};
use crate::forms::values::{copy_values, pair_views, FormValue};
use crate::forms::widgets::{choice_views, same_widget, WidgetType};
use crate::text::{owned, str_eq, views};

verus! {

/// Options for building a form from a model: which fields to take or leave,
/// and per-field labels, help texts and widgets.
/// The labels, help texts and widgets are keyed by field name; the first
/// entry for a name counts.
pub struct ModelFormOptions {
    pub fields: Vec<String>,
    pub exclude: Vec<String>,
    pub labels: Vec<(String, String)>,
    pub help_texts: Vec<(String, String)>,
    pub widgets: Vec<(String, WidgetType)>,
}

impl Default for ModelFormOptions {
    fn default() -> (r: Self)
        ensures
            r.fields@.len() == 0,
            r.exclude@.len() == 0,
            r.labels@.len() == 0,
            r.help_texts@.len() == 0,
            r.widgets@.len() == 0,
    {
        ModelFormOptions {
            fields: Vec::new(),
            exclude: Vec::new(),
            labels: Vec::new(),
            help_texts: Vec::new(),
            widgets: Vec::new(),
        }
    }
}

/// The form field type for a model field type name; `None` stands for a
/// choice field without choices.
pub open spec fn field_type_for(kind: Seq<char>) -> Option<FieldType> {
    if kind == "CharField"@ || kind == "TextField"@ {
        Some(FieldType::Char)
    } else if kind == "IntegerField"@ {
        Some(FieldType::Integer)
    } else if kind == "BooleanField"@ {
        Some(FieldType::Boolean)
    } else if kind == "EmailField"@ {
        Some(FieldType::Email)
    } else if kind == "URLField"@ {
        Some(FieldType::Char)
    } else if kind == "DateField"@ {
        Some(FieldType::Date)
    } else if kind == "DateTimeField"@ {
        Some(FieldType::DateTime)
    } else if kind == "ChoiceField"@ {
        None
    } else if kind == "FloatField"@ || kind == "DecimalField"@ {
        Some(FieldType::Float)
    } else if kind == "TextArea"@ {
        Some(FieldType::TextArea)
    } else if kind == "PasswordField"@ {
        Some(FieldType::Password)
    } else {
        Some(FieldType::Char)
    }
}

/// Maps a model field type name to a form field type; unknown names give `Char`.
pub fn field_type_from_string(s: &str) -> (r: FieldType)
    ensures
        match field_type_for(s@) {
            Some(t) => r == t,
            None => r matches FieldType::Choice(c) && c@.len() == 0,
        },
{
    if str_eq(s, "CharField") || str_eq(s, "TextField") {
        FieldType::Char
    } else if str_eq(s, "IntegerField") {
        FieldType::Integer
    } else if str_eq(s, "BooleanField") {
        FieldType::Boolean
    } else if str_eq(s, "EmailField") {
        FieldType::Email
    } else if str_eq(s, "URLField") {
        FieldType::Char
    } else if str_eq(s, "DateField") {
        FieldType::Date
    } else if str_eq(s, "DateTimeField") {
        FieldType::DateTime
    } else if str_eq(s, "ChoiceField") {
        FieldType::Choice(Vec::new())
    } else if str_eq(s, "FloatField") || str_eq(s, "DecimalField") {
        FieldType::Float
    } else if str_eq(s, "TextArea") {
        FieldType::TextArea
    } else if str_eq(s, "PasswordField") {
        FieldType::Password
    } else {
        FieldType::Char
    }
}

/// The widget a field type renders with when none is chosen. A choice field
/// gets a select without options.
pub open spec fn default_widget_for(field_type: FieldType) -> Option<WidgetType> {
    match field_type {
        FieldType::Char => Some(WidgetType::TextInput),
        FieldType::TextArea => Some(WidgetType::Textarea),
        FieldType::Integer => Some(WidgetType::NumberInput),
        FieldType::Float => Some(WidgetType::NumberInput),
        FieldType::Boolean => Some(WidgetType::CheckboxInput),
        FieldType::Email => Some(WidgetType::EmailInput),
        FieldType::Password => Some(WidgetType::PasswordInput),
        FieldType::Date => Some(WidgetType::DateInput),
        FieldType::DateTime => Some(WidgetType::DateTimeInput),
        FieldType::Choice(_) => None,
        _ => Some(WidgetType::TextInput),
    }
}

/// The default widget for a field type.
pub fn default_widget(field_type: &FieldType) -> (r: WidgetType)
    ensures
        match default_widget_for(*field_type) {
            Some(w) => r == w,
            None => r matches WidgetType::Select(c) && c@.len() == 0,
        },
{
    match field_type {
        FieldType::Char => WidgetType::TextInput,
        FieldType::TextArea => WidgetType::Textarea,
        FieldType::Integer | FieldType::Float => WidgetType::NumberInput,
        FieldType::Boolean => WidgetType::CheckboxInput,
        FieldType::Email => WidgetType::EmailInput,
        FieldType::Password => WidgetType::PasswordInput,
        FieldType::Date => WidgetType::DateInput,
        FieldType::DateTime => WidgetType::DateTimeInput,
        FieldType::Choice(_) => WidgetType::Select(Vec::new()),
        _ => WidgetType::TextInput,
    }
}

/// The model field `name` is taken: it is among the fields asked for (all
/// are when none is), and not among the excluded ones.
pub open spec fn is_selected(o: ModelFormOptions, name: Seq<char>) -> bool {
    (o.fields@.len() == 0 || views(o.fields@).contains(name)) && !views(o.exclude@).contains(name)
}

/// The model fields taken from the first `n`, in order.
pub open spec fn selected_upto(o: ModelFormOptions, mf: Seq<(&str, &str)>, n: int) -> Seq<(Seq<char>, Seq<char>)>
    decreases n,
{
    if n <= 0 {
        Seq::empty()
    } else {
        let acc = selected_upto(o, mf, n - 1);
        if is_selected(o, mf[n - 1].0@) { acc.push((mf[n - 1].0@, mf[n - 1].1@)) } else { acc }
    }
}

/// The views of text pairs.
pub open spec fn text_pair_views(v: Seq<(String, String)>) -> Seq<(Seq<char>, Seq<char>)> {
    v.map_values(|p: (String, String)| (p.0@, p.1@))
}

/// The text under `name`, or `default`.
pub open spec fn text_or(v: Seq<(String, String)>, name: Seq<char>, default: Seq<char>) -> Seq<char> {
    match assoc_get(text_pair_views(v), name) {
        Some(t) => t,
        None => default,
    }
}

/// The first widget given for `name`, if any.
pub open spec fn widget_for(v: Seq<(String, WidgetType)>, name: Seq<char>) -> Option<WidgetType> {
    assoc_get(v.map_values(|p: (String, WidgetType)| (p.0@, p.1)), name)
}

/// The form field made for model field `name` of kind `kind`.
pub open spec fn model_field_ok(f: FormField, o: ModelFormOptions, name: Seq<char>, kind: Seq<char>) -> bool {
    &&& f.name@ == name
    &&& f.label@ == text_or(o.labels@, name, name)
    &&& match field_type_for(kind) {
        Some(t) => f.field_type == t,
        None => f.field_type matches FieldType::Choice(c) && c@.len() == 0,
    }
    &&& f.required
    &&& f.initial is None
    &&& f.help_text@ == text_or(o.help_texts@, name, Seq::empty())
    &&& f.validators@.len() == 0
    &&& match widget_for(o.widgets@, name) {
        Some(w) => same_widget(f.widget, w),
        None => match default_widget_for(f.field_type) {
            Some(w) => f.widget == w,
            None => f.widget matches WidgetType::Select(c) && c@.len() == 0,
        },
    }
}

fn text_lookup(v: &Vec<(String, String)>, name: &str, default: &str) -> (r: String)
    ensures
        r@ == text_or(v@, name@, default@),
{
    let i = key_position(v, name);
    proof {
        let s = text_pair_views(v@);
        assert forall|j: int| 0 <= j < i implies s[j].0 != name@ by {
            assert(s[j].0 == v@[j].0@);
        }
        crate::apps::lemma_assoc_at(s, name@, Seq::<char>::empty(), i as int);
    }
    if i < v.len() { v[i].1.clone() } else { owned(default) }
}

fn contains_name(v: &Vec<String>, name: &str) -> (r: bool)
    ensures
        r == views(v@).contains(name@),
{
    let mut i: usize = 0;
    while i < v.len()
        invariant
            i <= v.len(),
            forall|j: int| 0 <= j < i ==> v@[j]@ != name@,
        decreases v.len() - i,
    {
        if str_eq(v[i].as_str(), name) {
            assert(views(v@)[i as int] == name@);
            return true;
        }
        i = i + 1;
    }
    assert(!views(v@).contains(name@)) by {
        if views(v@).contains(name@) {
            let k = choose|k: int| 0 <= k < views(v@).len() && views(v@)[k] == name@;
            assert(v@[k]@ == name@);
        }
    }
    false
}

fn model_field(o: &ModelFormOptions, name: &str, kind: &str) -> (r: FormField)
    ensures
        model_field_ok(r, *o, name@, kind@),
{
    let label = text_lookup(&o.labels, name, name);
    let help_text = text_lookup(&o.help_texts, name, "");
    proof { reveal_strlit(""); }
    let field_type = field_type_from_string(kind);
    let i = key_position(&o.widgets, name);
    proof {
        let s = o.widgets@.map_values(|p: (String, WidgetType)| (p.0@, p.1));
        assert forall|j: int| 0 <= j < i implies s[j].0 != name@ by {
            assert(s[j].0 == o.widgets@[j].0@);
        }
        crate::apps::lemma_assoc_at(s, name@, WidgetType::TextInput, i as int);
    }
    let widget = if i < o.widgets.len() { o.widgets[i].1.duplicate() } else { default_widget(&field_type) };
    let r = FormField {
        name: owned(name),
        label,
        field_type,
        required: true,
        initial: None,
        help_text,
        widget,
        validators: Vec::new(),
    };
    assert(r.help_text@ == text_or(o.help_texts@, name@, Seq::empty()));
    assert(match field_type_for(kind@) {
        Some(t) => r.field_type == t,
        None => r.field_type matches FieldType::Choice(c) && c@.len() == 0,
    });
    assert(match widget_for(o.widgets@, name@) {
        Some(w) => same_widget(r.widget, w),
        None => match default_widget_for(r.field_type) {
            Some(w) => r.widget == w,
            None => r.widget matches WidgetType::Select(c) && c@.len() == 0,
        },
    });
    r
}

/// A form built from model field declarations `(name, kind)`: one required
/// field per taken model field (see [`is_selected`]), in order, with the
/// label, help text and widget the options give for it (the name, nothing,
/// and the kind's default widget otherwise).
pub fn modelform_factory(model_fields: &[(&str, &str)], options: ModelFormOptions) -> (r: Form)
    ensures
        r.fields@.len() == selected_upto(options, model_fields@, model_fields@.len() as int).len(),
        forall|k: int| 0 <= k < r.fields@.len() ==> model_field_ok(
            #[trigger] r.fields@[k],
            options,
            selected_upto(options, model_fields@, model_fields@.len() as int)[k].0,
            selected_upto(options, model_fields@, model_fields@.len() as int)[k].1,
        ),
        r.data@.len() == 0,
        r.state.is_valid,
        r.state.cleaned_data@.len() == 0,
        r.state.errors@.len() == 0,
        !r.is_bound,
        !r.cleaned,
{
    let mut fields: Vec<FormField> = Vec::new();
    let mut i: usize = 0;
    while i < model_fields.len()
        invariant
            i <= model_fields@.len(),
            fields@.len() == selected_upto(options, model_fields@, i as int).len(),
            forall|k: int| 0 <= k < fields@.len() ==> model_field_ok(
                #[trigger] fields@[k],
                options,
                selected_upto(options, model_fields@, i as int)[k].0,
                selected_upto(options, model_fields@, i as int)[k].1,
            ),
        decreases model_fields.len() - i,
    {
        let (name, kind) = model_fields[i];
        let wanted = options.fields.len() == 0 || contains_name(&options.fields, name);
        let excluded = contains_name(&options.exclude, name);
        if wanted && !excluded {
            let f = model_field(&options, name, kind);
            fields.push(f);
        }
        i = i + 1;
    }
    Form { fields, data: Vec::new(), state: FormState::valid(), is_bound: false, cleaned: false }
}

/// The cleaned values a model form would save: the values themselves.
pub fn save_modelform(cleaned_data: Vec<(String, FormValue)>) -> (r: Vec<(String, FormValue)>)
    ensures
        r == cleaned_data,
{
    cleaned_data
}

} // verus!
