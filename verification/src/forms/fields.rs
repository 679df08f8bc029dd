//! Form fields: their kinds, how they clean a submitted value, and how they
//! render.

use vstd::prelude::*;
use crate::forms::values::{
    display_text, float_syntax, read_float_syntax, str_part, validator_text, FloatSyntax, FormValue, Val,
};
use crate::forms::widgets::{render_widget, widget_html, WidgetType};
use crate::text::{
    all_whitespace, concat2, i64_to_string, int_str, lowercase, nat_str, owned, parse_i64, parse_i64_str, replace_char,
    replace_char_str, str_eq, to_lowercase, u64_to_string,
};
use crate::validators::{
    ipv4_ok, opt_msg, pattern_outcome, validate_email, validate_integer, validate_ipv4_address,
    validate_required, validate_slug, validate_url,
};

verus! {

/// The type of a form field. `Choice` carries its `(value, label)` pairs.
#[derive(Debug, Clone)]
pub enum FieldType {
    Char,
    Email,
    Password,
    Integer,
    Float,
    Boolean,
    Choice(Vec<(String, String)>),
    TextArea,
    Date,
    DateTime,
    Hidden,
    File,
}

/// The email pattern of the framework's email validator.
pub open spec fn email_pattern() -> Seq<char> {
    "^[a-zA-Z0-9._%+-]+@[a-zA-Z0-9.-]+\\.[a-zA-Z]{2,}$"@
}

/// A validator a field runs on the submitted text: one of the framework's
/// named validators.
#[derive(Debug, Clone, Copy, PartialEq, Eq)]
pub enum FieldValidator {
    Required,
    Email,
    Url,
    Slug,
    Integer,
    Ipv4,
}

/// The message a validator gives for `text`, or `None` when it accepts it.
pub open spec fn validator_outcome(v: FieldValidator, text: Seq<char>) -> Option<Seq<char>> {
    match v {
        FieldValidator::Required => if all_whitespace(text) { Some("This field is required."@) } else { None },
        FieldValidator::Email => pattern_outcome(email_pattern(), text, "Enter a valid email address."@),
        FieldValidator::Url => pattern_outcome("^https?://[^\\s/$.?#].[^\\s]*$"@, text, "Enter a valid URL."@),
        FieldValidator::Slug => pattern_outcome(
            "^[-a-zA-Z0-9_]+$"@,
            text,
            "Enter a valid slug consisting of letters, numbers, underscores or hyphens."@,
        ),
        FieldValidator::Integer => if parse_i64(text) is Some { None } else { Some("Enter a valid integer."@) },
        FieldValidator::Ipv4 => if ipv4_ok(text) { None } else { Some("Enter a valid IPv4 address."@) },
    }
}

impl FieldValidator {
    /// The validator's name.
    pub fn name(&self) -> (r: &'static str)
        ensures
            r@ == match *self {
                FieldValidator::Required => "required"@,
                FieldValidator::Email => "email"@,
                FieldValidator::Url => "url"@,
                FieldValidator::Slug => "slug"@,
                FieldValidator::Integer => "integer"@,
                FieldValidator::Ipv4 => "ipv4"@,
            },
    {
        match self {
            FieldValidator::Required => "required",
            FieldValidator::Email => "email",
            FieldValidator::Url => "url",
            FieldValidator::Slug => "slug",
            FieldValidator::Integer => "integer",
            FieldValidator::Ipv4 => "ipv4",
        }
    }

    /// Runs the validator on the text of `value` (see [`validator_text`]).
    pub fn validate(&self, value: &FormValue) -> (r: Option<String>)
        ensures
            opt_msg(r) == validator_outcome(*self, validator_text(value@)),
    {
        let text = value.validator_text();
        let t = text.as_str();
        match self {
            FieldValidator::Required => validate_required(t),
            FieldValidator::Email => validate_email(t),
            FieldValidator::Url => validate_url(t),
            FieldValidator::Slug => validate_slug(t),
            FieldValidator::Integer => validate_integer(t),
            FieldValidator::Ipv4 => validate_ipv4_address(t),
        }
    }
}

/// The widget a new field of type `t` gets.
pub open spec fn is_default_widget(t: FieldType, w: WidgetType) -> bool {
    match t {
        FieldType::Char => w is TextInput,
        FieldType::Email => w is EmailInput,
        FieldType::Password => w is PasswordInput,
        FieldType::Integer => w is NumberInput,
        FieldType::Float => w is NumberInput,
        FieldType::Boolean => w is CheckboxInput,
        FieldType::Choice(_) => w matches WidgetType::Select(c) && c@.len() == 0,
        FieldType::TextArea => w is Textarea,
        FieldType::Date => w is DateInput,
        FieldType::DateTime => w is DateTimeInput,
        FieldType::Hidden => w is HiddenInput,
        FieldType::File => w is FileInput,
    }
}

/// A single form field.
#[derive(Debug, Clone)]
pub struct FormField {
    pub name: String,
    pub label: String,
    pub field_type: FieldType,
    pub required: bool,
    pub initial: Option<FormValue>,
    pub help_text: String,
    pub widget: WidgetType,
    pub validators: Vec<FieldValidator>,
}

/// The initial value of a field, as a value.
pub open spec fn initial_val(f: FormField) -> Val {
    match f.initial {
        Some(v) => v@,
        None => Val::Null,
    }
}

/// The strings a checkbox reads as on and as off.
pub open spec fn is_true_word(s: Seq<char>) -> bool {
    s == "true"@ || s == "1"@ || s == "on"@ || s == "yes"@
}

/// See [`is_true_word`].
pub open spec fn is_false_word(s: Seq<char>) -> bool {
    s == "false"@ || s == "0"@ || s == "off"@ || s == "no"@ || s == ""@
}

/// What cleaning `v` in field `f` gives: the cleaned value, or the message.
/// A null value is refused by a required field and replaced by the initial
/// value otherwise. Integer fields read the text as an `i64` and keep its
/// decimal text (a negative number stays negative); float fields keep a decimal
/// literal as it is and turn `inf` and `nan` into null; boolean fields read
/// on and off words, case-insensitively; email fields check the address;
/// the others keep the value.
pub open spec fn clean_outcome(f: FormField, v: Val) -> Result<Val, Seq<char>> {
    if v is Null {
        if f.required {
            Err(f.label@ + " is required."@)
        } else {
            Ok(initial_val(f))
        }
    } else {
        match f.field_type {
            FieldType::Integer => match parse_i64(str_part(v)) {
                Some(n) => Ok(Val::Number(int_str(n))),
                None => Err(f.label@ + " must be an integer."@),
            },
            FieldType::Float => match float_syntax(str_part(v)) {
                FloatSyntax::Decimal => Ok(Val::Number(str_part(v))),
                FloatSyntax::NonFinite => Ok(Val::Null),
                FloatSyntax::Invalid => Err(f.label@ + " must be a number."@),
            },
            FieldType::Boolean => {
                let l = lowercase(str_part(v));
                if is_true_word(l) {
                    Ok(Val::Bool(true))
                } else if is_false_word(l) {
                    Ok(Val::Bool(false))
                } else {
                    Err(f.label@ + " must be true or false."@)
                }
            },
            FieldType::Email => match pattern_outcome(email_pattern(), str_part(v), "Enter a valid email address."@) {
                Some(m) => Err(m),
                None => Ok(v),
            },
            _ => Ok(v),
        }
    }
}

/// Law: a boolean field cleans any present value whose lowercase is `true`,
/// `1`, `on` (what a checked checkbox submits) or `yes` to `true`, and one
/// whose lowercase is `false`, `0`, `off`, `no` or empty to `false`.
pub proof fn law_boolean_field_words(f: FormField, v: Val)
    requires
        f.field_type is Boolean,
        !(v is Null),
    ensures
        ({
            let l = lowercase(str_part(v));
            l == "true"@ || l == "1"@ || l == "on"@ || l == "yes"@
        }) ==> clean_outcome(f, v) == Ok::<Val, Seq<char>>(Val::Bool(true)),
        ({
            let l = lowercase(str_part(v));
            l == "false"@ || l == "0"@ || l == "off"@ || l == "no"@ || l == ""@
        }) ==> clean_outcome(f, v) == Ok::<Val, Seq<char>>(Val::Bool(false)),
{
    reveal_strlit("true");
    reveal_strlit("1");
    reveal_strlit("on");
    reveal_strlit("yes");
    reveal_strlit("false");
    reveal_strlit("0");
    reveal_strlit("off");
    reveal_strlit("no");
    reveal_strlit("");
    assert("0"@[0] != "1"@[0] && "no"@[0] != "on"@[0] && "off"@[0] != "yes"@[0]);
    assert("false"@.len() == 5 && "true"@.len() == 4 && "off"@.len() == 3 && "on"@.len() == 2);
    assert("0"@ != "1"@ && "no"@ != "on"@ && "off"@ != "yes"@);
    let l = lowercase(str_part(v));
    if l == "false"@ || l == "0"@ || l == "off"@ || l == "no"@ || l == ""@ {
        assert("1"@.len() == 1 && "0"@.len() == 1 && "yes"@.len() == 3 && "no"@.len() == 2 && ""@.len() == 0);
        assert("false"@ != "yes"@ && "false"@ != "true"@ && "false"@ != "1"@ && "false"@ != "on"@);
        assert("0"@ != "true"@ && "0"@ != "on"@ && "0"@ != "yes"@);
        assert("off"@ != "true"@ && "off"@ != "1"@ && "off"@ != "on"@);
        assert("no"@ != "true"@ && "no"@ != "1"@ && "no"@ != "yes"@);
        assert(""@ != "true"@ && ""@ != "1"@ && ""@ != "on"@ && ""@ != "yes"@);
        assert(!is_true_word(l));
        assert(is_false_word(l));
    }
}

/// The views of a clean result.
pub open spec fn clean_view(r: Result<FormValue, String>) -> Result<Val, Seq<char>> {
    match r {
        Ok(v) => Ok(v@),
        Err(e) => Err(e@),
    }
}

/// The HTML of field `f` showing `value` (nothing when there is none).
pub open spec fn field_html(f: FormField, value: Option<Val>) -> Seq<char> {
    widget_html(f.widget, f.name@, match value {
        Some(v) => display_text(v),
        None => ""@,
    })
}

impl FormField {
    /// A required field named `name`, labelled by the name with `_` read as
    /// spaces, with the widget its type calls for and no initial value.
    pub fn new(name: &str, field_type: FieldType) -> (r: Self)
        ensures
            r.name@ == name@,
            r.label@ == replace_char(name@, '_', " "@),
            r.field_type == field_type,
            r.required,
            r.initial is None,
            r.help_text@ == Seq::<char>::empty(),
            is_default_widget(field_type, r.widget),
            r.validators@.len() == 0,
    {
        let widget = match &field_type {
            FieldType::Char => WidgetType::TextInput,
            FieldType::Email => WidgetType::EmailInput,
            FieldType::Password => WidgetType::PasswordInput,
            FieldType::Integer => WidgetType::NumberInput,
            FieldType::Float => WidgetType::NumberInput,
            FieldType::Boolean => WidgetType::CheckboxInput,
            FieldType::Choice(_) => WidgetType::Select(Vec::new()),
            FieldType::TextArea => WidgetType::Textarea,
            FieldType::Date => WidgetType::DateInput,
            FieldType::DateTime => WidgetType::DateTimeInput,
            FieldType::Hidden => WidgetType::HiddenInput,
            FieldType::File => WidgetType::FileInput,
        };
        proof { reveal_strlit(""); }
        FormField {
            name: owned(name),
            label: replace_char_str(name, '_', " "),
            field_type,
            required: true,
            initial: None,
            help_text: owned(""),
            widget,
            validators: Vec::new(),
        }
    }

    /// The same field with label `label`.
    pub fn label(self, label: &str) -> (r: Self)
        ensures
            r.label@ == label@,
            r.name == self.name,
            r.field_type == self.field_type,
            r.required == self.required,
            r.initial == self.initial,
            r.help_text == self.help_text,
            r.widget == self.widget,
            r.validators == self.validators,
    {
        FormField { label: owned(label), ..self }
    }

    /// The same field, required or not as `required` says.
    pub fn required(self, required: bool) -> (r: Self)
        ensures
            r.required == required,
            r.name == self.name,
            r.label == self.label,
            r.field_type == self.field_type,
            r.initial == self.initial,
            r.help_text == self.help_text,
            r.widget == self.widget,
            r.validators == self.validators,
    {
        FormField { required, ..self }
    }

    /// The same field with initial value `value`.
    pub fn initial(self, value: FormValue) -> (r: Self)
        ensures
            r.initial == Some(value),
            r.name == self.name,
            r.label == self.label,
            r.field_type == self.field_type,
            r.required == self.required,
            r.help_text == self.help_text,
            r.widget == self.widget,
            r.validators == self.validators,
    {
        FormField { initial: Some(value), ..self }
    }

    /// The same field with help text `text`.
    pub fn help(self, text: &str) -> (r: Self)
        ensures
            r.help_text@ == text@,
            r.name == self.name,
            r.label == self.label,
            r.field_type == self.field_type,
            r.required == self.required,
            r.initial == self.initial,
            r.widget == self.widget,
            r.validators == self.validators,
    {
        FormField { help_text: owned(text), ..self }
    }

    /// The same field rendered with widget `w`.
    pub fn widget(self, w: WidgetType) -> (r: Self)
        ensures
            r.widget == w,
            r.name == self.name,
            r.label == self.label,
            r.field_type == self.field_type,
            r.required == self.required,
            r.initial == self.initial,
            r.help_text == self.help_text,
            r.validators == self.validators,
    {
        FormField { widget: w, ..self }
    }

    /// The same field with validator `v` run last.
    pub fn validator(self, v: FieldValidator) -> (r: Self)
        ensures
            r.validators@ == self.validators@.push(v),
            r.name == self.name,
            r.label == self.label,
            r.field_type == self.field_type,
            r.required == self.required,
            r.initial == self.initial,
            r.help_text == self.help_text,
            r.widget == self.widget,
    {
        let mut validators = self.validators;
        validators.push(v);
        FormField { validators, ..self }
    }

    /// Cleans a submitted value; see [`clean_outcome`].
    pub fn clean(&self, value: &FormValue) -> (r: Result<FormValue, String>)
        ensures
            clean_view(r) == clean_outcome(*self, value@),
    {
        if value.is_null() {
            if self.required {
                return Err(concat2(self.label.as_str(), " is required."));
            }
            return match &self.initial {
                Some(v) => Ok(v.duplicate()),
                None => Ok(FormValue::Null),
            };
        }
        let s = value.str_part();
        match &self.field_type {
            FieldType::Integer => match parse_i64_str(s) {
                Some(n) => Ok(FormValue::Number(i64_to_string(n))),
                None => Err(concat2(self.label.as_str(), " must be an integer.")),
            },
            FieldType::Float => match read_float_syntax(s) {
                FloatSyntax::Decimal => Ok(FormValue::Number(owned(s))),
                FloatSyntax::NonFinite => Ok(FormValue::Null),
                FloatSyntax::Invalid => Err(concat2(self.label.as_str(), " must be a number.")),
            },
            FieldType::Boolean => {
                let lowered = to_lowercase(s);
                let l = lowered.as_str();
                if str_eq(l, "true") || str_eq(l, "1") || str_eq(l, "on") || str_eq(l, "yes") {
                    Ok(FormValue::Bool(true))
                } else if str_eq(l, "false") || str_eq(l, "0") || str_eq(l, "off") || str_eq(l, "no") || str_eq(l, "") {
                    Ok(FormValue::Bool(false))
                } else {
                    Err(concat2(self.label.as_str(), " must be true or false."))
                }
            },
            FieldType::Email => match validate_email(s) {
                Some(m) => Err(m),
                None => Ok(value.duplicate()),
            },
            _ => Ok(value.duplicate()),
        }
    }

    /// The field's widget showing `value`, or empty when there is none.
    pub fn render(&self, value: Option<&FormValue>) -> (r: String)
        ensures
            r@ == field_html(*self, match value {
                Some(v) => Some(v@),
                None => None,
            }),
    {
        let val = match value {
            Some(v) => v.display_text(),
            None => owned(""),
        };
        render_widget(&self.widget, self.name.as_str(), val.as_str(), self.help_text.as_str())
    }
}

} // verus!
