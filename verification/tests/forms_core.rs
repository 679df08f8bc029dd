use rjango::forms::fields::{FieldType, FieldValidator, FormField};
use rjango::forms::form::{Form, FormState};
use rjango::forms::formsets::{formset_factory, name_fieldset, BaseFormSet, FormsetForm};
use rjango::forms::modelform::{modelform_factory, save_modelform, ModelFormOptions};
use rjango::forms::rendering::{as_div, as_p, as_table};
use rjango::forms::validation::{ValidationResult, NON_FIELD_ERRORS};
use rjango::forms::values::{lookup_value, parse_form_data, read_float_syntax, FloatSyntax, FormValue};
use rjango::forms::widgets::WidgetType;

fn text(s: &str) -> FormValue {
    FormValue::Text(s.to_string())
}

fn data_of(pairs: &[(&str, &str)]) -> Vec<(String, FormValue)> {
    pairs.iter().map(|(k, v)| (k.to_string(), text(v))).collect()
}

fn has_key(errors: &Vec<(String, Vec<String>)>, key: &str) -> bool {
    errors.iter().any(|(k, _)| k == key)
}

fn simple_form_fields() -> Vec<FormField> {
    vec![
        FormField::new("username", FieldType::Char).label("Username").required(true),
        FormField::new("email", FieldType::Email).label("Email").required(true),
        FormField::new("age", FieldType::Integer).label("Age").required(false),
    ]
}

fn make_fields() -> Vec<FormField> {
    vec![
        FormField::new("name", FieldType::Char).label("Name").help("Your full name"),
        FormField::new("email", FieldType::Email).label("Email"),
    ]
}

fn make_data() -> Vec<(String, FormValue)> {
    data_of(&[("name", "Alice"), ("email", "alice@example.com")])
}

// ---- fields ----

#[test]
fn test_form_field_new() {
    let field = FormField::new("username", FieldType::Char);
    assert_eq!(field.name, "username");
    assert_eq!(field.label, "username");
    assert!(field.required);
}

#[test]
fn test_form_field_builder() {
    let field = FormField::new("email", FieldType::Email)
        .label("Email address")
        .required(false)
        .help("Enter your email");
    assert_eq!(field.label, "Email address");
    assert!(!field.required);
    assert_eq!(field.help_text, "Enter your email");
}

#[test]
fn test_clean_char() {
    let field = FormField::new("name", FieldType::Char);
    let val = text("Alice");
    let result = field.clean(&val).unwrap();
    assert_eq!(result, val);
}

#[test]
fn test_clean_integer() {
    let field = FormField::new("age", FieldType::Integer);
    let result = field.clean(&text("42")).unwrap();
    assert_eq!(result, FormValue::Number("42".to_string()));
}

#[test]
fn test_clean_integer_invalid() {
    let field = FormField::new("age", FieldType::Integer);
    let result = field.clean(&text("abc"));
    assert!(result.is_err());
}

#[test]
fn test_clean_boolean_true() {
    let field = FormField::new("agree", FieldType::Boolean);
    let result = field.clean(&text("true")).unwrap();
    assert_eq!(result, FormValue::Bool(true));
}

#[test]
fn test_clean_boolean_false() {
    let field = FormField::new("agree", FieldType::Boolean);
    let result = field.clean(&text("false")).unwrap();
    assert_eq!(result, FormValue::Bool(false));
}

#[test]
fn test_clean_null_required() {
    let field = FormField::new("name", FieldType::Char);
    let result = field.clean(&FormValue::Null);
    assert!(result.is_err());
}

#[test]
fn test_clean_null_optional() {
    let field = FormField::new("name", FieldType::Char).required(false);
    let result = field.clean(&FormValue::Null).unwrap();
    assert_eq!(result, FormValue::Null);
}

#[test]
fn test_render_field() {
    let field = FormField::new("name", FieldType::Char);
    let html = field.render(Some(&text("Alice")));
    assert!(html.contains(r#"value="Alice""#));
}

#[test]
fn test_parse_form_data() {
    let data = parse_form_data("name=Alice&age=30");
    assert_eq!(lookup_value(&data, "name").unwrap(), &text("Alice"));
    assert_eq!(lookup_value(&data, "age").unwrap(), &text("30"));
}

#[test]
fn test_parse_form_data_empty() {
    let data = parse_form_data("");
    assert!(data.is_empty());
}

#[test]
fn test_field_type_choice_uses_select_widget() {
    let field = FormField::new("color", FieldType::Choice(vec![
        ("R".into(), "Red".into()),
        ("B".into(), "Blue".into()),
    ]));
    assert!(matches!(field.widget, WidgetType::Select(_)));
}

#[test]
fn test_clean_float() {
    let field = FormField::new("price", FieldType::Float);
    let result = field.clean(&text("3.14")).unwrap();
    let number: Option<f64> = match result {
        FormValue::Number(t) => t.parse::<f64>().ok(),
        _ => None,
    };
    assert_eq!(number, Some(3.14));
}

#[test]
fn test_clean_boolean_from_numbers() {
    let field = FormField::new("flag", FieldType::Boolean);
    assert_eq!(field.clean(&text("1")).unwrap(), FormValue::Bool(true));
    assert_eq!(field.clean(&text("0")).unwrap(), FormValue::Bool(false));
}

// ---- forms ----

#[test]
fn test_empty_form_valid() {
    let form = Form::new(simple_form_fields());
    assert!(!form.is_bound);
}

#[test]
fn test_form_validation_passes() {
    let mut form = Form::new(simple_form_fields());
    form.data = data_of(&[("username", "john"), ("email", "john@example.com"), ("age", "30")]);
    form.is_bound = true;
    assert!(form.is_valid());
}

#[test]
fn test_form_validation_fails_required() {
    let mut form = Form::new(simple_form_fields());
    form.data = data_of(&[("username", "")]);
    form.is_bound = true;
    assert!(!form.is_valid());
    assert!(has_key(form.errors(), "username"));
    assert!(has_key(form.errors(), "email"));
}

#[test]
fn test_form_validation_email_fails() {
    let mut form = Form::new(simple_form_fields());
    form.data = data_of(&[("username", "john"), ("email", "not-an-email"), ("age", "30")]);
    form.is_bound = true;
    assert!(!form.is_valid());
    assert!(has_key(form.errors(), "email"));
}

#[test]
fn test_form_validation_integer_fails() {
    let mut form = Form::new(simple_form_fields());
    form.data = data_of(&[("username", "john"), ("email", "john@example.com"), ("age", "not-a-number")]);
    form.is_bound = true;
    assert!(!form.is_valid());
}

#[test]
fn test_form_render() {
    let form = Form::new(simple_form_fields());
    let html = form.render("Submit", "/submit/", "post");
    assert!(html.contains("<form"));
    assert!(html.contains("csrfmiddlewaretoken"));
    assert!(html.contains("Submit"));
    assert!(html.contains("Username"));
    assert!(html.contains("Email"));
}

#[test]
fn test_from_query() {
    let fields = simple_form_fields();
    let mut form = Form::from_query(fields, "username=john&email=john@example.com&age=30");
    assert!(form.is_bound);
    assert!(form.is_valid());
}

#[test]
fn test_add_field_error() {
    let mut form = Form::new(simple_form_fields());
    form.data = data_of(&[("username", "john"), ("email", "john@example.com")]);
    form.is_bound = true;
    form.add_error(Some("username"), "Custom username error".into());
    assert!(!form.is_valid());
    assert_eq!(form.state.field_error("username").unwrap().len(), 1);
    assert!(form.state.field_error("username").unwrap()[0].contains("Custom"));
}

#[test]
fn test_add_non_field_error() {
    let mut form = Form::new(simple_form_fields());
    form.data = data_of(&[("username", "john"), ("email", "john@example.com")]);
    form.is_bound = true;
    form.add_error(None, "Form-level error".into());
    assert!(!form.is_valid());
    let non_field = form.non_field_errors();
    assert_eq!(non_field.len(), 1);
    assert!(non_field[0].contains("Form-level"));
}

#[test]
fn test_has_changed_with_no_initial() {
    let mut form = Form::new(simple_form_fields());
    form.data = data_of(&[("username", "john")]);
    form.is_bound = true;
    let changed = form.has_changed();
    assert!(changed);
}

#[test]
fn test_has_changed_same_as_initial() {
    let field = FormField::new("username", FieldType::Char).initial(text("john"));
    let _data = data_of(&[("username", "john")]);
    let form = Form::new(vec![field]);
    let changed = form.has_changed();
    assert!(!changed);
}

#[test]
fn test_cleaned_data_after_validation() {
    let mut form = Form::new(simple_form_fields());
    form.data = data_of(&[("username", "alice"), ("email", "alice@example.com")]);
    form.is_bound = true;
    assert!(form.is_valid());
    assert_eq!(lookup_value(form.cleaned_data(), "username").unwrap(), &text("alice"));
}

#[test]
fn test_non_field_errors_empty_when_valid() {
    let form = Form::new(simple_form_fields());
    assert!(form.non_field_errors().is_empty());
}

#[test]
fn test_debug_output() {
    let form = Form::new(simple_form_fields());
    let debug = format!("{:?}", form);
    assert!(debug.contains("Form"));
}

#[test]
fn test_full_clean_pipeline_ok() {
    let mut form = Form::new(simple_form_fields());
    form.data = data_of(&[("username", "bob"), ("email", "bob@example.com")]);
    form.is_bound = true;
    form.full_clean();
    assert!(form.state.is_valid);
}

#[test]
fn test_full_clean_with_integer_clean() {
    let mut form = Form::new(simple_form_fields());
    form.data = data_of(&[("username", "alice"), ("email", "alice@example.com"), ("age", "25")]);
    form.is_bound = true;
    form.full_clean();
    assert!(form.state.is_valid);
    assert_eq!(lookup_value(&form.state.cleaned_data, "age").unwrap(), &FormValue::Number("25".to_string()));
}

// ---- rendering ----

#[test]
fn test_as_table() {
    let fields = make_fields();
    let state = FormState::valid();
    let data = make_data();
    let html = as_table(&fields, &state, &data);
    assert!(html.contains("<table"));
    assert!(html.contains("Name"));
    assert!(html.contains("Email"));
    assert!(html.contains("Alice"));
    assert!(html.contains("</table>"));
}

#[test]
fn test_as_table_with_errors() {
    let fields = make_fields();
    let errors = vec![("name".to_string(), vec!["Required".to_string()])];
    let state = FormState::invalid(errors);
    let data = make_data();
    let html = as_table(&fields, &state, &data);
    assert!(html.contains("errorlist"));
    assert!(html.contains("Required"));
}

#[test]
fn test_as_p() {
    let fields = make_fields();
    let state = FormState::valid();
    let data = make_data();
    let html = as_p(&fields, &state, &data);
    assert!(html.contains("<p>"));
    assert!(html.contains("Name"));
    assert!(html.contains("Alice"));
}

#[test]
fn test_as_p_no_data() {
    let fields = make_fields();
    let state = FormState::valid();
    let data = Vec::new();
    let html = as_p(&fields, &state, &data);
    assert!(html.contains("<p>"));
}

#[test]
fn test_as_div() {
    let fields = make_fields();
    let state = FormState::valid();
    let data = make_data();
    let html = as_div(&fields, &state, &data);
    assert!(html.contains("mb-3"));
    assert!(html.contains("form-label"));
    assert!(html.contains("Alice"));
}

#[test]
fn test_as_div_with_errors() {
    let fields = make_fields();
    let errors = vec![("email".to_string(), vec!["Invalid email".to_string()])];
    let state = FormState::invalid(errors);
    let data = make_data();
    let html = as_div(&fields, &state, &data);
    assert!(html.contains("invalid-feedback"));
    assert!(html.contains("Invalid email"));
}

#[test]
fn test_as_table_required_marker() {
    let fields = vec![FormField::new("opt", FieldType::Char).required(false)];
    let state = FormState::valid();
    let data = Vec::new();
    let html = as_table(&fields, &state, &data);
    assert!(!html.contains("opt *"));
}

#[test]
fn test_empty_fields() {
    let html = as_table(&[], &FormState::valid(), &Vec::new());
    assert_eq!(html, "<table class=\"form-table\">\n</table>");
}

// ---- formsets ----

#[test]
fn test_formset_new() {
    let mut fs = BaseFormSet::new(name_fieldset, 3, false, false, 0, 0);
    assert_eq!(fs.total_form_count(), 3);
    assert_eq!(fs.initial_form_count(), 3);
    assert!(!fs.can_delete);
    assert!(!fs.can_order);
    assert!(!fs.is_valid());
    assert_eq!(fs.errors.len(), 3);
}

#[test]
fn test_formset_with_constraints() {
    let fs = BaseFormSet::new(name_fieldset, 2, false, false, 1, 10);
    assert_eq!(fs.min_num, 1);
    assert_eq!(fs.max_num, 10);
}

#[test]
fn test_formset_is_valid_empty() {
    let mut fs = BaseFormSet::new(name_fieldset, 0, false, false, 0, 0);
    assert!(!fs.is_valid());
}

#[test]
fn test_formset_below_min() {
    let mut fs = BaseFormSet::new(name_fieldset, 0, false, false, 2, 10);
    assert!(!fs.is_valid());
}

#[test]
fn test_formset_above_max() {
    let mut fs = BaseFormSet::new(name_fieldset, 15, false, false, 0, 10);
    assert!(!fs.is_valid());
}

#[test]
fn test_formset_cleaned_data() {
    let fs = BaseFormSet::new(name_fieldset, 2, false, false, 0, 0);
    let data = fs.cleaned_data();
    assert_eq!(data.len(), 2);
}

#[test]
fn test_formset_factory() {
    let factory = formset_factory(name_fieldset, 2, true, false, 0, 10);
    let mut fs = factory();
    assert_eq!(fs.total_form_count(), 2);
    assert!(fs.can_delete);
    assert!(!fs.can_order);
    assert!(!fs.is_valid());
}

#[test]
fn test_formset_form_construction() {
    let ff = FormsetForm {
        form: Form::new(name_fieldset(0)),
        index: 0,
        can_delete: true,
        can_order: false,
    };
    assert_eq!(ff.index, 0);
    assert!(ff.can_delete);
}

#[test]
fn test_render_all() {
    let fs = BaseFormSet::new(name_fieldset, 2, false, false, 0, 0);
    let html = fs.render_all("Submit", "/submit", "post");
    assert!(html.contains("<form"));
    assert!(html.contains("</form>"));
    assert!(html.contains("fieldset"));
}

#[test]
fn test_name_fieldset() {
    let fields = name_fieldset(0);
    assert_eq!(fields.len(), 2);
    assert_eq!(fields[0].name, "name");
    assert_eq!(fields[1].name, "email");
}

#[test]
fn test_clone() {
    let mut fs = BaseFormSet::new(name_fieldset, 2, false, false, 0, 0);
    let _cloned = fs.clone();
    assert!(!fs.is_valid());
}

// ---- model forms ----

#[test]
fn test_modelform_factory() {
    let options = ModelFormOptions::default();
    let form = modelform_factory(&[
        ("title", "CharField"),
        ("content", "TextField"),
        ("published", "BooleanField"),
    ], options);
    assert_eq!(form.fields.len(), 3);
    assert_eq!(form.fields[0].name, "title");
}

#[test]
fn test_modelform_exclude() {
    let mut options = ModelFormOptions::default();
    options.exclude.push("content".to_string());
    let form = modelform_factory(&[
        ("title", "CharField"),
        ("content", "TextField"),
    ], options);
    assert_eq!(form.fields.len(), 1);
}

#[test]
fn test_modelform_fields_filter() {
    let mut options = ModelFormOptions::default();
    options.fields.push("title".to_string());
    let form = modelform_factory(&[
        ("title", "CharField"),
        ("content", "TextField"),
    ], options);
    assert_eq!(form.fields.len(), 1);
}

// ---- validation results ----

fn field_error_count(r: &ValidationResult, field: &str) -> usize {
    r.field_errors.iter().find(|(k, _)| k == field).map(|(_, l)| l.len()).unwrap()
}

#[test]
fn test_validation_result_valid() {
    let r = ValidationResult::valid();
    assert!(r.is_valid);
    assert!(r.errors.is_empty());
    assert!(r.cleaned_data.is_some());
}

#[test]
fn test_validation_result_invalid() {
    let r = ValidationResult::invalid(vec!["Err".into()]);
    assert!(!r.is_valid);
    assert!(r.cleaned_data.is_none());
}

#[test]
fn test_validation_result_with_field_error() {
    let r = ValidationResult::valid().with_field_error("email", "Invalid");
    assert!(!r.is_valid);
    assert_eq!(field_error_count(&r, "email"), 1);
}

#[test]
fn test_validation_result_add_error() {
    let mut r = ValidationResult::valid();
    r.add_error("err".into());
    assert!(!r.is_valid);
}

#[test]
fn test_validation_result_add_field_error() {
    let mut r = ValidationResult::valid();
    r.add_field_error("n".into(), "e".into());
    assert!(!r.is_valid);
}

#[test]
fn test_field_errors_method() {
    let r = ValidationResult::valid().with_field_error("n", "e");
    assert_eq!(r.field_errors("n").len(), 1);
    assert!(r.field_errors("x").is_empty());
}

#[test]
fn test_field_error_text() {
    let r = ValidationResult::valid().with_field_error("n", "e");
    assert_eq!(r.field_error_text("n"), "e");
}

#[test]
fn test_render_field_errors() {
    let r = ValidationResult::valid().with_field_error("n", "E");
    assert!(r.render_field_errors("n").contains("<ul"));
}

#[test]
fn test_non_field_errors_fallback() {
    let r = ValidationResult::invalid(vec!["g".into()]);
    assert_eq!(r.non_field_errors().len(), 1);
}

#[test]
fn test_non_field_errors_from_field() {
    let r = ValidationResult::valid().with_field_error(NON_FIELD_ERRORS, "f");
    assert_eq!(r.non_field_errors().len(), 1);
}

#[test]
fn test_merge_valid_and_invalid() {
    let mut v = ValidationResult::valid();
    let i = ValidationResult::invalid(vec!["m".into()]);
    v.merge(i);
    assert!(!v.is_valid);
}

#[test]
fn test_merge_with_field_errors() {
    let mut r1 = ValidationResult::valid();
    let r2 = ValidationResult::valid().with_field_error("e", "i");
    r1.merge(r2);
    assert!(!r1.is_valid);
}

#[test]
fn test_as_text() {
    let r = ValidationResult::valid().with_field_error("e", "x");
    assert!(r.as_text().contains("e: x"));
}

#[test]
fn test_as_text_global() {
    let r = ValidationResult::invalid(vec!["g".into()]);
    assert!(r.as_text().contains("g"));
}

// ---- further cases ----

#[test]
fn forms_integer_clean_keeps_a_negative_number() {
    let field = FormField::new("n", FieldType::Integer);
    assert_eq!(field.clean(&text("-1")).unwrap(), FormValue::Number("-1".to_string()));
    let age = FormField::new("age", FieldType::Integer);
    assert_eq!(age.clean(&text("-5")).unwrap(), FormValue::Number("-5".to_string()));
    assert_eq!(age.clean(&text("42")).unwrap(), FormValue::Number("42".to_string()));
    assert_eq!(age.clean(&text("abc")), Err("age must be an integer.".to_string()));
    assert_eq!(age.clean(&FormValue::Null), Err("age is required.".to_string()));
}

#[test]
fn forms_integer_clean_messages() {
    let field = FormField::new("age", FieldType::Integer).label("Age");
    assert_eq!(field.clean(&text("x")), Err("Age must be an integer.".to_string()));
    assert_eq!(field.clean(&FormValue::Null), Err("Age is required.".to_string()));
    let boolean = FormField::new("b", FieldType::Boolean).label("B");
    assert_eq!(boolean.clean(&text("maybe")), Err("B must be true or false.".to_string()));
    assert_eq!(boolean.clean(&text("YES")), Ok(FormValue::Bool(true)));
    assert_eq!(boolean.clean(&text("")), Ok(FormValue::Bool(false)));
}

#[test]
fn forms_float_clean_outcomes() {
    let field = FormField::new("x", FieldType::Float).label("X");
    assert_eq!(field.clean(&text("1e3")), Ok(FormValue::Number("1e3".to_string())));
    assert_eq!(field.clean(&text("-inf")), Ok(FormValue::Null));
    assert_eq!(field.clean(&text("NaN")), Ok(FormValue::Null));
    assert_eq!(field.clean(&text("1.2.3")), Err("X must be a number.".to_string()));
    assert_eq!(field.clean(&text("")), Err("X must be a number.".to_string()));
}

#[test]
fn forms_float_syntax_follows_the_float_grammar() {
    for good in ["0", "1.", ".5", "+2.5e-3", "7E10", "-0.0"] {
        assert!(matches!(read_float_syntax(good), FloatSyntax::Decimal), "{}", good);
        assert!(good.parse::<f64>().is_ok());
    }
    for special in ["inf", "Infinity", "-NAN"] {
        assert!(matches!(read_float_syntax(special), FloatSyntax::NonFinite), "{}", special);
    }
    for bad in [".", "e5", "1e", "1e+", "abc", " 1", "1_0"] {
        assert!(matches!(read_float_syntax(bad), FloatSyntax::Invalid), "{}", bad);
        assert!(bad.parse::<f64>().is_err());
    }
}

#[test]
fn forms_parse_form_data_decodes_and_keeps_last() {
    let data = parse_form_data("a=1&b=x%20y&a=2&skip&c=");
    assert_eq!(data.len(), 3);
    assert_eq!(lookup_value(&data, "a").unwrap(), &text("2"));
    assert_eq!(lookup_value(&data, "b").unwrap(), &text("x y"));
    assert_eq!(lookup_value(&data, "c").unwrap(), &text(""));
    assert!(lookup_value(&data, "skip").is_none());
    assert_eq!(data[0].0, "a");
}

#[test]
fn forms_validators_run_on_the_raw_text() {
    let field = FormField::new("code", FieldType::Char).validator(FieldValidator::Slug);
    let mut form = Form::new(vec![field]);
    form.data = data_of(&[("code", "not a slug")]);
    assert!(!form.is_valid());
    assert_eq!(
        form.state.field_error("code").unwrap(),
        &vec!["Enter a valid slug consisting of letters, numbers, underscores or hyphens.".to_string()]
    );
}

#[test]
fn forms_errors_added_before_cleaning_are_kept_after() {
    let mut form = Form::new(simple_form_fields());
    form.data = data_of(&[("email", "bad")]);
    form.add_error(Some("email"), "first".into());
    form.full_clean();
    let email = form.state.field_error("email").unwrap();
    assert_eq!(email.len(), 2);
    assert_eq!(email[1], "first");
    assert!(has_key(form.errors(), "username"));
    assert!(!form.state.is_valid);
}

#[test]
fn forms_is_valid_runs_the_pipeline_once() {
    let mut form = Form::new(simple_form_fields());
    form.data = data_of(&[("username", "x"), ("email", "x@example.com")]);
    assert!(form.is_valid());
    form.data = data_of(&[("username", "")]);
    assert!(form.is_valid());
}

#[test]
fn forms_has_changed_when_data_differs() {
    let field = FormField::new("username", FieldType::Char).initial(text("john"));
    let mut form = Form::new(vec![field]);
    form.data = data_of(&[("username", "john")]);
    assert!(!form.has_changed());
    form.data = data_of(&[("username", "jane")]);
    assert!(form.has_changed());
}

#[test]
fn forms_render_exact_markup() {
    let fields = vec![FormField::new("n", FieldType::Char).label("N").help("h")];
    let html = as_table(&fields, &FormState::valid(), &data_of(&[("n", "<v>")]));
    assert_eq!(
        html,
        "<table class=\"form-table\">\n  <tr><th><label for=\"n\">N *:</label></th><td><input type=\"text\" name=\"n\" value=\"&lt;v&gt;\" class=\"form-control\"> <span class=\"helptext\">h</span></td></tr>\n</table>"
    );
    let errors = vec![("n".to_string(), vec!["a".to_string(), "b".to_string()])];
    let p = as_p(&fields, &FormState::invalid(errors), &Vec::new());
    assert!(p.contains("<span class=\"error\">a, b</span>"));
    assert_eq!(Form::submit_button("Go"), "<button type=\"submit\" class=\"btn btn-primary\">Go</button>");
}

#[test]
fn forms_formset_errors_in_order() {
    let mut fs = BaseFormSet::new(name_fieldset, 1, false, false, 2, 0);
    assert!(!fs.is_valid());
    assert_eq!(fs.errors[0], vec!["Please submit at least 2 form(s).".to_string()]);
    assert_eq!(fs.errors.len(), 2);
    assert_eq!(fs.is_valid_cache, Some(false));
    let mut empty = BaseFormSet::new(name_fieldset, 0, false, false, 0, 0);
    assert!(!empty.is_valid());
    assert_eq!(empty.errors, vec![vec!["No forms in formset.".to_string()]]);
    assert_eq!(BaseFormSet::new(name_fieldset, 0, false, false, 0, 4).absolute_max, 8);
    assert_eq!(BaseFormSet::new(name_fieldset, 0, false, false, 0, 0).absolute_max, 1000);
}

#[test]
fn forms_modelform_uses_options() {
    let mut options = ModelFormOptions::default();
    options.labels.push(("title".to_string(), "Title".to_string()));
    options.help_texts.push(("title".to_string(), "The title".to_string()));
    options.widgets.push(("body".to_string(), WidgetType::Textarea));
    let form = modelform_factory(&[("title", "CharField"), ("body", "CharField"), ("n", "IntegerField")], options);
    assert_eq!(form.fields[0].label, "Title");
    assert_eq!(form.fields[0].help_text, "The title");
    assert!(matches!(form.fields[1].widget, WidgetType::Textarea));
    assert!(matches!(form.fields[2].widget, WidgetType::NumberInput));
    assert_eq!(form.fields[2].label, "n");
    let kept = save_modelform(vec![("a".to_string(), text("1"))]);
    assert_eq!(kept, vec![("a".to_string(), text("1"))]);
}

#[test]
fn forms_validation_result_merge_and_text() {
    let mut a = ValidationResult::valid().with_field_error("x", "1");
    let b = ValidationResult::valid().with_field_error("x", "2").with_field_error("y", "3");
    a.merge(b);
    assert_eq!(a.field_errors("x"), vec!["1".to_string(), "2".to_string()]);
    assert_eq!(a.as_text(), "x: 1; x: 2; y: 3");
    let mut ok = ValidationResult::valid();
    ok.merge(ValidationResult::valid());
    assert!(ok.is_valid);
}
