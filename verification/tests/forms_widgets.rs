use rjango::forms::widgets::{render_widget, WidgetType};

#[test]
fn test_text_input() {
        let html = render_widget(&WidgetType::TextInput, "name", "John", "");
        assert!(html.contains(r#"type="text""#));
        assert!(html.contains(r#"name="name""#));
        assert!(html.contains(r#"value="John""#));
    }

#[test]
fn test_email_input() {
        let html = render_widget(&WidgetType::EmailInput, "email", "a@b.com", "");
        assert!(html.contains(r#"type="email""#));
    }

#[test]
fn test_url_input() {
        let html = render_widget(&WidgetType::URLInput, "url", "https://x.com", "");
        assert!(html.contains(r#"type="url""#));
    }

#[test]
fn test_password_input() {
        let html = render_widget(&WidgetType::PasswordInput, "pass", "", "");
        assert!(html.contains(r#"type="password""#));
        assert!(!html.contains(r#"value="#));
    }

#[test]
fn test_select_with_choices() {
        let choices = vec![("1".into(), "One".into()), ("2".into(), "Two".into())];
        let html = render_widget(&WidgetType::Select(choices), "num", "1", "");
        assert!(html.contains("<select"));
        assert!(html.contains("selected")); // value "1" matches first choice
        assert!(html.contains("One"));
    }

#[test]
fn test_select_multiple() {
        let choices = vec![("a".into(), "A".into()), ("b".into(), "B".into())];
        let html = render_widget(&WidgetType::SelectMultiple(choices), "letters", "", "");
        assert!(html.contains("multiple"));
        assert!(html.contains("<select"));
    }

#[test]
fn test_checkbox_select_multiple() {
        let choices = vec![("x".into(), "X".into())];
        let html = render_widget(&WidgetType::CheckboxSelectMultiple(choices), "xs", "x", "");
        assert!(html.contains("checkbox"));
        assert!(html.contains("checked"));
        assert!(html.contains("<ul"));
    }

#[test]
fn test_radio_select() {
        let choices = vec![("yes".into(), "Yes".into()), ("no".into(), "No".into())];
        let html = render_widget(&WidgetType::RadioSelect(choices), "choice", "yes", "");
        assert!(html.contains("radio"));
        assert!(html.contains("checked"));
        assert!(html.contains("<ul"));
    }

#[test]
fn test_null_boolean_select() {
        let html = render_widget(&WidgetType::NullBooleanSelect, "flag", "", "");
        assert!(html.contains("Unknown"));
        assert!(html.contains("Yes"));
        assert!(html.contains("No"));
    }

#[test]
fn test_checkbox_checked() {
        let html = render_widget(&WidgetType::CheckboxInput, "agree", "true", "");
        assert!(html.contains("checked"));
    }

#[test]
fn test_checkbox_unchecked() {
        let html = render_widget(&WidgetType::CheckboxInput, "agree", "false", "");
        assert!(!html.contains("checked"));
    }

#[test]
fn test_textarea() {
        let html = render_widget(&WidgetType::Textarea, "bio", "Hello", "");
        assert!(html.contains("<textarea"));
        assert!(html.contains("Hello"));
    }

#[test]
fn test_time_input() {
        let html = render_widget(&WidgetType::TimeInput, "t", "14:30", "");
        assert!(html.contains(r#"type="time""#));
    }

#[test]
fn test_clearable_file_input() {
        let html = render_widget(&WidgetType::ClearableFileInput, "doc", "", "");
        assert!(html.contains("file"));
        assert!(html.contains("Clear"));
        assert!(html.contains("-clear"));
    }

#[test]
fn test_split_date_time_input() {
        let html = render_widget(&WidgetType::SplitDateTimeInput, "dt", "", "");
        assert!(html.contains("type=\"date\""));
        assert!(html.contains("type=\"time\""));
    }

#[test]
fn test_select_date_widget() {
        let html = render_widget(&WidgetType::SelectDateWidget, "d", "", "");
        assert!(html.contains("Year"));
        assert!(html.contains("Month"));
        assert!(html.contains("Day"));
    }

#[test]
fn test_hidden_input() {
        let html = render_widget(&WidgetType::HiddenInput, "csrf", "token", "");
        assert!(html.contains(r#"type="hidden""#));
    }

#[test]
fn test_file_input() {
        let html = render_widget(&WidgetType::FileInput, "file", "", "");
        assert!(html.contains(r#"type="file""#));
    }

#[test]
fn test_escape_html_in_value() {
        let html = render_widget(&WidgetType::TextInput, "x", "<script>", "");
        assert!(html.contains("&lt;script&gt;"));
        assert!(!html.contains("<script>"));
    }

#[test]
fn test_all_widgets_render_without_panic() {
        let all: Vec<WidgetType> = vec![
            WidgetType::TextInput,
            WidgetType::EmailInput,
            WidgetType::PasswordInput,
            WidgetType::NumberInput,
            WidgetType::URLInput,
            WidgetType::Textarea,
            WidgetType::CheckboxInput,
            WidgetType::DateInput,
            WidgetType::DateTimeInput,
            WidgetType::TimeInput,
            WidgetType::HiddenInput,
            WidgetType::FileInput,
            WidgetType::ClearableFileInput,
            WidgetType::SplitDateTimeInput,
            WidgetType::SelectDateWidget,
            WidgetType::NullBooleanSelect,
            WidgetType::Select(vec![]),
            WidgetType::SelectMultiple(vec![]),
            WidgetType::CheckboxSelectMultiple(vec![]),
            WidgetType::RadioSelect(vec![]),
        ];
        for w in &all {
            let html = render_widget(w, "test", "val", "help");
            assert!(!html.is_empty(), "Widget {:?} returned empty", w);
        }
    }

#[test]
fn test_multiple_hidden_input() {
        let html = render_widget(&WidgetType::MultipleHiddenInput, "tags", "a,b,c", "");
        assert!(html.contains("type=\"hidden\""));
        assert!(html.contains("name=\"tags\""));
        assert!(html.contains("value=\"a,b,c\""));
    }
