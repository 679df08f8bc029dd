//! HTML rendering of form widgets.

use vstd::prelude::*;
use crate::text::{contains_seq, contains_str, owned, replace_char, replace_char_str, str_eq, str_is_empty};

verus! {

/// The kinds of widget a form field can render as. Choice widgets carry
/// their `(value, label)` pairs.
#[derive(Debug, Clone)]
pub enum WidgetType {
    TextInput,
    EmailInput,
    PasswordInput,
    NumberInput,
    URLInput,
    Textarea,
    Select(Vec<(String, String)>),
    SelectMultiple(Vec<(String, String)>),
    CheckboxInput,
    CheckboxSelectMultiple(Vec<(String, String)>),
    RadioSelect(Vec<(String, String)>),
    NullBooleanSelect,
    DateInput,
    DateTimeInput,
    TimeInput,
    HiddenInput,
    FileInput,
    ClearableFileInput,
    SplitDateTimeInput,
    SelectDateWidget,
    MultipleHiddenInput,
}

/// The views of a list of `(value, label)` choices.
pub open spec fn choice_views(c: Seq<(String, String)>) -> Seq<(Seq<char>, Seq<char>)> {
    c.map_values(|p: (String, String)| (p.0@, p.1@))
}

/// Two widgets of the same kind with the same choices.
pub open spec fn same_widget(a: WidgetType, b: WidgetType) -> bool {
    a.kind_index() == b.kind_index() && a.choice_list() == b.choice_list()
}

/// A copy of a list of choices.
pub fn copy_choices(c: &Vec<(String, String)>) -> (r: Vec<(String, String)>)
    ensures
        choice_views(r@) == choice_views(c@),
{
    let mut r: Vec<(String, String)> = Vec::new();
    let mut i: usize = 0;
    while i < c.len()
        invariant
            i <= c.len(),
            choice_views(r@) == choice_views(c@).take(i as int),
        decreases c.len() - i,
    {
        let ghost before = choice_views(r@);
        r.push((c[i].0.clone(), c[i].1.clone()));
        assert(choice_views(r@) =~= before.push((c@[i as int].0@, c@[i as int].1@)));
        assert(choice_views(c@).take(i + 1) =~= choice_views(c@).take(i as int).push(choice_views(c@)[i as int]));
        i = i + 1;
    }
    assert(choice_views(c@).take(i as int) =~= choice_views(c@));
    r
}

impl WidgetType {
    /// The choices of a choice widget; none for the others.
    pub open spec fn choice_list(&self) -> Seq<(Seq<char>, Seq<char>)> {
        match self {
            WidgetType::Select(c) => choice_views(c@),
            WidgetType::SelectMultiple(c) => choice_views(c@),
            WidgetType::CheckboxSelectMultiple(c) => choice_views(c@),
            WidgetType::RadioSelect(c) => choice_views(c@),
            _ => Seq::empty(),
        }
    }

    /// The position of the widget's kind in the list of kinds.
    pub open spec fn kind_index(&self) -> nat {
        match self {
            WidgetType::TextInput => 0,
            WidgetType::EmailInput => 1,
            WidgetType::PasswordInput => 2,
            WidgetType::NumberInput => 3,
            WidgetType::URLInput => 4,
            WidgetType::Textarea => 5,
            WidgetType::Select(_) => 6,
            WidgetType::SelectMultiple(_) => 7,
            WidgetType::CheckboxInput => 8,
            WidgetType::CheckboxSelectMultiple(_) => 9,
            WidgetType::RadioSelect(_) => 10,
            WidgetType::NullBooleanSelect => 11,
            WidgetType::DateInput => 12,
            WidgetType::DateTimeInput => 13,
            WidgetType::TimeInput => 14,
            WidgetType::HiddenInput => 15,
            WidgetType::FileInput => 16,
            WidgetType::ClearableFileInput => 17,
            WidgetType::SplitDateTimeInput => 18,
            WidgetType::SelectDateWidget => 19,
            WidgetType::MultipleHiddenInput => 20,
        }
    }

    /// A copy: the same kind with the same choices.
    pub fn duplicate(&self) -> (r: WidgetType)
        ensures
            same_widget(r, *self),
    {
        match self {
            WidgetType::TextInput => WidgetType::TextInput,
            WidgetType::EmailInput => WidgetType::EmailInput,
            WidgetType::PasswordInput => WidgetType::PasswordInput,
            WidgetType::NumberInput => WidgetType::NumberInput,
            WidgetType::URLInput => WidgetType::URLInput,
            WidgetType::Textarea => WidgetType::Textarea,
            WidgetType::Select(c) => WidgetType::Select(copy_choices(c)),
            WidgetType::SelectMultiple(c) => WidgetType::SelectMultiple(copy_choices(c)),
            WidgetType::CheckboxInput => WidgetType::CheckboxInput,
            WidgetType::CheckboxSelectMultiple(c) => WidgetType::CheckboxSelectMultiple(copy_choices(c)),
            WidgetType::RadioSelect(c) => WidgetType::RadioSelect(copy_choices(c)),
            WidgetType::NullBooleanSelect => WidgetType::NullBooleanSelect,
            WidgetType::DateInput => WidgetType::DateInput,
            WidgetType::DateTimeInput => WidgetType::DateTimeInput,
            WidgetType::TimeInput => WidgetType::TimeInput,
            WidgetType::HiddenInput => WidgetType::HiddenInput,
            WidgetType::FileInput => WidgetType::FileInput,
            WidgetType::ClearableFileInput => WidgetType::ClearableFileInput,
            WidgetType::SplitDateTimeInput => WidgetType::SplitDateTimeInput,
            WidgetType::SelectDateWidget => WidgetType::SelectDateWidget,
            WidgetType::MultipleHiddenInput => WidgetType::MultipleHiddenInput,
        }
    }

    fn choices(&self) -> (r: &Vec<(String, String)>)
        requires
            self is Select || self is SelectMultiple || self is CheckboxSelectMultiple || self is RadioSelect,
        ensures
            choice_views(r@) == self.choice_list(),
    {
        match self {
            WidgetType::Select(c) => c,
            WidgetType::SelectMultiple(c) => c,
            WidgetType::CheckboxSelectMultiple(c) => c,
            WidgetType::RadioSelect(c) => c,
            _ => {
                assert(false);
                let r: &Vec<(String, String)> = unreached();
                r
            },
        }
    }
}

/// `value` with `&`, `"`, `<` and `>` replaced by their HTML entities, in that order.
pub open spec fn escape_html(value: Seq<char>) -> Seq<char> {
    replace_char(
        replace_char(replace_char(replace_char(value, '&', "&amp;"@), '"', "&quot;"@), '<', "&lt;"@),
        '>',
        "&gt;"@,
    )
}

/// Escapes `value` for use in HTML text and attributes.
fn escape(value: &str) -> (r: String)
    ensures
        r@ == escape_html(value@),
{
    let a = replace_char_str(value, '&', "&amp;");
    let b = replace_char_str(a.as_str(), '"', "&quot;");
    let c = replace_char_str(b.as_str(), '<', "&lt;");
    replace_char_str(c.as_str(), '>', "&gt;")
}

/// `" selected"` when `on`, else nothing.
pub open spec fn selected_attr(on: bool) -> Seq<char> {
    if on { " selected"@ } else { Seq::empty() }
}

/// `" checked"` when `on`, else nothing.
pub open spec fn checked_attr(on: bool) -> Seq<char> {
    if on { " checked"@ } else { Seq::empty() }
}

/// The `<option>` elements of `choices`, marking those whose value is `value`.
pub open spec fn options_html(choices: Seq<(Seq<char>, Seq<char>)>, value: Seq<char>) -> Seq<char>
    decreases choices.len(),
{
    if choices.len() == 0 {
        Seq::empty()
    } else {
        let (val, label) = choices.last();
        options_html(choices.drop_last(), value) + "<option value=\""@ + val + "\""@
            + selected_attr(val == value) + ">"@ + label + "</option>\n"@
    }
}

/// The `<li>` checkbox items of `choices`; an item is checked when `value`
/// equals or contains its value.
pub open spec fn checkbox_items_html(choices: Seq<(Seq<char>, Seq<char>)>, name: Seq<char>, value: Seq<char>) -> Seq<char>
    decreases choices.len(),
{
    if choices.len() == 0 {
        Seq::empty()
    } else {
        let (val, label) = choices.last();
        checkbox_items_html(choices.drop_last(), name, value)
            + "<li><label><input type=\"checkbox\" name=\""@ + name + "\" value=\""@ + val + "\""@
            + checked_attr(value == val || contains_seq(value, val)) + "> "@ + label + "</label></li>\n"@
    }
}

/// The `<li>` radio items of `choices`; an item is checked when its value is `value`.
pub open spec fn radio_items_html(choices: Seq<(Seq<char>, Seq<char>)>, name: Seq<char>, value: Seq<char>) -> Seq<char>
    decreases choices.len(),
{
    if choices.len() == 0 {
        Seq::empty()
    } else {
        let (val, label) = choices.last();
        radio_items_html(choices.drop_last(), name, value)
            + "<li><label><input type=\"radio\" name=\""@ + name + "\" value=\""@ + val + "\""@
            + checked_attr(val == value) + "> "@ + label + "</label></li>\n"@
    }
}

fn render_options(choices: &Vec<(String, String)>, value: &str) -> (r: String)
    ensures
        r@ == options_html(choice_views(choices@), value@),
{
    let ghost cs = choice_views(choices@);
    let mut out = String::new();
    let mut i: usize = 0;
    while i < choices.len()
        invariant
            i <= choices.len(),
            cs == choice_views(choices@),
            out@ == options_html(cs.take(i as int), value@),
        decreases choices.len() - i,
    {
        assert(cs.take(i + 1).drop_last() =~= cs.take(i as int));
        let val = choices[i].0.as_str();
        let label = choices[i].1.as_str();
        out.append("<option value=\"");
        out.append(val);
        out.append("\"");
        if str_eq(val, value) {
            out.append(" selected");
        }
        out.append(">");
        out.append(label);
        out.append("</option>\n");
        assert(out@ =~= options_html(cs.take(i + 1), value@));
        i = i + 1;
    }
    assert(cs.take(choices.len() as int) =~= cs);
    out
}

fn render_checkbox_items(choices: &Vec<(String, String)>, name: &str, value: &str) -> (r: String)
    ensures
        r@ == checkbox_items_html(choice_views(choices@), name@, value@),
{
    let ghost cs = choice_views(choices@);
    let mut out = String::new();
    let mut i: usize = 0;
    while i < choices.len()
        invariant
            i <= choices.len(),
            cs == choice_views(choices@),
            out@ == checkbox_items_html(cs.take(i as int), name@, value@),
        decreases choices.len() - i,
    {
        assert(cs.take(i + 1).drop_last() =~= cs.take(i as int));
        let val = choices[i].0.as_str();
        let label = choices[i].1.as_str();
        out.append("<li><label><input type=\"checkbox\" name=\"");
        out.append(name);
        out.append("\" value=\"");
        out.append(val);
        out.append("\"");
        if str_eq(value, val) || contains_str(value, val) {
            out.append(" checked");
        }
        out.append("> ");
        out.append(label);
        out.append("</label></li>\n");
        assert(out@ =~= checkbox_items_html(cs.take(i + 1), name@, value@));
        i = i + 1;
    }
    assert(cs.take(choices.len() as int) =~= cs);
    out
}

fn render_radio_items(choices: &Vec<(String, String)>, name: &str, value: &str) -> (r: String)
    ensures
        r@ == radio_items_html(choice_views(choices@), name@, value@),
{
    let ghost cs = choice_views(choices@);
    let mut out = String::new();
    let mut i: usize = 0;
    while i < choices.len()
        invariant
            i <= choices.len(),
            cs == choice_views(choices@),
            out@ == radio_items_html(cs.take(i as int), name@, value@),
        decreases choices.len() - i,
    {
        assert(cs.take(i + 1).drop_last() =~= cs.take(i as int));
        let val = choices[i].0.as_str();
        let label = choices[i].1.as_str();
        out.append("<li><label><input type=\"radio\" name=\"");
        out.append(name);
        out.append("\" value=\"");
        out.append(val);
        out.append("\"");
        if str_eq(val, value) {
            out.append(" checked");
        }
        out.append("> ");
        out.append(label);
        out.append("</label></li>\n");
        assert(out@ =~= radio_items_html(cs.take(i + 1), name@, value@));
        i = i + 1;
    }
    assert(cs.take(choices.len() as int) =~= cs);
    out
}

/// The HTML that `render_widget` produces for `widget`, with field name
/// `name` and current value `value`. Values are escaped wherever they appear
/// as text or attribute; names, choice values and labels are written as given.
pub open spec fn widget_html(widget: WidgetType, name: Seq<char>, value: Seq<char>) -> Seq<char> {
    let esc = escape_html(value);
    match widget {
        WidgetType::TextInput =>
            "<input type=\"text\" name=\""@ + name + "\" value=\""@ + esc + "\" class=\"form-control\">"@,
        WidgetType::EmailInput =>
            "<input type=\"email\" name=\""@ + name + "\" value=\""@ + esc + "\" class=\"form-control\">"@,
        WidgetType::PasswordInput =>
            "<input type=\"password\" name=\""@ + name + "\" class=\"form-control\">"@,
        WidgetType::NumberInput =>
            "<input type=\"number\" name=\""@ + name + "\" value=\""@ + esc + "\" class=\"form-control\">"@,
        WidgetType::URLInput =>
            "<input type=\"url\" name=\""@ + name + "\" value=\""@ + esc + "\" class=\"form-control\">"@,
        WidgetType::Textarea =>
            "<textarea name=\""@ + name + "\" class=\"form-control\" rows=\"4\">"@ + esc + "</textarea>"@,
        WidgetType::Select(c) =>
            "<select name=\""@ + name + "\" class=\"form-control\">\n"@ + options_html(choice_views(c@), value)
                + "</select>"@,
        WidgetType::SelectMultiple(c) =>
            "<select name=\""@ + name + "\" multiple class=\"form-control\">\n"@
                + options_html(choice_views(c@), Seq::empty()) + "</select>"@,
        WidgetType::CheckboxInput =>
            "<input type=\"checkbox\" name=\""@ + name + "\" value=\"true\" "@
                + (if value == "true"@ { "checked"@ } else { Seq::empty() }) + " class=\"form-check-input\">"@,
        WidgetType::CheckboxSelectMultiple(c) =>
            "<ul class=\"checkbox-select-multiple\">\n"@ + checkbox_items_html(choice_views(c@), name, value)
                + "</ul>"@,
        WidgetType::RadioSelect(c) =>
            "<ul class=\"radio-select\">\n"@ + radio_items_html(choice_views(c@), name, value) + "</ul>"@,
        WidgetType::NullBooleanSelect =>
            "<select name=\""@ + name + "\" class=\"form-control\">\n<option value=\"unknown\""@
                + selected_attr(value.len() == 0 || value == "unknown"@) + ">Unknown</option>\n<option value=\"true\""@
                + selected_attr(value == "true"@) + ">Yes</option>\n<option value=\"false\""@
                + selected_attr(value == "false"@) + ">No</option>\n</select>"@,
        WidgetType::DateInput =>
            "<input type=\"date\" name=\""@ + name + "\" value=\""@ + esc + "\" class=\"form-control\">"@,
        WidgetType::DateTimeInput =>
            "<input type=\"datetime-local\" name=\""@ + name + "\" value=\""@ + esc + "\" class=\"form-control\">"@,
        WidgetType::TimeInput =>
            "<input type=\"time\" name=\""@ + name + "\" value=\""@ + esc + "\" class=\"form-control\">"@,
        WidgetType::HiddenInput =>
            "<input type=\"hidden\" name=\""@ + name + "\" value=\""@ + esc + "\">"@,
        WidgetType::FileInput =>
            "<input type=\"file\" name=\""@ + name + "\" class=\"form-control-file\">"@,
        WidgetType::ClearableFileInput =>
            "<div class=\"clearable-file-input\">\n<input type=\"file\" name=\""@ + name
                + "\" class=\"form-control-file\">\n<label><input type=\"checkbox\" name=\""@ + name
                + "-clear\"> Clear</label>\n</div>"@,
        WidgetType::SplitDateTimeInput =>
            "<div class=\"split-date-time\">\n<input type=\"date\" name=\""@ + name + "\" value=\""@ + esc
                + "\" class=\"form-control\" style=\"display:inline-block;width:auto\">\n<input type=\"time\" name=\""@
                + name + "\" value=\""@ + esc
                + "\" class=\"form-control\" style=\"display:inline-block;width:auto\">\n</div>"@,
        WidgetType::SelectDateWidget =>
            "<div class=\"select-date\">\n<select name=\""@ + name
                + "\"><option value=\"\">Year</option></select>\n<select name=\""@ + name
                + "\"><option value=\"\">Month</option></select>\n<select name=\""@ + name
                + "\"><option value=\"\">Day</option></select>\n</div>"@,
        WidgetType::MultipleHiddenInput =>
            "<input type=\"hidden\" name=\""@ + name + "\" value=\""@ + esc + "\">\n<input type=\"hidden\" name=\""@
                + name + "_0\" value=\"\">\n<input type=\"hidden\" name=\""@ + name + "_1\" value=\"\">"@,
    }
}

/// `pre`, `name`, `mid`, the escaped value and `post`, one after another.
fn name_value_tag(pre: &str, name: &str, mid: &str, esc: &str, post: &str) -> (r: String)
    ensures
        r@ == pre@ + name@ + mid@ + esc@ + post@,
{
    let mut o = owned(pre);
    o.append(name);
    o.append(mid);
    o.append(esc);
    o.append(post);
    o
}

/// Renders `widget` as HTML for the field `name` holding `value`.
pub fn render_widget(widget: &WidgetType, name: &str, value: &str, _help_text: &str) -> (r: String)
    ensures
        r@ == widget_html(*widget, name@, value@),
{
    let escaped = escape(value);
    let esc = escaped.as_str();
    match widget {
        WidgetType::TextInput => {
            name_value_tag("<input type=\"text\" name=\"", name, "\" value=\"", esc, "\" class=\"form-control\">")
        },
        WidgetType::EmailInput => {
            name_value_tag("<input type=\"email\" name=\"", name, "\" value=\"", esc, "\" class=\"form-control\">")
        },
        WidgetType::PasswordInput => {
            let mut o = owned("<input type=\"password\" name=\"");
            o.append(name);
            o.append("\" class=\"form-control\">");
            o
        },
        WidgetType::NumberInput => {
            name_value_tag("<input type=\"number\" name=\"", name, "\" value=\"", esc, "\" class=\"form-control\">")
        },
        WidgetType::URLInput => {
            name_value_tag("<input type=\"url\" name=\"", name, "\" value=\"", esc, "\" class=\"form-control\">")
        },
        WidgetType::Textarea => {
            name_value_tag("<textarea name=\"", name, "\" class=\"form-control\" rows=\"4\">", esc, "</textarea>")
        },
        WidgetType::Select(c) => {
            let options = render_options(c, value);
            let mut o = owned("<select name=\"");
            o.append(name);
            o.append("\" class=\"form-control\">\n");
            o.append(options.as_str());
            o.append("</select>");
            o
        },
        WidgetType::SelectMultiple(c) => {
            let empty = String::new();
            let options = render_options(c, empty.as_str());
            let mut o = owned("<select name=\"");
            o.append(name);
            o.append("\" multiple class=\"form-control\">\n");
            o.append(options.as_str());
            o.append("</select>");
            o
        },
        WidgetType::CheckboxInput => {
            let mut o = owned("<input type=\"checkbox\" name=\"");
            o.append(name);
            o.append("\" value=\"true\" ");
            if str_eq(value, "true") {
                o.append("checked");
            }
            o.append(" class=\"form-check-input\">");
            o
        },
        WidgetType::CheckboxSelectMultiple(c) => {
            let items = render_checkbox_items(c, name, value);
            let mut o = owned("<ul class=\"checkbox-select-multiple\">\n");
            o.append(items.as_str());
            o.append("</ul>");
            o
        },
        WidgetType::RadioSelect(c) => {
            let items = render_radio_items(c, name, value);
            let mut o = owned("<ul class=\"radio-select\">\n");
            o.append(items.as_str());
            o.append("</ul>");
            o
        },
        WidgetType::NullBooleanSelect => {
            let mut o = owned("<select name=\"");
            o.append(name);
            o.append("\" class=\"form-control\">\n<option value=\"unknown\"");
            if str_is_empty(value) || str_eq(value, "unknown") {
                o.append(" selected");
            }
            o.append(">Unknown</option>\n<option value=\"true\"");
            if str_eq(value, "true") {
                o.append(" selected");
            }
            o.append(">Yes</option>\n<option value=\"false\"");
            if str_eq(value, "false") {
                o.append(" selected");
            }
            o.append(">No</option>\n</select>");
            o
        },
        WidgetType::DateInput => {
            name_value_tag("<input type=\"date\" name=\"", name, "\" value=\"", esc, "\" class=\"form-control\">")
        },
        WidgetType::DateTimeInput => {
            name_value_tag(
                "<input type=\"datetime-local\" name=\"",
                name,
                "\" value=\"",
                esc,
                "\" class=\"form-control\">",
            )
        },
        WidgetType::TimeInput => {
            name_value_tag("<input type=\"time\" name=\"", name, "\" value=\"", esc, "\" class=\"form-control\">")
        },
        WidgetType::HiddenInput => {
            name_value_tag("<input type=\"hidden\" name=\"", name, "\" value=\"", esc, "\">")
        },
        WidgetType::FileInput => {
            let mut o = owned("<input type=\"file\" name=\"");
            o.append(name);
            o.append("\" class=\"form-control-file\">");
            o
        },
        WidgetType::ClearableFileInput => {
            let mut o = owned("<div class=\"clearable-file-input\">\n<input type=\"file\" name=\"");
            o.append(name);
            o.append("\" class=\"form-control-file\">\n<label><input type=\"checkbox\" name=\"");
            o.append(name);
            o.append("-clear\"> Clear</label>\n</div>");
            o
        },
        WidgetType::SplitDateTimeInput => {
            let mut o = owned("<div class=\"split-date-time\">\n<input type=\"date\" name=\"");
            o.append(name);
            o.append("\" value=\"");
            o.append(esc);
            o.append("\" class=\"form-control\" style=\"display:inline-block;width:auto\">\n<input type=\"time\" name=\"");
            o.append(name);
            o.append("\" value=\"");
            o.append(esc);
            o.append("\" class=\"form-control\" style=\"display:inline-block;width:auto\">\n</div>");
            o
        },
        WidgetType::SelectDateWidget => {
            let mut o = owned("<div class=\"select-date\">\n<select name=\"");
            o.append(name);
            o.append("\"><option value=\"\">Year</option></select>\n<select name=\"");
            o.append(name);
            o.append("\"><option value=\"\">Month</option></select>\n<select name=\"");
            o.append(name);
            o.append("\"><option value=\"\">Day</option></select>\n</div>");
            o
        },
        WidgetType::MultipleHiddenInput => {
            let mut o = owned("<input type=\"hidden\" name=\"");
            o.append(name);
            o.append("\" value=\"");
            o.append(esc);
            o.append("\">\n<input type=\"hidden\" name=\"");
            o.append(name);
            o.append("_0\" value=\"\">\n<input type=\"hidden\" name=\"");
            o.append(name);
            o.append("_1\" value=\"\">");
            o
        },
    }
}

} // verus!
