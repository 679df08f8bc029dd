//! Rendering a form's fields as an HTML table, paragraphs or divs, each field
//! with its label, widget, errors and help text.

use vstd::prelude::*;
use crate::apps::assoc_get;
use crate::forms::fields::{field_html, FormField};
use crate::forms::form::{error_views, find_errors, FormState};
use crate::forms::validation::list_items;
use crate::forms::values::{lookup_value, pair_views, FormValue, Val};
use crate::text::{join, join_strings, views};

verus! {

/// The three layouts a form renders in.
#[derive(Debug, Clone, Copy, PartialEq, Eq)]
pub enum Layout {
    Table,
    Paragraphs,
    Divs,
}

/// How a field's errors show in a layout; nothing when the field has no entry.
pub open spec fn error_block(layout: Layout, errors: Option<Seq<Seq<char>>>) -> Seq<char> {
    match errors {
        None => Seq::empty(),
        Some(l) => match layout {
            Layout::Table => "<ul class=\"errorlist\">"@ + list_items(l) + "</ul>"@,
            Layout::Paragraphs => "<span class=\"error\">"@ + join(l, ", "@) + "</span>"@,
            Layout::Divs => "<div class=\"invalid-feedback\">"@ + join(l, ", "@) + "</div>"@,
        },
    }
}

/// ` *` after the label of a required field.
pub open spec fn required_mark(f: FormField) -> Seq<char> {
    if f.required { " *"@ } else { Seq::empty() }
}

/// The HTML of field `f` in a layout, with the errors and the data given.
pub open spec fn field_row(
    layout: Layout,
    f: FormField,
    errors: Seq<(Seq<char>, Seq<Seq<char>>)>,
    data: Seq<(Seq<char>, Val)>,
) -> Seq<char> {
    let widget = field_html(f, assoc_get(data, f.name@));
    let err = error_block(layout, assoc_get(errors, f.name@));
    match layout {
        Layout::Table => "  <tr><th><label for=\""@ + f.name@ + "\">"@ + f.label@ + required_mark(f)
            + ":</label></th><td>"@ + widget + " "@ + err + "<span class=\"helptext\">"@ + f.help_text@
            + "</span></td></tr>\n"@,
        Layout::Paragraphs => "<p><label for=\""@ + f.name@ + "\">"@ + f.label@ + required_mark(f)
            + ":</label> "@ + widget + " "@ + err + "<br><span class=\"helptext\">"@ + f.help_text@
            + "</span></p>\n"@,
        Layout::Divs => "<div class=\"mb-3\"><label class=\"form-label\" for=\""@ + f.name@ + "\">"@
            + f.label@ + required_mark(f) + ":</label> "@ + widget + " "@ + err + "</div>\n"@,
    }
}

/// The rows of the first `n` fields, in order.
pub open spec fn field_rows(
    layout: Layout,
    fields: Seq<FormField>,
    errors: Seq<(Seq<char>, Seq<Seq<char>>)>,
    data: Seq<(Seq<char>, Val)>,
    n: int,
) -> Seq<char>
    decreases n,
{
    if n <= 0 {
        Seq::empty()
    } else {
        field_rows(layout, fields, errors, data, n - 1) + field_row(layout, fields[n - 1], errors, data)
    }
}

/// The rows of all fields.
pub open spec fn all_rows(layout: Layout, fields: Seq<FormField>, state: FormState, data: Seq<(String, FormValue)>) -> Seq<char> {
    field_rows(layout, fields, error_views(state.errors@), pair_views(data), fields.len() as int)
}

fn append_error_items(out: &mut String, l: &Vec<String>)
    ensures
        final(out)@ == old(out)@ + list_items(views(l@)),
{
    let mut i: usize = 0;
    while i < l.len()
        invariant
            i <= l.len(),
            out@ == old(out)@ + list_items(views(l@).take(i as int)),
        decreases l.len() - i,
    {
        assert(views(l@).take(i + 1).drop_last() =~= views(l@).take(i as int));
        out.append("<li>");
        out.append(l[i].as_str());
        out.append("</li>");
        i = i + 1;
    }
    assert(views(l@).take(i as int) =~= views(l@));
}

fn error_html(layout: Layout, errs: Option<&Vec<String>>) -> (r: String)
    ensures
        r@ == error_block(layout, match errs {
            Some(l) => Some(views(l@)),
            None => None,
        }),
{
    let mut err = String::new();
    match errs {
        Some(l) => match layout {
            Layout::Table => {
                err.append("<ul class=\"errorlist\">");
                append_error_items(&mut err, l);
                err.append("</ul>");
            },
            Layout::Paragraphs => {
                err.append("<span class=\"error\">");
                err.append(join_strings(l, ", ").as_str());
                err.append("</span>");
            },
            Layout::Divs => {
                err.append("<div class=\"invalid-feedback\">");
                err.append(join_strings(l, ", ").as_str());
                err.append("</div>");
            },
        },
        None => {},
    }
    err
}

/// The row text of one field from its parts.
pub open spec fn row_text(
    layout: Layout,
    name: Seq<char>,
    label: Seq<char>,
    mark: Seq<char>,
    widget: Seq<char>,
    err: Seq<char>,
    help: Seq<char>,
) -> Seq<char> {
    match layout {
        Layout::Table => "  <tr><th><label for=\""@ + name + "\">"@ + label + mark
            + ":</label></th><td>"@ + widget + " "@ + err + "<span class=\"helptext\">"@ + help
            + "</span></td></tr>\n"@,
        Layout::Paragraphs => "<p><label for=\""@ + name + "\">"@ + label + mark
            + ":</label> "@ + widget + " "@ + err + "<br><span class=\"helptext\">"@ + help
            + "</span></p>\n"@,
        Layout::Divs => "<div class=\"mb-3\"><label class=\"form-label\" for=\""@ + name + "\">"@
            + label + mark + ":</label> "@ + widget + " "@ + err + "</div>\n"@,
    }
}

fn append_row(layout: Layout, name: &str, label: &str, mark: &str, widget: &str, err: &str, help: &str, out: &mut String)
    ensures
        final(out)@ == old(out)@ + row_text(layout, name@, label@, mark@, widget@, err@, help@),
{
    let mut row = String::new();
    match layout {
        Layout::Table => {
            row.append("  <tr><th><label for=\"");
            row.append(name);
            row.append("\">");
            row.append(label);
            row.append(mark);
            row.append(":</label></th><td>");
            row.append(widget);
            row.append(" ");
            row.append(err);
            row.append("<span class=\"helptext\">");
            row.append(help);
            row.append("</span></td></tr>\n");
        },
        Layout::Paragraphs => {
            row.append("<p><label for=\"");
            row.append(name);
            row.append("\">");
            row.append(label);
            row.append(mark);
            row.append(":</label> ");
            row.append(widget);
            row.append(" ");
            row.append(err);
            row.append("<br><span class=\"helptext\">");
            row.append(help);
            row.append("</span></p>\n");
        },
        Layout::Divs => {
            row.append("<div class=\"mb-3\"><label class=\"form-label\" for=\"");
            row.append(name);
            row.append("\">");
            row.append(label);
            row.append(mark);
            row.append(":</label> ");
            row.append(widget);
            row.append(" ");
            row.append(err);
            row.append("</div>\n");
        },
    }
    assert(row@ =~= row_text(layout, name@, label@, mark@, widget@, err@, help@));
    out.append(row.as_str());
}

fn render_row(layout: Layout, f: &FormField, state: &FormState, data: &Vec<(String, FormValue)>, out: &mut String)
    ensures
        final(out)@ == old(out)@ + field_row(layout, *f, error_views(state.errors@), pair_views(data@)),
{
    let value = lookup_value(data, f.name.as_str());
    let widget = f.render(value);
    let err = error_html(layout, find_errors(&state.errors, f.name.as_str()));
    let mark = if f.required { " *" } else { "" };
    assert(mark@ =~= required_mark(*f)) by { reveal_strlit(""); }
    append_row(layout, f.name.as_str(), f.label.as_str(), mark, widget.as_str(), err.as_str(), f.help_text.as_str(), out);
}

fn render_rows(layout: Layout, fields: &[FormField], state: &FormState, data: &Vec<(String, FormValue)>, out: &mut String)
    ensures
        final(out)@ == old(out)@ + all_rows(layout, fields@, *state, data@),
{
    let ghost errors = error_views(state.errors@);
    let ghost dv = pair_views(data@);
    let mut i: usize = 0;
    while i < fields.len()
        invariant
            i <= fields@.len(),
            errors == error_views(state.errors@),
            dv == pair_views(data@),
            out@ == old(out)@ + field_rows(layout, fields@, errors, dv, i as int),
        decreases fields.len() - i,
    {
        let ghost start = out@;
        render_row(layout, &fields[i], state, data, out);
        assert(out@ =~= start + field_row(layout, fields@[i as int], errors, dv));
        i = i + 1;
    }
}

/// The fields as rows of an HTML table.
pub fn as_table(fields: &[FormField], state: &FormState, data: &Vec<(String, FormValue)>) -> (r: String)
    ensures
        r@ == "<table class=\"form-table\">\n"@ + all_rows(Layout::Table, fields@, *state, data@) + "</table>"@,
{
    let mut html = String::from_str("<table class=\"form-table\">\n");
    render_rows(Layout::Table, fields, state, data, &mut html);
    html.append("</table>");
    html
}

/// The fields as HTML paragraphs.
pub fn as_p(fields: &[FormField], state: &FormState, data: &Vec<(String, FormValue)>) -> (r: String)
    ensures
        r@ == all_rows(Layout::Paragraphs, fields@, *state, data@),
{
    let mut html = String::new();
    render_rows(Layout::Paragraphs, fields, state, data, &mut html);
    html
}

/// The fields as HTML divs.
pub fn as_div(fields: &[FormField], state: &FormState, data: &Vec<(String, FormValue)>) -> (r: String)
    ensures
        r@ == all_rows(Layout::Divs, fields@, *state, data@),
{
    let mut html = String::new();
    render_rows(Layout::Divs, fields, state, data, &mut html);
    html
}

} // verus!
