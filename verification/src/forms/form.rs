//! A form: its fields, the data bound to it, and the validation pipeline
//! (clean each field, then the whole form, then keep errors added before).

use vstd::prelude::*;
use crate::apps::{assoc_get, assoc_put, key_position, lemma_assoc_at, assoc_index};
use crate::forms::fields::{clean_outcome, clean_view, field_html, validator_outcome, FieldValidator, FormField};
use crate::forms::values::{
    form_data, lookup_value, pair_views, parse_form_data, put_value, validator_text, FormValue, Val,
};
use crate::forms::rendering::{all_rows, as_div, as_p, as_table, Layout};
use crate::forms::validation::list_items;
use crate::text::{copy_strings, owned, views};

verus! {

/// The key under which errors of the whole form are kept.
pub open spec fn all_key() -> Seq<char> {
    "__all__"@
}

/// The views of keyed error lists.
pub open spec fn error_views(v: Seq<(String, Vec<String>)>) -> Seq<(Seq<char>, Seq<Seq<char>>)> {
    v.map_values(|p: (String, Vec<String>)| (p.0@, views(p.1@)))
}

/// The errors under `key`; none when it has no entry.
pub open spec fn errors_of(s: Seq<(Seq<char>, Seq<Seq<char>>)>, key: Seq<char>) -> Seq<Seq<char>> {
    match assoc_get(s, key) {
        Some(l) => l,
        None => Seq::empty(),
    }
}

/// The messages of keyed errors, key by key, each key's in order.
pub open spec fn flat_errors(e: Seq<(Seq<char>, Seq<Seq<char>>)>) -> Seq<Seq<char>>
    decreases e.len(),
{
    if e.len() == 0 {
        Seq::empty()
    } else {
        flat_errors(e.drop_last()) + e.last().1
    }
}

/// Keyed errors with `e` added last under `key` (an entry is made for a new key).
pub open spec fn error_add(
    s: Seq<(Seq<char>, Seq<Seq<char>>)>,
    key: Seq<char>,
    e: Seq<char>,
) -> Seq<(Seq<char>, Seq<Seq<char>>)> {
    assoc_put(s, key, errors_of(s, key).push(e))
}

/// Keyed errors with each of `l` added in order under `key`.
pub open spec fn error_add_all(
    s: Seq<(Seq<char>, Seq<Seq<char>>)>,
    key: Seq<char>,
    l: Seq<Seq<char>>,
) -> Seq<(Seq<char>, Seq<Seq<char>>)>
    decreases l.len(),
{
    if l.len() == 0 {
        s
    } else {
        error_add(error_add_all(s, key, l.drop_last()), key, l.last())
    }
}

/// `s` with the errors of the first `n` entries of `more` added, entry by
/// entry.
pub open spec fn merge_errors_upto(
    s: Seq<(Seq<char>, Seq<Seq<char>>)>,
    more: Seq<(Seq<char>, Seq<Seq<char>>)>,
    n: int,
) -> Seq<(Seq<char>, Seq<Seq<char>>)>
    decreases n,
{
    if n <= 0 {
        s
    } else {
        error_add_all(merge_errors_upto(s, more, n - 1), more[n - 1].0, more[n - 1].1)
    }
}

/// `s` with all the errors of `more` added.
pub open spec fn merge_errors(
    s: Seq<(Seq<char>, Seq<Seq<char>>)>,
    more: Seq<(Seq<char>, Seq<Seq<char>>)>,
) -> Seq<(Seq<char>, Seq<Seq<char>>)> {
    merge_errors_upto(s, more, more.len() as int)
}

/// Adds `e` under `key`.
pub fn push_error(errors: &mut Vec<(String, Vec<String>)>, key: &str, e: String)
    ensures
        error_views(final(errors)@) == error_add(error_views(old(errors)@), key@, e@),
{
    let ghost s = error_views(errors@);
    let i = key_position(errors, key);
    assert(assoc_index(s, key@, i as int)) by {
        assert forall|j: int| 0 <= j < i implies s[j].0 != key@ by {
            assert(s[j].0 == errors@[j].0@);
        }
    }
    proof { lemma_assoc_at(s, key@, errors_of(s, key@).push(e@), i as int); }
    if i < errors.len() {
        let mut list = copy_strings(&errors[i].1);
        let ghost l = views(list@);
        list.push(e);
        assert(views(list@) =~= l.push(e@));
        let ghost lv = views(list@);
        errors.set(i, (owned(key), list));
        assert(error_views(errors@) =~= s.update(i as int, (key@, lv)));
    } else {
        let mut list: Vec<String> = Vec::new();
        list.push(e);
        let ghost lv = views(list@);
        assert(lv =~= Seq::<Seq<char>>::empty().push(e@));
        errors.push((owned(key), list));
        assert(error_views(errors@) =~= s.push((key@, lv)));
    }
}

/// Sets the errors under `key` to `list`.
pub fn put_errors(errors: &mut Vec<(String, Vec<String>)>, key: &str, list: Vec<String>)
    ensures
        error_views(final(errors)@) == assoc_put(error_views(old(errors)@), key@, views(list@)),
{
    let ghost s = error_views(errors@);
    let ghost lv = views(list@);
    let i = key_position(errors, key);
    assert(assoc_index(s, key@, i as int)) by {
        assert forall|j: int| 0 <= j < i implies s[j].0 != key@ by {
            assert(s[j].0 == errors@[j].0@);
        }
    }
    proof { lemma_assoc_at(s, key@, lv, i as int); }
    if i < errors.len() {
        errors.set(i, (owned(key), list));
        assert(error_views(errors@) =~= s.update(i as int, (key@, lv)));
    } else {
        errors.push((owned(key), list));
        assert(error_views(errors@) =~= s.push((key@, lv)));
    }
}

/// The error list under `key`, if there is one.
pub fn find_errors<'a>(errors: &'a Vec<(String, Vec<String>)>, key: &str) -> (r: Option<&'a Vec<String>>)
    ensures
        match assoc_get(error_views(errors@), key@) {
            Some(l) => r matches Some(x) && views(x@) == l,
            None => r is None,
        },
{
    let ghost s = error_views(errors@);
    let i = key_position(errors, key);
    assert(assoc_index(s, key@, i as int)) by {
        assert forall|j: int| 0 <= j < i implies s[j].0 != key@ by {
            assert(s[j].0 == errors@[j].0@);
        }
    }
    proof { lemma_assoc_at(s, key@, Seq::<Seq<char>>::empty(), i as int); }
    if i < errors.len() {
        Some(&errors[i].1)
    } else {
        None
    }
}

/// The outcome of validating a form: whether it is valid, the cleaned
/// values by field, and the error messages by field (`__all__` for the form
/// as a whole).
#[derive(Debug, Clone)]
pub struct FormState {
    pub is_valid: bool,
    pub cleaned_data: Vec<(String, FormValue)>,
    pub errors: Vec<(String, Vec<String>)>,
}

impl FormState {
    /// A valid state with nothing cleaned and no errors.
    pub fn valid() -> (r: Self)
        ensures
            r.is_valid,
            r.cleaned_data@.len() == 0,
            r.errors@.len() == 0,
    {
        FormState { is_valid: true, cleaned_data: Vec::new(), errors: Vec::new() }
    }

    /// An invalid state with the given errors.
    pub fn invalid(errors: Vec<(String, Vec<String>)>) -> (r: Self)
        ensures
            !r.is_valid,
            r.cleaned_data@.len() == 0,
            r.errors == errors,
    {
        FormState { is_valid: false, cleaned_data: Vec::new(), errors }
    }

    /// The errors of field `field`, if it has an entry.
    pub fn field_error(&self, field: &str) -> (r: Option<&Vec<String>>)
        ensures
            match assoc_get(error_views(self.errors@), field@) {
                Some(l) => r matches Some(x) && views(x@) == l,
                None => r is None,
            },
    {
        find_errors(&self.errors, field)
    }

    /// The errors of the form as a whole.
    pub fn non_field_errors(&self) -> (r: Vec<String>)
        ensures
            views(r@) == errors_of(error_views(self.errors@), all_key()),
    {
        match find_errors(&self.errors, "__all__") {
            Some(l) => copy_strings(l),
            None => Vec::new(),
        }
    }
}

/// The value field `name` is given: what the data holds under its name, or
/// null.
pub open spec fn raw_value(data: Seq<(Seq<char>, Val)>, name: Seq<char>) -> Val {
    match assoc_get(data, name) {
        Some(v) => v,
        None => Val::Null,
    }
}

/// The value a field cleans: empty text counts as no value in a required field.
pub open spec fn effective_value(f: FormField, raw: Val) -> Val {
    if f.required && raw == Val::Text(Seq::empty()) { Val::Null } else { raw }
}

/// The messages of the validators that reject `text`, in order.
pub open spec fn validator_messages(vs: Seq<FieldValidator>, text: Seq<char>) -> Seq<Seq<char>>
    decreases vs.len(),
{
    if vs.len() == 0 {
        Seq::empty()
    } else {
        let rest = validator_messages(vs.drop_last(), text);
        match validator_outcome(vs.last(), text) {
            Some(m) => rest.push(m),
            None => rest,
        }
    }
}

/// Cleaned values and errors after field `f` is cleaned on top of `acc`: an
/// error of the field's own cleaning comes first, then the validators'
/// messages; a field without errors keeps its cleaned value unless it is null.
pub open spec fn clean_field_into(
    acc: (Seq<(Seq<char>, Val)>, Seq<(Seq<char>, Seq<Seq<char>>)>),
    f: FormField,
    data: Seq<(Seq<char>, Val)>,
) -> (Seq<(Seq<char>, Val)>, Seq<(Seq<char>, Seq<Seq<char>>)>) {
    let raw = raw_value(data, f.name@);
    let msgs = validator_messages(f.validators@, validator_text(raw));
    match clean_outcome(f, effective_value(f, raw)) {
        Ok(c) => if msgs.len() > 0 {
            (acc.0, assoc_put(acc.1, f.name@, msgs))
        } else if c is Null {
            acc
        } else {
            (assoc_put(acc.0, f.name@, c), acc.1)
        },
        Err(e) => (acc.0, assoc_put(acc.1, f.name@, seq![e] + msgs)),
    }
}

/// Cleaned values and errors after the first `n` fields are cleaned.
pub open spec fn clean_fields_upto(
    fields: Seq<FormField>,
    data: Seq<(Seq<char>, Val)>,
    n: int,
) -> (Seq<(Seq<char>, Val)>, Seq<(Seq<char>, Seq<Seq<char>>)>)
    decreases n,
{
    if n <= 0 {
        (Seq::empty(), Seq::empty())
    } else {
        clean_field_into(clean_fields_upto(fields, data, n - 1), fields[n - 1], data)
    }
}

/// Cleaned values and errors of all fields on `data`.
pub open spec fn cleaned_fields(
    fields: Seq<FormField>,
    data: Seq<(Seq<char>, Val)>,
) -> (Seq<(Seq<char>, Val)>, Seq<(Seq<char>, Seq<Seq<char>>)>) {
    clean_fields_upto(fields, data, fields.len() as int)
}

/// `after` is `before` once the whole pipeline ran: fields cleaned, errors
/// added before kept after the new ones, and the form valid only when there
/// are no errors and it was not already marked invalid with errors.
pub open spec fn full_clean_done(before: Form, after: Form) -> bool {
    let fresh = cleaned_fields(before.fields@, pair_views(before.data@));
    let merged = merge_errors(fresh.1, error_views(before.state.errors@));
    let pre_invalid = !before.state.is_valid && before.state.errors@.len() > 0;
    &&& after.fields == before.fields
    &&& after.data == before.data
    &&& after.is_bound == before.is_bound
    &&& after.cleaned
    &&& pair_views(after.state.cleaned_data@) == fresh.0
    &&& error_views(after.state.errors@) == merged
    &&& after.state.is_valid == (!pre_invalid && merged.len() == 0 && fresh.1.len() == 0)
}

/// `after` is `before` once checked: cleaned if it was not yet.
pub open spec fn checked(before: Form, after: Form) -> bool {
    if before.cleaned { after == before } else { full_clean_done(before, after) }
}

/// The data differs from field `f`'s initial value: the data has a value
/// for it, and the field has no initial value or a different one.
pub open spec fn field_changed(f: FormField, data: Seq<(Seq<char>, Val)>) -> bool {
    match assoc_get(data, f.name@) {
        Some(s) => match f.initial {
            Some(i) => s != i@,
            None => true,
        },
        None => false,
    }
}

/// A form: its fields, the data bound to it, and its validation state.
#[derive(Debug, Clone)]
pub struct Form {
    pub fields: Vec<FormField>,
    pub data: Vec<(String, FormValue)>,
    pub state: FormState,
    pub is_bound: bool,
    pub cleaned: bool,
}

impl Form {
    /// An unbound form over `fields`.
    pub fn new(fields: Vec<FormField>) -> (r: Self)
        ensures
            r.fields == fields,
            r.data@.len() == 0,
            r.state.is_valid,
            r.state.cleaned_data@.len() == 0,
            r.state.errors@.len() == 0,
            !r.is_bound,
            !r.cleaned,
    {
        Form { fields, data: Vec::new(), state: FormState::valid(), is_bound: false, cleaned: false }
    }

    /// A form without fields bound to `data`; nothing is validated.
    pub fn bind(data: Vec<(String, FormValue)>) -> (r: Self)
        ensures
            r.fields@.len() == 0,
            r.data == data,
            r.state.is_valid,
            r.state.cleaned_data@.len() == 0,
            r.state.errors@.len() == 0,
            r.is_bound,
            !r.cleaned,
    {
        Form { fields: Vec::new(), data, state: FormState::valid(), is_bound: true, cleaned: false }
    }

    /// A form over `fields` bound to the URL-encoded data `query_str`.
    pub fn from_query(fields: Vec<FormField>, query_str: &str) -> (r: Self)
        ensures
            r.fields == fields,
            pair_views(r.data@) == form_data(query_str@),
            r.state.is_valid,
            r.state.cleaned_data@.len() == 0,
            r.state.errors@.len() == 0,
            r.is_bound,
            !r.cleaned,
    {
        let data = parse_form_data(query_str);
        let mut form = Form::new(fields);
        form.data = data;
        form.is_bound = true;
        form
    }

    /// Runs the whole pipeline; see [`full_clean_done`].
    pub fn full_clean(&mut self)
        ensures
            full_clean_done(*old(self), *final(self)),
    {
        let ghost before = *self;
        self.cleaned = true;
        let mut pre: Vec<(String, Vec<String>)> = Vec::new();
        std::mem::swap(&mut pre, &mut self.state.errors);
        let pre_invalid = !self.state.is_valid && pre.len() > 0;
        self._clean_fields();
        self._clean_form();
        self._post_clean();
        let ghost fresh = error_views(self.state.errors@);
        let ghost pv = error_views(pre@);
        let mut i: usize = 0;
        while i < pre.len()
            invariant
                i <= pre.len(),
                pv == error_views(pre@),
                error_views(self.state.errors@) == merge_errors_upto(fresh, pv, i as int),
                self.fields == before.fields,
                self.data == before.data,
                self.is_bound == before.is_bound,
                self.cleaned,
                pair_views(self.state.cleaned_data@) == cleaned_fields(before.fields@, pair_views(before.data@)).0,
                fresh == cleaned_fields(before.fields@, pair_views(before.data@)).1,
                self.state.is_valid == (fresh.len() == 0),
            decreases pre.len() - i,
        {
            let key = pre[i].0.as_str();
            let ghost base = error_views(self.state.errors@);
            let mut j: usize = 0;
            while j < pre[i].1.len()
                invariant
                    i < pre.len(),
                    j <= pre@[i as int].1@.len(),
                    pv == error_views(pre@),
                    key@ == pv[i as int].0,
                    error_views(self.state.errors@) == error_add_all(base, key@, pv[i as int].1.take(j as int)),
                    self.fields == before.fields,
                    self.data == before.data,
                    self.is_bound == before.is_bound,
                    self.cleaned,
                    pair_views(self.state.cleaned_data@) == cleaned_fields(before.fields@, pair_views(before.data@)).0,
                    self.state.is_valid == (fresh.len() == 0),
                decreases pre@[i as int].1@.len() - j,
            {
                let e = pre[i].1[j].clone();
                proof {
                    let l = pv[i as int].1;
                    assert(l.take(j + 1).drop_last() =~= l.take(j as int));
                    assert(l.take(j + 1).last() == e@);
                }
                push_error(&mut self.state.errors, key, e);
                j = j + 1;
            }
            assert(pv[i as int].1.take(j as int) =~= pv[i as int].1);
            i = i + 1;
        }
        if pre_invalid || self.state.errors.len() > 0 {
            self.state.is_valid = false;
        }
    }

    /// Cleans each field in turn; see [`cleaned_fields`].
    pub fn _clean_fields(&mut self)
        ensures
            final(self).fields == old(self).fields,
            final(self).data == old(self).data,
            final(self).is_bound == old(self).is_bound,
            final(self).cleaned == old(self).cleaned,
            pair_views(final(self).state.cleaned_data@) == cleaned_fields(old(self).fields@, pair_views(old(self).data@)).0,
            error_views(final(self).state.errors@) == cleaned_fields(old(self).fields@, pair_views(old(self).data@)).1,
            final(self).state.is_valid == (final(self).state.errors@.len() == 0),
    {
        let ghost dv = pair_views(self.data@);
        let mut errors: Vec<(String, Vec<String>)> = Vec::new();
        let mut cleaned: Vec<(String, FormValue)> = Vec::new();
        let mut i: usize = 0;
        while i < self.fields.len()
            invariant
                i <= self.fields@.len(),
                dv == pair_views(self.data@),
                (pair_views(cleaned@), error_views(errors@)) == clean_fields_upto(self.fields@, dv, i as int),
            decreases self.fields.len() - i,
        {
            let field = &self.fields[i];
            let raw = match lookup_value(&self.data, field.name.as_str()) {
                Some(v) => v.duplicate(),
                None => FormValue::Null,
            };
            assert(raw@ == raw_value(dv, field.name@));
            let empty_text = match &raw {
                FormValue::Text(s) => crate::text::str_is_empty(s.as_str()),
                _ => false,
            };
            let effective = if empty_text && field.required { FormValue::Null } else { raw.duplicate() };
            assert(effective@ == effective_value(*field, raw@)) by {
                match raw {
                    FormValue::Text(s) => {
                        if s@.len() == 0 {
                            assert(s@ =~= Seq::<char>::empty());
                        }
                    },
                    _ => {},
                }
            }
            let clean_result = field.clean(&effective);
            let mut messages: Vec<String> = Vec::new();
            let mut k: usize = 0;
            while k < field.validators.len()
                invariant
                    k <= field.validators@.len(),
                    views(messages@) == validator_messages(field.validators@.take(k as int), validator_text(raw@)),
                decreases field.validators.len() - k,
            {
                let ghost vs = field.validators@.take(k + 1);
                assert(vs.drop_last() =~= field.validators@.take(k as int));
                match field.validators[k].validate(&raw) {
                    Some(m) => {
                        let ghost before_msgs = views(messages@);
                        messages.push(m);
                        assert(views(messages@) =~= before_msgs.push(m@));
                    },
                    None => {},
                }
                k = k + 1;
            }
            assert(field.validators@.take(k as int) =~= field.validators@);
            proof {
                assert(self.fields@[i as int] == *field);
            }
            match clean_result {
                Ok(c) => {
                    if messages.len() > 0 {
                        put_errors(&mut errors, field.name.as_str(), messages);
                    } else if !c.is_null() {
                        put_value(&mut cleaned, field.name.as_str(), c);
                    }
                },
                Err(e) => {
                    let mut all: Vec<String> = Vec::new();
                    all.push(e);
                    let ghost first = views(all@);
                    let mut rest = messages;
                    all.append(&mut rest);
                    assert(views(all@) =~= seq![e@] + validator_messages(field.validators@, validator_text(raw@)));
                    put_errors(&mut errors, field.name.as_str(), all);
                },
            }
            i = i + 1;
        }
        self.state.is_valid = errors.len() == 0;
        self.state.cleaned_data = cleaned;
        self.state.errors = errors;
    }

    /// Validation of the form as a whole: the messages of [`Form::clean`]
    /// become errors of the form when its fields were valid.
    pub fn _clean_form(&mut self)
        ensures
            *final(self) == *old(self),
    {
        if self.state.is_valid {
            match self.clean() {
                Some(errs) => {
                    assert(false);
                },
                None => {},
            }
        }
    }

    /// A step after cleaning that changes nothing here.
    pub fn _post_clean(&mut self)
        ensures
            *final(self) == *old(self),
    {
    }

    /// Errors of the form as a whole: none.
    pub fn clean(&self) -> (r: Option<Vec<String>>)
        ensures
            r is None,
    {
        None
    }

    /// Adds `error` to field `field`, or to the form as a whole when there
    /// is no field; the form is then invalid.
    pub fn add_error(&mut self, field: Option<&str>, error: String)
        ensures
            error_views(final(self).state.errors@) == error_add(
                error_views(old(self).state.errors@),
                match field {
                    Some(f) => f@,
                    None => all_key(),
                },
                error@,
            ),
            !final(self).state.is_valid,
            final(self).state.cleaned_data == old(self).state.cleaned_data,
            final(self).fields == old(self).fields,
            final(self).data == old(self).data,
            final(self).is_bound == old(self).is_bound,
            final(self).cleaned == old(self).cleaned,
    {
        let key = match field {
            Some(f) => f,
            None => "__all__",
        };
        push_error(&mut self.state.errors, key, error);
        self.state.is_valid = false;
    }

    /// Whether the form is valid, running the pipeline first when it has not run.
    pub fn is_valid(&mut self) -> (r: bool)
        ensures
            checked(*old(self), *final(self)),
            r == final(self).state.is_valid,
    {
        if !self.cleaned {
            self.full_clean();
        }
        self.state.is_valid
    }

    /// The state after the pipeline has run (running it when it has not).
    pub fn validate(&mut self) -> (r: &FormState)
        ensures
            checked(*old(self), *final(self)),
            *r == final(self).state,
    {
        if !self.cleaned {
            self.full_clean();
        }
        &self.state
    }

    /// Whether some field's data differs from its initial value; see
    /// [`field_changed`].
    pub fn has_changed(&self) -> (r: bool)
        ensures
            r == exists|i: int| 0 <= i < self.fields@.len() && field_changed(#[trigger] self.fields@[i], pair_views(self.data@)),
    {
        let mut i: usize = 0;
        while i < self.fields.len()
            invariant
                i <= self.fields@.len(),
                forall|j: int| 0 <= j < i ==> !field_changed(#[trigger] self.fields@[j], pair_views(self.data@)),
            decreases self.fields.len() - i,
        {
            let field = &self.fields[i];
            match lookup_value(&self.data, field.name.as_str()) {
                Some(s) => match &field.initial {
                    Some(init) => {
                        if !s.same_as(init) {
                            assert(field_changed(self.fields@[i as int], pair_views(self.data@)));
                            return true;
                        }
                    },
                    None => {
                        assert(field_changed(self.fields@[i as int], pair_views(self.data@)));
                        return true;
                    },
                },
                None => {},
            }
            i = i + 1;
        }
        false
    }

    /// The cleaned values.
    pub fn cleaned_data(&self) -> (r: &Vec<(String, FormValue)>)
        ensures
            *r == self.state.cleaned_data,
    {
        &self.state.cleaned_data
    }

    /// The errors by field.
    pub fn errors(&self) -> (r: &Vec<(String, Vec<String>)>)
        ensures
            *r == self.state.errors,
    {
        &self.state.errors
    }

    /// The errors of the form as a whole.
    pub fn non_field_errors(&self) -> (r: Vec<String>)
        ensures
            views(r@) == errors_of(error_views(self.state.errors@), all_key()),
    {
        self.state.non_field_errors()
    }

    /// The fields as rows of an HTML table.
    pub fn as_table(&self) -> (r: String)
        ensures
            r@ == "<table class=\"form-table\">\n"@ + all_rows(Layout::Table, self.fields@, self.state, self.data@)
                + "</table>"@,
    {
        as_table(self.fields.as_slice(), &self.state, &self.data)
    }

    /// The fields as HTML paragraphs.
    pub fn as_p(&self) -> (r: String)
        ensures
            r@ == all_rows(Layout::Paragraphs, self.fields@, self.state, self.data@),
    {
        as_p(self.fields.as_slice(), &self.state, &self.data)
    }

    /// The fields as HTML divs.
    pub fn as_div(&self) -> (r: String)
        ensures
            r@ == all_rows(Layout::Divs, self.fields@, self.state, self.data@),
    {
        as_div(self.fields.as_slice(), &self.state, &self.data)
    }

    /// The hidden input that carries the CSRF token.
    pub fn csrf_input() -> (r: &'static str)
        ensures
            r@ == csrf_input_html(),
    {
        "<input type=\"hidden\" name=\"csrfmiddlewaretoken\" value=\"rjango-csrf-token\">"
    }

    /// A submit button labelled `label`.
    pub fn submit_button(label: &str) -> (r: String)
        ensures
            r@ == submit_button_html(label@),
    {
        let mut r = String::from_str("<button type=\"submit\" class=\"btn btn-primary\">");
        r.append(label);
        r.append("</button>");
        r
    }

    /// The whole form: the `<form>` element with the CSRF input, the errors
    /// of the form as a whole (when there are any), the fields as a table
    /// and a submit button.
    pub fn render(&self, submit_label: &str, action: &str, method: &str) -> (r: String)
        ensures
            r@ == form_html(*self, submit_label@, action@, method@),
    {
        let mut html = String::from_str("<form action=\"");
        html.append(action);
        html.append("\" method=\"");
        html.append(method);
        html.append("\">");
        html.append(Self::csrf_input());
        let non_field = self.state.non_field_errors();
        let ghost head = html@;
        if non_field.len() > 0 {
            html.append("<ul class=\"errorlist nonfield\">");
            let mut i: usize = 0;
            while i < non_field.len()
                invariant
                    i <= non_field@.len(),
                    html@ == head + "<ul class=\"errorlist nonfield\">"@ + list_items(views(non_field@).take(i as int)),
                decreases non_field.len() - i,
            {
                assert(views(non_field@).take(i + 1).drop_last() =~= views(non_field@).take(i as int));
                html.append("<li>");
                html.append(non_field[i].as_str());
                html.append("</li>");
                i = i + 1;
            }
            assert(views(non_field@).take(i as int) =~= views(non_field@));
            html.append("</ul>");
        }
        let ghost mid = html@;
        assert(mid =~= head + nonfield_block(errors_of(error_views(self.state.errors@), all_key())));
        html.append(self.as_table().as_str());
        html.append(Self::submit_button(submit_label).as_str());
        html.append("</form>");
        html
    }
}

/// The hidden CSRF input.
pub open spec fn csrf_input_html() -> Seq<char> {
    "<input type=\"hidden\" name=\"csrfmiddlewaretoken\" value=\"rjango-csrf-token\">"@
}

/// A submit button labelled `label`.
pub open spec fn submit_button_html(label: Seq<char>) -> Seq<char> {
    "<button type=\"submit\" class=\"btn btn-primary\">"@ + label + "</button>"@
}

/// The list of the form's own errors; nothing when there are none.
pub open spec fn nonfield_block(l: Seq<Seq<char>>) -> Seq<char> {
    if l.len() > 0 { "<ul class=\"errorlist nonfield\">"@ + list_items(l) + "</ul>"@ } else { Seq::empty() }
}

/// The whole form as [`Form::render`] writes it.
pub open spec fn form_html(f: Form, submit_label: Seq<char>, action: Seq<char>, method: Seq<char>) -> Seq<char> {
    "<form action=\""@ + action + "\" method=\""@ + method + "\">"@ + csrf_input_html()
        + nonfield_block(errors_of(error_views(f.state.errors@), all_key()))
        + "<table class=\"form-table\">\n"@ + all_rows(Layout::Table, f.fields@, f.state, f.data@) + "</table>"@
        + submit_button_html(submit_label) + "</form>"@
}

proof fn lemma_assoc_put_nonempty<V>(s: Seq<(Seq<char>, V)>, key: Seq<char>, value: V)
    ensures
        assoc_put(s, key, value).len() > 0,
    decreases s.len(),
{
    if s.len() > 0 && s[0].0 != key {
        lemma_assoc_put_nonempty(s.drop_first(), key, value);
    }
}

proof fn lemma_keeps_key<V>(s: Seq<(Seq<char>, V)>, key: Seq<char>, other: Seq<char>, value: V)
    requires
        assoc_get(s, key) is Some,
    ensures
        assoc_get(assoc_put(s, other, value), key) is Some,
{
    crate::apps::law_assoc_get_after_put(s, other, value, key);
}

proof fn lemma_field_into_keeps_errors(
    acc: (Seq<(Seq<char>, Val)>, Seq<(Seq<char>, Seq<Seq<char>>)>),
    f: FormField,
    data: Seq<(Seq<char>, Val)>,
    key: Seq<char>,
)
    requires
        assoc_get(acc.1, key) is Some,
    ensures
        assoc_get(clean_field_into(acc, f, data).1, key) is Some,
{
    let raw = raw_value(data, f.name@);
    let msgs = validator_messages(f.validators@, validator_text(raw));
    match clean_outcome(f, effective_value(f, raw)) {
        Ok(c) => if msgs.len() > 0 {
            lemma_keeps_key(acc.1, key, f.name@, msgs);
        },
        Err(e) => {
            lemma_keeps_key(acc.1, key, f.name@, seq![e] + msgs);
        },
    }
}

/// A required field that gets no value, or empty text, is reported: after
/// the fields are cleaned there are errors under its name.
pub proof fn law_missing_required_field_is_reported(fields: Seq<FormField>, data: Seq<(Seq<char>, Val)>, i: int)
    requires
        0 <= i < fields.len(),
        fields[i].required,
        raw_value(data, fields[i].name@) is Null || raw_value(data, fields[i].name@) == Val::Text(Seq::empty()),
    ensures
        assoc_get(cleaned_fields(fields, data).1, fields[i].name@) is Some,
{
    let f = fields[i];
    let acc = clean_fields_upto(fields, data, i);
    assert(clean_outcome(f, effective_value(f, raw_value(data, f.name@))) is Err);
    let raw = raw_value(data, f.name@);
    let msgs = validator_messages(f.validators@, validator_text(raw));
    let e = clean_outcome(f, effective_value(f, raw))->Err_0;
    crate::apps::law_assoc_get_after_put(acc.1, f.name@, seq![e] + msgs, f.name@);
    assert(assoc_get(clean_fields_upto(fields, data, i + 1).1, f.name@) is Some);
    lemma_errors_persist(fields, data, f.name@, i + 1, fields.len() as int);
}

proof fn lemma_errors_persist(fields: Seq<FormField>, data: Seq<(Seq<char>, Val)>, key: Seq<char>, from: int, n: int)
    requires
        0 <= from <= n <= fields.len(),
        assoc_get(clean_fields_upto(fields, data, from).1, key) is Some,
    ensures
        assoc_get(clean_fields_upto(fields, data, n).1, key) is Some,
    decreases n - from,
{
    if n > from {
        lemma_errors_persist(fields, data, key, from, n - 1);
        lemma_field_into_keeps_errors(clean_fields_upto(fields, data, n - 1), fields[n - 1], data, key);
    }
}

/// An error added to a form makes it invalid from then on: checking it
/// (running the pipeline when it has not run) leaves it invalid.
pub proof fn law_added_error_keeps_form_invalid(before: Form, key: Seq<char>, e: Seq<char>, mid: Form, after: Form)
    requires
        error_views(mid.state.errors@) == error_add(error_views(before.state.errors@), key, e),
        !mid.state.is_valid,
        checked(mid, after),
    ensures
        !after.state.is_valid,
{
    lemma_assoc_put_nonempty(error_views(before.state.errors@), key, errors_of(error_views(before.state.errors@), key).push(e));
    assert(mid.state.errors@.len() > 0);
}

} // verus!
