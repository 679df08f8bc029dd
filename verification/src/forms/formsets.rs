//! Formsets: several forms of the same shape on one page, checked together.

use vstd::prelude::*;
use crate::forms::fields::{FieldType, FormField};
use crate::forms::form::{checked, csrf_input_html, error_views, flat_errors, form_html, Form};
use crate::forms::values::{copy_values, pair_views, FormValue, Val};
use crate::text::{concat3, nat_str, owned, usize_to_string, views};

verus! {

/// The counts a formset's management form carries.
#[derive(Debug, Clone)]
pub struct ManagementForm {
    pub total_forms: usize,
    pub initial_forms: usize,
    pub min_num: usize,
    pub max_num: usize,
}

impl ManagementForm {
    /// A management form with the given counts.
    pub fn new(total: usize, initial: usize, min: usize, max: usize) -> (r: Self)
        ensures
            r.total_forms == total,
            r.initial_forms == initial,
            r.min_num == min,
            r.max_num == max,
    {
        ManagementForm { total_forms: total, initial_forms: initial, min_num: min, max_num: max }
    }
}

/// One form of a formset, with its position.
#[derive(Debug, Clone)]
pub struct FormsetForm {
    pub form: Form,
    pub index: usize,
    pub can_delete: bool,
    pub can_order: bool,
}

/// A collection of forms checked together, with bounds on their number.
#[derive(Debug, Clone)]
pub struct BaseFormSet {
    pub forms: Vec<FormsetForm>,
    pub management_form: ManagementForm,
    pub can_delete: bool,
    pub can_order: bool,
    pub min_num: usize,
    pub max_num: usize,
    pub absolute_max: usize,
    pub errors: Vec<Vec<String>>,
    pub is_valid_cache: Option<bool>,
}

/// The views of the formset's error lists.
pub open spec fn error_list_views(e: Seq<Vec<String>>) -> Seq<Seq<Seq<char>>> {
    e.map_values(|l: Vec<String>| views(l@))
}

/// The error list of each invalid form among the first `n`, in order.
pub open spec fn invalid_form_errors(fs: Seq<FormsetForm>, n: int) -> Seq<Seq<Seq<char>>>
    decreases n,
{
    if n <= 0 {
        Seq::empty()
    } else {
        let acc = invalid_form_errors(fs, n - 1);
        if fs[n - 1].form.state.is_valid {
            acc
        } else {
            acc.push(flat_errors(error_views(fs[n - 1].form.state.errors@)))
        }
    }
}

/// Fewer forms than the minimum (a minimum of 0 asks for none).
pub open spec fn too_few(min_num: usize, total: nat) -> bool {
    min_num > 0 && total < min_num
}

/// More forms than the maximum (a maximum of 0 allows any number).
pub open spec fn too_many(max_num: usize, total: nat) -> bool {
    max_num > 0 && total > max_num
}

/// The errors of a formset check: the count errors, then each invalid
/// form's messages, then an error when there are no forms.
pub open spec fn formset_errors(min_num: usize, max_num: usize, fs: Seq<FormsetForm>) -> Seq<Seq<Seq<char>>> {
    let few: Seq<Seq<Seq<char>>> = if too_few(min_num, fs.len()) {
        seq![seq!["Please submit at least "@ + nat_str(min_num as nat) + " form(s)."@]]
    } else {
        Seq::empty()
    };
    let many: Seq<Seq<Seq<char>>> = if too_many(max_num, fs.len()) {
        seq![seq!["Please submit at most "@ + nat_str(max_num as nat) + " form(s)."@]]
    } else {
        Seq::empty()
    };
    let none: Seq<Seq<Seq<char>>> = if fs.len() == 0 { seq![seq!["No forms in formset."@]] } else { Seq::empty() };
    few + many + invalid_form_errors(fs, fs.len() as int) + none
}

/// Each form of `after` is the form of `before` at the same position, checked.
pub open spec fn forms_checked(before: Seq<FormsetForm>, after: Seq<FormsetForm>) -> bool {
    &&& after.len() == before.len()
    &&& forall|j: int| 0 <= j < before.len() ==> checked(#[trigger] before[j].form, after[j].form)
    &&& forall|j: int| 0 <= j < before.len() ==> (#[trigger] after[j]).index == before[j].index
        && after[j].can_delete == before[j].can_delete && after[j].can_order == before[j].can_order
}

/// `fs` is a formset as `BaseFormSet::new` makes it from `factory`.
pub open spec fn formset_built<F: Fn(usize) -> Vec<FormField>>(
    fs: BaseFormSet,
    factory: F,
    count: usize,
    can_delete: bool,
    can_order: bool,
    min_num: usize,
    max_num: usize,
) -> bool {
    &&& fs.forms@.len() == count
    &&& forall|i: int| 0 <= i < count ==> {
        let f = #[trigger] fs.forms@[i];
        &&& f.index == i
        &&& f.can_delete == can_delete
        &&& f.can_order == can_order
        &&& call_ensures(factory, (i as usize,), f.form.fields)
        &&& f.form.data@.len() == 0
        &&& f.form.state.is_valid
        &&& f.form.state.cleaned_data@.len() == 0
        &&& f.form.state.errors@.len() == 0
        &&& !f.form.is_bound
        &&& !f.form.cleaned
    }
    &&& fs.management_form.total_forms == count
    &&& fs.management_form.initial_forms == count
    &&& fs.management_form.min_num == min_num
    &&& fs.management_form.max_num == max_num
    &&& fs.can_delete == can_delete
    &&& fs.can_order == can_order
    &&& fs.min_num == min_num
    &&& fs.max_num == max_num
    &&& fs.absolute_max == if max_num > 0 { 2 * max_num } else { 1000 }
    &&& fs.errors@.len() == 0
    &&& fs.is_valid_cache is None
}

/// The fieldsets of the first `n` forms, each rendered whole.
pub open spec fn fieldsets(fs: Seq<FormsetForm>, label: Seq<char>, action: Seq<char>, method: Seq<char>, n: int) -> Seq<char>
    decreases n,
{
    if n <= 0 {
        Seq::empty()
    } else {
        fieldsets(fs, label, action, method, n - 1) + "<fieldset>\n"@ + form_html(fs[n - 1].form, label, action, method)
            + "</fieldset>\n"@
    }
}

impl BaseFormSet {
    /// `count` unbound forms, the `i`-th over the fields `factory(i)`; the
    /// absolute maximum is twice the maximum, or 1000 when there is none.
    pub fn new<F: Fn(usize) -> Vec<FormField>>(
        factory: F,
        count: usize,
        can_delete: bool,
        can_order: bool,
        min_num: usize,
        max_num: usize,
    ) -> (r: Self)
        requires
            forall|i: usize| i < count ==> call_requires(factory, (i,)),
            2 * max_num <= usize::MAX,
        ensures
            formset_built(r, factory, count, can_delete, can_order, min_num, max_num),
    {
        let mut forms: Vec<FormsetForm> = Vec::new();
        let mut i: usize = 0;
        while i < count
            invariant
                i <= count,
                forall|k: usize| k < count ==> call_requires(factory, (k,)),
                forms@.len() == i,
                forall|j: int| 0 <= j < i ==> {
                    let f = #[trigger] forms@[j];
                    &&& f.index == j
                    &&& f.can_delete == can_delete
                    &&& f.can_order == can_order
                    &&& call_ensures(factory, (j as usize,), f.form.fields)
                    &&& f.form.data@.len() == 0
                    &&& f.form.state.is_valid
                    &&& f.form.state.cleaned_data@.len() == 0
                    &&& f.form.state.errors@.len() == 0
                    &&& !f.form.is_bound
                    &&& !f.form.cleaned
                },
            decreases count - i,
        {
            let fields = factory(i);
            forms.push(FormsetForm { form: Form::new(fields), index: i, can_delete, can_order });
            i = i + 1;
        }
        let absolute_max = if max_num > 0 { max_num * 2 } else { 1000 };
        BaseFormSet {
            forms,
            management_form: ManagementForm::new(count, count, min_num, max_num),
            can_delete,
            can_order,
            min_num,
            max_num,
            absolute_max,
            errors: Vec::new(),
            is_valid_cache: None,
        }
    }

    /// Checks every form (see [`Form::is_valid`]) and the number of forms;
    /// the errors are recorded as [`formset_errors`] says, and the result is
    /// also kept in the cache.
    pub fn is_valid(&mut self) -> (r: bool)
        ensures
            forms_checked(old(self).forms@, final(self).forms@),
            error_list_views(final(self).errors@) == formset_errors(old(self).min_num, old(self).max_num, final(self).forms@),
            r == (!too_few(old(self).min_num, old(self).forms@.len()) && !too_many(old(self).max_num, old(self).forms@.len())
                && old(self).forms@.len() > 0
                && forall|j: int| 0 <= j < final(self).forms@.len() ==> (#[trigger] final(self).forms@[j]).form.state.is_valid),
            final(self).is_valid_cache == Some(r),
            final(self).min_num == old(self).min_num,
            final(self).max_num == old(self).max_num,
            final(self).absolute_max == old(self).absolute_max,
            final(self).can_delete == old(self).can_delete,
            final(self).can_order == old(self).can_order,
            final(self).management_form.total_forms == old(self).management_form.total_forms,
            final(self).management_form.initial_forms == old(self).management_form.initial_forms,
    {
        let mut all_valid = true;
        let mut errors: Vec<Vec<String>> = Vec::new();
        let total = self.forms.len();
        let ghost n = self.forms@.len();
        if self.min_num > 0 && total < self.min_num {
            let mut l: Vec<String> = Vec::new();
            l.push(concat3("Please submit at least ", usize_to_string(self.min_num).as_str(), " form(s)."));
            assert(views(l@) =~= seq!["Please submit at least "@ + nat_str(self.min_num as nat) + " form(s)."@]);
            errors.push(l);
            all_valid = false;
        }
        let ghost few = error_list_views(errors@);
        assert(few =~= (if too_few(self.min_num, n) {
            seq![seq!["Please submit at least "@ + nat_str(self.min_num as nat) + " form(s)."@]]
        } else {
            Seq::<Seq<Seq<char>>>::empty()
        }));
        if self.max_num > 0 && total > self.max_num {
            let mut l: Vec<String> = Vec::new();
            l.push(concat3("Please submit at most ", usize_to_string(self.max_num).as_str(), " form(s)."));
            assert(views(l@) =~= seq!["Please submit at most "@ + nat_str(self.max_num as nat) + " form(s)."@]);
            let ghost before_errs = error_list_views(errors@);
            errors.push(l);
            assert(error_list_views(errors@) =~= before_errs.push(seq!["Please submit at most "@ + nat_str(self.max_num as nat) + " form(s)."@]));
            all_valid = false;
        }
        assert(error_list_views(errors@) =~= few + (if too_many(self.max_num, n) {
            seq![seq!["Please submit at most "@ + nat_str(self.max_num as nat) + " form(s)."@]]
        } else {
            Seq::<Seq<Seq<char>>>::empty()
        }));
        assert(all_valid == (error_list_views(errors@).len() == 0));
        assert(all_valid == (!too_few(self.min_num, n) && !too_many(self.max_num, n)));
        let ghost counts = error_list_views(errors@);
        let ghost counts_ok = !too_few(self.min_num, n) && !too_many(self.max_num, n);
        let mut pending: Vec<FormsetForm> = Vec::new();
        std::mem::swap(&mut pending, &mut self.forms);
        let ghost orig = pending@;
        let mut done: Vec<FormsetForm> = Vec::new();
        let mut i: usize = 0;
        while i < total
            invariant
                i <= total,
                total == orig.len(),
                pending@ == orig.skip(i as int),
                done@.len() == i,
                forall|j: int| 0 <= j < i ==> checked(#[trigger] orig[j].form, done@[j].form),
                forall|j: int| 0 <= j < i ==> (#[trigger] done@[j]).index == orig[j].index
                    && done@[j].can_delete == orig[j].can_delete && done@[j].can_order == orig[j].can_order,
                error_list_views(errors@) == counts + invalid_form_errors(done@, i as int),
                all_valid == (counts.len() == 0 && forall|j: int| 0 <= j < i ==> (#[trigger] done@[j]).form.state.is_valid),
                (counts.len() == 0) == counts_ok,
            decreases total - i,
        {
            assert(pending@[0] == orig[i as int]);
            let mut ff = pending.remove(0);
            assert(pending@ =~= orig.skip(i + 1));
            let ghost before = ff.form;
            let ok = ff.form.is_valid();
            if !ok {
                all_valid = false;
                let mut form_errs: Vec<String> = Vec::new();
                let ghost ev = error_views(ff.form.state.errors@);
                let mut k: usize = 0;
                while k < ff.form.state.errors.len()
                    invariant
                        k <= ff.form.state.errors@.len(),
                        ev == error_views(ff.form.state.errors@),
                        views(form_errs@) == flat_errors(ev.take(k as int)),
                    decreases ff.form.state.errors.len() - k,
                {
                    let ghost prev = views(form_errs@);
                    let mut msgs = crate::text::copy_strings(&ff.form.state.errors[k].1);
                    form_errs.append(&mut msgs);
                    assert(ev.take(k + 1).drop_last() =~= ev.take(k as int));
                    assert(views(form_errs@) =~= prev + ev[k as int].1);
                    k = k + 1;
                }
                assert(ev.take(k as int) =~= ev);
                let ghost before_errs = error_list_views(errors@);
                errors.push(form_errs);
                assert(error_list_views(errors@) =~= before_errs.push(flat_errors(ev)));
            }
            let ghost prev_done = done@;
            let ghost ffg = ff;
            assert(ok == ffg.form.state.is_valid);
            done.push(ff);
            assert(done@[i as int] == ffg);
            proof {
                assert(done@.drop_last() =~= prev_done);
                assert forall|j: int| 0 <= j < i implies done@[j] == prev_done[j] by {}
                assert(invalid_form_errors(done@, i as int) == invalid_form_errors(prev_done, i as int)) by {
                    lemma_invalid_form_errors_prefix(prev_done, done@, i as int);
                }
            }
            i = i + 1;
        }
        assert(done@ =~= done@.take(total as int));
        if total == 0 {
            let mut l: Vec<String> = Vec::new();
            l.push(owned("No forms in formset."));
            assert(views(l@) =~= seq!["No forms in formset."@]);
            let ghost before_errs = error_list_views(errors@);
            errors.push(l);
            all_valid = false;
            assert(error_list_views(errors@) =~= before_errs.push(seq!["No forms in formset."@]));
        }
        self.forms = done;
        self.errors = errors;
        assert(error_list_views(self.errors@) =~= formset_errors(self.min_num, self.max_num, self.forms@));
        self.is_valid_cache = Some(all_valid);
        assert(counts_ok == (!too_few(self.min_num, n) && !too_many(self.max_num, n)));
        assert(n == total);
        assert(all_valid == (counts_ok && total > 0 && forall|j: int| 0 <= j < total ==> (#[trigger] done@[j]).form.state.is_valid));
        assert(self.forms@ == done@);
        assert(all_valid == (!too_few(old(self).min_num, old(self).forms@.len()) && !too_many(old(self).max_num, old(self).forms@.len())
                && old(self).forms@.len() > 0
                && forall|j: int| 0 <= j < self.forms@.len() ==> (#[trigger] self.forms@[j]).form.state.is_valid));
        all_valid
    }

    /// The number of forms.
    pub fn total_form_count(&self) -> (r: usize)
        ensures
            r == self.forms@.len(),
    {
        self.forms.len()
    }

    /// The number of initial forms the management form records.
    pub fn initial_form_count(&self) -> (r: usize)
        ensures
            r == self.management_form.initial_forms,
    {
        self.management_form.initial_forms
    }

    /// The cleaned values of each form, in order.
    pub fn cleaned_data(&self) -> (r: Vec<Vec<(String, FormValue)>>)
        ensures
            r@.len() == self.forms@.len(),
            forall|i: int| 0 <= i < r@.len() ==> pair_views((#[trigger] r@[i])@) == pair_views(self.forms@[i].form.state.cleaned_data@),
    {
        let mut r: Vec<Vec<(String, FormValue)>> = Vec::new();
        let mut i: usize = 0;
        while i < self.forms.len()
            invariant
                i <= self.forms@.len(),
                r@.len() == i,
                forall|j: int| 0 <= j < i ==> pair_views((#[trigger] r@[j])@) == pair_views(self.forms@[j].form.state.cleaned_data@),
            decreases self.forms.len() - i,
        {
            r.push(copy_values(&self.forms[i].form.state.cleaned_data));
            i = i + 1;
        }
        r
    }

    /// All forms inside one `<form>` element, each whole form in a fieldset.
    pub fn render_all(&self, submit_label: &str, action: &str, method: &str) -> (r: String)
        ensures
            r@ == "<form action=\""@ + action@ + "\" method=\""@ + method@ + "\">\n"@ + csrf_input_html()
                + fieldsets(self.forms@, submit_label@, action@, method@, self.forms@.len() as int) + "</form>\n"@,
    {
        let mut html = String::from_str("<form action=\"");
        html.append(action);
        html.append("\" method=\"");
        html.append(method);
        html.append("\">\n");
        html.append(Form::csrf_input());
        let ghost head = html@;
        let mut i: usize = 0;
        while i < self.forms.len()
            invariant
                i <= self.forms@.len(),
                html@ == head + fieldsets(self.forms@, submit_label@, action@, method@, i as int),
            decreases self.forms.len() - i,
        {
            html.append("<fieldset>\n");
            html.append(self.forms[i].form.render(submit_label, action, method).as_str());
            html.append("</fieldset>\n");
            i = i + 1;
        }
        html.append("</form>\n");
        html
    }
}

proof fn lemma_invalid_form_errors_prefix(a: Seq<FormsetForm>, b: Seq<FormsetForm>, n: int)
    requires
        0 <= n <= a.len(),
        n <= b.len(),
        forall|j: int| 0 <= j < n ==> a[j] == b[j],
    ensures
        invalid_form_errors(a, n) == invalid_form_errors(b, n),
    decreases n,
{
    if n > 0 {
        lemma_invalid_form_errors_prefix(a, b, n - 1);
    }
}

/// A name field and an email field, both required.
pub fn name_fieldset(_index: usize) -> (r: Vec<FormField>)
    ensures
        r@.len() == 2,
        r@[0].name@ == "name"@ && r@[0].label@ == "Name"@ && r@[0].required && r@[0].field_type is Char,
        r@[1].name@ == "email"@ && r@[1].label@ == "Email"@ && r@[1].required && r@[1].field_type is Email,
{
    let mut r: Vec<FormField> = Vec::new();
    r.push(FormField::new("name", FieldType::Char).required(true).label("Name"));
    r.push(FormField::new("email", FieldType::Email).required(true).label("Email"));
    r
}

/// A maker of formsets: each call builds a new formset of `extra` forms
/// from `form_builder` with the given options.
pub fn formset_factory<F: Fn(usize) -> Vec<FormField> + Copy>(
    form_builder: F,
    extra: usize,
    can_delete: bool,
    can_order: bool,
    min_num: usize,
    max_num: usize,
) -> (r: impl Fn() -> BaseFormSet)
    requires
        forall|i: usize| i < extra ==> call_requires(form_builder, (i,)),
        2 * max_num <= usize::MAX,
    ensures
        call_requires(r, ()),
        forall|fs: BaseFormSet| call_ensures(r, (), fs) ==> formset_built(fs, form_builder, extra, can_delete, can_order, min_num, max_num),
{
    move || -> (fs: BaseFormSet)
        requires
            forall|i: usize| i < extra ==> call_requires(form_builder, (i,)),
            2 * max_num <= usize::MAX,
        ensures
            formset_built(fs, form_builder, extra, can_delete, can_order, min_num, max_num),
    {
        BaseFormSet::new(form_builder, extra, can_delete, can_order, min_num, max_num)
    }
}

} // verus!
