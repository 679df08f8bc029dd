//! Form validation: the error list, the `Validator` trait and the standard
//! validators.

use vstd::prelude::*;
use crate::apps::{assoc_get, assoc_index, key_position, lemma_assoc_at};
use crate::forms::form::{error_add, error_add_all, errors_of, flat_errors, merge_errors, merge_errors_upto};
use crate::forms::values::FormValue;
use crate::orm::fields::{json_quote, json_quoted};
use crate::text::{copy_strings,
    all_whitespace, byte_len, chars_of, concat3, contains_char, contains_seq, has_char, int_str, is_blank,
    is_prefix, join, join_strings, lemma_split_char_nonempty, nat_str, owned, split_char, split_on_char,
    starts_with, str_byte_len, usize_to_string, views, parse_i64, parse_i64_str, i64_to_string,
    is_digit, trim, trim_seq, is_ascii_lower, contains_str, parse_u16, parse_u16_str, is_hex_digit,
    lowercase, to_lowercase, str_eq, str_is_empty, str_len,
};

verus! {

/// Key under which errors that belong to no single field are kept.
pub const NON_FIELD_ERRORS: &'static str = "__all__";


// ---------------------------------------------------------------------------
// ErrorList
// ---------------------------------------------------------------------------

/// An ordered list of error messages.
#[derive(Debug, Clone)]
pub struct ErrorList {
    pub errors: Vec<String>,
}

impl View for ErrorList {
    type V = Seq<Seq<char>>;

    open spec fn view(&self) -> Seq<Seq<char>> {
        views(self.errors@)
    }
}

/// The items of an error list rendered as `<li>` elements, one after another.
pub open spec fn list_items(errors: Seq<Seq<char>>) -> Seq<char>
    decreases errors.len(),
{
    if errors.len() == 0 {
        Seq::empty()
    } else {
        list_items(errors.drop_last()) + "<li>"@ + errors.last() + "</li>"@
    }
}

/// The JSON text of an array of strings, as `serde_json` writes it: each
/// string quoted and escaped, separated by commas, in brackets.
pub open spec fn json_string_array(items: Seq<Seq<char>>) -> Seq<char> {
    "["@ + join(items.map_values(|s: Seq<char>| json_quoted(s)), ","@) + "]"@
}

/// Serialises `items` as a compact JSON array of strings.
fn json_array_of_strings(items: &Vec<String>) -> (r: String)
    ensures
        r@ == json_string_array(views(items@)),
{
    let mut parts: Vec<String> = Vec::new();
    let mut i: usize = 0;
    while i < items.len()
        invariant
            i <= items@.len(),
            views(parts@) == views(items@).take(i as int).map_values(|s: Seq<char>| json_quoted(s)),
        decreases items.len() - i,
    {
        let ghost before = views(parts@);
        let q = json_quote(items[i].as_str());
        parts.push(q);
        assert(views(parts@) =~= before.push(q@));
        assert(views(items@).take(i + 1) =~= views(items@).take(i as int).push(items@[i as int]@));
        assert(views(parts@) =~= views(items@).take(i + 1).map_values(|s: Seq<char>| json_quoted(s)));
        i = i + 1;
    }
    assert(views(items@).take(items@.len() as int) =~= views(items@));
    let body = join_strings(&parts, ",");
    let r = concat3("[", body.as_str(), "]");
    r
}

impl ErrorList {
    /// An empty list.
    pub fn new() -> (r: Self)
        ensures
            r@ == Seq::<Seq<char>>::empty(),
    {
        ErrorList { errors: Vec::new() }
    }

    /// A list holding `errors`, in order.
    pub fn from_strings(errors: Vec<String>) -> (r: Self)
        ensures
            r@ == views(errors@),
    {
        ErrorList { errors }
    }

    /// The list has no error.
    pub fn is_empty(&self) -> (r: bool)
        ensures
            r == (self@.len() == 0),
    {
        self.errors.len() == 0
    }

    /// The number of errors.
    pub fn len(&self) -> (r: usize)
        ensures
            r == self@.len(),
    {
        self.errors.len()
    }

    /// Appends one error.
    pub fn add(&mut self, error: &str)
        ensures
            final(self)@ == old(self)@.push(error@),
    {
        self.errors.push(owned(error));
        assert(views(self.errors@) =~= views(old(self).errors@).push(error@));
    }

    /// Appends `errors`, in order.
    pub fn extend(&mut self, errors: Vec<String>)
        ensures
            final(self)@ == old(self)@ + views(errors@),
    {
        let mut i: usize = 0;
        while i < errors.len()
            invariant
                i <= errors.len(),
                self@ == old(self)@ + views(errors@).take(i as int),
            decreases errors.len() - i,
        {
            let e = errors[i].clone();
            let ghost before = self@;
            self.errors.push(e);
            assert(self@ =~= before.push(errors@[i as int]@));
            assert(views(errors@).take(i + 1) =~= views(errors@).take(i as int).push(errors@[i as int]@));
            i = i + 1;
        }
        assert(views(errors@).take(errors.len() as int) =~= views(errors@));
    }

    /// The errors as an HTML `<ul class="errorlist">`, or nothing when empty.
    pub fn as_ul(&self) -> (r: String)
        ensures
            r@ == (if self@.len() == 0 {
                Seq::empty()
            } else {
                "<ul class=\"errorlist\">"@ + list_items(self@) + "</ul>"@
            }),
    {
        if self.errors.len() == 0 {
            return String::new();
        }
        let mut html = owned("<ul class=\"errorlist\">");
        let ghost head = html@;
        let mut i: usize = 0;
        while i < self.errors.len()
            invariant
                i <= self.errors.len(),
                head == "<ul class=\"errorlist\">"@,
                html@ == head + list_items(self@.take(i as int)),
            decreases self.errors.len() - i,
        {
            assert(self@.take(i + 1).drop_last() =~= self@.take(i as int));
            html.append("<li>");
            html.append(self.errors[i].as_str());
            html.append("</li>");
            assert(html@ =~= head + list_items(self@.take(i + 1)));
            i = i + 1;
        }
        assert(self@.take(self.errors.len() as int) =~= self@);
        html.append("</ul>");
        html
    }

    /// The errors as a JSON array of strings.
    pub fn as_json(&self) -> (r: String)
        ensures
            r@ == json_string_array(self@),
    {
        json_array_of_strings(&self.errors)
    }

    /// The errors joined with `"; "`.
    pub fn as_text(&self) -> (r: String)
        ensures
            r@ == join(self@, "; "@),
    {
        join_strings(&self.errors, "; ")
    }

    /// The errors, borrowed, in order.
    pub fn iter(&self) -> (r: Vec<&str>)
        ensures
            r@.len() == self@.len(),
            forall|i: int| 0 <= i < r@.len() ==> r@[i]@ == self@[i],
    {
        let mut r: Vec<&str> = Vec::new();
        let mut i: usize = 0;
        while i < self.errors.len()
            invariant
                i <= self.errors.len(),
                r@.len() == i,
                forall|j: int| 0 <= j < i ==> r@[j]@ == self@[j],
            decreases self.errors.len() - i,
        {
            r.push(self.errors[i].as_str());
            i = i + 1;
        }
        r
    }

    /// The errors, taken by value, in order.
    pub fn into_iter(self) -> (r: Vec<String>)
        ensures
            views(r@) == self@,
    {
        self.errors
    }
}

impl From<Vec<String>> for ErrorList {
    fn from(errors: Vec<String>) -> (r: Self) {
        ErrorList { errors }
    }
}

impl vstd::std_specs::convert::FromSpecImpl<Vec<String>> for ErrorList {
    open spec fn obeys_from_spec() -> bool {
        true
    }

    open spec fn from_spec(v: Vec<String>) -> Self {
        ErrorList { errors: v }
    }
}

// ---------------------------------------------------------------------------
// The Validator trait
// ---------------------------------------------------------------------------

/// What a validation result says: success, or the message of the error.
pub open spec fn outcome_of(r: Result<(), String>) -> Result<(), Seq<char>> {
    match r {
        Ok(_) => Ok(()),
        Err(e) => Err(e@),
    }
}

/// An outcome with the field's name put before its error message.
pub open spec fn field_outcome(field_name: Seq<char>, o: Result<(), Seq<char>>) -> Result<(), Seq<char>> {
    match o {
        Ok(_) => Ok(()),
        Err(e) => Err(field_name + ": "@ + e),
    }
}

/// A check on a single text value.
pub trait Validator {
    /// What `validate` answers for `value`.
    spec fn outcome(&self, value: Seq<char>) -> Result<(), Seq<char>>;

    /// Checks `value`: `Ok` when it is acceptable, else the error message.
    fn validate(&self, value: &str) -> (r: Result<(), String>)
        ensures
            outcome_of(r) == self.outcome(value@),
    ;

    /// Checks `value`, naming the field in the error message.
    fn validate_field(&self, field_name: &str, value: &str) -> (r: Result<(), String>)
        ensures
            outcome_of(r) == field_outcome(field_name@, self.outcome(value@)),
    {
        match self.validate(value) {
            Ok(()) => Ok(()),
            Err(e) => Err(concat3(field_name, ": ", e.as_str())),
        }
    }
}

/// The message for a missing value.
pub open spec fn required_message() -> Seq<char> {
    "This field is required."@
}

/// The message for a malformed email address.
pub open spec fn email_message() -> Seq<char> {
    "Enter a valid email address."@
}

/// Rejects values that are empty or whitespace only.
pub struct RequiredValidator;

impl Validator for RequiredValidator {
    open spec fn outcome(&self, value: Seq<char>) -> Result<(), Seq<char>> {
        if all_whitespace(value) { Err(required_message()) } else { Ok(()) }
    }

    fn validate(&self, value: &str) -> (r: Result<(), String>) {
        if is_blank(value) {
            Err(owned("This field is required."))
        } else {
            Ok(())
        }
    }
}

/// The email rule: one `@` with text on both sides, a dot in the domain, and
/// a final domain label of at least two bytes.
pub open spec fn email_outcome(value: Seq<char>) -> Result<(), Seq<char>> {
    let parts = split_char(value, '@');
    if value.len() == 0 {
        Err(required_message())
    } else if parts.len() != 2 {
        Err(email_message())
    } else if parts[0].len() == 0 || parts[1].len() == 0 {
        Err(email_message())
    } else if !has_char(parts[1], '.') {
        Err(email_message())
    } else if str_len(split_char(parts[1], '.').last()) < 2 {
        Err(email_message())
    } else {
        Ok(())
    }
}

/// Checks the shape of an email address.
pub struct EmailValidator;

impl Validator for EmailValidator {
    open spec fn outcome(&self, value: Seq<char>) -> Result<(), Seq<char>> {
        email_outcome(value)
    }

    fn validate(&self, value: &str) -> (r: Result<(), String>) {
        let v = chars_of(value);
        if v.len() == 0 {
            return Err(owned("This field is required."));
        }
        let parts = split_on_char(value, '@');
        if parts.len() != 2 {
            return Err(owned("Enter a valid email address."));
        }
        let local = parts[0].as_str();
        let domain = parts[1].as_str();
        assert(local@ == split_char(value@, '@')[0]);
        assert(domain@ == split_char(value@, '@')[1]);
        if str_is_empty(local) || str_is_empty(domain) {
            return Err(owned("Enter a valid email address."));
        }
        let dv = chars_of(domain);
        if !contains_char(&dv, '.') {
            return Err(owned("Enter a valid email address."));
        }
        let domain_parts = split_on_char(domain, '.');
        proof { lemma_split_char_nonempty(domain@, '.'); }
        let tld = domain_parts[domain_parts.len() - 1].as_str();
        assert(tld@ == split_char(domain@, '.').last());
        if str_byte_len(tld) < 2 {
            return Err(owned("Enter a valid email address."));
        }
        Ok(())
    }
}

/// Accepts values that start with `http://` or `https://`.
pub struct URLValidator;

impl Validator for URLValidator {
    open spec fn outcome(&self, value: Seq<char>) -> Result<(), Seq<char>> {
        if !is_prefix("http://"@, value) && !is_prefix("https://"@, value) {
            Err("Enter a valid URL."@)
        } else {
            Ok(())
        }
    }

    fn validate(&self, value: &str) -> (r: Result<(), String>) {
        if !starts_with(value, "http://") && !starts_with(value, "https://") {
            Err(owned("Enter a valid URL."))
        } else {
            Ok(())
        }
    }
}

/// Rejects values shorter than `min_length` bytes.
pub struct MinLengthValidator {
    pub min_length: usize,
}

impl MinLengthValidator {
    /// A validator with the given minimum.
    pub fn new(min_length: usize) -> (r: Self)
        ensures
            r.min_length == min_length,
    {
        MinLengthValidator { min_length }
    }
}

impl Validator for MinLengthValidator {
    open spec fn outcome(&self, value: Seq<char>) -> Result<(), Seq<char>> {
        if str_len(value) < self.min_length {
            Err("Ensure this value has at least "@ + nat_str(self.min_length as nat)
                + " characters (it has "@ + nat_str(str_len(value) as nat) + ")."@)
        } else {
            Ok(())
        }
    }

    fn validate(&self, value: &str) -> (r: Result<(), String>) {
        let n = str_byte_len(value);
        if n < self.min_length {
            let mut m = owned("Ensure this value has at least ");
            m.append(usize_to_string(self.min_length).as_str());
            m.append(" characters (it has ");
            m.append(usize_to_string(n).as_str());
            m.append(").");
            Err(m)
        } else {
            Ok(())
        }
    }
}

/// Rejects values longer than `max_length` bytes.
pub struct MaxLengthValidator {
    pub max_length: usize,
}

impl MaxLengthValidator {
    /// A validator with the given maximum.
    pub fn new(max_length: usize) -> (r: Self)
        ensures
            r.max_length == max_length,
    {
        MaxLengthValidator { max_length }
    }
}

impl Validator for MaxLengthValidator {
    open spec fn outcome(&self, value: Seq<char>) -> Result<(), Seq<char>> {
        if str_len(value) > self.max_length {
            Err("Ensure this value has at most "@ + nat_str(self.max_length as nat)
                + " characters (it has "@ + nat_str(str_len(value) as nat) + ")."@)
        } else {
            Ok(())
        }
    }

    fn validate(&self, value: &str) -> (r: Result<(), String>) {
        let n = str_byte_len(value);
        if n > self.max_length {
            let mut m = owned("Ensure this value has at most ");
            m.append(usize_to_string(self.max_length).as_str());
            m.append(" characters (it has ");
            m.append(usize_to_string(n).as_str());
            m.append(").");
            Err(m)
        } else {
            Ok(())
        }
    }
}

/// The message for a value below an inclusive minimum.
pub open spec fn min_value_message(min: int) -> Seq<char> {
    "Ensure this value is greater than or equal to "@ + int_str(min) + "."@
}

/// The message for a value above an inclusive maximum.
pub open spec fn max_value_message(max: int) -> Seq<char> {
    "Ensure this value is less than or equal to "@ + int_str(max) + "."@
}

/// Accepts decimal integers in the `i64` range, within optional bounds.
pub struct IntegerValidator {
    pub min_value: Option<i64>,
    pub max_value: Option<i64>,
}

impl IntegerValidator {
    /// A validator with no bounds.
    pub fn new() -> (r: Self)
        ensures
            r.min_value is None,
            r.max_value is None,
    {
        IntegerValidator { min_value: None, max_value: None }
    }

    /// The same validator with an inclusive minimum.
    pub fn with_min(self, min: i64) -> (r: Self)
        ensures
            r.min_value == Some(min),
            r.max_value == self.max_value,
    {
        IntegerValidator { min_value: Some(min), max_value: self.max_value }
    }

    /// The same validator with an inclusive maximum.
    pub fn with_max(self, max: i64) -> (r: Self)
        ensures
            r.max_value == Some(max),
            r.min_value == self.min_value,
    {
        IntegerValidator { min_value: self.min_value, max_value: Some(max) }
    }
}

impl Default for IntegerValidator {
    fn default() -> (r: Self)
        ensures
            r.min_value is None,
            r.max_value is None,
    {
        IntegerValidator::new()
    }
}

impl Validator for IntegerValidator {
    open spec fn outcome(&self, value: Seq<char>) -> Result<(), Seq<char>> {
        match parse_i64(value) {
            None => Err("Enter a valid integer."@),
            Some(v) => {
                if self.min_value is Some && v < self.min_value->0 {
                    Err(min_value_message(self.min_value->0 as int))
                } else if self.max_value is Some && v > self.max_value->0 {
                    Err(max_value_message(self.max_value->0 as int))
                } else {
                    Ok(())
                }
            },
        }
    }

    fn validate(&self, value: &str) -> (r: Result<(), String>) {
        let int_val = match parse_i64_str(value) {
            Some(v) => v,
            None => {
                return Err(owned("Enter a valid integer."));
            },
        };
        if let Some(min) = self.min_value {
            if int_val < min {
                return Err(concat3("Ensure this value is greater than or equal to ", i64_to_string(min).as_str(), "."));
            }
        }
        if let Some(max) = self.max_value {
            if int_val > max {
                return Err(concat3("Ensure this value is less than or equal to ", i64_to_string(max).as_str(), "."));
            }
        }
        Ok(())
    }
}

/// The number of ASCII digits in `s`.
pub open spec fn digit_count(s: Seq<char>) -> nat
    decreases s.len(),
{
    if s.len() == 0 {
        0
    } else {
        digit_count(s.drop_last()) + (if is_digit(s.last()) { 1nat } else { 0nat })
    }
}

/// Counts the ASCII digits of `s`.
fn count_digits(s: &str) -> (n: usize)
    ensures
        n == digit_count(s@),
{
    let v = chars_of(s);
    let mut n: usize = 0;
    let mut i: usize = 0;
    while i < v.len()
        invariant
            v@ == s@,
            i <= v.len(),
            n == digit_count(v@.take(i as int)),
            n <= i,
        decreases v.len() - i,
    {
        assert(v@.take(i + 1).drop_last() =~= v@.take(i as int));
        if '0' <= v[i] && v[i] <= '9' {
            n = n + 1;
        }
        i = i + 1;
    }
    assert(v@.take(v.len() as int) =~= v@);
    n
}

/// Limits the number of digits of a decimal number, in all and after the point.
pub struct DecimalValidator {
    pub max_digits: usize,
    pub decimal_places: usize,
}

impl DecimalValidator {
    /// A validator with the given limits.
    pub fn new(max_digits: usize, decimal_places: usize) -> (r: Self)
        ensures
            r.max_digits == max_digits,
            r.decimal_places == decimal_places,
    {
        DecimalValidator { max_digits, decimal_places }
    }
}

/// The decimal rule: the trimmed value splits on `.` into one or two parts;
/// digits after the point and digits in all are bounded. The sign and any
/// other non-digit characters are not counted.
pub open spec fn decimal_outcome(max_digits: nat, decimal_places: nat, value: Seq<char>) -> Result<(), Seq<char>> {
    let parts = split_char(trim_seq(value), '.');
    if value.len() == 0 {
        Err(required_message())
    } else if parts.len() != 1 && parts.len() != 2 {
        Err("Enter a valid decimal number."@)
    } else {
        let int_digits = digit_count(parts[0]);
        let dec_digits = if parts.len() == 2 { digit_count(parts[1]) } else { 0 };
        if dec_digits > decimal_places {
            Err("Ensure that there are no more than "@ + nat_str(decimal_places) + " decimal places."@)
        } else if int_digits + dec_digits > max_digits {
            Err("Ensure that there are no more than "@ + nat_str(max_digits) + " digits in total."@)
        } else {
            Ok(())
        }
    }
}

impl Validator for DecimalValidator {
    open spec fn outcome(&self, value: Seq<char>) -> Result<(), Seq<char>> {
        decimal_outcome(self.max_digits as nat, self.decimal_places as nat, value)
    }

    fn validate(&self, value: &str) -> (r: Result<(), String>) {
        if str_is_empty(value) {
            return Err(owned("This field is required."));
        }
        let cleaned = trim(value);
        let parts = split_on_char(cleaned.as_str(), '.');
        if parts.len() != 1 && parts.len() != 2 {
            return Err(owned("Enter a valid decimal number."));
        }
        let int_digits = count_digits(parts[0].as_str());
        let dec_digits = if parts.len() == 2 { count_digits(parts[1].as_str()) } else { 0 };
        if dec_digits > self.decimal_places {
            return Err(concat3(
                "Ensure that there are no more than ",
                usize_to_string(self.decimal_places).as_str(),
                " decimal places.",
            ));
        }
        if int_digits as u128 + dec_digits as u128 > self.max_digits as u128 {
            return Err(concat3(
                "Ensure that there are no more than ",
                usize_to_string(self.max_digits).as_str(),
                " digits in total.",
            ));
        }
        Ok(())
    }
}

/// A character allowed in an ASCII slug: a lowercase letter, a digit or `-`.
pub open spec fn is_slug_char(c: char) -> bool {
    is_ascii_lower(c) || is_digit(c) || c == '-'
}

/// The slug rule: nonempty, made of slug characters, no hyphen at either
/// end, and no two hyphens in a row.
pub open spec fn slug_outcome(value: Seq<char>) -> Result<(), Seq<char>> {
    if value.len() == 0 {
        Err(required_message())
    } else if !(forall|i: int| 0 <= i < value.len() ==> is_slug_char(#[trigger] value[i])) {
        Err("Enter a valid 'slug' consisting of letters, numbers, underscores or hyphens."@)
    } else if value[0] == '-' || value.last() == '-' {
        Err("Slug cannot start or end with a hyphen."@)
    } else if contains_seq(value, "--"@) {
        Err("Slug cannot contain consecutive hyphens."@)
    } else {
        Ok(())
    }
}

/// Checks that `value` is an ASCII slug.
pub fn validate_slug(value: &str) -> (r: Result<(), String>)
    ensures
        outcome_of(r) == slug_outcome(value@),
{
    let v = chars_of(value);
    if v.len() == 0 {
        return Err(owned("This field is required."));
    }
    let mut i: usize = 0;
    while i < v.len()
        invariant
            v@ == value@,
            i <= v.len(),
            forall|j: int| 0 <= j < i ==> is_slug_char(#[trigger] v@[j]),
        decreases v.len() - i,
    {
        let c = v[i];
        if !(('a' <= c && c <= 'z') || ('0' <= c && c <= '9') || c == '-') {
            assert(!is_slug_char(value@[i as int]));
            return Err(owned("Enter a valid 'slug' consisting of letters, numbers, underscores or hyphens."));
        }
        i = i + 1;
    }
    if v[0] == '-' || v[v.len() - 1] == '-' {
        return Err(owned("Slug cannot start or end with a hyphen."));
    }
    if contains_str(value, "--") {
        return Err(owned("Slug cannot contain consecutive hyphens."));
    }
    Ok(())
}

/// Whether `c` is alphabetic or numeric in Unicode, as `char::is_alphanumeric` says.
pub uninterp spec fn unicode_alphanumeric(c: char) -> bool;

/// `char::is_alphanumeric`: the answer depends on the character alone.
#[verifier::external_body]
pub(crate) fn char_is_alphanumeric(c: char) -> (r: bool)
    ensures
        r == unicode_alphanumeric(c),
{
    c.is_alphanumeric()
}

/// A character allowed in a Unicode slug.
pub open spec fn is_unicode_slug_char(c: char) -> bool {
    unicode_alphanumeric(c) || c == '-' || c == '_'
}

/// The Unicode slug rule: nonempty, made of Unicode letters, numbers, `-`
/// and `_`, with no hyphen at either end.
pub open spec fn unicode_slug_outcome(value: Seq<char>) -> Result<(), Seq<char>> {
    if value.len() == 0 {
        Err(required_message())
    } else if !(forall|i: int| 0 <= i < value.len() ==> is_unicode_slug_char(#[trigger] value[i])) {
        Err("Enter a valid 'slug' consisting of Unicode letters, numbers, underscores, or hyphens."@)
    } else if value[0] == '-' || value.last() == '-' {
        Err("Slug cannot start or end with a hyphen."@)
    } else {
        Ok(())
    }
}

/// Checks that `value` is a Unicode slug.
pub fn validate_unicode_slug(value: &str) -> (r: Result<(), String>)
    ensures
        outcome_of(r) == unicode_slug_outcome(value@),
{
    let v = chars_of(value);
    if v.len() == 0 {
        return Err(owned("This field is required."));
    }
    let mut i: usize = 0;
    while i < v.len()
        invariant
            v@ == value@,
            i <= v.len(),
            forall|j: int| 0 <= j < i ==> is_unicode_slug_char(#[trigger] v@[j]),
        decreases v.len() - i,
    {
        let c = v[i];
        if !char_is_alphanumeric(c) && c != '-' && c != '_' {
            assert(!is_unicode_slug_char(value@[i as int]));
            return Err(owned("Enter a valid 'slug' consisting of Unicode letters, numbers, underscores, or hyphens."));
        }
        i = i + 1;
    }
    if v[0] == '-' || v[v.len() - 1] == '-' {
        return Err(owned("Slug cannot start or end with a hyphen."));
    }
    Ok(())
}

/// One dotted part of an IPv4 address: it reads as a `u16` of at most 255,
/// without a leading zero when longer than one byte.
pub open spec fn is_ipv4_octet(part: Seq<char>) -> bool {
    &&& parse_u16(part) is Some
    &&& parse_u16(part)->0 <= 255
    &&& !(str_len(part) > 1 && part.len() > 0 && part[0] == '0')
}

/// The IPv4 rule: four dotted parts, each an octet.
pub open spec fn is_ipv4(value: Seq<char>) -> bool {
    let parts = split_char(value, '.');
    parts.len() == 4 && forall|i: int| 0 <= i < 4 ==> is_ipv4_octet(#[trigger] parts[i])
}

/// Checks one octet.
fn ipv4_octet_ok(part: &str) -> (r: bool)
    ensures
        r == is_ipv4_octet(part@),
{
    let octet = match parse_u16_str(part) {
        Some(o) => o,
        None => {
            return false;
        },
    };
    if octet > 255 {
        return false;
    }
    let pv = chars_of(part);
    if str_byte_len(part) > 1 && pv.len() > 0 && pv[0] == '0' {
        return false;
    }
    true
}

/// Checks that `value` is a dotted-quad IPv4 address.
pub fn validate_ipv4_address(value: &str) -> (r: Result<(), String>)
    ensures
        outcome_of(r) == (if is_ipv4(value@) { Ok(()) } else { Err("Enter a valid IPv4 address."@) }),
{
    let parts = split_on_char(value, '.');
    if parts.len() != 4 {
        return Err(owned("Enter a valid IPv4 address."));
    }
    let mut i: usize = 0;
    while i < 4
        invariant
            parts.len() == 4,
            views(parts@) == split_char(value@, '.'),
            i <= 4,
            forall|j: int| 0 <= j < i ==> is_ipv4_octet(#[trigger] split_char(value@, '.')[j]),
        decreases 4 - i,
    {
        assert(parts@[i as int]@ == split_char(value@, '.')[i as int]);
        if !ipv4_octet_ok(parts[i].as_str()) {
            return Err(owned("Enter a valid IPv4 address."));
        }
        i = i + 1;
    }
    Ok(())
}

/// One colon-separated group of an IPv6 address: empty, or at most four
/// bytes of hexadecimal digits.
pub open spec fn is_ipv6_group(part: Seq<char>) -> bool {
    part.len() == 0 || ((forall|i: int| 0 <= i < part.len() ==> is_hex_digit(#[trigger] part[i])) && str_len(part) <= 4)
}

/// The IPv6 rule: nonempty, no `:::`, at least one colon, at most eight
/// groups, each a valid group.
pub open spec fn is_ipv6(value: Seq<char>) -> bool {
    let parts = split_char(value, ':');
    &&& value.len() > 0
    &&& !contains_seq(value, ":::"@)
    &&& has_char(value, ':')
    &&& parts.len() <= 8
    &&& forall|i: int| 0 <= i < parts.len() ==> is_ipv6_group(#[trigger] parts[i])
}

/// Checks one group.
fn ipv6_group_ok(part: &str) -> (r: bool)
    ensures
        r == is_ipv6_group(part@),
{
    let v = chars_of(part);
    if v.len() == 0 {
        return true;
    }
    let mut i: usize = 0;
    while i < v.len()
        invariant
            v@ == part@,
            i <= v.len(),
            forall|j: int| 0 <= j < i ==> is_hex_digit(#[trigger] v@[j]),
        decreases v.len() - i,
    {
        let c = v[i];
        if !(('0' <= c && c <= '9') || ('a' <= c && c <= 'f') || ('A' <= c && c <= 'F')) {
            assert(!is_hex_digit(part@[i as int]));
            return false;
        }
        i = i + 1;
    }
    str_byte_len(part) <= 4
}

/// Checks the shape of an IPv6 address.
pub fn validate_ipv6_address(value: &str) -> (r: Result<(), String>)
    ensures
        outcome_of(r) == (if is_ipv6(value@) { Ok(()) } else { Err("Enter a valid IPv6 address."@) }),
{
    if str_is_empty(value) {
        return Err(owned("Enter a valid IPv6 address."));
    }
    if contains_str(value, ":::") {
        return Err(owned("Enter a valid IPv6 address."));
    }
    let v = chars_of(value);
    if !contains_char(&v, ':') {
        return Err(owned("Enter a valid IPv6 address."));
    }
    let parts = split_on_char(value, ':');
    if parts.len() > 8 {
        return Err(owned("Enter a valid IPv6 address."));
    }
    let mut i: usize = 0;
    while i < parts.len()
        invariant
            views(parts@) == split_char(value@, ':'),
            i <= parts.len(),
            forall|j: int| 0 <= j < i ==> is_ipv6_group(#[trigger] split_char(value@, ':')[j]),
        decreases parts.len() - i,
    {
        assert(parts@[i as int]@ == split_char(value@, ':')[i as int]);
        if !ipv6_group_ok(parts[i].as_str()) {
            return Err(owned("Enter a valid IPv6 address."));
        }
        i = i + 1;
    }
    Ok(())
}

/// Rejects values that hold a NUL character.
pub struct ProhibitNullCharactersValidator;

impl Validator for ProhibitNullCharactersValidator {
    open spec fn outcome(&self, value: Seq<char>) -> Result<(), Seq<char>> {
        if has_char(value, '\0') { Err("Null characters are not allowed."@) } else { Ok(()) }
    }

    fn validate(&self, value: &str) -> (r: Result<(), String>) {
        let v = chars_of(value);
        if contains_char(&v, '\0') {
            Err(owned("Null characters are not allowed."))
        } else {
            Ok(())
        }
    }
}

/// Accepts values that contain `pattern` as a substring (any value when the
/// pattern is empty).
pub struct RegexValidator {
    pub pattern: String,
}

impl RegexValidator {
    /// A validator for the given pattern.
    pub fn new(pattern: &str) -> (r: Self)
        ensures
            r.pattern@ == pattern@,
    {
        RegexValidator { pattern: owned(pattern) }
    }
}

impl Validator for RegexValidator {
    open spec fn outcome(&self, value: Seq<char>) -> Result<(), Seq<char>> {
        if self.pattern@.len() == 0 || contains_seq(value, self.pattern@) {
            Ok(())
        } else {
            Err("Value does not match the required pattern."@)
        }
    }

    fn validate(&self, value: &str) -> (r: Result<(), String>) {
        if str_is_empty(self.pattern.as_str()) {
            Ok(())
        } else if contains_str(value, self.pattern.as_str()) {
            Ok(())
        } else {
            Err(owned("Value does not match the required pattern."))
        }
    }
}

/// The lowercase forms of `v`.
pub open spec fn lowercase_all(v: Seq<Seq<char>>) -> Seq<Seq<char>> {
    v.map_values(|e: Seq<char>| lowercase(e))
}

/// The views of a sequence of string slices.
pub open spec fn str_views(v: Seq<&str>) -> Seq<Seq<char>> {
    v.map_values(|e: &str| e@)
}

/// The part of a path after its last `/`.
pub open spec fn last_path_segment(value: Seq<char>) -> Seq<char> {
    split_char(value, '/').last()
}

/// The text after the last `.` of a file name (the whole name when it has none).
pub open spec fn extension_of(file_name: Seq<char>) -> Seq<char> {
    split_char(file_name, '.').last()
}

/// The file extension rule: an empty value passes; otherwise the extension of
/// the last path segment must be nonempty and, lowercased, one of `allowed`.
pub open spec fn extension_outcome(allowed: Seq<Seq<char>>, value: Seq<char>) -> Result<(), Seq<char>> {
    let ext = extension_of(last_path_segment(value));
    if value.len() == 0 {
        Ok(())
    } else if ext.len() == 0 {
        Err("File has no extension."@)
    } else if !allowed.contains(lowercase(ext)) {
        Err("File extension \""@ + ext + "\" is not allowed. Allowed extensions are: "@ + join(allowed, ", "@) + "."@)
    } else {
        Ok(())
    }
}

/// Accepts file names whose extension is in an allowed list.
pub struct FileExtensionValidator {
    pub allowed_extensions: Vec<String>,
}

/// The last piece of `s` split on `sep`.
fn last_piece(s: &str, sep: char) -> (r: String)
    ensures
        r@ == split_char(s@, sep).last(),
{
    let mut parts = split_on_char(s, sep);
    proof { lemma_split_char_nonempty(s@, sep); }
    let r = parts.pop().unwrap();
    r
}

/// `v` holds a string equal to `s`.
fn vec_contains(v: &Vec<String>, s: &str) -> (r: bool)
    ensures
        r == views(v@).contains(s@),
{
    let mut i: usize = 0;
    while i < v.len()
        invariant
            i <= v.len(),
            forall|j: int| 0 <= j < i ==> v@[j]@ != s@,
        decreases v.len() - i,
    {
        if str_eq(v[i].as_str(), s) {
            assert(views(v@)[i as int] == s@);
            return true;
        }
        i = i + 1;
    }
    assert forall|j: int| 0 <= j < views(v@).len() implies views(v@)[j] != s@ by {
        assert(views(v@)[j] == v@[j]@);
    }
    false
}

impl FileExtensionValidator {
    /// A validator for `extensions`, each lowercased.
    pub fn new(extensions: Vec<&str>) -> (r: Self)
        ensures
            views(r.allowed_extensions@) == lowercase_all(str_views(extensions@)),
    {
        let mut allowed: Vec<String> = Vec::new();
        let mut i: usize = 0;
        while i < extensions.len()
            invariant
                i <= extensions.len(),
                views(allowed@) == lowercase_all(str_views(extensions@)).take(i as int),
            decreases extensions.len() - i,
        {
            let l = to_lowercase(extensions[i]);
            let ghost before = allowed@;
            allowed.push(l);
            assert(views(allowed@) =~= views(before).push(l@));
            assert(lowercase_all(str_views(extensions@))[i as int] == lowercase(extensions@[i as int]@));
            assert(views(allowed@) =~= lowercase_all(str_views(extensions@)).take(i + 1));
            i = i + 1;
        }
        assert(lowercase_all(str_views(extensions@)).take(extensions.len() as int)
            =~= lowercase_all(str_views(extensions@)));
        FileExtensionValidator { allowed_extensions: allowed }
    }

    /// A validator for common image formats.
    pub fn images() -> (r: Self)
        ensures
            views(r.allowed_extensions@) == lowercase_all(seq![
                "jpg"@, "jpeg"@, "png"@, "gif"@, "bmp"@, "webp"@, "svg"@,
            ]),
    {
        let r = Self::new(vec!["jpg", "jpeg", "png", "gif", "bmp", "webp", "svg"]);
        assert(lowercase_all(str_views(seq!["jpg", "jpeg", "png", "gif", "bmp", "webp", "svg"]))
            =~= lowercase_all(seq!["jpg"@, "jpeg"@, "png"@, "gif"@, "bmp"@, "webp"@, "svg"@]));
        r
    }

    /// A validator for common document formats.
    pub fn documents() -> (r: Self)
        ensures
            views(r.allowed_extensions@) == lowercase_all(seq![
                "pdf"@, "doc"@, "docx"@, "xls"@, "xlsx"@, "txt"@, "csv"@,
            ]),
    {
        let r = Self::new(vec!["pdf", "doc", "docx", "xls", "xlsx", "txt", "csv"]);
        assert(lowercase_all(str_views(seq!["pdf", "doc", "docx", "xls", "xlsx", "txt", "csv"]))
            =~= lowercase_all(seq!["pdf"@, "doc"@, "docx"@, "xls"@, "xlsx"@, "txt"@, "csv"@]));
        r
    }
}

impl Validator for FileExtensionValidator {
    open spec fn outcome(&self, value: Seq<char>) -> Result<(), Seq<char>> {
        extension_outcome(views(self.allowed_extensions@), value)
    }

    fn validate(&self, value: &str) -> (r: Result<(), String>) {
        if str_is_empty(value) {
            return Ok(());
        }
        let file_name = last_piece(value, '/');
        let ext = last_piece(file_name.as_str(), '.');
        if str_is_empty(ext.as_str()) {
            return Err(owned("File has no extension."));
        }
        let lower = to_lowercase(ext.as_str());
        if !vec_contains(&self.allowed_extensions, lower.as_str()) {
            let mut m = owned("File extension \"");
            m.append(ext.as_str());
            m.append("\" is not allowed. Allowed extensions are: ");
            m.append(join_strings(&self.allowed_extensions, ", ").as_str());
            m.append(".");
            return Err(m);
        }
        Ok(())
    }
}

// ---------------------------------------------------------------------------
// Validation results
// ---------------------------------------------------------------------------

/// The views of errors kept by field.
pub open spec fn field_error_views(v: Seq<(String, ErrorList)>) -> Seq<(Seq<char>, Seq<Seq<char>>)> {
    v.map_values(|p: (String, ErrorList)| (p.0@, p.1@))
}

/// Each error of each field as `field: error`, field by field.
pub open spec fn labelled_errors(fe: Seq<(Seq<char>, Seq<Seq<char>>)>) -> Seq<Seq<char>>
    decreases fe.len(),
{
    if fe.len() == 0 {
        Seq::empty()
    } else {
        labelled_errors(fe.drop_last()) + fe.last().1.map_values(|e: Seq<char>| fe.last().0 + ": "@ + e)
    }
}

/// The outcome of a validation: whether it passed, the errors of the whole,
/// the errors by field, and the cleaned values when it passed.
#[derive(Debug, Clone)]
pub struct ValidationResult {
    pub is_valid: bool,
    pub errors: Vec<String>,
    pub field_errors: Vec<(String, ErrorList)>,
    pub cleaned_data: Option<Vec<(String, FormValue)>>,
}

/// Adds `error` under `field`.
fn add_to_field(fe: &mut Vec<(String, ErrorList)>, field: &str, error: &str)
    ensures
        field_error_views(final(fe)@) == error_add(field_error_views(old(fe)@), field@, error@),
{
    let ghost s = field_error_views(fe@);
    let i = key_position(fe, field);
    assert(assoc_index(s, field@, i as int)) by {
        assert forall|j: int| 0 <= j < i implies s[j].0 != field@ by {
            assert(s[j].0 == fe@[j].0@);
        }
    }
    proof { lemma_assoc_at(s, field@, errors_of(s, field@).push(error@), i as int); }
    if i < fe.len() {
        let mut list = ErrorList::from_strings(copy_strings(&fe[i].1.errors));
        list.add(error);
        let ghost lv = list@;
        fe.set(i, (owned(field), list));
        assert(field_error_views(fe@) =~= s.update(i as int, (field@, lv)));
    } else {
        let mut list = ErrorList::new();
        list.add(error);
        let ghost lv = list@;
        assert(lv =~= Seq::<Seq<char>>::empty().push(error@));
        fe.push((owned(field), list));
        assert(field_error_views(fe@) =~= s.push((field@, lv)));
    }
}

fn find_field<'a>(fe: &'a Vec<(String, ErrorList)>, field: &str) -> (r: Option<&'a ErrorList>)
    ensures
        match assoc_get(field_error_views(fe@), field@) {
            Some(l) => r matches Some(x) && x@ == l,
            None => r is None,
        },
{
    let ghost s = field_error_views(fe@);
    let i = key_position(fe, field);
    assert(assoc_index(s, field@, i as int)) by {
        assert forall|j: int| 0 <= j < i implies s[j].0 != field@ by {
            assert(s[j].0 == fe@[j].0@);
        }
    }
    proof { lemma_assoc_at(s, field@, Seq::<Seq<char>>::empty(), i as int); }
    if i < fe.len() {
        Some(&fe[i].1)
    } else {
        None
    }
}

impl ValidationResult {
    /// A passing result with no errors and nothing cleaned yet.
    pub fn valid() -> (r: Self)
        ensures
            r.is_valid,
            r.errors@.len() == 0,
            r.field_errors@.len() == 0,
            r.cleaned_data matches Some(d) && d@.len() == 0,
    {
        ValidationResult { is_valid: true, errors: Vec::new(), field_errors: Vec::new(), cleaned_data: Some(Vec::new()) }
    }

    /// A failing result with the errors of the whole.
    pub fn invalid(errors: Vec<String>) -> (r: Self)
        ensures
            !r.is_valid,
            r.errors == errors,
            r.field_errors@.len() == 0,
            r.cleaned_data is None,
    {
        ValidationResult { is_valid: false, errors, field_errors: Vec::new(), cleaned_data: None }
    }

    /// The same result failing, with `error` added under `field` and the
    /// cleaned values dropped.
    pub fn with_field_error(self, field: &str, error: &str) -> (r: Self)
        ensures
            !r.is_valid,
            r.errors == self.errors,
            field_error_views(r.field_errors@) == error_add(field_error_views(self.field_errors@), field@, error@),
            r.cleaned_data is None,
    {
        let mut fe = self.field_errors;
        add_to_field(&mut fe, field, error);
        ValidationResult { is_valid: false, errors: self.errors, field_errors: fe, cleaned_data: None }
    }

    /// Adds an error of the whole; the result fails.
    pub fn add_error(&mut self, error: String)
        ensures
            !final(self).is_valid,
            final(self).errors@ == old(self).errors@.push(error),
            final(self).field_errors == old(self).field_errors,
            final(self).cleaned_data == old(self).cleaned_data,
    {
        self.errors.push(error);
        self.is_valid = false;
    }

    /// Adds `error` under `field`; the result fails.
    pub fn add_field_error(&mut self, field: String, error: String)
        ensures
            !final(self).is_valid,
            final(self).errors == old(self).errors,
            field_error_views(final(self).field_errors@) == error_add(field_error_views(old(self).field_errors@), field@, error@),
            final(self).cleaned_data == old(self).cleaned_data,
    {
        add_to_field(&mut self.field_errors, field.as_str(), error.as_str());
        self.is_valid = false;
    }

    /// The errors of `field`; none when it has no entry.
    pub fn field_errors(&self, field: &str) -> (r: Vec<String>)
        ensures
            views(r@) == errors_of(field_error_views(self.field_errors@), field@),
    {
        match find_field(&self.field_errors, field) {
            Some(l) => copy_strings(&l.errors),
            None => Vec::new(),
        }
    }

    /// The errors of `field` joined with `"; "`; empty when it has no entry.
    pub fn field_error_text(&self, field: &str) -> (r: String)
        ensures
            r@ == join(errors_of(field_error_views(self.field_errors@), field@), "; "@),
    {
        match find_field(&self.field_errors, field) {
            Some(l) => l.as_text(),
            None => String::new(),
        }
    }

    /// The errors of `field` as an HTML list; empty when it has none.
    pub fn render_field_errors(&self, field: &str) -> (r: String)
        ensures
            r@ == (if errors_of(field_error_views(self.field_errors@), field@).len() == 0 {
                Seq::empty()
            } else {
                "<ul class=\"errorlist\">"@ + list_items(errors_of(field_error_views(self.field_errors@), field@))
                    + "</ul>"@
            }),
    {
        match find_field(&self.field_errors, field) {
            Some(l) => l.as_ul(),
            None => String::new(),
        }
    }

    /// The errors kept under `__all__` when there is such an entry, else the
    /// errors of the whole.
    pub fn non_field_errors(&self) -> (r: Vec<String>)
        ensures
            views(r@) == match assoc_get(field_error_views(self.field_errors@), "__all__"@) {
                Some(l) => l,
                None => views(self.errors@),
            },
    {
        match find_field(&self.field_errors, NON_FIELD_ERRORS) {
            Some(l) => copy_strings(&l.errors),
            None => copy_strings(&self.errors),
        }
    }

    /// Takes in another result: a failing one makes this one fail, its
    /// errors of the whole are added after these, and each of its field
    /// errors is added (which also makes this result fail).
    pub fn merge(&mut self, other: ValidationResult)
        ensures
            final(self).is_valid == (old(self).is_valid && other.is_valid
                && flat_errors(field_error_views(other.field_errors@)).len() == 0),
            views(final(self).errors@) == views(old(self).errors@) + views(other.errors@),
            field_error_views(final(self).field_errors@) == merge_errors(
                field_error_views(old(self).field_errors@),
                field_error_views(other.field_errors@),
            ),
            final(self).cleaned_data == old(self).cleaned_data,
    {
        if !other.is_valid {
            self.is_valid = false;
        }
        let ghost start_valid = self.is_valid;
        let mut more = copy_strings(&other.errors);
        let ghost e0 = views(self.errors@);
        self.errors.append(&mut more);
        assert(views(self.errors@) =~= e0 + views(other.errors@));
        let ghost base = field_error_views(self.field_errors@);
        let ghost ov = field_error_views(other.field_errors@);
        let mut i: usize = 0;
        while i < other.field_errors.len()
            invariant
                i <= other.field_errors@.len(),
                ov == field_error_views(other.field_errors@),
                field_error_views(self.field_errors@) == merge_errors_upto(base, ov, i as int),
                self.is_valid == (start_valid && flat_errors(ov.take(i as int)).len() == 0),
                views(self.errors@) == e0 + views(other.errors@),
                self.cleaned_data == old(self).cleaned_data,
            decreases other.field_errors.len() - i,
        {
            let field = other.field_errors[i].0.as_str();
            let list = &other.field_errors[i].1;
            let ghost before = field_error_views(self.field_errors@);
            let ghost valid_before = self.is_valid;
            let mut j: usize = 0;
            while j < list.errors.len()
                invariant
                    i < other.field_errors@.len(),
                    j <= list@.len(),
                    *list == other.field_errors@[i as int].1,
                    field@ == ov[i as int].0,
                    list@ == ov[i as int].1,
                    field_error_views(self.field_errors@) == error_add_all(before, field@, list@.take(j as int)),
                    self.is_valid == (valid_before && j == 0),
                    views(self.errors@) == e0 + views(other.errors@),
                    self.cleaned_data == old(self).cleaned_data,
                decreases list.errors.len() - j,
            {
                assert(list@.take(j + 1).drop_last() =~= list@.take(j as int));
                self.add_field_error(owned(field), list.errors[j].clone());
                j = j + 1;
            }
            assert(list@.take(j as int) =~= list@);
            assert(ov.take(i + 1).drop_last() =~= ov.take(i as int));
            i = i + 1;
        }
        assert(ov.take(i as int) =~= ov);
    }

    /// The errors of the whole, then each field error as `field: error`,
    /// joined with `"; "`.
    pub fn as_text(&self) -> (r: String)
        ensures
            r@ == join(views(self.errors@) + labelled_errors(field_error_views(self.field_errors@)), "; "@),
    {
        let mut parts = copy_strings(&self.errors);
        let ghost fe = field_error_views(self.field_errors@);
        let mut i: usize = 0;
        while i < self.field_errors.len()
            invariant
                i <= self.field_errors@.len(),
                fe == field_error_views(self.field_errors@),
                views(parts@) == views(self.errors@) + labelled_errors(fe.take(i as int)),
            decreases self.field_errors.len() - i,
        {
            let field = self.field_errors[i].0.as_str();
            let list = &self.field_errors[i].1;
            let ghost before = views(parts@);
            let mut j: usize = 0;
            while j < list.errors.len()
                invariant
                    i < self.field_errors@.len(),
                    j <= list@.len(),
                    *list == self.field_errors@[i as int].1,
                    field@ == fe[i as int].0,
                    views(parts@) == before + list@.take(j as int).map_values(|e: Seq<char>| field@ + ": "@ + e),
                decreases list.errors.len() - j,
            {
                let ghost prev = views(parts@);
                parts.push(concat3(field, ": ", list.errors[j].as_str()));
                assert(list@.take(j + 1).map_values(|e: Seq<char>| field@ + ": "@ + e)
                    =~= list@.take(j as int).map_values(|e: Seq<char>| field@ + ": "@ + e).push(field@ + ": "@ + list@[j as int]));
                assert(views(parts@) =~= prev.push(field@ + ": "@ + list@[j as int]));
                j = j + 1;
            }
            assert(list@.take(j as int) =~= list@);
            assert(fe.take(i + 1).drop_last() =~= fe.take(i as int));
            assert(fe.take(i + 1).last() == fe[i as int]);
            i = i + 1;
        }
        assert(fe.take(i as int) =~= fe);
        join_strings(&parts, "; ")
    }
}

} // verus!
