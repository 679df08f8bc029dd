//! The values a form carries, and URL-encoded form data.

use vstd::prelude::*;
use crate::apps::{assoc_get, assoc_put};
use crate::text::{
    all_digits, chars_of, first_index_of, has_char, owned, split_char, split_first,
    split_first_str, split_on_char, str_eq, views,
};

verus! {

/// A value submitted to a form or produced by cleaning it, shaped like JSON.
#[derive(Debug, Clone, PartialEq, Eq)]
pub enum FormValue {
    Null,
    Bool(bool),
    /// A number, as JSON text.
    Number(String),
    Text(String),
    /// An array or an object, as JSON text.
    Json(String),
}

/// The abstract form value.
pub enum Val {
    Null,
    Bool(bool),
    Number(Seq<char>),
    Text(Seq<char>),
    Json(Seq<char>),
}

impl View for FormValue {
    type V = Val;

    open spec fn view(&self) -> Val {
        match self {
            FormValue::Null => Val::Null,
            FormValue::Bool(b) => Val::Bool(*b),
            FormValue::Number(t) => Val::Number(t@),
            FormValue::Text(t) => Val::Text(t@),
            FormValue::Json(t) => Val::Json(t@),
        }
    }
}

/// The views of keyed values.
pub open spec fn pair_views(v: Seq<(String, FormValue)>) -> Seq<(Seq<char>, Val)> {
    v.map_values(|p: (String, FormValue)| (p.0@, p.1@))
}

/// The text of a value as `Value::as_str` gives it: only text has one; the
/// others read as empty.
pub open spec fn str_part(v: Val) -> Seq<char> {
    match v {
        Val::Text(s) => s,
        _ => Seq::empty(),
    }
}

/// The text a validator is given for a value: text as is, numbers as JSON
/// writes them, booleans as `true` or `false`, anything else empty.
pub open spec fn validator_text(v: Val) -> Seq<char> {
    match v {
        Val::Text(s) => s,
        Val::Number(t) => t,
        Val::Bool(b) => if b { "true"@ } else { "false"@ },
        _ => Seq::empty(),
    }
}

/// The text a widget shows for a value: text as is, anything else as JSON.
pub open spec fn display_text(v: Val) -> Seq<char> {
    match v {
        Val::Text(s) => s,
        Val::Number(t) => t,
        Val::Json(t) => t,
        Val::Bool(b) => if b { "true"@ } else { "false"@ },
        Val::Null => "null"@,
    }
}

impl FormValue {
    /// A copy of this value.
    pub fn duplicate(&self) -> (r: FormValue)
        ensures
            r@ == self@,
    {
        match self {
            FormValue::Null => FormValue::Null,
            FormValue::Bool(b) => FormValue::Bool(*b),
            FormValue::Number(t) => FormValue::Number(t.clone()),
            FormValue::Text(t) => FormValue::Text(t.clone()),
            FormValue::Json(t) => FormValue::Json(t.clone()),
        }
    }

    /// Whether the two values are the same.
    pub fn same_as(&self, other: &FormValue) -> (r: bool)
        ensures
            r == (self@ == other@),
    {
        match (self, other) {
            (FormValue::Null, FormValue::Null) => true,
            (FormValue::Bool(a), FormValue::Bool(b)) => *a == *b,
            (FormValue::Number(a), FormValue::Number(b)) => str_eq(a.as_str(), b.as_str()),
            (FormValue::Text(a), FormValue::Text(b)) => str_eq(a.as_str(), b.as_str()),
            (FormValue::Json(a), FormValue::Json(b)) => str_eq(a.as_str(), b.as_str()),
            _ => false,
        }
    }

    /// Whether this is the null value.
    pub fn is_null(&self) -> (r: bool)
        ensures
            r == (self@ is Null),
    {
        match self {
            FormValue::Null => true,
            _ => false,
        }
    }

    /// The text of a text value; empty for the others.
    pub fn str_part(&self) -> (r: &str)
        ensures
            r@ == str_part(self@),
    {
        match self {
            FormValue::Text(t) => t.as_str(),
            _ => {
                proof { reveal_strlit(""); }
                ""
            },
        }
    }

    /// The text a validator is given for this value.
    pub fn validator_text(&self) -> (r: String)
        ensures
            r@ == validator_text(self@),
    {
        match self {
            FormValue::Text(t) => t.clone(),
            FormValue::Number(t) => t.clone(),
            FormValue::Bool(b) => if *b { owned("true") } else { owned("false") },
            _ => {
                proof { reveal_strlit(""); }
                owned("")
            },
        }
    }

    /// The text a widget shows for this value.
    pub fn display_text(&self) -> (r: String)
        ensures
            r@ == display_text(self@),
    {
        match self {
            FormValue::Text(t) => t.clone(),
            FormValue::Number(t) => t.clone(),
            FormValue::Json(t) => t.clone(),
            FormValue::Bool(b) => if *b { owned("true") } else { owned("false") },
            FormValue::Null => owned("null"),
        }
    }
}

/// A copy of keyed values.
pub fn copy_values(data: &Vec<(String, FormValue)>) -> (r: Vec<(String, FormValue)>)
    ensures
        pair_views(r@) == pair_views(data@),
{
    let mut r: Vec<(String, FormValue)> = Vec::new();
    let mut i: usize = 0;
    while i < data.len()
        invariant
            i <= data.len(),
            pair_views(r@) == pair_views(data@).take(i as int),
        decreases data.len() - i,
    {
        let ghost before = pair_views(r@);
        let k = data[i].0.clone();
        let v = data[i].1.duplicate();
        r.push((k, v));
        assert(pair_views(r@) =~= before.push((data@[i as int].0@, data@[i as int].1@)));
        assert(pair_views(data@).take(i + 1) =~= pair_views(data@).take(i as int).push(pair_views(data@)[i as int]));
        i = i + 1;
    }
    assert(pair_views(data@).take(i as int) =~= pair_views(data@));
    r
}

/// The value under `key` in keyed values, if any.
pub fn lookup_value<'a>(data: &'a Vec<(String, FormValue)>, key: &str) -> (r: Option<&'a FormValue>)
    ensures
        match assoc_get(pair_views(data@), key@) {
            Some(v) => r matches Some(x) && x@ == v,
            None => r is None,
        },
{
    let ghost s = pair_views(data@);
    assert(s.skip(0) =~= s);
    let mut i: usize = 0;
    while i < data.len()
        invariant
            i <= data.len(),
            s == pair_views(data@),
            assoc_get(s, key@) == assoc_get(s.skip(i as int), key@),
        decreases data.len() - i,
    {
        assert(s.skip(i as int).drop_first() =~= s.skip(i + 1));
        assert(s.skip(i as int)[0] == s[i as int]);
        if str_eq(data[i].0.as_str(), key) {
            return Some(&data[i].1);
        }
        i = i + 1;
    }
    assert(s.skip(i as int).len() == 0);
    None
}

/// Keyed values with `key` set to `value`: replaced in place when present,
/// added last otherwise.
pub fn put_value(data: &mut Vec<(String, FormValue)>, key: &str, value: FormValue)
    ensures
        pair_views(final(data)@) == assoc_put(pair_views(old(data)@), key@, value@),
{
    let ghost s = pair_views(data@);
    let mut i: usize = 0;
    while i < data.len()
        invariant
            i <= data.len(),
            s == pair_views(old(data)@),
            data@ == old(data)@,
            forall|j: int| 0 <= j < i ==> s[j].0 != key@,
        decreases data.len() - i,
    {
        if str_eq(data[i].0.as_str(), key) {
            proof { crate::apps::lemma_assoc_at(s, key@, value@, i as int); }
            let ghost vv = value@;
            data.set(i, (owned(key), value));
            assert(pair_views(data@) =~= s.update(i as int, (key@, vv)));
            return;
        }
        i = i + 1;
    }
    proof { crate::apps::lemma_assoc_at(s, key@, value@, i as int); }
    let ghost vv = value@;
    data.push((owned(key), value));
    assert(pair_views(data@) =~= s.push((key@, vv)));
}

// ---------------------------------------------------------------------------
// URL-encoded form data
// ---------------------------------------------------------------------------

/// What `urlencoding::decode` gives for `s`: the percent-decoded text, or
/// `None` when the decoded bytes are not UTF-8.
pub uninterp spec fn url_decoded(s: Seq<char>) -> Option<Seq<char>>;

/// `urlencoding::decode`: percent-escapes decoded, `+` kept as it is. The
/// result is determined by `s`; text without `%` comes back unchanged.
#[verifier::external_body]
fn url_decode(s: &str) -> (r: Option<String>)
    ensures
        match r {
            Some(t) => url_decoded(s@) == Some(t@),
            None => url_decoded(s@) is None,
        },
        !has_char(s@, '%') ==> (r is Some && r->0@ == s@),
{
    match urlencoding::decode(s) {
        Ok(t) => Some(t.into_owned()),
        Err(_) => None,
    }
}

/// The decoded text, empty when decoding fails.
pub open spec fn decoded_or_empty(s: Seq<char>) -> Seq<char> {
    match url_decoded(s) {
        Some(t) => t,
        None => Seq::empty(),
    }
}

/// The form data that the first `n` `&`-separated pairs give: each pair with
/// an `=` sets its decoded key to its decoded value, a later pair replacing
/// an earlier one with the same key; a pair without `=` is skipped.
pub open spec fn form_data_upto(pairs: Seq<Seq<char>>, n: int) -> Seq<(Seq<char>, Val)>
    decreases n,
{
    if n <= 0 {
        Seq::empty()
    } else {
        let acc = form_data_upto(pairs, n - 1);
        let p = pairs[n - 1];
        if has_char(p, '=') {
            assoc_put(acc, decoded_or_empty(split_first(p, '=').0), Val::Text(decoded_or_empty(split_first(p, '=').1)))
        } else {
            acc
        }
    }
}

/// The form data a query string gives.
pub open spec fn form_data(query: Seq<char>) -> Seq<(Seq<char>, Val)> {
    form_data_upto(split_char(query, '&'), split_char(query, '&').len() as int)
}

fn decode_or_empty(s: &str) -> (r: String)
    ensures
        r@ == decoded_or_empty(s@),
{
    match url_decode(s) {
        Some(t) => t,
        None => {
            proof { reveal_strlit(""); }
            owned("")
        },
    }
}

fn has_equals(s: &str) -> (r: bool)
    ensures
        r == has_char(s@, '='),
{
    let v = chars_of(s);
    let mut i: usize = 0;
    while i < v.len()
        invariant
            i <= v.len(),
            v@ == s@,
            forall|j: int| 0 <= j < i ==> v@[j] != '=',
        decreases v.len() - i,
    {
        if v[i] == '=' {
            assert(s@.contains('='));
            return true;
        }
        i = i + 1;
    }
    assert(!s@.contains('='));
    false
}

/// Reads URL-encoded form data (`a=1&b=2`) into keyed text values.
pub fn parse_form_data(query_str: &str) -> (r: Vec<(String, FormValue)>)
    ensures
        pair_views(r@) == form_data(query_str@),
{
    let pairs = split_on_char(query_str, '&');
    let ghost ps = split_char(query_str@, '&');
    let mut data: Vec<(String, FormValue)> = Vec::new();
    let mut i: usize = 0;
    while i < pairs.len()
        invariant
            i <= pairs.len(),
            views(pairs@) == ps,
            pair_views(data@) == form_data_upto(ps, i as int),
        decreases pairs.len() - i,
    {
        let pair = pairs[i].as_str();
        assert(pair@ == ps[i as int]);
        if has_equals(pair) {
            let (k, v) = split_first_str(pair, '=');
            let key = decode_or_empty(k.as_str());
            let value = decode_or_empty(v.as_str());
            put_value(&mut data, key.as_str(), FormValue::Text(value));
        }
        i = i + 1;
    }
    data
}

// ---------------------------------------------------------------------------
// Floating-point literals
// ---------------------------------------------------------------------------

/// `s` without a leading `+` or `-`.
pub open spec fn unsigned_part(s: Seq<char>) -> Seq<char> {
    if s.len() > 0 && (s[0] == '+' || s[0] == '-') { s.drop_first() } else { s }
}

/// `s` spells a word, each letter in either of its two cases: `lower` and
/// `upper` are the word in lowercase and in uppercase.
pub open spec fn eq_ignore_case(s: Seq<char>, lower: Seq<char>, upper: Seq<char>) -> bool {
    s.len() == lower.len() && s.len() == upper.len()
        && forall|i: int| 0 <= i < s.len() ==> (#[trigger] s[i] == lower[i] || s[i] == upper[i])
}

/// `inf`, `infinity` or `nan`, in any case.
pub open spec fn is_nonfinite_word(s: Seq<char>) -> bool {
    eq_ignore_case(s, "inf"@, "INF"@) || eq_ignore_case(s, "infinity"@, "INFINITY"@)
        || eq_ignore_case(s, "nan"@, "NAN"@)
}

/// `s` with `E` read as `e`.
pub open spec fn fold_e(s: Seq<char>) -> Seq<char> {
    s.map_values(|c: char| if c == 'E' { 'e' } else { c })
}

/// Digits with at most one `.` among them, and at least one digit.
pub open spec fn is_mantissa(m: Seq<char>) -> bool {
    match first_index_of(m, '.') {
        None => m.len() > 0 && all_digits(m),
        Some(k) => m.len() >= 2 && all_digits(m.subrange(0, k)) && all_digits(m.subrange(k + 1, m.len() as int)),
    }
}

/// An optional sign followed by one or more digits.
pub open spec fn is_exponent_digits(e: Seq<char>) -> bool {
    unsigned_part(e).len() > 0 && all_digits(unsigned_part(e))
}

/// A mantissa, optionally followed by `e` or `E` and an exponent.
pub open spec fn is_decimal_number(s: Seq<char>) -> bool {
    match first_index_of(fold_e(s), 'e') {
        None => is_mantissa(s),
        Some(k) => is_mantissa(s.subrange(0, k)) && is_exponent_digits(s.subrange(k + 1, s.len() as int)),
    }
}

/// How the floating-point reading of text (`FromStr` for floats) takes it:
/// not at all, as a non-finite value (`inf`, `infinity`, `nan`), or as a
/// decimal number.
pub enum FloatSyntax {
    Invalid,
    NonFinite,
    Decimal,
}

/// The reading of `s` by the documented grammar of `FromStr` for floats: an
/// optional sign, then `inf`, `infinity` or `nan` in any case, or a decimal
/// number with an optional exponent.
pub open spec fn float_syntax(s: Seq<char>) -> FloatSyntax {
    if is_nonfinite_word(unsigned_part(s)) {
        FloatSyntax::NonFinite
    } else if is_decimal_number(unsigned_part(s)) {
        FloatSyntax::Decimal
    } else {
        FloatSyntax::Invalid
    }
}

fn digits_between(v: &Vec<char>, from: usize, to: usize) -> (r: bool)
    requires
        from <= to <= v.len(),
    ensures
        r == all_digits(v@.subrange(from as int, to as int)),
{
    let mut i: usize = from;
    while i < to
        invariant
            from <= i <= to <= v.len(),
            forall|j: int| from <= j < i ==> '0' <= #[trigger] v@[j] <= '9',
        decreases to - i,
    {
        if !('0' <= v[i] && v[i] <= '9') {
            assert(!crate::text::is_digit(v@.subrange(from as int, to as int)[i - from]));
            return false;
        }
        i = i + 1;
    }
    assert forall|j: int| 0 <= j < to - from implies crate::text::is_digit(#[trigger] v@.subrange(from as int, to as int)[j]) by {
        assert(v@.subrange(from as int, to as int)[j] == v@[from + j]);
    }
    true
}

fn first_index_between(v: &Vec<char>, from: usize, to: usize, c: char) -> (r: Option<usize>)
    requires
        from <= to <= v.len(),
    ensures
        match r {
            Some(k) => from <= k < to && first_index_of(v@.subrange(from as int, to as int), c) == Some(k - from),
            None => first_index_of(v@.subrange(from as int, to as int), c) is None,
        },
{
    let ghost s = v@.subrange(from as int, to as int);
    let mut i: usize = from;
    while i < to
        invariant
            from <= i <= to <= v.len(),
            s == v@.subrange(from as int, to as int),
            forall|j: int| 0 <= j < i - from ==> s[j] != c,
        decreases to - i,
    {
        assert(s[i - from] == v@[i as int]);
        if v[i] == c {
            proof { crate::text::lemma_first_index_of(s, c, i - from); }
            return Some(i);
        }
        i = i + 1;
    }
    proof { crate::text::lemma_first_index_of(s, c, s.len() as int); }
    None
}

fn fold_e_chars(v: &Vec<char>, from: usize) -> (r: Vec<char>)
    requires
        from <= v.len(),
    ensures
        r@ == fold_e(v@.subrange(from as int, v.len() as int)),
{
    let mut r: Vec<char> = Vec::new();
    let mut i: usize = from;
    while i < v.len()
        invariant
            from <= i <= v.len(),
            r@ == fold_e(v@.subrange(from as int, i as int)),
        decreases v.len() - i,
    {
        let c = v[i];
        let l = if c == 'E' { 'e' } else { c };
        r.push(l);
        assert(fold_e(v@.subrange(from as int, i + 1)) =~= fold_e(v@.subrange(from as int, i as int)).push(l));
        i = i + 1;
    }
    assert(v@.subrange(from as int, i as int) =~= v@.subrange(from as int, v.len() as int));
    r
}

fn eq_ignore_case_from(v: &Vec<char>, from: usize, lower: &Vec<char>, upper: &Vec<char>) -> (r: bool)
    requires
        from <= v.len(),
    ensures
        r == eq_ignore_case(v@.subrange(from as int, v.len() as int), lower@, upper@),
{
    let ghost s = v@.subrange(from as int, v.len() as int);
    if v.len() - from != lower.len() || lower.len() != upper.len() {
        return false;
    }
    let mut i: usize = 0;
    while i < lower.len()
        invariant
            i <= lower.len(),
            lower.len() == upper.len(),
            from + lower.len() == v.len(),
            s == v@.subrange(from as int, v.len() as int),
            forall|j: int| 0 <= j < i ==> (#[trigger] s[j] == lower@[j] || s[j] == upper@[j]),
        decreases lower.len() - i,
    {
        let c = v[from + i];
        assert(s[i as int] == c);
        if !(c == lower[i] || c == upper[i]) {
            return false;
        }
        i = i + 1;
    }
    true
}

fn mantissa_ok(v: &Vec<char>, from: usize, to: usize) -> (r: bool)
    requires
        from <= to <= v.len(),
    ensures
        r == is_mantissa(v@.subrange(from as int, to as int)),
{
    let ghost m = v@.subrange(from as int, to as int);
    match first_index_between(v, from, to, '.') {
        None => {
            assert(first_index_of(m, '.') is None);
            if from < to { digits_between(v, from, to) } else { false }
        },
        Some(k) => {
            assert(m.subrange(0, k - from) =~= v@.subrange(from as int, k as int));
            assert(m.subrange(k - from + 1, m.len() as int) =~= v@.subrange(k + 1, to as int));
            if to - from >= 2 {
                let a = digits_between(v, from, k);
                let b = digits_between(v, k + 1, to);
                a && b
            } else {
                false
            }
        },
    }
}

fn exponent_ok(v: &Vec<char>, from: usize) -> (r: bool)
    requires
        from <= v.len(),
    ensures
        r == is_exponent_digits(v@.subrange(from as int, v.len() as int)),
{
    let ghost e = v@.subrange(from as int, v.len() as int);
    let start = if from < v.len() && (v[from] == '+' || v[from] == '-') { from + 1 } else { from };
    assert(unsigned_part(e) =~= v@.subrange(start as int, v.len() as int));
    start < v.len() && digits_between(v, start, v.len())
}

/// The reading of `s` as a floating-point literal.
pub fn read_float_syntax(s: &str) -> (r: FloatSyntax)
    ensures
        r == float_syntax(s@),
{
    let v = chars_of(s);
    let start: usize = if v.len() > 0 && (v[0] == '+' || v[0] == '-') { 1 } else { 0 };
    let ghost u = unsigned_part(s@);
    assert(u =~= v@.subrange(start as int, v.len() as int));
    if eq_ignore_case_from(&v, start, &chars_of("inf"), &chars_of("INF"))
        || eq_ignore_case_from(&v, start, &chars_of("infinity"), &chars_of("INFINITY"))
        || eq_ignore_case_from(&v, start, &chars_of("nan"), &chars_of("NAN")) {
        return FloatSyntax::NonFinite;
    }
    let folded = fold_e_chars(&v, start);
    assert(folded@.subrange(0, folded@.len() as int) =~= folded@);
    let ok = match first_index_between(&folded, 0, folded.len(), 'e') {
        None => mantissa_ok(&v, start, v.len()),
        Some(k) => {
            assert(u.subrange(0, k as int) =~= v@.subrange(start as int, (start + k) as int));
            assert(u.subrange(k + 1, u.len() as int) =~= v@.subrange((start + k + 1) as int, v.len() as int));
            mantissa_ok(&v, start, start + k) && exponent_ok(&v, start + k + 1)
        },
    };
    if ok { FloatSyntax::Decimal } else { FloatSyntax::Invalid }
}

} // verus!
