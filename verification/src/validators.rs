//! Validator functions: each answers `None` for a valid value, or the
//! message that says why it is not.

use vstd::prelude::*;
use crate::text::{
    all_whitespace, concat2, concat3, contains_seq, contains_str, has_char, is_blank, is_hex_digit, join,
    nat_str, owned, parse_i64, parse_i64_str, parse_u32, parse_u32_str, split_char, str_byte_len, str_eq,
    str_len, u64_to_string, usize_to_string, chars_of, last_occurrence,
};

verus! {

// ---------------------------------------------------------------------------
// Regular expressions
// ---------------------------------------------------------------------------

/// `pattern` compiles as a regular expression of the `regex` crate.
pub uninterp spec fn regex_compiles(pattern: Seq<char>) -> bool;

/// The compiled `pattern` matches somewhere in `text`.
pub uninterp spec fn regex_matches(pattern: Seq<char>, text: Seq<char>) -> bool;

/// The capture groups after the whole match (group 1 on) of the first match
/// of `pattern` in `text`, if there is one; a group that took no part is `None`.
pub uninterp spec fn regex_captures(pattern: Seq<char>, text: Seq<char>) -> Option<Seq<Option<Seq<char>>>>;

/// `Regex::new(pattern)` and then `is_match(text)` of the `regex` crate:
/// `None` when the pattern does not compile; both outcomes are determined by
/// the pattern and the text.
#[verifier::external_body]
fn regex_is_match(pattern: &str, text: &str) -> (r: Option<bool>)
    ensures
        match r {
            Some(b) => regex_compiles(pattern@) && b == regex_matches(pattern@, text@),
            None => !regex_compiles(pattern@),
        },
{
    match regex::Regex::new(pattern) {
        Ok(re) => Some(re.is_match(text)),
        Err(_) => None,
    }
}

/// `Regex::new(pattern)` and then `captures(text)` of the `regex` crate, the
/// groups from 1 on read as text: `None` when the pattern does not compile.
#[verifier::external_body]
fn regex_capture_groups(pattern: &str, text: &str) -> (r: Option<Option<Vec<Option<String>>>>)
    ensures
        match r {
            Some(Some(g)) => regex_compiles(pattern@)
                && regex_captures(pattern@, text@) == Some(g@.map_values(|o: Option<String>| match o { Some(s) => Some(s@), None => None })),
            Some(None) => regex_compiles(pattern@) && regex_captures(pattern@, text@) is None,
            None => !regex_compiles(pattern@),
        },
{
    match regex::Regex::new(pattern) {
        Ok(re) => match re.captures(text) {
            Some(caps) => {
                let mut groups: Vec<Option<String>> = Vec::new();
                for i in 1..caps.len() {
                    groups.push(caps.get(i).map(|m| m.as_str().to_string()));
                }
                Some(Some(groups))
            },
            None => Some(None),
        },
        Err(_) => None,
    }
}

/// A value the pattern rejects (or a pattern that does not compile) gets the message.
pub open spec fn pattern_outcome(pattern: Seq<char>, value: Seq<char>, message: Seq<char>) -> Option<Seq<char>> {
    if regex_compiles(pattern) && regex_matches(pattern, value) { None } else { Some(message) }
}

fn check_pattern(pattern: &str, value: &str, message: &str) -> (r: Option<String>)
    ensures
        match r {
            Some(m) => pattern_outcome(pattern@, value@, message@) == Some(m@),
            None => pattern_outcome(pattern@, value@, message@) is None,
        },
{
    match regex_is_match(pattern, value) {
        Some(true) => None,
        _ => Some(owned(message)),
    }
}

/// The view of an optional message.
pub open spec fn opt_msg(r: Option<String>) -> Option<Seq<char>> {
    match r {
        Some(m) => Some(m@),
        None => None,
    }
}

// ---------------------------------------------------------------------------
// Validators
// ---------------------------------------------------------------------------

/// A named validator function.
pub struct Validator<F> {
    pub name: &'static str,
    pub func: F,
}

impl<F> Validator<F> {
    /// A validator with the given name and function.
    pub fn new(name: &'static str, func: F) -> (r: Self)
        ensures
            r.name == name,
            r.func == func,
    {
        Validator { name, func }
    }
}

/// Rejects values that are empty or whitespace only.
pub fn validate_required(value: &str) -> (r: Option<String>)
    ensures
        opt_msg(r) == (if all_whitespace(value@) { Some("This field is required."@) } else { None }),
{
    if is_blank(value) { Some(owned("This field is required.")) } else { None }
}

/// Rejects values longer than `max` bytes.
pub fn validate_max_length(value: &str, max: usize) -> (r: Option<String>)
    ensures
        opt_msg(r) == (if str_len(value@) > max {
            Some("Ensure this value has at most "@ + nat_str(max as nat) + " characters."@)
        } else {
            None
        }),
{
    if str_byte_len(value) > max {
        Some(concat3("Ensure this value has at most ", usize_to_string(max).as_str(), " characters."))
    } else {
        None
    }
}

/// Rejects values shorter than `min` bytes.
pub fn validate_min_length(value: &str, min: usize) -> (r: Option<String>)
    ensures
        opt_msg(r) == (if str_len(value@) < min {
            Some("Ensure this value has at least "@ + nat_str(min as nat) + " characters."@)
        } else {
            None
        }),
{
    if str_byte_len(value) < min {
        Some(concat3("Ensure this value has at least ", usize_to_string(min).as_str(), " characters."))
    } else {
        None
    }
}

/// Checks an email address against `^[a-zA-Z0-9._%+-]+@[a-zA-Z0-9.-]+\.[a-zA-Z]{2,}$`.
pub fn validate_email(value: &str) -> (r: Option<String>)
    ensures
        opt_msg(r) == pattern_outcome("^[a-zA-Z0-9._%+-]+@[a-zA-Z0-9.-]+\\.[a-zA-Z]{2,}$"@, value@, "Enter a valid email address."@),
{
    check_pattern("^[a-zA-Z0-9._%+-]+@[a-zA-Z0-9.-]+\\.[a-zA-Z]{2,}$", value, "Enter a valid email address.")
}

/// Checks a URL against `^https?://[^\s/$.?#].[^\s]*$`.
pub fn validate_url(value: &str) -> (r: Option<String>)
    ensures
        opt_msg(r) == pattern_outcome("^https?://[^\\s/$.?#].[^\\s]*$"@, value@, "Enter a valid URL."@),
{
    check_pattern("^https?://[^\\s/$.?#].[^\\s]*$", value, "Enter a valid URL.")
}

/// Checks a slug against `^[-a-zA-Z0-9_]+$`.
pub fn validate_slug(value: &str) -> (r: Option<String>)
    ensures
        opt_msg(r) == pattern_outcome("^[-a-zA-Z0-9_]+$"@, value@, "Enter a valid slug consisting of letters, numbers, underscores or hyphens."@),
{
    check_pattern("^[-a-zA-Z0-9_]+$", value, "Enter a valid slug consisting of letters, numbers, underscores or hyphens.")
}

/// The IPv4 pattern: four dot-separated groups of one to three digits.
pub open spec fn ipv4_pattern() -> Seq<char> {
    "^(\\d{1,3})\\.(\\d{1,3})\\.(\\d{1,3})\\.(\\d{1,3})$"@
}

/// A captured group reads as a `u32` of at most 255.
pub open spec fn octet_ok(g: Option<Seq<char>>) -> bool {
    match g {
        Some(t) => parse_u32(t) is Some && parse_u32(t)->0 <= 255,
        None => false,
    }
}

/// The IPv4 rule: the pattern matches and its four groups are octets.
pub open spec fn ipv4_ok(value: Seq<char>) -> bool {
    regex_compiles(ipv4_pattern()) && match regex_captures(ipv4_pattern(), value) {
        Some(g) => g.len() >= 4 && forall|i: int| 0 <= i < 4 ==> octet_ok(#[trigger] g[i]),
        None => false,
    }
}

/// Checks a dotted-quad IPv4 address.
pub fn validate_ipv4_address(value: &str) -> (r: Option<String>)
    ensures
        opt_msg(r) == (if ipv4_ok(value@) { None } else { Some("Enter a valid IPv4 address."@) }),
{
    let groups = match regex_capture_groups("^(\\d{1,3})\\.(\\d{1,3})\\.(\\d{1,3})\\.(\\d{1,3})$", value) {
        Some(Some(g)) => g,
        _ => {
            return Some(owned("Enter a valid IPv4 address."));
        },
    };
    let ghost gv = groups@.map_values(|o: Option<String>| match o { Some(s) => Some(s@), None => None });
    if groups.len() < 4 {
        return Some(owned("Enter a valid IPv4 address."));
    }
    let mut i: usize = 0;
    while i < 4
        invariant
            groups@.len() >= 4,
            regex_compiles(ipv4_pattern()),
            regex_captures(ipv4_pattern(), value@) == Some(gv),
            gv == groups@.map_values(|o: Option<String>| match o { Some(s) => Some(s@), None => None }),
            i <= 4,
            forall|j: int| 0 <= j < i ==> octet_ok(#[trigger] gv[j]),
        decreases 4 - i,
    {
        let ok = match &groups[i] {
            Some(t) => match parse_u32_str(t.as_str()) {
                Some(n) => n <= 255,
                None => false,
            },
            None => false,
        };
        assert(ok == octet_ok(gv[i as int]));
        if !ok {
            return Some(owned("Enter a valid IPv4 address."));
        }
        i = i + 1;
    }
    None
}

/// The number of times `c` occurs in `s`.
pub open spec fn char_count(s: Seq<char>, c: char) -> nat
    decreases s.len(),
{
    if s.len() == 0 { 0 } else { char_count(s.drop_last(), c) + (if s.last() == c { 1nat } else { 0nat }) }
}

/// The IPv6 rule: only hexadecimal digits and colons, and either a `::` or
/// at least two colons.
pub open spec fn ipv6_ok(value: Seq<char>) -> bool {
    let all_hex_or_colon = forall|i: int| 0 <= i < value.len() ==> is_hex_digit(#[trigger] value[i]) || value[i] == ':';
    (contains_seq(value, "::"@) && all_hex_or_colon) || (char_count(value, ':') >= 2 && all_hex_or_colon)
}

/// Checks the shape of an IPv6 address.
pub fn validate_ipv6_address(value: &str) -> (r: Option<String>)
    ensures
        opt_msg(r) == (if ipv6_ok(value@) { None } else { Some("Enter a valid IPv6 address."@) }),
{
    let v = chars_of(value);
    let mut all_ok = true;
    let mut colons: usize = 0;
    let mut i: usize = 0;
    while i < v.len()
        invariant
            v@ == value@,
            i <= v@.len(),
            colons == char_count(v@.take(i as int), ':'),
            colons <= i,
            all_ok == (forall|j: int| 0 <= j < i ==> is_hex_digit(#[trigger] v@[j]) || v@[j] == ':'),
        decreases v.len() - i,
    {
        assert(v@.take(i + 1).drop_last() =~= v@.take(i as int));
        let c = v[i];
        if c == ':' {
            colons = colons + 1;
        }
        if !(('0' <= c && c <= '9') || ('a' <= c && c <= 'f') || ('A' <= c && c <= 'F') || c == ':') {
            all_ok = false;
        }
        i = i + 1;
    }
    assert(v@.take(v@.len() as int) =~= v@);
    if contains_str(value, "::") && all_ok {
        None
    } else if colons >= 2 && all_ok {
        None
    } else {
        Some(owned("Enter a valid IPv6 address."))
    }
}

/// Accepts values that read as an `i64`.
pub fn validate_integer(value: &str) -> (r: Option<String>)
    ensures
        opt_msg(r) == (if parse_i64(value@) is Some { None } else { Some("Enter a valid integer."@) }),
{
    if parse_i64_str(value).is_some() { None } else { Some(owned("Enter a valid integer.")) }
}

/// The views of a list of string slices.
pub open spec fn slice_views(v: Seq<&str>) -> Seq<Seq<char>> {
    v.map_values(|s: &str| s@)
}

fn slice_contains(items: &[&str], s: &str) -> (r: bool)
    ensures
        r == slice_views(items@).contains(s@),
{
    let mut i: usize = 0;
    while i < items.len()
        invariant
            i <= items@.len(),
            forall|j: int| 0 <= j < i ==> items@[j]@ != s@,
        decreases items.len() - i,
    {
        if str_eq(items[i], s) {
            assert(slice_views(items@)[i as int] == s@);
            return true;
        }
        i = i + 1;
    }
    assert forall|j: int| 0 <= j < slice_views(items@).len() implies slice_views(items@)[j] != s@ by {
        assert(slice_views(items@)[j] == items@[j]@);
    }
    false
}

fn join_slices(items: &[&str], sep: &str) -> (r: String)
    ensures
        r@ == join(slice_views(items@), sep@),
{
    let ghost vs = slice_views(items@);
    let mut r = String::new();
    let mut i: usize = 0;
    while i < items.len()
        invariant
            i <= items@.len(),
            vs == slice_views(items@),
            r@ == join(vs.take(i as int), sep@),
        decreases items.len() - i,
    {
        assert(vs.take(i + 1).drop_last() =~= vs.take(i as int));
        if i > 0 {
            r.append(sep);
        }
        r.append(items[i]);
        i = i + 1;
    }
    assert(vs.take(items@.len() as int) =~= vs);
    r
}

/// Accepts a value that is one of `choices`.
pub fn validate_choice(value: &str, choices: &[&str]) -> (r: Option<String>)
    ensures
        opt_msg(r) == (if slice_views(choices@).contains(value@) {
            None
        } else {
            Some("Select a valid choice. "@ + value@ + " is not one of the available choices."@)
        }),
{
    if slice_contains(choices, value) {
        None
    } else {
        Some(concat3("Select a valid choice. ", value, " is not one of the available choices."))
    }
}

/// The text after the last `.` of a file name, if it has a `.`.
pub open spec fn last_extension(filename: Seq<char>) -> Option<Seq<char>> {
    match last_occurrence(filename, "."@) {
        Some(i) => Some(filename.subrange(i + 1, filename.len() as int)),
        None => None,
    }
}

/// Accepts a file name whose text after the last `.` is one of `allowed`.
pub fn validate_file_extension(filename: &str, allowed: &[&str]) -> (r: Option<String>)
    ensures
        opt_msg(r) == (match last_extension(filename@) {
            Some(ext) => if slice_views(allowed@).contains(ext) { None } else {
                Some("File extension is not allowed. Allowed extensions are: "@ + join(slice_views(allowed@), ", "@) + "."@)
            },
            None => Some("File extension is not allowed. Allowed extensions are: "@ + join(slice_views(allowed@), ", "@) + "."@),
        }),
{
    let chars = chars_of(filename);
    proof { reveal_strlit("."); }
    assert("."@.len() == 1);
    let dot = crate::text::rfind_str(&chars, ".");
    let ok = match dot {
        Some(i) => {
            let n = chars.len();
            assert(i + 1 <= n);
            let ext = crate::text::string_from_range(&chars, i + 1, n);
            slice_contains(allowed, ext.as_str())
        },
        None => false,
    };
    if ok {
        None
    } else {
        let mut m = owned("File extension is not allowed. Allowed extensions are: ");
        m.append(join_slices(allowed, ", ").as_str());
        m.append(".");
        Some(m)
    }
}

/// Rejects sizes above `max_bytes`, naming the limit in whole kilobytes.
pub fn validate_file_size(size: u64, max_bytes: u64) -> (r: Option<String>)
    ensures
        opt_msg(r) == (if size > max_bytes {
            Some("File too large. Maximum size is "@ + nat_str((max_bytes / 1024) as nat) + " KB."@)
        } else {
            None
        }),
{
    if size > max_bytes {
        Some(concat3("File too large. Maximum size is ", u64_to_string(max_bytes / 1024).as_str(), " KB."))
    } else {
        None
    }
}

// ---------------------------------------------------------------------------
// Named validators
// ---------------------------------------------------------------------------

/// `required`: `validate_required`.
pub fn required_validator() -> (r: Validator<impl Fn(&str) -> Option<String>>)
    ensures
        r.name@ == "required"@,
        forall|v: &str| r.func.requires((v,)),
        forall|v: &str, o: Option<String>| r.func.ensures((v,), o) ==>
            opt_msg(o) == (if all_whitespace(v@) { Some("This field is required."@) } else { None }),
{
    Validator::new("required", validate_required)
}

/// `email`: `validate_email`.
pub fn email_validator() -> (r: Validator<impl Fn(&str) -> Option<String>>)
    ensures
        r.name@ == "email"@,
        forall|v: &str| r.func.requires((v,)),
        forall|v: &str, o: Option<String>| r.func.ensures((v,), o) ==>
            opt_msg(o) == pattern_outcome("^[a-zA-Z0-9._%+-]+@[a-zA-Z0-9.-]+\\.[a-zA-Z]{2,}$"@, v@, "Enter a valid email address."@),
{
    Validator::new("email", validate_email)
}

/// `url`: `validate_url`.
pub fn url_validator() -> (r: Validator<impl Fn(&str) -> Option<String>>)
    ensures
        r.name@ == "url"@,
        forall|v: &str| r.func.requires((v,)),
        forall|v: &str, o: Option<String>| r.func.ensures((v,), o) ==>
            opt_msg(o) == pattern_outcome("^https?://[^\\s/$.?#].[^\\s]*$"@, v@, "Enter a valid URL."@),
{
    Validator::new("url", validate_url)
}

/// `slug`: `validate_slug`.
pub fn slug_validator() -> (r: Validator<impl Fn(&str) -> Option<String>>)
    ensures
        r.name@ == "slug"@,
        forall|v: &str| r.func.requires((v,)),
        forall|v: &str, o: Option<String>| r.func.ensures((v,), o) ==>
            opt_msg(o) == pattern_outcome("^[-a-zA-Z0-9_]+$"@, v@, "Enter a valid slug consisting of letters, numbers, underscores or hyphens."@),
{
    Validator::new("slug", validate_slug)
}

/// `integer`: `validate_integer`.
pub fn integer_validator() -> (r: Validator<impl Fn(&str) -> Option<String>>)
    ensures
        r.name@ == "integer"@,
        forall|v: &str| r.func.requires((v,)),
        forall|v: &str, o: Option<String>| r.func.ensures((v,), o) ==>
            opt_msg(o) == (if parse_i64(v@) is Some { None } else { Some("Enter a valid integer."@) }),
{
    Validator::new("integer", validate_integer)
}

/// `ipv4`: `validate_ipv4_address`.
pub fn ipv4_validator() -> (r: Validator<impl Fn(&str) -> Option<String>>)
    ensures
        r.name@ == "ipv4"@,
        forall|v: &str| r.func.requires((v,)),
        forall|v: &str, o: Option<String>| r.func.ensures((v,), o) ==>
            opt_msg(o) == (if ipv4_ok(v@) { None } else { Some("Enter a valid IPv4 address."@) }),
{
    Validator::new("ipv4", validate_ipv4_address)
}

} // verus!
