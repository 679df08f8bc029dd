//! Text primitives shared by the rest of the library: character sequences,
//! searching, joining and decimal rendering.

use vstd::prelude::*;

verus! {

// ---------------------------------------------------------------------------
// Specifications over character sequences
// ---------------------------------------------------------------------------

/// `p` is a prefix of `s`.
pub open spec fn is_prefix(p: Seq<char>, s: Seq<char>) -> bool {
    p.len() <= s.len() && s.subrange(0, p.len() as int) == p
}

/// `p` is a suffix of `s`.
pub open spec fn is_suffix(p: Seq<char>, s: Seq<char>) -> bool {
    p.len() <= s.len() && s.subrange(s.len() - p.len(), s.len() as int) == p
}

/// `t` occurs in `s` starting at index `i`.
pub open spec fn occurs_at(s: Seq<char>, t: Seq<char>, i: int) -> bool {
    0 <= i && i + t.len() <= s.len() && s.subrange(i, i + t.len()) == t
}

/// `t` occurs somewhere in `s` (the empty sequence occurs everywhere).
pub open spec fn contains_seq(s: Seq<char>, t: Seq<char>) -> bool {
    exists|i: int| occurs_at(s, t, i)
}

/// The index of the first occurrence of `t` in `s`, as `str::find` gives it.
pub open spec fn first_occurrence(s: Seq<char>, t: Seq<char>) -> Option<int> {
    if contains_seq(s, t) {
        Some(choose|i: int| occurs_at(s, t, i) && forall|j: int| 0 <= j < i ==> !occurs_at(s, t, j))
    } else {
        None
    }
}

/// `i` is the first occurrence of `t` in `s`.
pub open spec fn is_first_occurrence(s: Seq<char>, t: Seq<char>, i: int) -> bool {
    occurs_at(s, t, i) && forall|j: int| 0 <= j < i ==> !occurs_at(s, t, j)
}

/// `i` is the last occurrence of `t` in `s`.
pub open spec fn is_last_occurrence(s: Seq<char>, t: Seq<char>, i: int) -> bool {
    occurs_at(s, t, i) && forall|j: int| i < j <= s.len() ==> !occurs_at(s, t, j)
}

/// The index of the last occurrence of `t` in `s`, as `str::rfind` gives it
/// (counted in characters).
pub open spec fn last_occurrence(s: Seq<char>, t: Seq<char>) -> Option<int> {
    if contains_seq(s, t) {
        Some(choose|i: int| is_last_occurrence(s, t, i))
    } else {
        None
    }
}

/// There is only one last occurrence.
pub proof fn lemma_last_occurrence_unique(s: Seq<char>, t: Seq<char>, i: int)
    requires
        is_last_occurrence(s, t, i),
    ensures
        last_occurrence(s, t) == Some(i),
{
    assert(contains_seq(s, t));
    let k = choose|k: int| is_last_occurrence(s, t, k);
    assert(is_last_occurrence(s, t, k));
    if k < i {
        assert(!occurs_at(s, t, i));
    }
    if i < k {
        assert(!occurs_at(s, t, k));
    }
}

/// The index of the first `c` in `s`.
pub open spec fn first_index_of(s: Seq<char>, c: char) -> Option<int>
    decreases s.len(),
{
    if s.len() == 0 {
        None
    } else if s[0] == c {
        Some(0)
    } else {
        match first_index_of(s.drop_first(), c) {
            Some(i) => Some(i + 1),
            None => None,
        }
    }
}

/// The text before the first `c` (all of `s` when there is none) and the
/// text after it (empty when there is none), as `splitn(2, c)` gives them.
pub open spec fn split_first(s: Seq<char>, c: char) -> (Seq<char>, Seq<char>) {
    match first_index_of(s, c) {
        Some(i) => (s.subrange(0, i), s.subrange(i + 1, s.len() as int)),
        None => (s, Seq::empty()),
    }
}

pub proof fn lemma_first_index_of(s: Seq<char>, c: char, i: int)
    requires
        0 <= i <= s.len(),
        forall|j: int| 0 <= j < i ==> s[j] != c,
        i < s.len() ==> s[i] == c,
    ensures
        first_index_of(s, c) == (if i < s.len() { Some(i) } else { None::<int> }),
    decreases i,
{
    if i > 0 {
        let t = s.drop_first();
        assert forall|j: int| 0 <= j < i - 1 implies t[j] != c by {
            assert(t[j] == s[j + 1]);
        }
        lemma_first_index_of(t, c, i - 1);
    }
}

/// `s` split at its first `c`, as `splitn(2, c)` reads it.
pub fn split_first_str(s: &str, c: char) -> (r: (String, String))
    ensures
        (r.0@, r.1@) == split_first(s@, c),
{
    let v = chars_of(s);
    let mut i: usize = 0;
    while i < v.len()
        invariant
            v@ == s@,
            i <= v.len(),
            forall|j: int| 0 <= j < i ==> v@[j] != c,
        decreases v.len() - i,
    {
        if v[i] == c {
            proof { lemma_first_index_of(s@, c, i as int); }
            return (string_from_range(&v, 0, i), string_from_range(&v, i + 1, v.len()));
        }
        i = i + 1;
    }
    proof { lemma_first_index_of(s@, c, i as int); }
    assert(v@.subrange(0, v@.len() as int) =~= s@);
    (string_from_range(&v, 0, v.len()), String::new())
}

/// `c` occurs in `s`.
pub open spec fn has_char(s: Seq<char>, c: char) -> bool {
    exists|i: int| 0 <= i < s.len() && s[i] == c
}

/// `parts` joined with `sep` between consecutive parts.
pub open spec fn join(parts: Seq<Seq<char>>, sep: Seq<char>) -> Seq<char>
    decreases parts.len(),
{
    if parts.len() == 0 {
        Seq::empty()
    } else if parts.len() == 1 {
        parts[0]
    } else {
        join(parts.drop_last(), sep) + sep + parts.last()
    }
}

/// The views of a sequence of strings.
pub open spec fn views(v: Seq<String>) -> Seq<Seq<char>> {
    v.map_values(|s: String| s@)
}

/// The decimal digit character for `d < 10`.
pub open spec fn digit_char(d: nat) -> char {
    if d == 0 { '0' }
    else if d == 1 { '1' }
    else if d == 2 { '2' }
    else if d == 3 { '3' }
    else if d == 4 { '4' }
    else if d == 5 { '5' }
    else if d == 6 { '6' }
    else if d == 7 { '7' }
    else if d == 8 { '8' }
    else { '9' }
}

/// Decimal rendering of a natural number, as `Display` for unsigned integers writes it.
pub open spec fn nat_str(n: nat) -> Seq<char>
    decreases n,
{
    if n < 10 {
        seq![digit_char(n)]
    } else {
        nat_str(n / 10).push(digit_char(n % 10))
    }
}

/// Decimal rendering of an integer, as `Display` for signed integers writes it.
pub open spec fn int_str(i: int) -> Seq<char> {
    if i < 0 {
        seq!['-'] + nat_str((-i) as nat)
    } else {
        nat_str(i as nat)
    }
}

/// `c` is an ASCII decimal digit.
pub open spec fn is_digit(c: char) -> bool {
    '0' <= c && c <= '9'
}

/// `c` is an ASCII hexadecimal digit.
pub open spec fn is_hex_digit(c: char) -> bool {
    ('0' <= c && c <= '9') || ('a' <= c && c <= 'f') || ('A' <= c && c <= 'F')
}

/// `c` is an ASCII lowercase letter.
pub open spec fn is_ascii_lower(c: char) -> bool {
    'a' <= c && c <= 'z'
}

/// `c` is an ASCII uppercase letter.
pub open spec fn is_ascii_upper(c: char) -> bool {
    'A' <= c && c <= 'Z'
}

/// `c` is an ASCII letter or digit.
pub open spec fn is_ascii_alnum(c: char) -> bool {
    is_ascii_lower(c) || is_ascii_upper(c) || is_digit(c)
}

/// The value of an ASCII digit.
pub open spec fn digit_value(c: char) -> nat {
    ((c as int) - ('0' as int)) as nat
}

/// The characters with the Unicode `White_Space` property (`char::is_whitespace`).
pub open spec fn is_whitespace(c: char) -> bool {
    let u = c as u32;
    (0x9 <= u && u <= 0xd) || u == 0x20 || u == 0x85 || u == 0xa0 || u == 0x1680
        || (0x2000 <= u && u <= 0x200a) || u == 0x2028 || u == 0x2029 || u == 0x202f
        || u == 0x205f || u == 0x3000
}

/// Every character of `s` is whitespace (so `s.trim()` is empty).
pub open spec fn all_whitespace(s: Seq<char>) -> bool {
    forall|i: int| 0 <= i < s.len() ==> is_whitespace(s[i])
}

/// `s` with every occurrence of the character `c` replaced by `r`.
pub open spec fn replace_char(s: Seq<char>, c: char, r: Seq<char>) -> Seq<char>
    decreases s.len(),
{
    if s.len() == 0 {
        Seq::empty()
    } else {
        replace_char(s.drop_last(), c, r) + (if s.last() == c { r } else { seq![s.last()] })
    }
}

/// The pieces of `s` between occurrences of the character `sep` (`str::split` on a char).
pub open spec fn split_char(s: Seq<char>, sep: char) -> Seq<Seq<char>>
    decreases s.len(),
{
    if s.len() == 0 {
        seq![Seq::empty()]
    } else {
        let prev = split_char(s.drop_last(), sep);
        if s.last() == sep {
            prev.push(Seq::empty())
        } else {
            prev.update(prev.len() - 1, prev.last().push(s.last()))
        }
    }
}

// ---------------------------------------------------------------------------
// Lemmas
// ---------------------------------------------------------------------------

/// `split_char` always yields at least one piece.
pub proof fn lemma_split_char_nonempty(s: Seq<char>, sep: char)
    ensures
        split_char(s, sep).len() >= 1,
    decreases s.len(),
{
    if s.len() > 0 {
        lemma_split_char_nonempty(s.drop_last(), sep);
    }
}

/// A natural number's decimal text is nonempty and made of digits.
pub proof fn lemma_nat_str_digits(n: nat)
    ensures
        nat_str(n).len() >= 1,
        forall|i: int| 0 <= i < nat_str(n).len() ==> is_digit(#[trigger] nat_str(n)[i]),
    decreases n,
{
    if n >= 10 {
        lemma_nat_str_digits(n / 10);
    }
}

// ---------------------------------------------------------------------------
// Executable helpers
// ---------------------------------------------------------------------------

/// The characters of `s`, in order.
pub fn chars_of(s: &str) -> (v: Vec<char>)
    ensures
        v@ == s@,
{
    let mut v: Vec<char> = Vec::new();
    for c in it: s.chars()
        invariant
            v@ == it.seq().take(it.index() as int),
    {
        v.push(c);
    }
    v
}

/// Appends one character at the end of `s` (`String::push`).
#[verifier::external_body]
pub fn push_char(s: &mut String, c: char)
    ensures
        final(s)@ == old(s)@.push(c),
{
    s.push(c);
}

/// A copy of the strings of `v`, in order.
pub fn copy_strings(v: &Vec<String>) -> (r: Vec<String>)
    ensures
        r@ == v@,
{
    let mut r: Vec<String> = Vec::new();
    let mut i: usize = 0;
    while i < v.len()
        invariant
            i <= v.len(),
            r@ == v@.take(i as int),
        decreases v.len() - i,
    {
        r.push(v[i].clone());
        assert(v@.take(i + 1) =~= v@.take(i as int).push(v@[i as int]));
        i = i + 1;
    }
    assert(v@.take(v.len() as int) =~= v@);
    r
}

/// A copy of `s` as an owned string.
pub fn owned(s: &str) -> (r: String)
    ensures
        r@ == s@,
{
    String::from_str(s)
}

/// The string made of the characters `v[from..to]`.
pub fn string_from_range(v: &Vec<char>, from: usize, to: usize) -> (r: String)
    requires
        from <= to <= v.len(),
    ensures
        r@ == v@.subrange(from as int, to as int),
{
    let mut r = String::new();
    let mut i = from;
    while i < to
        invariant
            from <= i <= to <= v.len(),
            r@ == v@.subrange(from as int, i as int),
        decreases to - i,
    {
        push_char(&mut r, v[i]);
        assert(v@.subrange(from as int, i + 1) == v@.subrange(from as int, i as int).push(v@[i as int]));
        i = i + 1;
    }
    r
}

/// The string made of the characters of `v`.
pub fn string_from_chars(v: &Vec<char>) -> (r: String)
    ensures
        r@ == v@,
{
    let r = string_from_range(v, 0, v.len());
    assert(v@.subrange(0, v@.len() as int) == v@);
    r
}

/// Appends `t` at the end of `s`.
pub fn append_str(s: &mut String, t: &str)
    ensures
        final(s)@ == old(s)@ + t@,
{
    s.append(t);
}

/// `s` is empty (`str::is_empty`).
pub fn str_is_empty(s: &str) -> (r: bool)
    ensures
        r == (s@.len() == 0),
{
    let v = chars_of(s);
    v.len() == 0
}

/// Two strings are equal, character by character.
pub fn str_eq(a: &str, b: &str) -> (r: bool)
    ensures
        r == (a@ == b@),
{
    let va = chars_of(a);
    let vb = chars_of(b);
    seq_eq(&va, &vb)
}

/// Two character vectors are equal.
pub fn seq_eq(a: &Vec<char>, b: &Vec<char>) -> (r: bool)
    ensures
        r == (a@ == b@),
{
    if a.len() != b.len() {
        return false;
    }
    let mut i: usize = 0;
    while i < a.len()
        invariant
            a.len() == b.len(),
            i <= a.len(),
            forall|j: int| 0 <= j < i ==> a@[j] == b@[j],
        decreases a.len() - i,
    {
        if a[i] != b[i] {
            return false;
        }
        i = i + 1;
    }
    assert(a@ =~= b@);
    true
}

/// `t` occurs in `s` at index `i`.
pub fn matches_at(s: &Vec<char>, t: &Vec<char>, i: usize) -> (r: bool)
    ensures
        r == occurs_at(s@, t@, i as int),
{
    if i > s.len() || t.len() > s.len() - i {
        return false;
    }
    let mut k: usize = 0;
    while k < t.len()
        invariant
            i + t.len() <= s.len(),
            k <= t.len(),
            forall|j: int| 0 <= j < k ==> s@[i + j] == t@[j],
        decreases t.len() - k,
    {
        if s[i + k] != t[k] {
            assert(s@.subrange(i as int, i + t.len())[k as int] != t@[k as int]);
            return false;
        }
        k = k + 1;
    }
    assert(s@.subrange(i as int, i + t.len()) =~= t@);
    true
}

/// The first index at which `t` occurs in `s` (`str::find`).
pub fn find_seq(s: &Vec<char>, t: &Vec<char>) -> (r: Option<usize>)
    ensures
        match r {
            Some(i) => is_first_occurrence(s@, t@, i as int),
            None => !contains_seq(s@, t@),
        },
{
    let mut i: usize = 0;
    while i < s.len()
        invariant
            i <= s.len(),
            forall|j: int| 0 <= j < i ==> !occurs_at(s@, t@, j),
        decreases s.len() - i,
    {
        if matches_at(s, t, i) {
            return Some(i);
        }
        i = i + 1;
    }
    if matches_at(s, t, s.len()) {
        return Some(s.len());
    }
    assert forall|j: int| !occurs_at(s@, t@, j) by {
        if 0 <= j < s.len() {
            assert(j < i);
        }
    }
    None
}

/// The last index at which `t` occurs in `s` (`str::rfind`).
pub fn rfind_seq(s: &Vec<char>, t: &Vec<char>) -> (r: Option<usize>)
    ensures
        match r {
            Some(i) => is_last_occurrence(s@, t@, i as int),
            None => !contains_seq(s@, t@),
        },
{
    if matches_at(s, t, s.len()) {
        return Some(s.len());
    }
    let mut i: usize = s.len();
    while i > 0
        invariant
            i <= s.len(),
            forall|j: int| i <= j <= s.len() ==> !occurs_at(s@, t@, j),
        decreases i,
    {
        if matches_at(s, t, i - 1) {
            return Some(i - 1);
        }
        i = i - 1;
    }
    assert forall|j: int| !occurs_at(s@, t@, j) by {
        if 0 <= j <= s.len() {
            assert(i <= j);
        }
    }
    None
}

/// The character index of the last occurrence of `t` in `s` (`str::rfind`).
pub fn rfind_str(s: &Vec<char>, t: &str) -> (r: Option<usize>)
    ensures
        match r {
            Some(i) => last_occurrence(s@, t@) == Some(i as int) && i + t@.len() <= s@.len(),
            None => last_occurrence(s@, t@) is None,
        },
{
    let vt = chars_of(t);
    match rfind_seq(s, &vt) {
        Some(i) => {
            proof { lemma_last_occurrence_unique(s@, t@, i as int); }
            Some(i)
        },
        None => None,
    }
}

/// `t` occurs in `s` (`str::contains`).
pub fn contains_str(s: &str, t: &str) -> (r: bool)
    ensures
        r == contains_seq(s@, t@),
{
    let vs = chars_of(s);
    let vt = chars_of(t);
    find_seq(&vs, &vt).is_some()
}

/// The character `c` occurs in `s`.
pub fn contains_char(s: &Vec<char>, c: char) -> (r: bool)
    ensures
        r == has_char(s@, c),
{
    let mut i: usize = 0;
    while i < s.len()
        invariant
            i <= s.len(),
            forall|j: int| 0 <= j < i ==> s@[j] != c,
        decreases s.len() - i,
    {
        if s[i] == c {
            return true;
        }
        i = i + 1;
    }
    false
}

/// `p` is a prefix of `s` (`str::starts_with`).
pub fn starts_with(s: &str, p: &str) -> (r: bool)
    ensures
        r == is_prefix(p@, s@),
{
    let vs = chars_of(s);
    let vp = chars_of(p);
    matches_at(&vs, &vp, 0)
}

/// `p` is a suffix of `s` (`str::ends_with`).
pub fn ends_with(s: &str, p: &str) -> (r: bool)
    ensures
        r == is_suffix(p@, s@),
{
    let vs = chars_of(s);
    let vp = chars_of(p);
    if vp.len() > vs.len() {
        return false;
    }
    matches_at(&vs, &vp, vs.len() - vp.len())
}

/// `s` followed by `t`, as a new string.
pub fn concat2(s: &str, t: &str) -> (r: String)
    ensures
        r@ == s@ + t@,
{
    let mut r = owned(s);
    r.append(t);
    r
}

/// `a`, `b` and `c` one after another, as a new string.
pub fn concat3(a: &str, b: &str, c: &str) -> (r: String)
    ensures
        r@ == a@ + b@ + c@,
{
    let mut r = owned(a);
    r.append(b);
    r.append(c);
    r
}

/// The decimal digit character of `d`.
pub fn digit_to_char(d: u64) -> (c: char)
    requires
        d < 10,
    ensures
        c == digit_char(d as nat),
{
    if d == 0 { '0' }
    else if d == 1 { '1' }
    else if d == 2 { '2' }
    else if d == 3 { '3' }
    else if d == 4 { '4' }
    else if d == 5 { '5' }
    else if d == 6 { '6' }
    else if d == 7 { '7' }
    else if d == 8 { '8' }
    else { '9' }
}

/// Decimal text of an unsigned integer.
pub fn u64_to_string(n: u64) -> (r: String)
    ensures
        r@ == nat_str(n as nat),
    decreases n,
{
    if n < 10 {
        let mut r = String::new();
        push_char(&mut r, digit_to_char(n));
        assert(r@ =~= seq![digit_char(n as nat)]);
        r
    } else {
        let mut r = u64_to_string(n / 10);
        push_char(&mut r, digit_to_char(n % 10));
        r
    }
}

/// Decimal text of a `usize`.
pub fn usize_to_string(n: usize) -> (r: String)
    ensures
        r@ == nat_str(n as nat),
{
    u64_to_string(n as u64)
}

/// Decimal text of a signed integer.
pub fn i64_to_string(n: i64) -> (r: String)
    ensures
        r@ == int_str(n as int),
{
    if n < 0 {
        let mag: u64 = if n == i64::MIN { 9223372036854775808u64 } else { (-n) as u64 };
        let digits = u64_to_string(mag);
        let mut r = String::new();
        push_char(&mut r, '-');
        r.append(digits.as_str());
        assert(r@ =~= seq!['-'] + nat_str((-(n as int)) as nat));
        r
    } else {
        u64_to_string(n as u64)
    }
}

/// Joins `parts` with `sep` between consecutive parts (`[String]::join`).
pub fn join_strings(parts: &Vec<String>, sep: &str) -> (r: String)
    ensures
        r@ == join(views(parts@), sep@),
{
    let mut r = String::new();
    let ghost vs = views(parts@);
    let mut i: usize = 0;
    while i < parts.len()
        invariant
            i <= parts.len(),
            vs == views(parts@),
            r@ == join(vs.take(i as int), sep@),
        decreases parts.len() - i,
    {
        assert(vs.take(i + 1).drop_last() =~= vs.take(i as int));
        if i > 0 {
            r.append(sep);
        }
        r.append(parts[i].as_str());
        i = i + 1;
    }
    assert(vs.take(parts.len() as int) =~= vs);
    r
}

/// Every character of `s` is whitespace (`s.trim().is_empty()`).
pub fn is_blank(s: &str) -> (r: bool)
    ensures
        r == all_whitespace(s@),
{
    let v = chars_of(s);
    let mut i: usize = 0;
    while i < v.len()
        invariant
            v@ == s@,
            i <= v.len(),
            forall|j: int| 0 <= j < i ==> is_whitespace(v@[j]),
        decreases v.len() - i,
    {
        if !char_is_whitespace(v[i]) {
            return false;
        }
        i = i + 1;
    }
    true
}

/// `c` has the Unicode `White_Space` property (`char::is_whitespace`).
pub fn char_is_whitespace(c: char) -> (r: bool)
    ensures
        r == is_whitespace(c),
{
    let u = c as u32;
    (0x9 <= u && u <= 0xd) || u == 0x20 || u == 0x85 || u == 0xa0 || u == 0x1680
        || (0x2000 <= u && u <= 0x200a) || u == 0x2028 || u == 0x2029 || u == 0x202f
        || u == 0x205f || u == 0x3000
}

/// `s` with every `c` replaced by `r` (`str::replace` with a char pattern).
pub fn replace_char_str(s: &str, c: char, r: &str) -> (out: String)
    ensures
        out@ == replace_char(s@, c, r@),
{
    let v = chars_of(s);
    let mut out = String::new();
    let mut i: usize = 0;
    while i < v.len()
        invariant
            v@ == s@,
            i <= v.len(),
            out@ == replace_char(v@.take(i as int), c, r@),
        decreases v.len() - i,
    {
        assert(v@.take(i + 1).drop_last() =~= v@.take(i as int));
        if v[i] == c {
            out.append(r);
        } else {
            push_char(&mut out, v[i]);
        }
        i = i + 1;
    }
    assert(v@.take(v.len() as int) =~= v@);
    out
}

/// The pieces of `s` between occurrences of `sep` (`str::split` on a char).
pub fn split_on_char(s: &str, sep: char) -> (out: Vec<String>)
    ensures
        views(out@) == split_char(s@, sep),
{
    let v = chars_of(s);
    let mut out: Vec<String> = Vec::new();
    let mut cur = String::new();
    let mut i: usize = 0;
    while i < v.len()
        invariant
            v@ == s@,
            i <= v.len(),
            views(out@).push(cur@) == split_char(v@.take(i as int), sep),
        decreases v.len() - i,
    {
        assert(v@.take(i + 1).drop_last() =~= v@.take(i as int));
        proof { lemma_split_char_nonempty(v@.take(i as int), sep); }
        if v[i] == sep {
            let done = cur;
            out.push(done);
            cur = String::new();
            assert(views(out@).push(cur@) =~= split_char(v@.take(i + 1), sep));
        } else {
            push_char(&mut cur, v[i]);
            assert(views(out@).push(cur@) =~= split_char(v@.take(i + 1), sep));
        }
        i = i + 1;
    }
    assert(v@.take(v.len() as int) =~= v@);
    out.push(cur);
    assert(views(out@) =~= split_char(s@, sep));
    out
}

// ---------------------------------------------------------------------------
// Unicode case mapping (std)
// ---------------------------------------------------------------------------

/// The Unicode lowercase mapping of `s`, as `str::to_lowercase` computes it.
pub uninterp spec fn lowercase(s: Seq<char>) -> Seq<char>;

/// The Unicode uppercase mapping of `s`, as `str::to_uppercase` computes it.
pub uninterp spec fn uppercase(s: Seq<char>) -> Seq<char>;

/// Every character of `s` is ASCII.
pub open spec fn all_ascii(s: Seq<char>) -> bool {
    forall|i: int| 0 <= i < s.len() ==> (#[trigger] s[i] as u32) < 128
}

/// The ASCII lowercase of `c`: `A`..`Z` become `a`..`z`, all else stays.
pub open spec fn ascii_lower_char(c: char) -> char {
    if is_ascii_upper(c) { ((c as u32) + 32) as char } else { c }
}

/// The ASCII uppercase of `c`: `a`..`z` become `A`..`Z`, all else stays.
pub open spec fn ascii_upper_char(c: char) -> char {
    if is_ascii_lower(c) { ((c as u32) - 32) as char } else { c }
}

/// `str::to_lowercase`: the result is the Unicode lowercase mapping of `s`,
/// which depends on `s` alone. On ASCII text that mapping takes `A`..`Z` to
/// `a`..`z`, one for one, and keeps every other character.
#[verifier::external_body]
pub fn to_lowercase(s: &str) -> (r: String)
    ensures
        r@ == lowercase(s@),
        all_ascii(s@) ==> r@ == s@.map_values(|c: char| ascii_lower_char(c)),
{
    s.to_lowercase()
}

/// `str::to_uppercase`: the result is the Unicode uppercase mapping of `s`,
/// which depends on `s` alone. On ASCII text that mapping takes `a`..`z` to
/// `A`..`Z`, one for one, and keeps every other character.
#[verifier::external_body]
pub fn to_uppercase(s: &str) -> (r: String)
    ensures
        r@ == uppercase(s@),
        all_ascii(s@) ==> r@ == s@.map_values(|c: char| ascii_upper_char(c)),
{
    s.to_uppercase()
}

/// `s` without leading and trailing whitespace (`str::trim`).
pub open spec fn trim_seq(s: Seq<char>) -> Seq<char> {
    if trailing_end(s) <= leading_ws(s) {
        Seq::empty()
    } else {
        s.subrange(leading_ws(s) as int, trailing_end(s) as int)
    }
}

/// The number of leading whitespace characters of `s`.
pub open spec fn leading_ws(s: Seq<char>) -> nat
    decreases s.len(),
{
    if s.len() == 0 || !is_whitespace(s[0]) { 0 } else { 1 + leading_ws(s.drop_first()) }
}

/// The index just past the last non-whitespace character of `s` (0 if all blank).
pub open spec fn trailing_end(s: Seq<char>) -> nat
    decreases s.len(),
{
    if s.len() == 0 { 0 }
    else if !is_whitespace(s.last()) { s.len() }
    else { trailing_end(s.drop_last()) }
}

pub proof fn lemma_leading_ws_bound(s: Seq<char>)
    ensures
        leading_ws(s) <= s.len(),
        forall|i: int| 0 <= i < leading_ws(s) ==> is_whitespace(#[trigger] s[i]),
        leading_ws(s) < s.len() ==> !is_whitespace(s[leading_ws(s) as int]),
    decreases s.len(),
{
    if s.len() > 0 && is_whitespace(s[0]) {
        lemma_leading_ws_bound(s.drop_first());
        assert forall|i: int| 0 <= i < leading_ws(s) implies is_whitespace(#[trigger] s[i]) by {
            if i > 0 { assert(s[i] == s.drop_first()[i - 1]); }
        }
    }
}

pub proof fn lemma_trailing_end_bound(s: Seq<char>)
    ensures
        trailing_end(s) <= s.len(),
        forall|i: int| trailing_end(s) <= i < s.len() ==> is_whitespace(#[trigger] s[i]),
        trailing_end(s) > 0 ==> !is_whitespace(s[trailing_end(s) - 1]),
    decreases s.len(),
{
    if s.len() > 0 && is_whitespace(s.last()) {
        lemma_trailing_end_bound(s.drop_last());
        assert forall|i: int| trailing_end(s) <= i < s.len() implies is_whitespace(#[trigger] s[i]) by {
            if i < s.len() - 1 { assert(s[i] == s.drop_last()[i]); }
        }
    }
}

/// When `s` has a non-blank character, trimming keeps a nonempty middle.
pub proof fn lemma_trim_order(s: Seq<char>)
    ensures
        leading_ws(s) <= trailing_end(s) || trailing_end(s) == 0,
        trailing_end(s) == 0 ==> leading_ws(s) == s.len(),
    decreases s.len(),
{
    lemma_leading_ws_bound(s);
    lemma_trailing_end_bound(s);
    if leading_ws(s) > trailing_end(s) && trailing_end(s) > 0 {
        assert(!is_whitespace(s[trailing_end(s) - 1]));
        assert(is_whitespace(s[trailing_end(s) - 1]));
    }
    if trailing_end(s) == 0 && leading_ws(s) < s.len() {
        assert(!is_whitespace(s[leading_ws(s) as int]));
        assert(is_whitespace(s[leading_ws(s) as int]));
    }
}

/// `s` without leading and trailing whitespace (`str::trim`).
pub fn trim(s: &str) -> (r: String)
    ensures
        r@ == trim_seq(s@),
{
    let v = chars_of(s);
    proof {
        lemma_leading_ws_bound(v@);
        lemma_trailing_end_bound(v@);
        lemma_trim_order(v@);
    }
    let mut lo: usize = 0;
    while lo < v.len() && char_is_whitespace(v[lo])
        invariant
            v@ == s@,
            lo <= v.len(),
            leading_ws(v@) <= v.len(),
            forall|i: int| 0 <= i < leading_ws(v@) ==> is_whitespace(#[trigger] v@[i]),
            leading_ws(v@) < v.len() ==> !is_whitespace(v@[leading_ws(v@) as int]),
            forall|j: int| 0 <= j < lo ==> is_whitespace(#[trigger] v@[j]),
        decreases v.len() - lo,
    {
        lo = lo + 1;
    }
    let mut hi: usize = v.len();
    while hi > lo && char_is_whitespace(v[hi - 1])
        invariant
            v@ == s@,
            lo <= hi <= v.len(),
            forall|j: int| 0 <= j < lo ==> is_whitespace(#[trigger] v@[j]),
            lo < v.len() ==> !is_whitespace(v@[lo as int]),
            trailing_end(v@) <= v.len(),
            forall|i: int| trailing_end(v@) <= i < v.len() ==> is_whitespace(#[trigger] v@[i]),
            trailing_end(v@) > 0 ==> !is_whitespace(v@[trailing_end(v@) - 1]),
            forall|j: int| hi <= j < v.len() ==> is_whitespace(#[trigger] v@[j]),
        decreases hi,
    {
        hi = hi - 1;
    }
    proof {
        if leading_ws(v@) < lo {
            assert(is_whitespace(v@[leading_ws(v@) as int]));
        }
        if lo < leading_ws(v@) {
            assert(is_whitespace(v@[lo as int]));
        }
        assert(lo == leading_ws(v@));
        if hi > lo {
            if trailing_end(v@) > hi {
                assert(is_whitespace(v@[trailing_end(v@) - 1]));
            }
            if trailing_end(v@) < hi {
                assert(is_whitespace(v@[hi - 1]));
            }
            assert(hi == trailing_end(v@));
        } else {
            if trailing_end(v@) > 0 {
                assert(is_whitespace(v@[trailing_end(v@) - 1]));
            }
            assert(trailing_end(v@) == 0);
        }
    }
    string_from_range(&v, lo, hi)
}

// ---------------------------------------------------------------------------
// Byte lengths and integer parsing
// ---------------------------------------------------------------------------

/// The UTF-8 byte length of a character sequence (`str::len`).
pub open spec fn byte_len(s: Seq<char>) -> nat {
    vstd::utf8::encode_utf8(s).len()
}

/// The length `str::len` reports: the number of UTF-8 bytes.
pub open spec fn str_len(s: Seq<char>) -> usize {
    byte_len(s) as usize
}

/// The UTF-8 byte length of `s`.
pub fn str_byte_len(s: &str) -> (n: usize)
    ensures
        n == byte_len(s@) as usize,
{
    s.len()
}

/// The value of a sequence of decimal digits.
pub open spec fn digits_value(s: Seq<char>) -> nat
    decreases s.len(),
{
    if s.len() == 0 { 0 } else { digits_value(s.drop_last()) * 10 + digit_value(s.last()) }
}

/// Every character of `s` is an ASCII digit.
pub open spec fn all_digits(s: Seq<char>) -> bool {
    forall|i: int| 0 <= i < s.len() ==> is_digit(s[i])
}

/// The integer a string denotes as `FromStr` for integers reads it: an optional
/// `+` (or `-` when `signed`), then one or more ASCII digits.
pub open spec fn parse_int(s: Seq<char>, signed: bool) -> Option<int> {
    if s.len() == 0 {
        None
    } else {
        let neg = signed && s[0] == '-';
        let digits = if s[0] == '+' || neg { s.drop_first() } else { s };
        if digits.len() == 0 || !all_digits(digits) {
            None
        } else {
            Some(if neg { -(digits_value(digits) as int) } else { digits_value(digits) as int })
        }
    }
}

/// `s.parse::<i64>()` succeeds with this value.
pub open spec fn parse_i64(s: Seq<char>) -> Option<int> {
    match parse_int(s, true) {
        Some(v) => if i64::MIN <= v <= i64::MAX { Some(v) } else { None },
        None => None,
    }
}

/// `s.parse::<u32>()` succeeds with this value.
pub open spec fn parse_u32(s: Seq<char>) -> Option<int> {
    match parse_int(s, false) {
        Some(v) => if v <= u32::MAX { Some(v) } else { None },
        None => None,
    }
}

/// `s.parse::<u64>()` succeeds with this value.
pub open spec fn parse_u64(s: Seq<char>) -> Option<int> {
    match parse_int(s, false) {
        Some(v) => if v <= u64::MAX { Some(v) } else { None },
        None => None,
    }
}

/// `s.parse::<u16>()` succeeds with this value.
pub open spec fn parse_u16(s: Seq<char>) -> Option<int> {
    match parse_int(s, false) {
        Some(v) => if v <= u16::MAX { Some(v) } else { None },
        None => None,
    }
}

proof fn lemma_digits_value_monotone(s: Seq<char>, k: int)
    requires
        0 <= k <= s.len(),
    ensures
        digits_value(s.take(k)) <= digits_value(s),
    decreases s.len() - k,
{
    if k < s.len() {
        lemma_digits_value_monotone(s, k + 1);
        assert(s.take(k + 1).drop_last() =~= s.take(k));
    } else {
        assert(s.take(k) =~= s);
    }
}

/// Reads `s` as an integer the way `FromStr` does for `i64` (when `signed`)
/// or for an unsigned type whose maximum is `max`.
fn parse_bounded(s: &str, signed: bool, max_mag: u64) -> (r: Option<(bool, u64)>)
    ensures
        match r {
            Some((neg, mag)) => parse_int(s@, signed) == Some(if neg { -(mag as int) } else { mag as int })
                && mag <= max_mag,
            None => parse_int(s@, signed) is None
                || parse_int(s@, signed)->0 > max_mag || parse_int(s@, signed)->0 < -(max_mag as int),
        },
{
    let v = chars_of(s);
    if v.len() == 0 {
        return None;
    }
    let neg = signed && v[0] == '-';
    let start: usize = if v[0] == '+' || neg { 1 } else { 0 };
    let ghost digits = if v@[0] == '+' || neg { v@.drop_first() } else { v@ };
    assert(digits =~= v@.subrange(start as int, v@.len() as int));
    if start == v.len() {
        return None;
    }
    let mut mag: u64 = 0;
    let mut i: usize = start;
    while i < v.len()
        invariant
            v@ == s@,
            s@.len() > 0,
            neg == (signed && s@[0] == '-'),
            digits == (if s@[0] == '+' || neg { s@.drop_first() } else { s@ }),
            start <= i <= v.len(),
            digits == v@.subrange(start as int, v@.len() as int),
            digits.len() > 0,
            forall|j: int| start <= j < i ==> is_digit(v@[j]),
            mag as nat == digits_value(digits.take(i - start)),
            mag <= max_mag,
        decreases v.len() - i,
    {
        let c = v[i];
        if !('0' <= c && c <= '9') {
            assert(!is_digit(digits[i - start]));
            assert(!all_digits(digits));
            return None;
        }
        let d: u64 = (c as u32 - '0' as u32) as u64;
        assert(digits.take(i + 1 - start).drop_last() =~= digits.take(i - start));
        assert(digits.take(i + 1 - start).last() == c);
        if d > max_mag || mag > (max_mag - d) / 10 {
            proof {
                assert(digits_value(digits.take(i + 1 - start)) > max_mag) by (nonlinear_arith)
                    requires
                        digits_value(digits.take(i + 1 - start)) == mag * 10 + d,
                        d > max_mag || mag > (max_mag - d) / 10, d <= 9, max_mag >= 0, d >= 0;
                lemma_digits_value_monotone(digits, i + 1 - start);
            }
            return None;
        }
        proof {
            assert(mag * 10 + d <= max_mag) by (nonlinear_arith)
                requires mag <= (max_mag - d) / 10, d <= 9, d <= max_mag;
        }
        mag = mag * 10 + d;
        i = i + 1;
    }
    assert(digits.take(v.len() - start) =~= digits);
    assert(all_digits(digits));
    Some((neg, mag))
}

/// `s.parse::<i64>()`.
pub fn parse_i64_str(s: &str) -> (r: Option<i64>)
    ensures
        match r {
            Some(x) => parse_i64(s@) == Some(x as int),
            None => parse_i64(s@) is None,
        },
{
    match parse_bounded(s, true, 9223372036854775808u64) {
        Some((neg, mag)) => {
            if neg {
                if mag == 9223372036854775808u64 {
                    Some(i64::MIN)
                } else {
                    Some(-(mag as i64))
                }
            } else if mag <= 9223372036854775807u64 {
                Some(mag as i64)
            } else {
                None
            }
        }
        None => None,
    }
}

/// `s.parse::<u32>()`.
pub fn parse_u32_str(s: &str) -> (r: Option<u32>)
    ensures
        match r {
            Some(x) => parse_u32(s@) == Some(x as int),
            None => parse_u32(s@) is None,
        },
{
    match parse_bounded(s, false, 4294967295u64) {
        Some((_neg, mag)) => Some(mag as u32),
        None => None,
    }
}

/// `s.parse::<u16>()`.
pub fn parse_u16_str(s: &str) -> (r: Option<u16>)
    ensures
        match r {
            Some(x) => parse_u16(s@) == Some(x as int),
            None => parse_u16(s@) is None,
        },
{
    match parse_bounded(s, false, 65535u64) {
        Some((_neg, mag)) => Some(mag as u16),
        None => None,
    }
}

/// `s.parse::<u64>()`.
pub fn parse_u64_str(s: &str) -> (r: Option<u64>)
    ensures
        match r {
            Some(x) => parse_u64(s@) == Some(x as int),
            None => parse_u64(s@) is None,
        },
{
    match parse_bounded(s, false, 18446744073709551615u64) {
        Some((_neg, mag)) => Some(mag),
        None => None,
    }
}

} // verus!

verus! {

// ---------------------------------------------------------------------------
// Lexicographic order
// ---------------------------------------------------------------------------

/// `a` sorts strictly before `b`, comparing characters by code point (the
/// order in which `String`s sort, as UTF-8 preserves code point order).
pub open spec fn seq_lt(a: Seq<char>, b: Seq<char>) -> bool
    decreases a.len(),
{
    if a.len() == 0 {
        b.len() > 0
    } else if b.len() == 0 {
        false
    } else if a[0] != b[0] {
        a[0] < b[0]
    } else {
        seq_lt(a.drop_first(), b.drop_first())
    }
}

/// The order is strict and total: no sequence sorts before itself, two
/// sequences never sort before each other, and of two different sequences
/// one sorts before the other.
pub proof fn lemma_seq_lt_strict_total(a: Seq<char>, b: Seq<char>)
    ensures
        !seq_lt(a, a),
        !(seq_lt(a, b) && seq_lt(b, a)),
        a != b ==> seq_lt(a, b) || seq_lt(b, a),
    decreases a.len(),
{
    if a.len() > 0 {
        lemma_seq_lt_strict_total(a.drop_first(), a.drop_first());
        if b.len() > 0 {
            lemma_seq_lt_strict_total(a.drop_first(), b.drop_first());
            if a != b && a[0] == b[0] {
                assert(a.drop_first() != b.drop_first()) by {
                    if a.drop_first() == b.drop_first() {
                        assert(a =~= seq![a[0]] + a.drop_first());
                        assert(b =~= seq![b[0]] + b.drop_first());
                    }
                }
            }
        }
    } else if b.len() == 0 {
        assert(a =~= b);
    }
}

/// The order is transitive.
pub proof fn lemma_seq_lt_transitive(a: Seq<char>, b: Seq<char>, c: Seq<char>)
    requires
        seq_lt(a, b),
        seq_lt(b, c),
    ensures
        seq_lt(a, c),
    decreases a.len(),
{
    if a.len() > 0 && b.len() > 0 && c.len() > 0 && a[0] == b[0] && b[0] == c[0] {
        lemma_seq_lt_transitive(a.drop_first(), b.drop_first(), c.drop_first());
    }
}

/// `a` sorts strictly before `b` (`a < b` on strings).
pub fn str_lt(a: &str, b: &str) -> (r: bool)
    ensures
        r == seq_lt(a@, b@),
{
    let va = chars_of(a);
    let vb = chars_of(b);
    let mut i: usize = 0;
    assert(a@.skip(0) =~= a@);
    assert(b@.skip(0) =~= b@);
    while i < va.len() && i < vb.len()
        invariant
            va@ == a@,
            vb@ == b@,
            i <= va@.len(),
            i <= vb@.len(),
            seq_lt(a@, b@) == seq_lt(a@.skip(i as int), b@.skip(i as int)),
        decreases va.len() - i,
    {
        assert(a@.skip(i as int)[0] == va@[i as int]);
        assert(b@.skip(i as int)[0] == vb@[i as int]);
        if va[i] != vb[i] {
            return va[i] < vb[i];
        }
        assert(a@.skip(i as int).drop_first() =~= a@.skip(i + 1));
        assert(b@.skip(i as int).drop_first() =~= b@.skip(i + 1));
        i = i + 1;
    }
    assert(a@.skip(i as int).len() == a@.len() - i);
    i < vb.len()
}

/// `s` without the copies of `c` at its end (`trim_end_matches` with a char).
pub open spec fn trim_end_seq(s: Seq<char>, c: char) -> Seq<char>
    decreases s.len(),
{
    if s.len() > 0 && s.last() == c {
        trim_end_seq(s.drop_last(), c)
    } else {
        s
    }
}

/// `s` without the copies of `c` at its end.
pub fn trim_end_char(s: &str, c: char) -> (r: String)
    ensures
        r@ == trim_end_seq(s@, c),
{
    let v = chars_of(s);
    let mut n: usize = v.len();
    assert(v@.take(v@.len() as int) =~= v@);
    while n > 0 && v[n - 1] == c
        invariant
            v@ == s@,
            n <= v@.len(),
            trim_end_seq(s@, c) == trim_end_seq(v@.take(n as int), c),
        decreases n,
    {
        assert(v@.take(n as int).drop_last() =~= v@.take(n - 1));
        n = n - 1;
    }
    string_from_range(&v, 0, n)
}

/// Each part preceded by `prefix`, all run together.
pub open spec fn prefixed_all(parts: Seq<Seq<char>>, prefix: Seq<char>) -> Seq<char>
    decreases parts.len(),
{
    if parts.len() == 0 {
        Seq::empty()
    } else {
        prefixed_all(parts.drop_last(), prefix) + prefix + parts.last()
    }
}

/// Appends `prefix` and each part to `s`.
pub fn append_prefixed(s: &mut String, parts: &[String], prefix: &str)
    ensures
        final(s)@ == old(s)@ + prefixed_all(views(parts@), prefix@),
{
    let ghost start = s@;
    let ghost vs = views(parts@);
    let mut i: usize = 0;
    while i < parts.len()
        invariant
            i <= parts.len(),
            vs == views(parts@),
            s@ == start + prefixed_all(vs.take(i as int), prefix@),
        decreases parts.len() - i,
    {
        assert(vs.take(i + 1).drop_last() =~= vs.take(i as int));
        s.append(prefix);
        s.append(parts[i].as_str());
        i = i + 1;
    }
    assert(vs.take(parts.len() as int) =~= vs);
}

} // verus!
