//! HTTP primitives: methods, status codes, multi-valued dictionaries,
//! header maps and responses.

use vstd::prelude::*;
use crate::errors::RjangoError;
use vstd::string::StringSliceAdditionalSpecFns;
use vstd::utf8::encode_utf8;
use crate::json::JsonValue;
use crate::text::{
    to_uppercase, uppercase, lowercase, to_lowercase, nat_str, u64_to_string, split_char, split_on_char,
    split_first, split_first_str, str_is_empty, chars_of, is_prefix, starts_with,
    concat2, concat3, lemma_seq_lt_strict_total, lemma_seq_lt_transitive, owned, seq_lt, str_eq, str_lt,
    join, views,
};

verus! {

// ---------------------------------------------------------------------------
// Multi-valued dictionaries
// ---------------------------------------------------------------------------

/// The entries of a multi-valued dictionary: each key with its values.
pub type MultiView = Seq<(Seq<char>, Seq<Seq<char>>)>;

/// Keys strictly increase along the entries.
pub open spec fn keys_sorted(s: MultiView) -> bool {
    forall|i: int, j: int| 0 <= i < j < s.len() ==> seq_lt(s[i].0, s[j].0)
}

/// Every key holds at least one value.
pub open spec fn values_nonempty(s: MultiView) -> bool {
    forall|i: int| 0 <= i < s.len() ==> (#[trigger] s[i]).1.len() > 0
}

/// The values under `key`, if the key is present.
pub open spec fn multi_lookup(s: MultiView, key: Seq<char>) -> Option<Seq<Seq<char>>>
    decreases s.len(),
{
    if s.len() == 0 {
        None
    } else if s[0].0 == key {
        Some(s[0].1)
    } else {
        multi_lookup(s.drop_first(), key)
    }
}

/// The entries after putting `values` under `key`, keeping keys sorted:
/// `values` is added after the key's values when `append`, or replaces them.
pub open spec fn multi_put(s: MultiView, key: Seq<char>, values: Seq<Seq<char>>, append: bool) -> MultiView
    decreases s.len(),
{
    if s.len() == 0 {
        seq![(key, values)]
    } else if s[0].0 == key {
        s.update(0, (key, if append { s[0].1 + values } else { values }))
    } else if seq_lt(key, s[0].0) {
        seq![(key, values)] + s
    } else {
        seq![s[0]] + multi_put(s.drop_first(), key, values, append)
    }
}

/// The uppercase hex digit of `n` (below 16).
pub open spec fn hex_digit(n: int) -> char {
    "0123456789ABCDEF"@[n]
}

/// A byte stands for itself in a query string: an ASCII letter or digit,
/// or one of `-_.~`.
pub open spec fn unreserved_byte(b: u8) -> bool {
    (48 <= b <= 57) || (65 <= b <= 90) || (97 <= b <= 122) || b == 45 || b == 95 || b == 46 || b == 126
}

/// A byte as query-string text: itself when unreserved, `+` for a space,
/// else `%` and its two uppercase hex digits.
pub open spec fn quote_byte(b: u8) -> Seq<char> {
    if unreserved_byte(b) {
        seq![b as char]
    } else if b == 32 {
        seq!['+']
    } else {
        seq!['%', hex_digit(b as int / 16), hex_digit(b as int % 16)]
    }
}

/// The bytes quoted one by one, in order.
pub open spec fn quote_bytes(bs: Seq<u8>) -> Seq<char>
    decreases bs.len(),
{
    if bs.len() == 0 {
        Seq::empty()
    } else {
        quote_bytes(bs.drop_last()) + quote_byte(bs.last())
    }
}

/// Text quoted for a query string as Django's `urlencode` does it
/// (`quote_plus`): its UTF-8 bytes, each quoted.
pub open spec fn url_quoted(s: Seq<char>) -> Seq<char> {
    quote_bytes(encode_utf8(s))
}

/// `key=value`, both quoted, for every key, in order, and each of its
/// values, in order.
pub open spec fn url_pairs(s: MultiView) -> Seq<Seq<char>>
    decreases s.len(),
{
    if s.len() == 0 {
        Seq::empty()
    } else {
        url_pairs(s.drop_last()) + s.last().1.map_values(|v: Seq<char>| url_quoted(s.last().0) + "="@ + url_quoted(v))
    }
}

/// `s` quoted for a query string (see [`url_quoted`]).
pub fn quote_plus(s: &str) -> (r: String)
    ensures
        r@ == url_quoted(s@),
{
    let bytes = s.as_bytes();
    let digits = crate::text::chars_of("0123456789ABCDEF");
    proof { reveal_strlit("0123456789ABCDEF"); }
    assert(digits@.len() == 16);
    let mut r = String::new();
    let mut i: usize = 0;
    while i < bytes.len()
        invariant
            i <= bytes@.len(),
            bytes@ == encode_utf8(s@),
            digits@ == "0123456789ABCDEF"@,
            digits@.len() == 16,
            r@ == quote_bytes(bytes@.take(i as int)),
        decreases bytes.len() - i,
    {
        let b = bytes[i];
        let ghost before = r@;
        if (b >= 48 && b <= 57) || (b >= 65 && b <= 90) || (b >= 97 && b <= 122) || b == 45 || b == 95 || b == 46 || b == 126 {
            crate::text::push_char(&mut r, b as char);
        } else if b == 32 {
            crate::text::push_char(&mut r, '+');
        } else {
            crate::text::push_char(&mut r, '%');
            crate::text::push_char(&mut r, digits[(b / 16) as usize]);
            crate::text::push_char(&mut r, digits[(b % 16) as usize]);
        }
        assert(bytes@.take(i + 1).drop_last() =~= bytes@.take(i as int));
        assert(r@ =~= before + quote_byte(b));
        i = i + 1;
    }
    assert(bytes@.take(bytes@.len() as int) =~= bytes@);
    r
}

proof fn lemma_multi_put_at(s: MultiView, key: Seq<char>, values: Seq<Seq<char>>, append: bool, i: int)
    requires
        keys_sorted(s),
        0 <= i <= s.len(),
        forall|j: int| 0 <= j < i ==> seq_lt(s[j].0, key),
        i < s.len() ==> !seq_lt(s[i].0, key),
    ensures
        multi_put(s, key, values, append) == (if i < s.len() && s[i].0 == key {
            s.update(i, (key, if append { s[i].1 + values } else { values }))
        } else {
            s.insert(i, (key, values))
        }),
    decreases i,
{
    if i == 0 {
        if s.len() > 0 && s[0].0 != key {
            lemma_seq_lt_strict_total(s[0].0, key);
            assert(seq![(key, values)] + s =~= s.insert(0, (key, values)));
        } else if s.len() == 0 {
            assert(seq![(key, values)] =~= s.insert(0, (key, values)));
        }
    } else {
        lemma_seq_lt_strict_total(s[0].0, key);
        let t = s.drop_first();
        assert(keys_sorted(t)) by {
            assert forall|a: int, b: int| 0 <= a < b < t.len() implies seq_lt(t[a].0, t[b].0) by {
                assert(t[a] == s[a + 1] && t[b] == s[b + 1]);
            }
        }
        assert forall|j: int| 0 <= j < i - 1 implies seq_lt(t[j].0, key) by {
            assert(t[j] == s[j + 1]);
        }
        lemma_multi_put_at(t, key, values, append, i - 1);
        if i < s.len() && s[i].0 == key {
            assert(seq![s[0]] + t.update(i - 1, (key, if append { t[i - 1].1 + values } else { values }))
                =~= s.update(i, (key, if append { s[i].1 + values } else { values })));
        } else {
            assert(seq![s[0]] + t.insert(i - 1, (key, values)) =~= s.insert(i, (key, values)));
        }
    }
}

proof fn lemma_multi_lookup_at(s: MultiView, key: Seq<char>, i: int)
    requires
        keys_sorted(s),
        0 <= i <= s.len(),
        forall|j: int| 0 <= j < i ==> seq_lt(s[j].0, key),
        i < s.len() ==> !seq_lt(s[i].0, key),
    ensures
        multi_lookup(s, key) == (if i < s.len() && s[i].0 == key { Some(s[i].1) } else { None::<Seq<Seq<char>>> }),
    decreases s.len(),
{
    if s.len() > 0 {
        let t = s.drop_first();
        assert(keys_sorted(t)) by {
            assert forall|a: int, b: int| 0 <= a < b < t.len() implies seq_lt(t[a].0, t[b].0) by {
                assert(t[a] == s[a + 1] && t[b] == s[b + 1]);
            }
        }
        if i == 0 {
            if s[0].0 != key {
                lemma_seq_lt_strict_total(s[0].0, key);
                // every later key is greater than s[0], hence than `key`
                assert forall|j: int| 0 <= j < t.len() implies seq_lt(key, t[j].0) by {
                    assert(t[j] == s[j + 1]);
                    lemma_seq_lt_transitive(key, s[0].0, s[j + 1].0);
                }
                lemma_multi_lookup_none(t, key);
            }
        } else {
            lemma_seq_lt_strict_total(s[0].0, key);
            assert forall|j: int| 0 <= j < i - 1 implies seq_lt(t[j].0, key) by {
                assert(t[j] == s[j + 1]);
            }
            lemma_multi_lookup_at(t, key, i - 1);
        }
    }
}

proof fn lemma_multi_lookup_none(s: MultiView, key: Seq<char>)
    requires
        forall|j: int| 0 <= j < s.len() ==> seq_lt(key, s[j].0),
    ensures
        multi_lookup(s, key) is None,
    decreases s.len(),
{
    if s.len() > 0 {
        lemma_seq_lt_strict_total(key, s[0].0);
        let t = s.drop_first();
        assert forall|j: int| 0 <= j < t.len() implies seq_lt(key, t[j].0) by {
            assert(t[j] == s[j + 1]);
        }
        lemma_multi_lookup_none(t, key);
    }
}

proof fn lemma_sorted_tail(s: MultiView)
    requires
        keys_sorted(s),
        s.len() > 0,
    ensures
        keys_sorted(s.drop_first()),
        forall|j: int| 0 <= j < s.drop_first().len() ==> seq_lt(s[0].0, #[trigger] s.drop_first()[j].0),
{
    let t = s.drop_first();
    assert forall|a: int, b: int| 0 <= a < b < t.len() implies seq_lt(t[a].0, t[b].0) by {
        assert(t[a] == s[a + 1] && t[b] == s[b + 1]);
    }
    assert forall|j: int| 0 <= j < t.len() implies seq_lt(s[0].0, #[trigger] t[j].0) by {
        assert(t[j] == s[j + 1]);
    }
}

/// What `other` reads after putting `values` under `key`.
pub open spec fn read_after_put(s: MultiView, key: Seq<char>, values: Seq<Seq<char>>, append: bool, other: Seq<char>) -> Option<Seq<Seq<char>>> {
    if other == key {
        Some(match multi_lookup(s, key) {
            Some(prev) => if append { prev + values } else { values },
            None => values,
        })
    } else {
        multi_lookup(s, other)
    }
}

/// What a key reads after a put: the key put reads the values put (after
/// its earlier values when appending), and every other key reads as before.
pub proof fn law_lookup_after_put(s: MultiView, key: Seq<char>, values: Seq<Seq<char>>, append: bool, other: Seq<char>)
    requires
        keys_sorted(s),
    ensures
        multi_lookup(multi_put(s, key, values, append), other) == read_after_put(s, key, values, append, other),
    decreases s.len(),
{
    let p = multi_put(s, key, values, append);
    if s.len() == 0 {
        assert(p.drop_first() =~= Seq::<(Seq<char>, Seq<Seq<char>>)>::empty());
        assert(multi_lookup(p.drop_first(), other) is None);
        assert(multi_lookup(s, other) is None);
        assert(p[0].0 == key);
        assert(multi_lookup(p, other) == read_after_put(s, key, values, append, other));
    } else {
        lemma_sorted_tail(s);
        let t = s.drop_first();
        if s[0].0 == key {
            assert(p.drop_first() =~= t);
            assert(p[0].0 == key);
            assert(multi_lookup(s, key) == Some(s[0].1));
            assert(multi_lookup(p, other) == read_after_put(s, key, values, append, other));
        } else if seq_lt(key, s[0].0) {
            assert(p.drop_first() =~= s);
            assert(p[0].0 == key);
            if other == key {
                assert forall|j: int| 0 <= j < s.len() implies seq_lt(key, s[j].0) by {
                    if j > 0 {
                        assert(t[j - 1] == s[j]);
                        lemma_seq_lt_transitive(key, s[0].0, s[j].0);
                    }
                }
                lemma_multi_lookup_none(s, key);
            }
            assert(multi_lookup(p, other) == read_after_put(s, key, values, append, other));
        } else {
            law_lookup_after_put(t, key, values, append, other);
            assert(p.drop_first() =~= multi_put(t, key, values, append));
            assert(p[0] == s[0]);
            assert(multi_lookup(s, key) == multi_lookup(t, key));
            assert(multi_lookup(p, other) == read_after_put(s, key, values, append, other));
        }
    }
}

/// A put adds one key exactly when the key was absent.
pub proof fn law_put_len(s: MultiView, key: Seq<char>, values: Seq<Seq<char>>, append: bool)
    requires
        keys_sorted(s),
    ensures
        multi_put(s, key, values, append).len() == s.len() + (if multi_lookup(s, key) is Some { 0int } else { 1int }),
    decreases s.len(),
{
    if s.len() > 0 {
        lemma_sorted_tail(s);
        let t = s.drop_first();
        if s[0].0 != key {
            if seq_lt(key, s[0].0) {
                assert forall|j: int| 0 <= j < s.len() implies seq_lt(key, s[j].0) by {
                    if j > 0 {
                        assert(t[j - 1] == s[j]);
                        lemma_seq_lt_transitive(key, s[0].0, s[j].0);
                    }
                }
                lemma_multi_lookup_none(s, key);
            } else {
                law_put_len(t, key, values, append);
            }
        }
    }
}

/// The entries of a dictionary as views.
pub open spec fn entry_views(v: Seq<(String, Vec<String>)>) -> MultiView {
    v.map_values(|e: (String, Vec<String>)| (e.0@, views(e.1@)))
}

/// A dictionary that holds several values per key, with keys kept in order.
#[derive(Debug, Clone)]
pub struct MultiValueDict {
    data: Vec<(String, Vec<String>)>,
}

impl View for MultiValueDict {
    type V = MultiView;

    closed spec fn view(&self) -> MultiView {
        entry_views(self.data@)
    }
}

impl MultiValueDict {
    /// Keys are sorted and every key has a value.
    pub open spec fn wf(&self) -> bool {
        keys_sorted(self@) && values_nonempty(self@)
    }

    /// An empty dictionary.
    pub fn new() -> (r: Self)
        ensures
            r.wf(),
            r@.len() == 0,
    {
        MultiValueDict { data: Vec::new() }
    }

    /// Where `key` is or would go: the first position whose key does not
    /// sort before it.
    fn position(&self, key: &str) -> (r: usize)
        requires
            self.wf(),
        ensures
            r <= self@.len(),
            forall|j: int| 0 <= j < r ==> seq_lt(self@[j].0, key@),
            r < self@.len() ==> !seq_lt(self@[r as int].0, key@),
            multi_lookup(self@, key@) == (if r < self@.len() && self@[r as int].0 == key@ {
                Some(self@[r as int].1)
            } else {
                None::<Seq<Seq<char>>>
            }),
    {
        let mut i: usize = 0;
        while i < self.data.len()
            invariant
                self.wf(),
                i <= self.data@.len(),
                self@.len() == self.data@.len(),
                forall|j: int| 0 <= j < i ==> seq_lt(self@[j].0, key@),
            decreases self.data.len() - i,
        {
            assert(self@[i as int].0 == self.data@[i as int].0@);
            if !str_lt(self.data[i].0.as_str(), key) {
                proof { lemma_multi_lookup_at(self@, key@, i as int); }
                return i;
            }
            i = i + 1;
        }
        proof { lemma_multi_lookup_at(self@, key@, i as int); }
        i
    }

    /// The first value under `key`, found by looking at every entry (so it
    /// needs no ordering of the keys); `None` also when the key holds no value.
    pub fn first_value(&self, key: &str) -> (r: Option<&str>)
        ensures
            match multi_lookup(self@, key@) {
                Some(vs) => if vs.len() > 0 { r matches Some(x) && x@ == vs[0] } else { r is None },
                None => r is None,
            },
    {
        let ghost s = self@;
        assert(s.skip(0) =~= s);
        let mut i: usize = 0;
        while i < self.data.len()
            invariant
                i <= self.data@.len(),
                s == self@,
                s.len() == self.data@.len(),
                multi_lookup(s, key@) == multi_lookup(s.skip(i as int), key@),
            decreases self.data.len() - i,
        {
            assert(s.skip(i as int).drop_first() =~= s.skip(i + 1));
            assert(s.skip(i as int)[0] == s[i as int]);
            assert(s[i as int].0 == self.data@[i as int].0@);
            assert(s[i as int].1 == views(self.data@[i as int].1@));
            if str_eq(self.data[i].0.as_str(), key) {
                if self.data[i].1.len() > 0 {
                    return Some(self.data[i].1[0].as_str());
                } else {
                    return None;
                }
            }
            i = i + 1;
        }
        assert(s.skip(i as int).len() == 0);
        None
    }

    /// The first value under `key`.
    pub fn get(&self, key: &str) -> (r: Option<&str>)
        requires
            self.wf(),
        ensures
            match multi_lookup(self@, key@) {
                Some(vs) => r matches Some(x) && x@ == vs[0],
                None => r is None,
            },
    {
        let i = self.position(key);
        if i < self.data.len() && str_eq(self.data[i].0.as_str(), key) {
            assert(self@[i as int].1 == views(self.data@[i as int].1@));
            Some(self.data[i].1[0].as_str())
        } else {
            None
        }
    }

    /// All values under `key`, in the order they were added.
    pub fn get_list(&self, key: &str) -> (r: Vec<&str>)
        requires
            self.wf(),
        ensures
            r@.map_values(|x: &str| x@) == match multi_lookup(self@, key@) {
                Some(vs) => vs,
                None => Seq::empty(),
            },
    {
        let i = self.position(key);
        let mut r: Vec<&str> = Vec::new();
        if i < self.data.len() && str_eq(self.data[i].0.as_str(), key) {
            let vals = &self.data[i].1;
            let ghost vs = views(vals@);
            assert(self@[i as int].1 == vs);
            let mut k: usize = 0;
            while k < vals.len()
                invariant
                    k <= vals@.len(),
                    vs == views(vals@),
                    r@.map_values(|x: &str| x@) == vs.take(k as int),
                decreases vals.len() - k,
            {
                let ghost before = r@;
                r.push(vals[k].as_str());
                assert(vs[k as int] == vals@[k as int]@);
                assert(r@.map_values(|x: &str| x@) =~= before.map_values(|x: &str| x@).push(vals@[k as int]@));
                assert(r@.map_values(|x: &str| x@) =~= vs.take(k + 1));
                k = k + 1;
            }
            assert(vs.take(vals@.len() as int) =~= vs);
        } else {
            assert(r@.map_values(|x: &str| x@) =~= Seq::<Seq<char>>::empty());
        }
        r
    }

    fn put(&mut self, key: &str, value: &str, append: bool)
        requires
            old(self).wf(),
        ensures
            final(self).wf(),
            final(self)@ == multi_put(old(self)@, key@, seq![value@], append),
    {
        let i = self.position(key);
        proof { lemma_multi_put_at(self@, key@, seq![value@], append, i as int); }
        if i < self.data.len() && str_eq(self.data[i].0.as_str(), key) {
            let ghost old_data = self.data@;
            let (k, mut vals) = self.data.remove(i);
            assert(k@ == key@);
            let ghost old_vals = views(vals@);
            assert(old_vals == old(self)@[i as int].1);
            if !append {
                vals = Vec::new();
            }
            vals.push(owned(value));
            assert(views(vals@) =~= (if append { old_vals + seq![value@] } else { seq![value@] }));
            let ghost e = (k, vals);
            self.data.insert(i, (k, vals));
            assert(self.data@ =~= old_data.update(i as int, e));
            assert(self@ =~= old(self)@.update(i as int, (key@, if append { old_vals + seq![value@] } else { seq![value@] })));
        } else {
            let mut vals: Vec<String> = Vec::new();
            vals.push(owned(value));
            assert(views(vals@) =~= seq![value@]);
            let ghost old_data = self.data@;
            let k = owned(key);
            let ghost e = (k, vals);
            self.data.insert(i, (k, vals));
            assert(self.data@ =~= old_data.insert(i as int, e));
            assert(self@ =~= old(self)@.insert(i as int, (key@, seq![value@])));
            assert(keys_sorted(self@)) by {
                let s = old(self)@;
                if i < s.len() {
                    lemma_seq_lt_strict_total(s[i as int].0, key@);
                }
                assert forall|a: int, b: int| 0 <= a < b < self@.len() implies seq_lt(self@[a].0, self@[b].0) by {
                    if a < i && b == i {
                    } else if a < i && b > i {
                        lemma_seq_lt_strict_total(s[i as int].0, key@);
                        assert(seq_lt(key@, s[i as int].0));
                        if b - 1 > i {
                            lemma_seq_lt_transitive(key@, s[i as int].0, s[b - 1].0);
                        }
                        lemma_seq_lt_transitive(s[a].0, key@, s[b - 1].0);
                    } else if a == i {
                        lemma_seq_lt_strict_total(s[i as int].0, key@);
                        if b - 1 > i {
                            lemma_seq_lt_transitive(key@, s[i as int].0, s[b - 1].0);
                        }
                    }
                }
            }
        }
    }

    /// Adds `value` after the values under `key`.
    pub fn add(&mut self, key: &str, value: &str)
        requires
            old(self).wf(),
        ensures
            final(self).wf(),
            final(self)@ == multi_put(old(self)@, key@, seq![value@], true),
    {
        self.put(key, value, true);
    }

    /// Makes `value` the only value under `key`.
    pub fn set(&mut self, key: &str, value: &str)
        requires
            old(self).wf(),
        ensures
            final(self).wf(),
            final(self)@ == multi_put(old(self)@, key@, seq![value@], false),
    {
        self.put(key, value, false);
    }

    /// The keys, in order.
    pub fn keys(&self) -> (r: Vec<&String>)
        ensures
            r@.len() == self@.len(),
            forall|i: int| 0 <= i < r@.len() ==> r@[i]@ == self@[i].0,
    {
        let mut r: Vec<&String> = Vec::new();
        let mut i: usize = 0;
        while i < self.data.len()
            invariant
                i <= self.data@.len(),
                r@.len() == i,
                forall|j: int| 0 <= j < i ==> r@[j]@ == self@[j].0,
            decreases self.data.len() - i,
        {
            r.push(&self.data[i].0);
            i = i + 1;
        }
        r
    }

    /// Each key with its first value, in key order.
    pub fn items(&self) -> (r: Vec<(&String, &String)>)
        requires
            self.wf(),
        ensures
            r@.len() == self@.len(),
            forall|i: int| 0 <= i < r@.len() ==> r@[i].0@ == self@[i].0 && r@[i].1@ == self@[i].1[0],
    {
        let mut r: Vec<(&String, &String)> = Vec::new();
        let mut i: usize = 0;
        while i < self.data.len()
            invariant
                self.wf(),
                i <= self.data@.len(),
                r@.len() == i,
                forall|j: int| 0 <= j < i ==> r@[j].0@ == self@[j].0 && r@[j].1@ == self@[j].1[0],
            decreases self.data.len() - i,
        {
            assert(self@[i as int].1 == views(self.data@[i as int].1@));
            assert(self@[i as int].1.len() > 0);
            r.push((&self.data[i].0, &self.data[i].1[0]));
            i = i + 1;
        }
        r
    }

    /// `key=value` for every value, keys in sorted order, joined with `&`;
    /// keys and values are quoted as Django's `urlencode` does (see
    /// [`url_quoted`]).
    pub fn urlencode(&self) -> (r: String)
        ensures
            r@ == join(url_pairs(self@), "&"@),
    {
        let mut parts: Vec<String> = Vec::new();
        let mut i: usize = 0;
        while i < self.data.len()
            invariant
                i <= self.data@.len(),
                views(parts@) == url_pairs(self@.take(i as int)),
            decreases self.data.len() - i,
        {
            let key = self.data[i].0.as_str();
            let vals = &self.data[i].1;
            let ghost e = self@[i as int];
            assert(e.0 == key@ && e.1 == views(vals@));
            assert(self@.take(i + 1).drop_last() =~= self@.take(i as int));
            let ghost base = views(parts@);
            let qkey = quote_plus(key);
            let mut k: usize = 0;
            while k < vals.len()
                invariant
                    k <= vals@.len(),
                    e.0 == key@,
                    e.1 == views(vals@),
                    qkey@ == url_quoted(key@),
                    views(parts@) == base + e.1.take(k as int).map_values(|v: Seq<char>| url_quoted(e.0) + "="@ + url_quoted(v)),
                decreases vals.len() - k,
            {
                let ghost before = parts@;
                let qval = quote_plus(vals[k].as_str());
                let p = concat3(qkey.as_str(), "=", qval.as_str());
                parts.push(p);
                assert(views(parts@) =~= views(before).push(p@));
                assert(e.1[k as int] == vals@[k as int]@);
                assert(e.1.take(k + 1).map_values(|v: Seq<char>| url_quoted(e.0) + "="@ + url_quoted(v))
                    =~= e.1.take(k as int).map_values(|v: Seq<char>| url_quoted(e.0) + "="@ + url_quoted(v)).push(url_quoted(e.0) + "="@ + url_quoted(e.1[k as int])));
                assert(views(parts@) =~= base + e.1.take(k + 1).map_values(|v: Seq<char>| url_quoted(e.0) + "="@ + url_quoted(v)));
                k = k + 1;
            }
            assert(e.1.take(vals@.len() as int) =~= e.1);
            assert(views(parts@) =~= url_pairs(self@.take(i + 1)));
            i = i + 1;
        }
        assert(self@.take(self.data@.len() as int) =~= self@);
        crate::text::join_strings(&parts, "&")
    }

    /// The dictionary has no key.
    pub fn is_empty(&self) -> (r: bool)
        ensures
            r == (self@.len() == 0),
    {
        self.data.len() == 0
    }

    /// The number of distinct keys.
    pub fn len(&self) -> (r: usize)
        ensures
            r == self@.len(),
    {
        self.data.len()
    }
}

impl Default for MultiValueDict {
    fn default() -> (r: Self)
        ensures
            r.wf(),
            r@.len() == 0,
    {
        MultiValueDict::new()
    }
}

// ---------------------------------------------------------------------------
// Methods and status codes
// ---------------------------------------------------------------------------

/// The HTTP methods the framework handles.
#[derive(Debug, Clone, Copy, PartialEq, Eq, Hash, Structural)]
pub enum HttpMethod {
    GET,
    POST,
    PUT,
    PATCH,
    DELETE,
    HEAD,
    OPTIONS,
}

impl HttpMethod {
    /// The method's name.
    pub open spec fn spec_str(self) -> Seq<char> {
        match self {
            HttpMethod::GET => "GET"@,
            HttpMethod::POST => "POST"@,
            HttpMethod::PUT => "PUT"@,
            HttpMethod::PATCH => "PATCH"@,
            HttpMethod::DELETE => "DELETE"@,
            HttpMethod::HEAD => "HEAD"@,
            HttpMethod::OPTIONS => "OPTIONS"@,
        }
    }

    /// The method's name.
    pub fn as_str(&self) -> (r: &'static str)
        ensures
            r@ == self.spec_str(),
    {
        match self {
            HttpMethod::GET => "GET",
            HttpMethod::POST => "POST",
            HttpMethod::PUT => "PUT",
            HttpMethod::PATCH => "PATCH",
            HttpMethod::DELETE => "DELETE",
            HttpMethod::HEAD => "HEAD",
            HttpMethod::OPTIONS => "OPTIONS",
        }
    }

    /// The method named `s`, compared without regard to case.
    pub fn parse(s: &str) -> (r: Result<HttpMethod, RjangoError>)
        ensures
            match r {
                Ok(m) => m.spec_str() == uppercase(s@),
                Err(e) => e matches RjangoError::Server(d) && d@ == "Invalid method: "@ + s@
                    && uppercase(s@) != "GET"@ && uppercase(s@) != "POST"@ && uppercase(s@) != "PUT"@
                    && uppercase(s@) != "PATCH"@ && uppercase(s@) != "DELETE"@ && uppercase(s@) != "HEAD"@
                    && uppercase(s@) != "OPTIONS"@,
            },
    {
        let up = to_uppercase(s);
        let u = up.as_str();
        if str_eq(u, "GET") {
            Ok(HttpMethod::GET)
        } else if str_eq(u, "POST") {
            Ok(HttpMethod::POST)
        } else if str_eq(u, "PUT") {
            Ok(HttpMethod::PUT)
        } else if str_eq(u, "PATCH") {
            Ok(HttpMethod::PATCH)
        } else if str_eq(u, "DELETE") {
            Ok(HttpMethod::DELETE)
        } else if str_eq(u, "HEAD") {
            Ok(HttpMethod::HEAD)
        } else if str_eq(u, "OPTIONS") {
            Ok(HttpMethod::OPTIONS)
        } else {
            Err(RjangoError::Server(concat2("Invalid method: ", s)))
        }
    }
}

impl std::str::FromStr for HttpMethod {
    type Err = RjangoError;

    fn from_str(s: &str) -> Result<Self, Self::Err> {
        HttpMethod::parse(s)
    }
}

/// An HTTP status code.
#[derive(Debug, Clone, Copy, PartialEq, Eq, Structural)]
pub struct StatusCode(pub u16);

impl StatusCode {
    /// Status 200.
    #[allow(non_snake_case)]
    pub fn OK() -> (r: StatusCode)
        ensures
            r.code() == 200,
    {
        StatusCode(200)
    }
    /// Status 201.
    #[allow(non_snake_case)]
    pub fn CREATED() -> (r: StatusCode)
        ensures
            r.code() == 201,
    {
        StatusCode(201)
    }
    /// Status 204.
    #[allow(non_snake_case)]
    pub fn NO_CONTENT() -> (r: StatusCode)
        ensures
            r.code() == 204,
    {
        StatusCode(204)
    }
    /// Status 301.
    #[allow(non_snake_case)]
    pub fn MOVED_PERMANENTLY() -> (r: StatusCode)
        ensures
            r.code() == 301,
    {
        StatusCode(301)
    }
    /// Status 302.
    #[allow(non_snake_case)]
    pub fn FOUND() -> (r: StatusCode)
        ensures
            r.code() == 302,
    {
        StatusCode(302)
    }
    /// Status 304.
    #[allow(non_snake_case)]
    pub fn NOT_MODIFIED() -> (r: StatusCode)
        ensures
            r.code() == 304,
    {
        StatusCode(304)
    }
    /// Status 400.
    #[allow(non_snake_case)]
    pub fn BAD_REQUEST() -> (r: StatusCode)
        ensures
            r.code() == 400,
    {
        StatusCode(400)
    }
    /// Status 401.
    #[allow(non_snake_case)]
    pub fn UNAUTHORIZED() -> (r: StatusCode)
        ensures
            r.code() == 401,
    {
        StatusCode(401)
    }
    /// Status 403.
    #[allow(non_snake_case)]
    pub fn FORBIDDEN() -> (r: StatusCode)
        ensures
            r.code() == 403,
    {
        StatusCode(403)
    }
    /// Status 404.
    #[allow(non_snake_case)]
    pub fn NOT_FOUND() -> (r: StatusCode)
        ensures
            r.code() == 404,
    {
        StatusCode(404)
    }
    /// Status 405.
    #[allow(non_snake_case)]
    pub fn METHOD_NOT_ALLOWED() -> (r: StatusCode)
        ensures
            r.code() == 405,
    {
        StatusCode(405)
    }
    /// Status 409.
    #[allow(non_snake_case)]
    pub fn CONFLICT() -> (r: StatusCode)
        ensures
            r.code() == 409,
    {
        StatusCode(409)
    }
    /// Status 500.
    #[allow(non_snake_case)]
    pub fn INTERNAL_SERVER_ERROR() -> (r: StatusCode)
        ensures
            r.code() == 500,
    {
        StatusCode(500)
    }

    /// The numeric code.
    pub open spec fn code(self) -> u16 {
        self.0
    }

    /// The numeric code.
    pub fn as_u16(&self) -> (r: u16)
        ensures
            r == self.code(),
    {
        self.0
    }

    /// The standard reason phrase of the codes the framework names; `Unknown` otherwise.
    pub open spec fn phrase(self) -> Seq<char> {
        if self.0 == 200 { "OK"@ }
        else if self.0 == 201 { "Created"@ }
        else if self.0 == 204 { "No Content"@ }
        else if self.0 == 301 { "Moved Permanently"@ }
        else if self.0 == 302 { "Found"@ }
        else if self.0 == 304 { "Not Modified"@ }
        else if self.0 == 400 { "Bad Request"@ }
        else if self.0 == 401 { "Unauthorized"@ }
        else if self.0 == 403 { "Forbidden"@ }
        else if self.0 == 404 { "Not Found"@ }
        else if self.0 == 405 { "Method Not Allowed"@ }
        else if self.0 == 409 { "Conflict"@ }
        else if self.0 == 500 { "Internal Server Error"@ }
        else { "Unknown"@ }
    }

    /// The reason phrase.
    pub fn reason_phrase(&self) -> (r: &'static str)
        ensures
            r@ == self.phrase(),
    {
        match self.0 {
            200 => "OK",
            201 => "Created",
            204 => "No Content",
            301 => "Moved Permanently",
            302 => "Found",
            304 => "Not Modified",
            400 => "Bad Request",
            401 => "Unauthorized",
            403 => "Forbidden",
            404 => "Not Found",
            405 => "Method Not Allowed",
            409 => "Conflict",
            500 => "Internal Server Error",
            _ => "Unknown",
        }
    }
}

impl From<u16> for StatusCode {
    fn from(n: u16) -> (r: Self) {
        StatusCode(n)
    }
}

impl vstd::std_specs::convert::FromSpecImpl<u16> for StatusCode {
    open spec fn obeys_from_spec() -> bool {
        true
    }

    open spec fn from_spec(n: u16) -> Self {
        StatusCode(n)
    }
}

impl From<i32> for StatusCode {
    fn from(n: i32) -> (r: Self) {
        StatusCode(n as u16)
    }
}

impl vstd::std_specs::convert::FromSpecImpl<i32> for StatusCode {
    open spec fn obeys_from_spec() -> bool {
        true
    }

    open spec fn from_spec(n: i32) -> Self {
        StatusCode(n as u16)
    }
}

// ---------------------------------------------------------------------------
// Header maps
// ---------------------------------------------------------------------------

/// Name/value pairs, one per name.
pub type PairsView = Seq<(Seq<char>, Seq<char>)>;

/// The value under `key`.
pub open spec fn pair_lookup(s: PairsView, key: Seq<char>) -> Option<Seq<char>>
    decreases s.len(),
{
    if s.len() == 0 {
        None
    } else if s[0].0 == key {
        Some(s[0].1)
    } else {
        pair_lookup(s.drop_first(), key)
    }
}

/// The pairs after setting `key` to `value`: replaced in place when present,
/// else added at the end.
pub open spec fn pair_insert(s: PairsView, key: Seq<char>, value: Seq<char>) -> PairsView
    decreases s.len(),
{
    if s.len() == 0 {
        seq![(key, value)]
    } else if s[0].0 == key {
        s.update(0, (key, value))
    } else {
        seq![s[0]] + pair_insert(s.drop_first(), key, value)
    }
}

pub(crate) proof fn lemma_pair_at(s: PairsView, key: Seq<char>, value: Seq<char>, i: int)
    requires
        0 <= i <= s.len(),
        forall|j: int| 0 <= j < i ==> s[j].0 != key,
        i < s.len() ==> s[i].0 == key,
    ensures
        pair_insert(s, key, value) == (if i < s.len() { s.update(i, (key, value)) } else { s.push((key, value)) }),
        pair_lookup(s, key) == (if i < s.len() { Some(s[i].1) } else { None::<Seq<char>> }),
    decreases i,
{
    if i == 0 {
        if s.len() == 0 {
            assert(seq![(key, value)] =~= s.push((key, value)));
        }
    } else {
        let t = s.drop_first();
        assert forall|j: int| 0 <= j < i - 1 implies t[j].0 != key by {
            assert(t[j] == s[j + 1]);
        }
        lemma_pair_at(t, key, value, i - 1);
        if i < s.len() {
            assert(seq![s[0]] + t.update(i - 1, (key, value)) =~= s.update(i, (key, value)));
        } else {
            assert(seq![s[0]] + t.push((key, value)) =~= s.push((key, value)));
        }
    }
}

/// Setting a name makes it read back the value set, and leaves every other
/// name reading as before.
pub proof fn law_pair_lookup_after_insert(s: PairsView, key: Seq<char>, value: Seq<char>, other: Seq<char>)
    ensures
        pair_lookup(pair_insert(s, key, value), other) == (if other == key { Some(value) } else { pair_lookup(s, other) }),
    decreases s.len(),
{
    let p = pair_insert(s, key, value);
    if s.len() == 0 {
        assert(p.drop_first() =~= Seq::<(Seq<char>, Seq<char>)>::empty());
        assert(pair_lookup(p.drop_first(), other) is None);
    } else if s[0].0 == key {
        assert(p.drop_first() =~= s.drop_first());
    } else {
        law_pair_lookup_after_insert(s.drop_first(), key, value, other);
        assert(p.drop_first() =~= pair_insert(s.drop_first(), key, value));
    }
}

/// The views of a list of string pairs.
pub open spec fn pair_views(v: Seq<(String, String)>) -> PairsView {
    v.map_values(|e: (String, String)| (e.0@, e.1@))
}

/// Name/value pairs, one value per name, in the order names were first set.
#[derive(Debug, Clone, PartialEq)]
pub struct HeaderMap {
    entries: Vec<(String, String)>,
}

impl View for HeaderMap {
    type V = PairsView;

    closed spec fn view(&self) -> PairsView {
        pair_views(self.entries@)
    }
}

impl HeaderMap {
    /// An empty map.
    pub fn new() -> (r: Self)
        ensures
            r@.len() == 0,
    {
        HeaderMap { entries: Vec::new() }
    }

    fn position(&self, key: &str) -> (r: usize)
        ensures
            r <= self@.len(),
            forall|j: int| 0 <= j < r ==> self@[j].0 != key@,
            r < self@.len() ==> self@[r as int].0 == key@,
    {
        let mut i: usize = 0;
        while i < self.entries.len()
            invariant
                i <= self.entries@.len(),
                self@.len() == self.entries@.len(),
                forall|j: int| 0 <= j < i ==> self@[j].0 != key@,
            decreases self.entries.len() - i,
        {
            if str_eq(self.entries[i].0.as_str(), key) {
                return i;
            }
            i = i + 1;
        }
        i
    }

    /// The value under `key`.
    pub fn get(&self, key: &str) -> (r: Option<&str>)
        ensures
            match pair_lookup(self@, key@) {
                Some(v) => r matches Some(x) && x@ == v,
                None => r is None,
            },
    {
        let i = self.position(key);
        proof { lemma_pair_at(self@, key@, Seq::empty(), i as int); }
        if i < self.entries.len() {
            Some(self.entries[i].1.as_str())
        } else {
            None
        }
    }

    /// Sets `key` to `value`.
    pub fn insert(&mut self, key: String, value: String)
        ensures
            final(self)@ == pair_insert(old(self)@, key@, value@),
    {
        let i = self.position(key.as_str());
        proof { lemma_pair_at(self@, key@, value@, i as int); }
        let ghost e = (key, value);
        if i < self.entries.len() {
            self.entries.set(i, (key, value));
        } else {
            self.entries.push((key, value));
        }
        assert(self@ =~= pair_insert(old(self)@, key@, value@));
    }

    /// The number of names.
    pub fn len(&self) -> (r: usize)
        ensures
            r == self@.len(),
    {
        self.entries.len()
    }

    /// The name at position `i`, in the order names were first set.
    pub fn key_at(&self, i: usize) -> (r: &str)
        requires
            i < self@.len(),
        ensures
            r@ == self@[i as int].0,
    {
        self.entries[i].0.as_str()
    }

    /// The value at position `i`, in the order names were first set.
    pub fn value_at(&self, i: usize) -> (r: &str)
        requires
            i < self@.len(),
        ensures
            r@ == self@[i as int].1,
    {
        self.entries[i].1.as_str()
    }

    /// A copy of the map.
    pub fn duplicate(&self) -> (r: Self)
        ensures
            r@ == self@,
    {
        let mut entries: Vec<(String, String)> = Vec::new();
        let mut i: usize = 0;
        while i < self.entries.len()
            invariant
                i <= self.entries@.len(),
                pair_views(entries@) == self@.take(i as int),
            decreases self.entries.len() - i,
        {
            let e = (self.entries[i].0.clone(), self.entries[i].1.clone());
            let ghost before = entries@;
            entries.push(e);
            assert(pair_views(entries@) =~= pair_views(before).push((e.0@, e.1@)));
            assert(self@[i as int] == (self.entries@[i as int].0@, self.entries@[i as int].1@));
            assert(pair_views(entries@) =~= self@.take(i + 1));
            i = i + 1;
        }
        assert(self@.take(self.entries@.len() as int) =~= self@);
        HeaderMap { entries }
    }
}

// ---------------------------------------------------------------------------
// Responses
// ---------------------------------------------------------------------------

/// The text of bytes read as UTF-8, with invalid sequences replaced.
pub uninterp spec fn utf8_lossy(bytes: Seq<u8>) -> Seq<char>;

/// `String::from_utf8_lossy`: determined by the bytes; valid UTF-8 reads as
/// the text it encodes.
#[verifier::external_body]
fn bytes_to_text(bytes: &[u8]) -> (r: String)
    ensures
        r@ == utf8_lossy(bytes@),
        forall|s: Seq<char>| bytes@ == #[trigger] encode_utf8(s) ==> r@ == s,
{
    String::from_utf8_lossy(bytes).to_string()
}

/// The headers every new response starts with.
pub open spec fn default_headers() -> PairsView {
    seq![("content-type"@, "text/html; charset=utf-8"@)]
}

fn default_header_map() -> (r: HeaderMap)
    ensures
        r@ == default_headers(),
{
    let mut h = HeaderMap::new();
    h.insert(owned("content-type"), owned("text/html; charset=utf-8"));
    assert(h@ =~= default_headers());
    h
}

/// The `Set-Cookie` text of a plain cookie.
pub open spec fn cookie_text(name: Seq<char>, value: Seq<char>) -> Seq<char> {
    name + "="@ + value + "; Path=/"@
}

/// The `SameSite` attribute written for `same_site`: `Strict` and `None` as
/// given, anything else as `Lax`.
pub open spec fn same_site_attr(same_site: Seq<char>) -> Seq<char> {
    if same_site == "Strict"@ {
        "; SameSite=Strict"@
    } else if same_site == "None"@ {
        "; SameSite=None"@
    } else {
        "; SameSite=Lax"@
    }
}

/// The `Set-Cookie` text of a cookie with security attributes.
pub open spec fn secure_cookie_text(name: Seq<char>, value: Seq<char>, http_only: bool, same_site: Seq<char>, max_age_secs: u64) -> Seq<char> {
    cookie_text(name, value) + (if http_only { "; HttpOnly"@ } else { Seq::empty() }) + same_site_attr(same_site)
        + (if max_age_secs > 0 { "; Max-Age="@ + nat_str(max_age_secs as nat) } else { Seq::empty() })
}

/// An outgoing response.
#[derive(Debug, Clone, PartialEq)]
pub struct Response {
    pub status: StatusCode,
    pub headers: HeaderMap,
    pub body: Vec<u8>,
    pub cookies: Vec<(String, String)>,
    pub has_template_content: bool,
    pub extensions: HeaderMap,
}

impl Response {
    /// A response with the given status and body, an HTML content type,
    /// no cookies and no extensions.
    pub fn new(status: StatusCode, body: Vec<u8>) -> (r: Self)
        ensures
            r.status == status,
            r.headers@ == default_headers(),
            r.body@ == body@,
            r.cookies@.len() == 0,
            !r.has_template_content,
            r.extensions@.len() == 0,
    {
        Response {
            status,
            headers: default_header_map(),
            body,
            cookies: Vec::new(),
            has_template_content: false,
            extensions: HeaderMap::new(),
        }
    }

    /// A 200 response with `body` as HTML.
    pub fn html(body: &str) -> (r: Self)
        ensures
            r.status.code() == 200,
            r.headers@ == default_headers(),
            r.body@ == encode_utf8(body@),
            r.cookies@.len() == 0,
            !r.has_template_content,
    {
        Response::new(StatusCode::OK(), vstd::slice::slice_to_vec(body.as_bytes()))
    }

    /// A redirect to `url`: 301 when permanent, else 302, with an empty body.
    pub fn redirect(url: &str, permanent: bool) -> (r: Self)
        ensures
            r.status.code() == (if permanent { 301u16 } else { 302u16 }),
            r.headers@ == pair_insert(default_headers(), "location"@, url@),
            r.body@.len() == 0,
            r.cookies@.len() == 0,
    {
        let status = if permanent { StatusCode::MOVED_PERMANENTLY() } else { StatusCode::FOUND() };
        let mut resp = Response::new(status, Vec::new());
        resp.headers.insert(owned("location"), owned(url));
        resp
    }

    /// A 404 response with body `404 Not Found`.
    pub fn not_found() -> (r: Self)
        ensures
            r.status.code() == 404,
            r.headers@ == default_headers(),
            r.body@ == encode_utf8("404 Not Found"@),
    {
        Response::new(StatusCode::NOT_FOUND(), vstd::slice::slice_to_vec("404 Not Found".as_bytes()))
    }

    /// A 500 response with `msg` as body.
    pub fn server_error(msg: &str) -> (r: Self)
        ensures
            r.status.code() == 500,
            r.headers@ == default_headers(),
            r.body@ == encode_utf8(msg@),
    {
        Response::new(StatusCode::INTERNAL_SERVER_ERROR(), vstd::slice::slice_to_vec(msg.as_bytes()))
    }

    /// The header `name`, looked up by its lowercase form.
    pub fn header(&self, name: &str) -> (r: Option<&str>)
        ensures
            match pair_lookup(self.headers@, lowercase(name@)) {
                Some(v) => r matches Some(x) && x@ == v,
                None => r is None,
            },
    {
        let lower = to_lowercase(name);
        self.headers.get(lower.as_str())
    }

    /// Sets the header `name` (lowercased) to `value`.
    pub fn set_header(&mut self, name: &str, value: &str)
        ensures
            final(self).headers@ == pair_insert(old(self).headers@, lowercase(name@), value@),
            final(self).status == old(self).status,
            final(self).body == old(self).body,
            final(self).cookies == old(self).cookies,
    {
        self.headers.insert(to_lowercase(name), owned(value));
    }

    /// Adds a cookie `name=value; Path=/`.
    pub fn set_cookie(&mut self, name: &str, value: &str)
        ensures
            final(self).cookies@.len() == old(self).cookies@.len() + 1,
            forall|i: int| 0 <= i < old(self).cookies@.len() ==> final(self).cookies@[i] == old(self).cookies@[i],
            final(self).cookies@.last().0@ == name@,
            final(self).cookies@.last().1@ == cookie_text(name@, value@),
            final(self).headers == old(self).headers,
            final(self).status == old(self).status,
            final(self).body == old(self).body,
            final(self).has_template_content == old(self).has_template_content,
            final(self).extensions == old(self).extensions,
    {
        let mut c = concat3(name, "=", value);
        c.append("; Path=/");
        self.cookies.push((owned(name), c));
    }

    /// Adds a cookie with `HttpOnly`, `SameSite` and `Max-Age` attributes.
    pub fn set_secure_cookie(&mut self, name: &str, value: &str, http_only: bool, same_site: &str, max_age_secs: u64)
        ensures
            final(self).cookies@.len() == old(self).cookies@.len() + 1,
            forall|i: int| 0 <= i < old(self).cookies@.len() ==> final(self).cookies@[i] == old(self).cookies@[i],
            final(self).cookies@.last().0@ == name@,
            final(self).cookies@.last().1@ == secure_cookie_text(name@, value@, http_only, same_site@, max_age_secs),
            final(self).headers == old(self).headers,
            final(self).status == old(self).status,
            final(self).body == old(self).body,
            final(self).has_template_content == old(self).has_template_content,
            final(self).extensions == old(self).extensions,
    {
        let mut c = concat3(name, "=", value);
        c.append("; Path=/");
        if http_only {
            c.append("; HttpOnly");
        }
        if str_eq(same_site, "Strict") {
            c.append("; SameSite=Strict");
        } else if str_eq(same_site, "None") {
            c.append("; SameSite=None");
        } else {
            c.append("; SameSite=Lax");
        }
        if max_age_secs > 0 {
            c.append("; Max-Age=");
            c.append(u64_to_string(max_age_secs).as_str());
        }
        self.cookies.push((owned(name), c));
    }

    /// The numeric status.
    pub fn status_code(&self) -> (r: u16)
        ensures
            r == self.status.code(),
    {
        self.status.as_u16()
    }

    /// The body read as UTF-8, with invalid sequences replaced.
    pub fn body_str(&self) -> (r: String)
        ensures
            r@ == utf8_lossy(self.body@),
            forall|s: Seq<char>| self.body@ == #[trigger] encode_utf8(s) ==> r@ == s,
    {
        bytes_to_text(self.body.as_slice())
    }

    /// The response carries template content.
    pub fn has_template(&self) -> (r: bool)
        ensures
            r == self.has_template_content,
    {
        self.has_template_content
    }
}

/// A response whose body is sent in chunks by the server.
#[derive(Debug)]
pub struct StreamingHttpResponse {
    pub status: StatusCode,
    pub headers: HeaderMap,
    pub cookies: Vec<(String, String)>,
}

impl StreamingHttpResponse {
    /// A streaming response with the given status and an HTML content type.
    pub fn new(status: StatusCode) -> (r: Self)
        ensures
            r.status == status,
            r.headers@ == default_headers(),
            r.cookies@.len() == 0,
    {
        StreamingHttpResponse { status, headers: default_header_map(), cookies: Vec::new() }
    }

    /// The numeric status.
    pub fn status_code(&self) -> (r: u16)
        ensures
            r == self.status.code(),
    {
        self.status.as_u16()
    }

    /// Sets the header `name` (lowercased) to `value`.
    pub fn set_header(&mut self, name: &str, value: &str)
        ensures
            final(self).headers@ == pair_insert(old(self).headers@, lowercase(name@), value@),
            final(self).status == old(self).status,
    {
        self.headers.insert(to_lowercase(name), owned(value));
    }

    /// The header `name`, looked up by its lowercase form.
    pub fn header(&self, name: &str) -> (r: Option<&str>)
        ensures
            match pair_lookup(self.headers@, lowercase(name@)) {
                Some(v) => r matches Some(x) && x@ == v,
                None => r is None,
            },
    {
        let lower = to_lowercase(name);
        self.headers.get(lower.as_str())
    }

    /// A streaming response for the chunks `iter` (the server streams them;
    /// the response keeps the status and headers).
    pub fn from_strings<I>(status: StatusCode, iter: I) -> (r: Self)
        ensures
            r.status == status,
            r.headers@ == default_headers(),
            r.cookies@.len() == 0,
    {
        StreamingHttpResponse::new(status)
    }
}

/// `attachment; filename="f"` or `inline; filename="f"`.
pub open spec fn disposition(kind: Seq<char>, filename: Seq<char>) -> Seq<char> {
    kind + "; filename=\""@ + filename + "\""@
}

/// A response carrying a file, as a download or for inline display.
#[derive(Debug)]
pub struct FileResponse {
    pub status: StatusCode,
    pub headers: HeaderMap,
    pub body: Vec<u8>,
    pub cookies: Vec<(String, String)>,
}

impl FileResponse {
    /// A 200 response that downloads `body` as `filename`.
    pub fn new(body: Vec<u8>, filename: &str, content_type: &str) -> (r: Self)
        ensures
            r.status.code() == 200,
            r.headers@ == seq![("content-type"@, content_type@), ("content-disposition"@, disposition("attachment"@, filename@))],
            r.body@ == body@,
            r.cookies@.len() == 0,
    {
        let mut headers = HeaderMap::new();
        headers.insert(owned("content-type"), owned(content_type));
        let mut d = concat3("attachment", "; filename=\"", filename);
        d.append("\"");
        let ghost h1 = headers@;
        headers.insert(owned("content-disposition"), d);
        proof {
            reveal_strlit("content-type");
            reveal_strlit("content-disposition");
            assert("content-type"@.len() != "content-disposition"@.len());
            assert(h1 =~= seq![("content-type"@, content_type@)]);
            assert(pair_insert(h1.drop_first(), "content-disposition"@, d@) =~= seq![("content-disposition"@, d@)]);
        }
        assert(headers@ =~= seq![("content-type"@, content_type@), ("content-disposition"@, disposition("attachment"@, filename@))]);
        FileResponse { status: StatusCode::OK(), headers, body, cookies: Vec::new() }
    }

    /// A 200 response that shows `body` inline, named `filename`.
    pub fn inline(body: Vec<u8>, filename: &str, content_type: &str) -> (r: Self)
        ensures
            r.status.code() == 200,
            r.headers@ == seq![("content-type"@, content_type@), ("content-disposition"@, disposition("inline"@, filename@))],
            r.body@ == body@,
            r.cookies@.len() == 0,
    {
        let mut resp = FileResponse::new(body, filename, content_type);
        let mut d = concat3("inline", "; filename=\"", filename);
        d.append("\"");
        let ghost h1 = resp.headers@;
        resp.headers.insert(owned("content-disposition"), d);
        proof {
            reveal_strlit("content-type");
            reveal_strlit("content-disposition");
            assert("content-type"@.len() != "content-disposition"@.len());
            assert(h1.drop_first()[0].0 == "content-disposition"@);
            assert(pair_insert(h1.drop_first(), "content-disposition"@, d@) =~= seq![("content-disposition"@, d@)]);
        }
        assert(resp.headers@ =~= seq![("content-type"@, content_type@), ("content-disposition"@, disposition("inline"@, filename@))]);
        resp
    }

    /// The numeric status.
    pub fn status_code(&self) -> (r: u16)
        ensures
            r == self.status.code(),
    {
        self.status.as_u16()
    }

    /// Sets the header `name` (lowercased) to `value`.
    pub fn set_header(&mut self, name: &str, value: &str)
        ensures
            final(self).headers@ == pair_insert(old(self).headers@, lowercase(name@), value@),
            final(self).status == old(self).status,
            final(self).body == old(self).body,
    {
        self.headers.insert(to_lowercase(name), owned(value));
    }

    /// The header `name`, looked up by its lowercase form.
    pub fn header(&self, name: &str) -> (r: Option<&str>)
        ensures
            match pair_lookup(self.headers@, lowercase(name@)) {
                Some(v) => r matches Some(x) && x@ == v,
                None => r is None,
            },
    {
        let lower = to_lowercase(name);
        self.headers.get(lower.as_str())
    }
}

// ---------------------------------------------------------------------------
// Query strings
// ---------------------------------------------------------------------------

/// The percent-decoded text of `s`, invalid UTF-8 replaced, as
/// `percent_encoding` decodes it.
pub uninterp spec fn percent_decoded(s: Seq<char>) -> Seq<char>;

/// `percent_decode_str(s).decode_utf8_lossy()` of `percent_encoding`: the
/// text is determined by `s`.
#[verifier::external_body]
fn percent_decode(s: &str) -> (r: String)
    ensures
        r@ == percent_decoded(s@),
{
    percent_encoding::percent_decode_str(s).decode_utf8_lossy().to_string()
}

/// The entries a query string reads as: each nonempty `&`-separated piece
/// split at its first `=`, both sides percent-decoded, the value added under
/// the key, left to right.
pub open spec fn query_entries(pieces: Seq<Seq<char>>) -> MultiView
    decreases pieces.len(),
{
    if pieces.len() == 0 {
        Seq::empty()
    } else {
        let acc = query_entries(pieces.drop_last());
        let p = pieces.last();
        if p.len() == 0 {
            acc
        } else {
            multi_put(acc, percent_decoded(split_first(p, '=').0), seq![percent_decoded(split_first(p, '=').1)], true)
        }
    }
}

proof fn lemma_put_sorted(s: MultiView, key: Seq<char>, values: Seq<Seq<char>>, append: bool)
    requires
        keys_sorted(s),
    ensures
        keys_sorted(multi_put(s, key, values, append)),
        forall|j: int| 0 <= j < multi_put(s, key, values, append).len() ==>
            (#[trigger] multi_put(s, key, values, append)[j]).0 == key
            || exists|k: int| 0 <= k < s.len() && s[k].0 == multi_put(s, key, values, append)[j].0,
    decreases s.len(),
{
    let p = multi_put(s, key, values, append);
    if s.len() == 0 {
    } else if s[0].0 == key {
        assert forall|a: int, b: int| 0 <= a < b < p.len() implies seq_lt(p[a].0, p[b].0) by {
            assert(p[a].0 == s[a].0 && p[b].0 == s[b].0);
        }
        assert forall|j: int| 0 <= j < p.len() implies (#[trigger] p[j]).0 == key
            || exists|k: int| 0 <= k < s.len() && s[k].0 == p[j].0 by {
            assert(p[j].0 == s[j].0);
        }
    } else if seq_lt(key, s[0].0) {
        assert forall|a: int, b: int| 0 <= a < b < p.len() implies seq_lt(p[a].0, p[b].0) by {
            assert(p[b] == s[b - 1]);
            if a == 0 {
                if b > 1 {
                    lemma_seq_lt_transitive(key, s[0].0, s[b - 1].0);
                }
            } else {
                assert(p[a] == s[a - 1]);
            }
        }
        assert forall|j: int| 0 <= j < p.len() implies (#[trigger] p[j]).0 == key
            || exists|k: int| 0 <= k < s.len() && s[k].0 == p[j].0 by {
            if j > 0 {
                assert(p[j] == s[j - 1]);
            }
        }
    } else {
        lemma_seq_lt_strict_total(key, s[0].0);
        lemma_sorted_tail(s);
        let t = s.drop_first();
        lemma_put_sorted(t, key, values, append);
        let q = multi_put(t, key, values, append);
        assert(p == seq![s[0]] + q);
        assert forall|j: int| 0 <= j < q.len() implies seq_lt(s[0].0, (#[trigger] q[j]).0) by {
            if q[j].0 != key {
                let k = choose|k: int| 0 <= k < t.len() && t[k].0 == q[j].0;
                assert(seq_lt(s[0].0, t[k].0));
            }
        }
        assert forall|a: int, b: int| 0 <= a < b < p.len() implies seq_lt(p[a].0, p[b].0) by {
            assert(p[b] == q[b - 1]);
            if a > 0 {
                assert(p[a] == q[a - 1]);
            }
        }
        assert forall|j: int| 0 <= j < p.len() implies (#[trigger] p[j]).0 == key
            || exists|k: int| 0 <= k < s.len() && s[k].0 == p[j].0 by {
            if j == 0 {
                assert(s[0].0 == p[0].0);
            } else {
                assert(p[j] == q[j - 1]);
                if q[j - 1].0 != key {
                    let k = choose|k: int| 0 <= k < t.len() && t[k].0 == q[j - 1].0;
                    assert(s[k + 1].0 == p[j].0);
                }
            }
        }
    }
}

proof fn lemma_query_entries_sorted(pieces: Seq<Seq<char>>)
    ensures
        keys_sorted(query_entries(pieces)),
    decreases pieces.len(),
{
    if pieces.len() > 0 {
        lemma_query_entries_sorted(pieces.drop_last());
        let p = pieces.last();
        if p.len() > 0 {
            lemma_put_sorted(query_entries(pieces.drop_last()), percent_decoded(split_first(p, '=').0),
                seq![percent_decoded(split_first(p, '=').1)], true);
        }
    }
}

/// Law: every nonempty `&`-separated piece `key=value` of a query string is
/// read with both sides percent-decoded: the decoded key holds the decoded
/// value (the text after the first `=`), among the values of any other
/// pieces with that key.
pub proof fn law_query_values_decoded(query: Seq<char>, i: int)
    requires
        0 <= i < split_char(query, '&').len(),
        split_char(query, '&')[i].len() > 0,
    ensures
        ({
            let piece = split_char(query, '&')[i];
            multi_lookup(query_entries(split_char(query, '&')), percent_decoded(split_first(piece, '=').0))
                matches Some(vs) && vs.contains(percent_decoded(split_first(piece, '=').1))
        }),
{
    lemma_query_values_in(split_char(query, '&'), i);
}

proof fn lemma_query_values_in(pieces: Seq<Seq<char>>, i: int)
    requires
        0 <= i < pieces.len(),
        pieces[i].len() > 0,
    ensures
        multi_lookup(query_entries(pieces), percent_decoded(split_first(pieces[i], '=').0))
            matches Some(vs) && vs.contains(percent_decoded(split_first(pieces[i], '=').1)),
    decreases pieces.len(),
{
    let k = percent_decoded(split_first(pieces[i], '=').0);
    let v = percent_decoded(split_first(pieces[i], '=').1);
    let prev = pieces.drop_last();
    let p = pieces.last();
    lemma_query_entries_sorted(prev);
    let acc = query_entries(prev);
    if i < pieces.len() - 1 {
        assert(prev[i] == pieces[i]);
        lemma_query_values_in(prev, i);
        let vs = multi_lookup(acc, k)->0;
        if p.len() > 0 {
            let pk = percent_decoded(split_first(p, '=').0);
            let pv = seq![percent_decoded(split_first(p, '=').1)];
            law_lookup_after_put(acc, pk, pv, true, k);
            if pk == k {
                let j = choose|j: int| 0 <= j < vs.len() && vs[j] == v;
                assert((vs + pv)[j] == v);
            }
        }
    } else {
        let pv = seq![v];
        law_lookup_after_put(acc, k, pv, true, k);
        let r = multi_lookup(query_entries(pieces), k)->0;
        match multi_lookup(acc, k) {
            Some(prev_vs) => { assert(r[prev_vs.len() as int] == v); },
            None => { assert(r[0] == v); },
        }
    }
}

/// A multi-valued dictionary read from a query string or form body.
#[derive(Debug, Clone)]
pub struct QueryDict {
    data: MultiValueDict,
}

impl View for QueryDict {
    type V = MultiView;

    closed spec fn view(&self) -> MultiView {
        self.data@
    }
}

impl QueryDict {
    /// Keys are sorted and every key has a value.
    pub open spec fn wf(&self) -> bool {
        keys_sorted(self@) && values_nonempty(self@)
    }

    /// An empty dictionary.
    pub fn new() -> (r: Self)
        ensures
            r.wf(),
            r@.len() == 0,
    {
        QueryDict { data: MultiValueDict::new() }
    }

    /// Reads a query string such as `a=1&b=2&b=3`.
    pub fn from_query(query: &str) -> (r: Self)
        ensures
            r.wf(),
            r@ == query_entries(split_char(query@, '&')),
    {
        let pieces = split_on_char(query, '&');
        let ghost ps = split_char(query@, '&');
        let mut data = MultiValueDict::new();
        let mut i: usize = 0;
        while i < pieces.len()
            invariant
                i <= pieces@.len(),
                views(pieces@) == ps,
                data.wf(),
                data@ == query_entries(ps.take(i as int)),
            decreases pieces.len() - i,
        {
            assert(ps.take(i + 1).drop_last() =~= ps.take(i as int));
            assert(ps[i as int] == pieces@[i as int]@);
            let piece = pieces[i].as_str();
            if !str_is_empty(piece) {
                let (k, v) = split_first_str(piece, '=');
                let key = percent_decode(k.as_str());
                let val = percent_decode(v.as_str());
                data.add(key.as_str(), val.as_str());
            }
            i = i + 1;
        }
        assert(ps.take(pieces@.len() as int) =~= ps);
        QueryDict { data }
    }

    /// The first value under `key`.
    pub fn get(&self, key: &str) -> (r: Option<&str>)
        requires
            self.wf(),
        ensures
            match multi_lookup(self@, key@) {
                Some(vs) => r matches Some(x) && x@ == vs[0],
                None => r is None,
            },
    {
        self.data.get(key)
    }

    /// The first value under `key`, whatever the order of the keys; `None`
    /// also when the key holds no value.
    pub fn first_value(&self, key: &str) -> (r: Option<&str>)
        ensures
            match multi_lookup(self@, key@) {
                Some(vs) => if vs.len() > 0 { r matches Some(x) && x@ == vs[0] } else { r is None },
                None => r is None,
            },
    {
        self.data.first_value(key)
    }

    /// All values under `key`.
    pub fn get_list(&self, key: &str) -> (r: Vec<&str>)
        requires
            self.wf(),
        ensures
            r@.map_values(|x: &str| x@) == match multi_lookup(self@, key@) {
                Some(vs) => vs,
                None => Seq::empty(),
            },
    {
        self.data.get_list(key)
    }

    /// `key` is present.
    pub fn contains(&self, key: &str) -> (r: bool)
        requires
            self.wf(),
        ensures
            r == (multi_lookup(self@, key@) is Some),
    {
        self.data.get(key).is_some()
    }

    /// The keys, in order.
    pub fn keys(&self) -> (r: Vec<&String>)
        ensures
            r@.len() == self@.len(),
            forall|i: int| 0 <= i < r@.len() ==> r@[i]@ == self@[i].0,
    {
        self.data.keys()
    }

    /// The entries: each key with its values, keys in order.
    pub fn into_inner(self) -> (r: Vec<(String, Vec<String>)>)
        ensures
            entry_views(r@) == self@,
    {
        self.data.data
    }

    /// No key is present.
    pub fn is_empty(&self) -> (r: bool)
        ensures
            r == (self@.len() == 0),
    {
        self.data.is_empty()
    }
}

impl Default for QueryDict {
    fn default() -> (r: Self)
        ensures
            r.wf(),
            r@.len() == 0,
    {
        QueryDict::new()
    }
}

// ---------------------------------------------------------------------------
// Requests
// ---------------------------------------------------------------------------

/// `serde_json::Value`, carried opaquely.
#[verifier::external_type_specification]
#[verifier::external_body]
pub struct ExJsonValue(serde_json::Value);


/// `a` and `b` are equal once ASCII letters are lowercased (`eq_ignore_ascii_case`).
pub open spec fn eq_ignore_ascii_case(a: Seq<char>, b: Seq<char>) -> bool {
    a.len() == b.len() && forall|i: int| 0 <= i < a.len() ==> ascii_lower(#[trigger] a[i]) == ascii_lower(b[i])
}

/// The ASCII lowercase of a character; other characters are unchanged.
pub open spec fn ascii_lower(c: char) -> char {
    if 'A' <= c && c <= 'Z' { ((c as u32) + 32) as char } else { c }
}

fn ascii_lower_char(c: char) -> (r: char)
    ensures
        r == ascii_lower(c),
{
    if 'A' <= c && c <= 'Z' {
        let code: u32 = c as u32 + 32;
        assert(code < 128);
        (code as u8) as char
    } else {
        c
    }
}

pub(crate) fn str_eq_ignore_ascii_case(a: &str, b: &str) -> (r: bool)
    ensures
        r == eq_ignore_ascii_case(a@, b@),
{
    let va = chars_of(a);
    let vb = chars_of(b);
    if va.len() != vb.len() {
        return false;
    }
    let mut i: usize = 0;
    while i < va.len()
        invariant
            va@ == a@,
            vb@ == b@,
            va@.len() == vb@.len(),
            i <= va@.len(),
            forall|j: int| 0 <= j < i ==> ascii_lower(#[trigger] a@[j]) == ascii_lower(b@[j]),
        decreases va.len() - i,
    {
        if ascii_lower_char(va[i]) != ascii_lower_char(vb[i]) {
            return false;
        }
        i = i + 1;
    }
    true
}

/// A request's path and query: the text before the first `?` and the query
/// after it (empty when there is no `?`).
pub open spec fn path_and_query(path: Seq<char>) -> (Seq<char>, Seq<char>) {
    split_first(path, '?')
}

/// An incoming request.
#[derive(Debug, Clone)]
pub struct Request {
    pub method: HttpMethod,
    pub path: String,
    pub query: QueryDict,
    pub headers: HeaderMap,
    pub body: Vec<u8>,
    pub cookies: HeaderMap,
    pub session: Option<Vec<(String, JsonValue)>>,
    pub user: Option<JsonValue>,
    pub extensions: HeaderMap,
}

impl Request {
    /// A request for `path`, whose query string (after the first `?`) is read
    /// into `query`; no headers, body, cookies, session or user.
    pub fn new(method: HttpMethod, path: &str) -> (r: Self)
        ensures
            r.method == method,
            r.path@ == path_and_query(path@).0,
            r.query.wf(),
            r.query@ == query_entries(split_char(path_and_query(path@).1, '&')),
            r.headers@.len() == 0,
            r.body@.len() == 0,
            r.cookies@.len() == 0,
            r.session is None,
            r.user is None,
            r.extensions@.len() == 0,
    {
        let (path_only, query_str) = split_first_str(path, '?');
        Request {
            method,
            path: path_only,
            query: QueryDict::from_query(query_str.as_str()),
            headers: HeaderMap::new(),
            body: Vec::new(),
            cookies: HeaderMap::new(),
            session: None,
            user: None,
            extensions: HeaderMap::new(),
        }
    }

    /// The header `name`, looked up by its lowercase form.
    pub fn header(&self, name: &str) -> (r: Option<&str>)
        ensures
            match pair_lookup(self.headers@, lowercase(name@)) {
                Some(v) => r matches Some(x) && x@ == v,
                None => r is None,
            },
    {
        let lower = to_lowercase(name);
        self.headers.get(lower.as_str())
    }

    /// Sets the header `name` (lowercased) to `value`.
    pub fn set_header(&mut self, name: &str, value: &str)
        ensures
            final(self).headers@ == pair_insert(old(self).headers@, lowercase(name@), value@),
            final(self).method == old(self).method,
            final(self).path == old(self).path,
            final(self).query == old(self).query,
            final(self).body == old(self).body,
            final(self).cookies == old(self).cookies,
            final(self).session == old(self).session,
            final(self).user == old(self).user,
            final(self).extensions == old(self).extensions,
    {
        self.headers.insert(to_lowercase(name), owned(value));
    }

    /// The cookie `name`.
    pub fn cookie(&self, name: &str) -> (r: Option<&str>)
        ensures
            match pair_lookup(self.cookies@, name@) {
                Some(v) => r matches Some(x) && x@ == v,
                None => r is None,
            },
    {
        self.cookies.get(name)
    }

    /// The body read as UTF-8, with invalid sequences replaced.
    pub fn body_str(&self) -> (r: String)
        ensures
            r@ == utf8_lossy(self.body@),
            forall|s: Seq<char>| self.body@ == #[trigger] encode_utf8(s) ==> r@ == s,
    {
        bytes_to_text(self.body.as_slice())
    }

    /// Sets the authenticated user to the object `user_data`.
    pub fn set_user(&mut self, user_data: Vec<(String, JsonValue)>)
        ensures
            final(self).user == Some(JsonValue::Object(user_data)),
            final(self).headers == old(self).headers,
            final(self).path == old(self).path,
    {
        self.user = Some(JsonValue::Object(user_data));
    }

    /// Clears the authenticated user.
    pub fn clear_user(&mut self)
        ensures
            final(self).user is None,
            final(self).headers == old(self).headers,
            final(self).path == old(self).path,
    {
        self.user = None;
    }

    /// The request says it came from script (`X-Requested-With: XMLHttpRequest`,
    /// compared without regard to ASCII case).
    pub fn is_ajax(&self) -> (r: bool)
        ensures
            r == match pair_lookup(self.headers@, lowercase("x-requested-with"@)) {
                Some(v) => eq_ignore_ascii_case(v, "XMLHttpRequest"@),
                None => false,
            },
    {
        match self.header("x-requested-with") {
            Some(v) => str_eq_ignore_ascii_case(v, "XMLHttpRequest"),
            None => false,
        }
    }

    /// The request came over HTTPS (`X-Forwarded-Proto: https`).
    pub fn is_secure(&self) -> (r: bool)
        ensures
            r == match pair_lookup(self.headers@, lowercase("x-forwarded-proto"@)) {
                Some(v) => v == "https"@,
                None => false,
            },
    {
        match self.header("x-forwarded-proto") {
            Some(v) => str_eq(v, "https"),
            None => false,
        }
    }

    /// The `Host` header.
    pub fn get_host(&self) -> (r: Option<&str>)
        ensures
            match pair_lookup(self.headers@, lowercase("host"@)) {
                Some(v) => r matches Some(x) && x@ == v,
                None => r is None,
            },
    {
        self.header("host")
    }

    /// `location` as an absolute URI: kept when it already starts with
    /// `http://` or `https://`, else prefixed with the scheme and host
    /// (`localhost` when there is no `Host` header).
    pub fn build_absolute_uri(&self, location: &str) -> (r: String)
        ensures
            r@ == (if is_prefix("http://"@, location@) || is_prefix("https://"@, location@) {
                location@
            } else {
                (if match pair_lookup(self.headers@, lowercase("x-forwarded-proto"@)) {
                    Some(v) => v == "https"@,
                    None => false,
                } { "https"@ } else { "http"@ }) + "://"@
                    + (match pair_lookup(self.headers@, lowercase("host"@)) {
                        Some(h) => h,
                        None => "localhost"@,
                    }) + location@
            }),
    {
        let host = match self.get_host() {
            Some(h) => h,
            None => "localhost",
        };
        let scheme = if self.is_secure() { "https" } else { "http" };
        if starts_with(location, "http://") || starts_with(location, "https://") {
            owned(location)
        } else {
            let mut r = concat3(scheme, "://", host);
            r.append(location);
            r
        }
    }
}

} // verus!
