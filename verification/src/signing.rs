//! Signed values: base-62 timestamps, salted HMACs, and signers that append
//! and check a URL-safe signature.

use vstd::prelude::*;
use vstd::string::StringSliceAdditionalSpecFns;
use base64::Engine;
use crate::text::{
    chars_of, concat2, concat3, is_last_occurrence, last_occurrence, lemma_last_occurrence_unique, lowercase,
    occurs_at, owned, push_char, rfind_str, str_byte_len, str_eq, str_len,
    string_from_range, to_lowercase, all_ascii,
};
use vstd::utf8::encode_utf8;

verus! {

// ---------------------------------------------------------------------------
// Errors
// ---------------------------------------------------------------------------

/// A signature did not match, or a signed value was malformed.
#[derive(Debug, Clone)]
pub struct BadSignature {
    pub message: String,
}

impl BadSignature {
    /// An error with the given message.
    pub fn new(msg: &str) -> (r: Self)
        ensures
            r.message@ == msg@,
    {
        BadSignature { message: owned(msg) }
    }

    /// The message, as the error displays.
    pub fn to_string(&self) -> (r: String)
        ensures
            r@ == self.message@,
    {
        self.message.clone()
    }
}

/// A signature's timestamp is older than allowed.
#[derive(Debug, Clone)]
pub struct SignatureExpired {
    pub message: String,
}

impl SignatureExpired {
    /// An error with the given message.
    pub fn new(msg: &str) -> (r: Self)
        ensures
            r.message@ == msg@,
    {
        SignatureExpired { message: owned(msg) }
    }

    /// The message, as the error displays.
    pub fn to_string(&self) -> (r: String)
        ensures
            r@ == self.message@,
    {
        self.message.clone()
    }
}

impl From<SignatureExpired> for BadSignature {
    fn from(e: SignatureExpired) -> (r: Self) {
        BadSignature { message: e.message }
    }
}

impl vstd::std_specs::convert::FromSpecImpl<SignatureExpired> for BadSignature {
    open spec fn obeys_from_spec() -> bool {
        true
    }

    open spec fn from_spec(e: SignatureExpired) -> Self {
        BadSignature { message: e.message }
    }
}

// ---------------------------------------------------------------------------
// Base 62
// ---------------------------------------------------------------------------

/// The base-62 digit for `d < 62`: `0-9`, then `A-Z`, then `a-z`.
pub open spec fn b62_char(d: nat) -> char {
    if d < 10 {
        ((('0' as u32) + d) as u32) as char
    } else if d < 36 {
        ((('A' as u32) + (d - 10)) as u32) as char
    } else {
        ((('a' as u32) + (d - 36)) as u32) as char
    }
}

/// The base-62 digits of `n`, most significant first, without leading zeros.
pub open spec fn b62_digits(n: nat) -> Seq<char>
    decreases n,
{
    if n < 62 {
        seq![b62_char(n)]
    } else {
        b62_digits(n / 62).push(b62_char(n % 62))
    }
}

/// The base-62 text of an integer: `0`, or an optional `-` and the digits of
/// its magnitude.
pub open spec fn b62_text(s: int) -> Seq<char> {
    if s == 0 {
        seq!['0']
    } else if s < 0 {
        seq!['-'] + b62_digits((-s) as nat)
    } else {
        b62_digits(s as nat)
    }
}

fn b62_digit_char(d: u64) -> (c: char)
    requires
        d < 62,
    ensures
        c == b62_char(d as nat),
{
    if d < 10 {
        assert(('0' as u32) + d <= 0x39);
        char_from_ascii(('0' as u32 + d as u32) as u8)
    } else if d < 36 {
        char_from_ascii(('A' as u32 + (d - 10) as u32) as u8)
    } else {
        char_from_ascii(('a' as u32 + (d - 36) as u32) as u8)
    }
}

/// The character of an ASCII code.
fn char_from_ascii(b: u8) -> (c: char)
    requires
        b < 128,
    ensures
        c == (b as u32) as char,
        c as u32 == b as u32,
{
    b as char
}

/// The character whose code is the byte `b` (`b as char`).
fn byte_char(b: u8) -> (c: char)
    ensures
        c == (b as u32) as char,
{
    b as char
}

proof fn lemma_b62_prefix_err(d: Seq<u8>, k: int, j: int)
    requires
        0 <= k <= j <= d.len(),
        b62_fold(d.take(k)) is Err,
    ensures
        b62_fold(d.take(j)) == b62_fold(d.take(k)),
    decreases j - k,
{
    if j > k {
        lemma_b62_prefix_err(d, k, j - 1);
        assert(d.take(j).drop_last() =~= d.take(j - 1));
    }
}

fn b62_digits_string(n: u64) -> (r: String)
    ensures
        r@ == b62_digits(n as nat),
    decreases n,
{
    if n < 62 {
        let mut r = String::new();
        push_char(&mut r, b62_digit_char(n));
        assert(r@ =~= seq![b62_char(n as nat)]);
        r
    } else {
        let mut r = b62_digits_string(n / 62);
        push_char(&mut r, b62_digit_char(n % 62));
        r
    }
}

/// Encodes `s` in base 62.
pub fn b62_encode(s: i64) -> (r: String)
    ensures
        r@ == b62_text(s as int),
{
    if s == 0 {
        let mut r = String::new();
        push_char(&mut r, '0');
        assert(r@ =~= seq!['0']);
        return r;
    }
    if s < 0 {
        let mag: u64 = if s == i64::MIN { 9223372036854775808u64 } else { (-s) as u64 };
        let digits = b62_digits_string(mag);
        let mut r = String::new();
        push_char(&mut r, '-');
        r.append(digits.as_str());
        assert(r@ =~= seq!['-'] + b62_digits((-(s as int)) as nat));
        r
    } else {
        b62_digits_string(s as u64)
    }
}

/// The value of a base-62 digit byte, if it is one.
pub open spec fn b62_value(b: u8) -> Option<int> {
    if 48 <= b <= 57 {
        Some(b - 48)
    } else if 65 <= b <= 90 {
        Some(b - 65 + 10)
    } else if 97 <= b <= 122 {
        Some(b - 97 + 36)
    } else {
        None
    }
}

/// The `Debug` text of a character, a function of the character alone.
pub uninterp spec fn char_debug(c: char) -> Seq<char>;

/// `format!("{:?}", c)` for a character.
#[verifier::external_body]
fn debug_char(c: char) -> (r: String)
    ensures
        r@ == char_debug(c),
{
    format!("{:?}", c)
}

/// Reads the base-62 digits `d`, left to right: the value, or the message of
/// the first bad byte or of the first step that leaves the `i64` range.
pub open spec fn b62_fold(d: Seq<u8>) -> Result<int, Seq<char>>
    decreases d.len(),
{
    if d.len() == 0 {
        Ok(0)
    } else {
        match b62_fold(d.drop_last()) {
            Err(e) => Err(e),
            Ok(acc) => match b62_value(d.last()) {
                None => Err("invalid base62 character: "@ + char_debug((d.last() as u32) as char)),
                Some(v) => if acc * 62 + v > i64::MAX { Err("base62 value overflow"@) } else { Ok(acc * 62 + v) },
            },
        }
    }
}

/// Decoding the bytes of a base-62 text.
pub open spec fn b62_decoded(b: Seq<u8>) -> Result<int, Seq<char>> {
    if b.len() == 0 {
        Err("empty base62 string"@)
    } else if b == seq![48u8] {
        Ok(0)
    } else if b[0] == 45 {
        match b62_fold(b.drop_first()) {
            Ok(v) => Ok(-v),
            Err(e) => Err(e),
        }
    } else {
        b62_fold(b)
    }
}

proof fn lemma_b62_fold_nonneg(d: Seq<u8>)
    ensures
        b62_fold(d) is Ok ==> 0 <= b62_fold(d)->Ok_0 <= i64::MAX,
    decreases d.len(),
{
    if d.len() > 0 {
        lemma_b62_fold_nonneg(d.drop_last());
    }
}

/// Decodes a base-62 text (as its UTF-8 bytes are read).
pub fn b62_decode(s: &str) -> (r: Result<i64, BadSignature>)
    ensures
        match b62_decoded(s.spec_bytes()) {
            Ok(v) => r matches Ok(x) && x == v,
            Err(e) => r matches Err(b) && b.message@ == e,
        },
{
    let bytes = s.as_bytes();
    let n = bytes.len();
    if n == 0 {
        return Err(BadSignature::new("empty base62 string"));
    }
    if n == 1 && bytes[0] == 48u8 {
        assert(bytes@ =~= seq![48u8]);
        return Ok(0);
    }
    let neg = bytes[0] == 45u8;
    let start: usize = if neg { 1 } else { 0 };
    let ghost digits = if neg { bytes@.drop_first() } else { bytes@ };
    assert(digits =~= bytes@.subrange(start as int, n as int));
    let mut decoded: i64 = 0;
    let mut i: usize = start;
    while i < n
        invariant
            n == bytes@.len(),
            bytes@ == s.spec_bytes(),
            n > 0,
            !(n == 1 && bytes@[0] == 48u8),
            neg == (bytes@[0] == 45u8),
            start == (if neg { 1usize } else { 0usize }),
            digits == (if neg { bytes@.drop_first() } else { bytes@ }),
            start <= i <= n,
            digits == bytes@.subrange(start as int, n as int),
            b62_fold(digits.take(i - start)) == Ok::<int, Seq<char>>(decoded as int),
            decoded >= 0,
        decreases n - i,
    {
        let b = bytes[i];
        assert(digits.take(i + 1 - start).drop_last() =~= digits.take(i - start));
        assert(digits.take(i + 1 - start).last() == b);
        let val: i64 = if 48u8 <= b && b <= 57u8 {
            (b - 48u8) as i64
        } else if 65u8 <= b && b <= 90u8 {
            (b - 65u8 + 10u8) as i64
        } else if 97u8 <= b && b <= 122u8 {
            (b - 97u8 + 36u8) as i64
        } else {
            let text = debug_char(byte_char(b));
            let msg = concat2("invalid base62 character: ", text.as_str());
            proof { lemma_b62_prefix_err(digits, i + 1 - start, n - start); }
            assert(digits.take(n - start) =~= digits);
            assert(bytes@ != seq![48u8]);
            return Err(BadSignature { message: msg });
        };
        if decoded > (i64::MAX - val) / 62 {
            assert(decoded * 62 + val > i64::MAX) by (nonlinear_arith)
                requires decoded > (i64::MAX - val) / 62, 0 <= val < 62;
            proof { lemma_b62_prefix_err(digits, i + 1 - start, n - start); }
            assert(digits.take(n - start) =~= digits);
            assert(bytes@ != seq![48u8]);
            return Err(BadSignature::new("base62 value overflow"));
        }
        assert(decoded * 62 + val <= i64::MAX) by (nonlinear_arith)
            requires decoded <= (i64::MAX - val) / 62, 0 <= val < 62, decoded >= 0;
        decoded = decoded * 62 + val;
        i = i + 1;
    }
    assert(digits.take(n - start) =~= digits);
    assert(bytes@ != seq![48u8]);
    if neg {
        Ok(-decoded)
    } else {
        Ok(decoded)
    }
}

proof fn lemma_b62_char(d: nat)
    requires
        d < 62,
    ensures
        (b62_char(d) as u32) < 128,
        b62_value(b62_char(d) as u8) == Some(d as int),
        d > 0 ==> b62_char(d) != '0',
        b62_char(d) != '-',
{
    if d < 10 {
        assert((b62_char(d) as u32) == 48 + d);
    } else if d < 36 {
        assert((b62_char(d) as u32) == 65 + d - 10);
    } else {
        assert((b62_char(d) as u32) == 97 + d - 36);
    }
}

proof fn lemma_b62_digits_shape(n: nat)
    ensures
        b62_digits(n).len() >= 1,
        vstd::utf8::is_ascii_chars(b62_digits(n)),
        n >= 1 ==> b62_digits(n)[0] != '0',
        b62_digits(n)[0] != '-',
        n >= 62 ==> b62_digits(n).len() >= 2,
    decreases n,
{
    if n < 62 {
        lemma_b62_char(n);
    } else {
        lemma_b62_digits_shape(n / 62);
        lemma_b62_char(n % 62);
        let p = b62_digits(n / 62);
        assert forall|i: int| 0 <= i < b62_digits(n).len() implies '\0' <= #[trigger] b62_digits(n)[i] <= '\u{7f}' by {
            if i < p.len() {
                assert(b62_digits(n)[i] == p[i]);
            }
        }
    }
}

proof fn lemma_b62_fold_digits(n: nat)
    requires
        n <= i64::MAX,
    ensures
        b62_fold(vstd::utf8::encode_utf8(b62_digits(n))) == Ok::<int, Seq<char>>(n as int),
    decreases n,
{
    let c = b62_digits(n);
    let b = vstd::utf8::encode_utf8(c);
    lemma_b62_digits_shape(n);
    vstd::utf8::is_ascii_chars_encode_utf8(c);
    if n < 62 {
        lemma_b62_char(n);
        assert(b.drop_last() =~= Seq::<u8>::empty());
        assert(b62_fold(b.drop_last()) == Ok::<int, Seq<char>>(0));
        assert(b.last() == b62_char(n) as u8);
        assert(b62_value(b.last()) == Some(n as int));
    } else {
        let p = b62_digits(n / 62);
        lemma_b62_digits_shape(n / 62);
        vstd::utf8::is_ascii_chars_encode_utf8(p);
        lemma_b62_fold_digits(n / 62);
        lemma_b62_char(n % 62);
        assert(b.drop_last() =~= vstd::utf8::encode_utf8(p)) by {
            assert forall|i: int| 0 <= i < b.drop_last().len() implies b.drop_last()[i] == vstd::utf8::encode_utf8(p)[i] by {
                assert(c[i] == p[i]);
            }
        }
        assert(b.last() == b62_char(n % 62) as u8);
        assert(b62_value(b.last()) == Some((n % 62) as int));
        assert((n / 62) * 62 + n % 62 == n);
        assert(b62_fold(b.drop_last()) == Ok::<int, Seq<char>>((n / 62) as int));
    }
}

/// Decoding what `b62_encode` wrote gives the number back, for every `i64`
/// but the minimum (whose magnitude does not fit in an `i64`).
pub proof fn law_b62_roundtrip(v: i64)
    requires
        v > i64::MIN,
    ensures
        b62_decoded(vstd::utf8::encode_utf8(b62_text(v as int))) == Ok::<int, Seq<char>>(v as int),
{
    let t = b62_text(v as int);
    let b = vstd::utf8::encode_utf8(t);
    if v == 0 {
        assert(vstd::utf8::is_ascii_chars(t));
        vstd::utf8::is_ascii_chars_encode_utf8(t);
        assert(b[0] == t[0] as u8);
        assert(b =~= seq![48u8]);
    } else if v > 0 {
        lemma_b62_digits_shape(v as nat);
        vstd::utf8::is_ascii_chars_encode_utf8(t);
        lemma_b62_fold_digits(v as nat);
        if t.len() == 1 {
            assert(b[0] == t[0] as u8);
            assert(t[0] != '0');
            assert(b != seq![48u8]);
        }
        assert(b[0] == t[0] as u8);
        assert((t[0] as u32) < 128);
        assert(b[0] != 45);
    } else {
        let m = (-(v as int)) as nat;
        let d = b62_digits(m);
        lemma_b62_digits_shape(m);
        lemma_b62_fold_digits(m);
        assert(t.drop_first() =~= d);
        assert forall|i: int| 0 <= i < t.len() implies '\0' <= #[trigger] t[i] <= '\u{7f}' by {
            if i > 0 {
                assert(t[i] == d[i - 1]);
            }
        }
        vstd::utf8::is_ascii_chars_encode_utf8(t);
        vstd::utf8::is_ascii_chars_encode_utf8(d);
        assert(b[0] == t[0] as u8);
        assert forall|i: int| 0 <= i < b.drop_first().len() implies b.drop_first()[i] == vstd::utf8::encode_utf8(d)[i] by {
            assert(b[i + 1] == t[i + 1] as u8);
            assert(t[i + 1] == d[i]);
        }
        assert(b.drop_first() =~= vstd::utf8::encode_utf8(d));
        assert(b[0] == 45);
        assert(b.len() >= 2);
    }
}

// ---------------------------------------------------------------------------
// Byte comparison
// ---------------------------------------------------------------------------

/// Compares two byte strings, looking at every byte whatever the differences.
pub fn constant_time_compare(a: &[u8], b: &[u8]) -> (r: bool)
    ensures
        r == (a@ == b@),
{
    if a.len() != b.len() {
        return false;
    }
    let mut result: u8 = 0;
    let mut i: usize = 0;
    while i < a.len()
        invariant
            a@.len() == b@.len(),
            i <= a@.len(),
            (result == 0) == (forall|j: int| 0 <= j < i ==> a@[j] == b@[j]),
        decreases a.len() - i,
    {
        let x = a[i];
        let y = b[i];
        assert(((result | (x ^ y)) == 0) == (result == 0 && x == y)) by (bit_vector);
        result = result | (x ^ y);
        i = i + 1;
    }
    assert(result == 0 ==> a@ =~= b@);
    result == 0
}

// ---------------------------------------------------------------------------
// Hash algorithms
// ---------------------------------------------------------------------------

/// The hash functions a signer can use.
#[derive(Debug, Clone, Copy, PartialEq, Eq, Structural)]
pub enum Algorithm {
    Sha1,
    Sha256,
    Sha384,
    Sha512,
}

impl Algorithm {
    /// The lowercase name of the algorithm.
    pub open spec fn spec_name(self) -> Seq<char> {
        match self {
            Algorithm::Sha1 => "sha1"@,
            Algorithm::Sha256 => "sha256"@,
            Algorithm::Sha384 => "sha384"@,
            Algorithm::Sha512 => "sha512"@,
        }
    }

    /// The algorithm named `name`, compared without regard to case.
    pub fn from_name(name: &str) -> (r: Result<Self, BadSignature>)
        ensures
            match r {
                Ok(a) => a.spec_name() == lowercase(name@),
                Err(e) => e.message@ == "unsupported algorithm: "@ + lowercase(name@)
                    && lowercase(name@) != "sha1"@ && lowercase(name@) != "sha256"@
                    && lowercase(name@) != "sha384"@ && lowercase(name@) != "sha512"@,
            },
            forall|a: Algorithm| name@ == #[trigger] a.spec_name() ==> r == Ok::<Algorithm, BadSignature>(a),
            crate::text::all_ascii(name@) ==> lowercase(name@) == name@.map_values(|c: char| crate::text::ascii_lower_char(c)),
    {
        let lower = to_lowercase(name);
        proof {
            reveal_strlit("sha1");
            reveal_strlit("sha256");
            reveal_strlit("sha384");
            reveal_strlit("sha512");
            assert("sha1"@[3] == '1' && "sha256"@[3] == '2' && "sha384"@[3] == '3' && "sha512"@[3] == '5');
            assert(forall|x: Algorithm, y: Algorithm| #[trigger] x.spec_name() == #[trigger] y.spec_name() ==> x == y) by {
                assert forall|x: Algorithm, y: Algorithm| #[trigger] x.spec_name() == #[trigger] y.spec_name() implies x == y by {
                    assert(x.spec_name()[3] == y.spec_name()[3]);
                }
            }
            if exists|a: Algorithm| name@ == #[trigger] a.spec_name() {
                let a = choose|a: Algorithm| name@ == #[trigger] a.spec_name();
                assert(all_ascii(name@)) by {
                    assert forall|i: int| 0 <= i < name@.len() implies (#[trigger] name@[i] as u32) < 128 by {
                        match a {
                            Algorithm::Sha1 => {},
                            Algorithm::Sha256 => {},
                            Algorithm::Sha384 => {},
                            Algorithm::Sha512 => {},
                        }
                    }
                }
                assert(lower@ =~= name@);
            }
        }
        if str_eq(lower.as_str(), "sha1") {
            Ok(Algorithm::Sha1)
        } else if str_eq(lower.as_str(), "sha256") {
            Ok(Algorithm::Sha256)
        } else if str_eq(lower.as_str(), "sha384") {
            Ok(Algorithm::Sha384)
        } else if str_eq(lower.as_str(), "sha512") {
            Ok(Algorithm::Sha512)
        } else {
            Err(BadSignature { message: concat2("unsupported algorithm: ", lower.as_str()) })
        }
    }

    /// The lowercase name of the algorithm.
    pub fn name(&self) -> (r: &'static str)
        ensures
            r@ == self.spec_name(),
    {
        match self {
            Algorithm::Sha1 => "sha1",
            Algorithm::Sha256 => "sha256",
            Algorithm::Sha384 => "sha384",
            Algorithm::Sha512 => "sha512",
        }
    }
}

impl Default for Algorithm {
    fn default() -> (r: Self)
        ensures
            r == Algorithm::Sha256,
    {
        Algorithm::Sha256
    }
}

/// The SHA-1 digest of `data`.
pub uninterp spec fn sha1_digest(data: Seq<u8>) -> Seq<u8>;

/// The SHA-256 digest of `data`.
pub uninterp spec fn sha256_digest(data: Seq<u8>) -> Seq<u8>;

/// The SHA-384 digest of `data`.
pub uninterp spec fn sha384_digest(data: Seq<u8>) -> Seq<u8>;

/// The SHA-512 digest of `data`.
pub uninterp spec fn sha512_digest(data: Seq<u8>) -> Seq<u8>;

/// `sha1::Sha1::digest`: a 20-byte digest determined by the data.
#[verifier::external_body]
fn sha1_of(data: &[u8]) -> (r: Vec<u8>)
    ensures
        r@ == sha1_digest(data@),
        r@.len() == 20,
{
    <sha1::Sha1 as sha1::Digest>::digest(data).to_vec()
}

/// `sha2::Sha256::digest`: a 32-byte digest determined by the data.
#[verifier::external_body]
fn sha256_of(data: &[u8]) -> (r: Vec<u8>)
    ensures
        r@ == sha256_digest(data@),
        r@.len() == 32,
{
    <sha2::Sha256 as sha2::Digest>::digest(data).to_vec()
}

/// `sha2::Sha384::digest`: a 48-byte digest determined by the data.
#[verifier::external_body]
fn sha384_of(data: &[u8]) -> (r: Vec<u8>)
    ensures
        r@ == sha384_digest(data@),
        r@.len() == 48,
{
    <sha2::Sha384 as sha2::Digest>::digest(data).to_vec()
}

/// `sha2::Sha512::digest`: a 64-byte digest determined by the data.
#[verifier::external_body]
fn sha512_of(data: &[u8]) -> (r: Vec<u8>)
    ensures
        r@ == sha512_digest(data@),
        r@.len() == 64,
{
    <sha2::Sha512 as sha2::Digest>::digest(data).to_vec()
}

/// The digest of `data` under `algorithm`.
pub open spec fn hash_of(algorithm: Algorithm, data: Seq<u8>) -> Seq<u8> {
    match algorithm {
        Algorithm::Sha1 => sha1_digest(data),
        Algorithm::Sha256 => sha256_digest(data),
        Algorithm::Sha384 => sha384_digest(data),
        Algorithm::Sha512 => sha512_digest(data),
    }
}

fn hash_bytes(data: &[u8], algorithm: Algorithm) -> (r: Vec<u8>)
    ensures
        r@ == hash_of(algorithm, data@),
{
    match algorithm {
        Algorithm::Sha1 => sha1_of(data),
        Algorithm::Sha256 => sha256_of(data),
        Algorithm::Sha384 => sha384_of(data),
        Algorithm::Sha512 => sha512_of(data),
    }
}

/// HMAC-SHA1 of `msg` under `key`.
pub uninterp spec fn hmac_sha1(key: Seq<u8>, msg: Seq<u8>) -> Seq<u8>;

/// HMAC-SHA256 of `msg` under `key`.
pub uninterp spec fn hmac_sha256(key: Seq<u8>, msg: Seq<u8>) -> Seq<u8>;

/// HMAC-SHA384 of `msg` under `key`.
pub uninterp spec fn hmac_sha384(key: Seq<u8>, msg: Seq<u8>) -> Seq<u8>;

/// HMAC-SHA512 of `msg` under `key`.
pub uninterp spec fn hmac_sha512(key: Seq<u8>, msg: Seq<u8>) -> Seq<u8>;

/// `hmac::Hmac<Sha1>` over `msg` with `key` (any key length is accepted):
/// a 20-byte tag determined by key and message.
#[verifier::external_body]
fn hmac_sha1_of(key: &[u8], msg: &[u8]) -> (r: Vec<u8>)
    ensures
        r@ == hmac_sha1(key@, msg@),
        r@.len() == 20,
{
    let mut mac = <hmac::Hmac<sha1::Sha1> as hmac::Mac>::new_from_slice(key).expect("HMAC accepts any key length");
    hmac::Mac::update(&mut mac, msg);
    hmac::Mac::finalize(mac).into_bytes().to_vec()
}

/// `hmac::Hmac<Sha256>` over `msg` with `key` (any key length is accepted):
/// a 32-byte tag determined by key and message.
#[verifier::external_body]
fn hmac_sha256_of(key: &[u8], msg: &[u8]) -> (r: Vec<u8>)
    ensures
        r@ == hmac_sha256(key@, msg@),
        r@.len() == 32,
{
    let mut mac = <hmac::Hmac<sha2::Sha256> as hmac::Mac>::new_from_slice(key).expect("HMAC accepts any key length");
    hmac::Mac::update(&mut mac, msg);
    hmac::Mac::finalize(mac).into_bytes().to_vec()
}

/// `hmac::Hmac<Sha384>` over `msg` with `key` (any key length is accepted):
/// a 48-byte tag determined by key and message.
#[verifier::external_body]
fn hmac_sha384_of(key: &[u8], msg: &[u8]) -> (r: Vec<u8>)
    ensures
        r@ == hmac_sha384(key@, msg@),
        r@.len() == 48,
{
    let mut mac = <hmac::Hmac<sha2::Sha384> as hmac::Mac>::new_from_slice(key).expect("HMAC accepts any key length");
    hmac::Mac::update(&mut mac, msg);
    hmac::Mac::finalize(mac).into_bytes().to_vec()
}

/// `hmac::Hmac<Sha512>` over `msg` with `key` (any key length is accepted):
/// a 64-byte tag determined by key and message.
#[verifier::external_body]
fn hmac_sha512_of(key: &[u8], msg: &[u8]) -> (r: Vec<u8>)
    ensures
        r@ == hmac_sha512(key@, msg@),
        r@.len() == 64,
{
    let mut mac = <hmac::Hmac<sha2::Sha512> as hmac::Mac>::new_from_slice(key).expect("HMAC accepts any key length");
    hmac::Mac::update(&mut mac, msg);
    hmac::Mac::finalize(mac).into_bytes().to_vec()
}

/// The HMAC of `msg` under `key` with `algorithm`.
pub open spec fn hmac_of(algorithm: Algorithm, key: Seq<u8>, msg: Seq<u8>) -> Seq<u8> {
    match algorithm {
        Algorithm::Sha1 => hmac_sha1(key, msg),
        Algorithm::Sha256 => hmac_sha256(key, msg),
        Algorithm::Sha384 => hmac_sha384(key, msg),
        Algorithm::Sha512 => hmac_sha512(key, msg),
    }
}

/// The digest length in bytes of `algorithm`.
pub open spec fn digest_len(algorithm: Algorithm) -> nat {
    match algorithm {
        Algorithm::Sha1 => 20,
        Algorithm::Sha256 => 32,
        Algorithm::Sha384 => 48,
        Algorithm::Sha512 => 64,
    }
}

fn hmac_digest(key: &[u8], msg: &[u8], algorithm: Algorithm) -> (r: Vec<u8>)
    ensures
        r@ == hmac_of(algorithm, key@, msg@),
        r@.len() == digest_len(algorithm),
{
    match algorithm {
        Algorithm::Sha1 => hmac_sha1_of(key, msg),
        Algorithm::Sha256 => hmac_sha256_of(key, msg),
        Algorithm::Sha384 => hmac_sha384_of(key, msg),
        Algorithm::Sha512 => hmac_sha512_of(key, msg),
    }
}

/// The salted HMAC: the key is the digest of `salt` followed by `secret`,
/// and the tag is the HMAC of `value` under that key.
pub open spec fn salted_hmac_of(salt: Seq<u8>, value: Seq<u8>, secret: Seq<u8>, algorithm: Algorithm) -> Seq<u8> {
    hmac_of(algorithm, hash_of(algorithm, salt + secret), value)
}

/// Law: the salted HMAC is the standard HMAC of `value` under the digest of
/// the salt bytes followed by the secret bytes, with the same hash function
/// for both steps.
pub proof fn law_salted_hmac_key_is_salt_then_secret(salt: Seq<u8>, value: Seq<u8>, secret: Seq<u8>)
    ensures
        salted_hmac_of(salt, value, secret, Algorithm::Sha1) == hmac_sha1(sha1_digest(salt + secret), value),
        salted_hmac_of(salt, value, secret, Algorithm::Sha256) == hmac_sha256(sha256_digest(salt + secret), value),
        salted_hmac_of(salt, value, secret, Algorithm::Sha384) == hmac_sha384(sha384_digest(salt + secret), value),
        salted_hmac_of(salt, value, secret, Algorithm::Sha512) == hmac_sha512(sha512_digest(salt + secret), value),
{
}

/// Computes the salted HMAC of `value`.
pub fn salted_hmac(salt: &[u8], value: &[u8], secret: &[u8], algorithm: Algorithm) -> (r: Vec<u8>)
    ensures
        r@ == salted_hmac_of(salt@, value@, secret@, algorithm),
        r@.len() == digest_len(algorithm),
{
    let mut input: Vec<u8> = Vec::new();
    let mut i: usize = 0;
    while i < salt.len()
        invariant
            i <= salt@.len(),
            input@ == salt@.take(i as int),
        decreases salt.len() - i,
    {
        input.push(salt[i]);
        assert(input@ =~= salt@.take(i + 1));
        i = i + 1;
    }
    let mut j: usize = 0;
    while j < secret.len()
        invariant
            j <= secret@.len(),
            input@ == salt@ + secret@.take(j as int),
        decreases secret.len() - j,
    {
        input.push(secret[j]);
        assert(input@ =~= salt@ + secret@.take(j + 1));
        j = j + 1;
    }
    assert(salt@.take(salt@.len() as int) =~= salt@);
    assert(secret@.take(secret@.len() as int) =~= secret@);
    let derived = hash_bytes(input.as_slice(), algorithm);
    hmac_digest(derived.as_slice(), value, algorithm)
}

// ---------------------------------------------------------------------------
// URL-safe base 64
// ---------------------------------------------------------------------------

/// A character of the URL-safe base-64 alphabet.
pub open spec fn is_b64url_char(c: char) -> bool {
    ('A' <= c && c <= 'Z') || ('a' <= c && c <= 'z') || ('0' <= c && c <= '9') || c == '-' || c == '_'
}

/// The length of the unpadded base-64 text of `n` bytes.
pub open spec fn b64_nopad_len(n: nat) -> nat {
    (n / 3) * 4 + (if n % 3 == 0 { 0nat } else if n % 3 == 1 { 2nat } else { 3nat })
}

/// The unpadded URL-safe base-64 text of `data`.
pub uninterp spec fn base64_url_nopad(data: Seq<u8>) -> Seq<char>;

/// `URL_SAFE_NO_PAD.encode` of the `base64` crate: the text is determined by
/// the data, made of the URL-safe alphabet, and as long as `encoded_len`
/// computes. The crate panics when that length overflows `usize`.
#[verifier::external_body]
fn url_safe_nopad_encode(data: &[u8]) -> (r: String)
    requires
        b64_nopad_len(data@.len()) <= usize::MAX,
    ensures
        r@ == base64_url_nopad(data@),
        r@.len() == b64_nopad_len(data@.len()),
        forall|i: int| 0 <= i < r@.len() ==> is_b64url_char(#[trigger] r@[i]),
{
    base64::engine::general_purpose::URL_SAFE_NO_PAD.encode(data)
}

/// `s` padded with `=` to a multiple of four bytes.
pub open spec fn b64_padded(s: Seq<char>) -> Seq<char> {
    let r = str_len(s) % 4;
    if r == 0 { s } else { s + Seq::new((4 - r) as nat, |i: int| '=') }
}

/// What the padded URL-safe base-64 decoder makes of `text`: the bytes, or
/// the error's text.
pub uninterp spec fn base64_url_decode(text: Seq<char>) -> Result<Seq<u8>, Seq<char>>;

/// `URL_SAFE.decode` of the `base64` crate, with the error as its `Display`
/// text. The outcome is determined by the text; the canonically padded
/// encoding of some bytes (of a size the encoder accepts) decodes to those
/// bytes.
#[verifier::external_body]
fn url_safe_decode(text: &str) -> (r: Result<Vec<u8>, String>)
    ensures
        match r {
            Ok(v) => base64_url_decode(text@) == Ok::<Seq<u8>, Seq<char>>(v@),
            Err(e) => base64_url_decode(text@) == Err::<Seq<u8>, Seq<char>>(e@),
        },
        forall|d: Seq<u8>| b64_nopad_len(d.len()) <= usize::MAX && text@ == #[trigger] b64_padded(base64_url_nopad(d))
            ==> (r is Ok && r->Ok_0@ == d),
{
    base64::engine::general_purpose::URL_SAFE.decode(text).map_err(|e| e.to_string())
}

/// Encodes `s` as unpadded URL-safe base 64.
pub fn b64_encode(s: &[u8]) -> (r: String)
    requires
        b64_nopad_len(s@.len()) <= usize::MAX,
    ensures
        r@ == base64_url_nopad(s@),
        r@.len() == b64_nopad_len(s@.len()),
        forall|i: int| 0 <= i < r@.len() ==> is_b64url_char(#[trigger] r@[i]),
{
    url_safe_nopad_encode(s)
}

/// Decodes URL-safe base 64, with or without padding.
pub fn b64_decode(s: &str) -> (r: Result<Vec<u8>, BadSignature>)
    ensures
        match base64_url_decode(b64_padded(s@)) {
            Ok(d) => r matches Ok(v) && v@ == d,
            Err(e) => r matches Err(b) && b.message@ == "base64 decode error: "@ + e,
        },
        forall|d: Seq<u8>| b64_nopad_len(d.len()) <= usize::MAX && s@ == #[trigger] base64_url_nopad(d)
            ==> (r is Ok && r->Ok_0@ == d),
{
    let rem = str_byte_len(s) % 4;
    let mut padded = owned(s);
    if rem != 0 {
        let pad: usize = 4 - rem;
        let mut k: usize = 0;
        while k < pad
            invariant
                pad == 4 - rem,
                rem == str_len(s@) % 4,
                k <= pad,
                padded@ == s@ + Seq::new(k as nat, |i: int| '='),
            decreases pad - k,
        {
            push_char(&mut padded, '=');
            assert(padded@ =~= s@ + Seq::new((k + 1) as nat, |i: int| '='));
            k = k + 1;
        }
    } else {
        assert(padded@ == b64_padded(s@));
    }
    match url_safe_decode(padded.as_str()) {
        Ok(v) => Ok(v),
        Err(e) => Err(BadSignature { message: concat2("base64 decode error: ", e.as_str()) }),
    }
}

/// The URL-safe base-64 text of the salted HMAC of `value` (the salt and the
/// value taken as their UTF-8 bytes).
pub open spec fn base64_hmac_text(salt: Seq<char>, value: Seq<char>, key: Seq<u8>, algorithm: Algorithm) -> Seq<char> {
    base64_url_nopad(salted_hmac_of(encode_utf8(salt), encode_utf8(value), key, algorithm))
}

/// The URL-safe base-64 text of a salted HMAC.
pub fn base64_hmac(salt: &str, value: &str, key: &[u8], algorithm: Algorithm) -> (r: String)
    ensures
        r@ == base64_hmac_text(salt@, value@, key@, algorithm),
        forall|i: int| 0 <= i < r@.len() ==> is_b64url_char(#[trigger] r@[i]),
{
    let digest = salted_hmac(salt.as_bytes(), value.as_bytes(), key, algorithm);
    b64_encode(digest.as_slice())
}

// ---------------------------------------------------------------------------
// Serialisation
// ---------------------------------------------------------------------------

/// Serialises objects to compact JSON bytes for signing.
#[derive(Debug, Clone)]
pub struct JSONSerializer;

// ---------------------------------------------------------------------------
// Signer
// ---------------------------------------------------------------------------

/// A character of the unsafe separator class `A-z0-9-_=`: the range from
/// `A` to `z` (which also holds `[ \ ] ^ _` and the backquote), digits,
/// `-` and `=`. Signatures and base-64 payloads are made of these, so a
/// separator made of them alone would be ambiguous.
pub open spec fn is_sep_unsafe_char(c: char) -> bool {
    ('0' <= c && c <= '9') || ('A' <= c && c <= 'z') || c == '-' || c == '='
}

/// A separator is accepted when it is nonempty and holds at least one
/// character outside `A-z0-9-_=`.
pub open spec fn sep_ok(sep: Seq<char>) -> bool {
    sep.len() > 0 && exists|i: int| 0 <= i < sep.len() && !is_sep_unsafe_char(#[trigger] sep[i])
}

/// Whether `sep` may separate a value from its signature (see [`sep_ok`]);
/// a signer may only be made with such a separator.
pub fn is_safe_separator(sep: &str) -> (r: bool)
    ensures
        r == sep_ok(sep@),
{
    let v = crate::text::chars_of(sep);
    let mut i: usize = 0;
    while i < v.len()
        invariant
            i <= v@.len(),
            v@ == sep@,
            forall|j: int| 0 <= j < i ==> is_sep_unsafe_char(#[trigger] v@[j]),
        decreases v.len() - i,
    {
        let c = v[i];
        let unsafe_char = ('0' <= c && c <= '9') || ('A' <= c && c <= 'z') || c == '-' || c == '=';
        if !unsafe_char {
            return true;
        }
        i = i + 1;
    }
    false
}

/// What a signer is made of: primary key, fallback keys, separator, salt and
/// hash algorithm.
pub type SignerView = (Seq<u8>, Seq<Seq<u8>>, Seq<char>, Seq<char>, Algorithm);

/// The views of a list of keys.
pub open spec fn key_views(keys: Seq<Vec<u8>>) -> Seq<Seq<u8>> {
    keys.map_values(|k: Vec<u8>| k@)
}

/// Appends and checks HMAC signatures of string values.
pub struct Signer {
    key: Vec<u8>,
    fallback_keys: Vec<Vec<u8>>,
    sep: String,
    salt: String,
    algorithm: Algorithm,
}

impl View for Signer {
    type V = SignerView;

    closed spec fn view(&self) -> SignerView {
        (self.key@, key_views(self.fallback_keys@), self.sep@, self.salt@, self.algorithm)
    }
}

/// The signature of `value` under `key`: the base-64 salted HMAC with the
/// signer's salt followed by `signer`.
pub open spec fn signature_text(m: SignerView, value: Seq<char>, key: Seq<u8>) -> Seq<char> {
    base64_hmac_text(m.3 + "signer"@, value, key, m.4)
}

/// `value`, the separator, and the signature under the primary key.
pub open spec fn signed_text(m: SignerView, value: Seq<char>) -> Seq<char> {
    value + m.2 + signature_text(m, value, m.0)
}

/// `sig` is, byte for byte, the signature of `value` under `key`.
pub open spec fn sig_matches(m: SignerView, value: Seq<char>, sig: Seq<char>, key: Seq<u8>) -> bool {
    encode_utf8(sig) == encode_utf8(signature_text(m, value, key))
}

/// `sig` is the signature of `value` under the primary key or a fallback key.
pub open spec fn sig_accepted(m: SignerView, value: Seq<char>, sig: Seq<char>) -> bool {
    sig_matches(m, value, sig, m.0) || exists|i: int| 0 <= i < m.1.len() && sig_matches(m, value, sig, #[trigger] m.1[i])
}

/// What `unsign` answers for `signed`: the value before the last separator
/// when the text after it is an accepted signature, else the error message.
pub open spec fn unsign_outcome(m: SignerView, signed: Seq<char>) -> Result<Seq<char>, Seq<char>> {
    match last_occurrence(signed, m.2) {
        None => Err("No \""@ + m.2 + "\" found in value"@),
        Some(pos) => if pos == 0 {
            Err("No value before separator \""@ + m.2 + "\""@)
        } else {
            let value = signed.subrange(0, pos);
            let sig = signed.subrange(pos + m.2.len(), signed.len() as int);
            if sig_accepted(m, value, sig) {
                Ok(value)
            } else {
                Err("Signature \""@ + sig + "\" does not match"@)
            }
        },
    }
}

impl Signer {
    /// A signer with the given keys, separator, salt and algorithm. The
    /// separator must be nonempty and not made only of `A-Z a-z 0-9 - _ =`.
    pub fn new(key: Vec<u8>, sep: String, salt: String, algorithm: Algorithm, fallback_keys: Vec<Vec<u8>>) -> (r: Self)
        requires
            sep_ok(sep@),
        ensures
            r@ == (key@, key_views(fallback_keys@), sep@, salt@, algorithm),
    {
        Signer { key, fallback_keys, sep, salt, algorithm }
    }

    /// The salt.
    pub fn salt(&self) -> (r: &str)
        ensures
            r@ == self@.3,
    {
        self.salt.as_str()
    }

    /// The separator between a value and its signature.
    pub fn sep(&self) -> (r: &str)
        ensures
            r@ == self@.2,
    {
        self.sep.as_str()
    }

    /// The hash algorithm.
    pub fn algorithm(&self) -> (r: Algorithm)
        ensures
            r == self@.4,
    {
        self.algorithm
    }

    /// A signer with an empty key, separator `:`, salt
    /// `django.core.signing.Signer` and SHA-256.
    pub fn default() -> (r: Self)
        ensures
            r@ == (Seq::<u8>::empty(), Seq::<Seq<u8>>::empty(), ":"@, "django.core.signing.Signer"@, Algorithm::Sha256),
    {
        let r = Signer {
            key: Vec::new(),
            fallback_keys: Vec::new(),
            sep: owned(":"),
            salt: owned("django.core.signing.Signer"),
            algorithm: Algorithm::Sha256,
        };
        assert(key_views(r.fallback_keys@) =~= Seq::<Seq<u8>>::empty());
        r
    }

    fn signature_with_key(&self, value: &str, key: &[u8]) -> (r: String)
        ensures
            r@ == signature_text(self@, value@, key@),
            forall|i: int| 0 <= i < r@.len() ==> is_b64url_char(#[trigger] r@[i]),
    {
        let salt = concat2(self.salt.as_str(), "signer");
        base64_hmac(salt.as_str(), value, key, self.algorithm)
    }

    /// The signature of `value` under the primary key.
    pub fn signature(&self, value: &str) -> (r: String)
        ensures
            r@ == signature_text(self@, value@, self@.0),
    {
        self.signature_with_key(value, self.key.as_slice())
    }

    /// `value`, the separator, and the signature of `value`.
    pub fn sign(&self, value: &str) -> (r: String)
        ensures
            r@ == signed_text(self@, value@),
            signature_is_url_safe(self@, value@),
    {
        let sig = self.signature_with_key(value, self.key.as_slice());
        concat3(value, self.sep.as_str(), sig.as_str())
    }

    /// The value of a signed text whose signature matches the primary key or
    /// a fallback key; otherwise the reason it does not.
    pub fn unsign(&self, signed_value: &str) -> (r: Result<String, BadSignature>)
        ensures
            match unsign_outcome(self@, signed_value@) {
                Ok(v) => r matches Ok(x) && x@ == v,
                Err(e) => r matches Err(b) && b.message@ == e,
            },
    {
        let chars = chars_of(signed_value);
        let sep = self.sep.as_str();
        let pos = match rfind_str(&chars, sep) {
            Some(p) => p,
            None => {
                return Err(BadSignature { message: concat3("No \"", sep, "\" found in value") });
            },
        };
        if pos == 0 {
            return Err(BadSignature { message: concat3("No value before separator \"", sep, "\"") });
        }
        let sep_len = chars_of(sep).len();
        let value = string_from_range(&chars, 0, pos);
        let sig = string_from_range(&chars, pos + sep_len, chars.len());
        let expected = self.signature_with_key(value.as_str(), self.key.as_slice());
        if constant_time_compare(sig.as_str().as_bytes(), expected.as_str().as_bytes()) {
            return Ok(value);
        }
        let mut i: usize = 0;
        while i < self.fallback_keys.len()
            invariant
                i <= self.fallback_keys@.len(),
                self@.1.len() == self.fallback_keys@.len(),
                last_occurrence(signed_value@, self@.2) == Some(pos as int),
                pos > 0,
                pos + sep@.len() <= signed_value@.len(),
                sep@ == self@.2,
                value@ == signed_value@.subrange(0, pos as int),
                sig@ == signed_value@.subrange(pos + sep@.len(), signed_value@.len() as int),
                !sig_matches(self@, value@, sig@, self@.0),
                forall|j: int| 0 <= j < i ==> !sig_matches(self@, value@, sig@, #[trigger] self@.1[j]),
            decreases self.fallback_keys.len() - i,
        {
            let fk = self.fallback_keys[i].as_slice();
            let expected = self.signature_with_key(value.as_str(), fk);
            assert(self@.1[i as int] == fk@);
            if constant_time_compare(sig.as_str().as_bytes(), expected.as_str().as_bytes()) {
                return Ok(value);
            }
            i = i + 1;
        }
        let mut m = owned("Signature \"");
        m.append(sig.as_str());
        m.append("\" does not match");
        Err(BadSignature { message: m })
    }
}

/// The signature of `value` under the primary key is made of URL-safe
/// base-64 characters (as every signature the encoder writes is).
pub open spec fn signature_is_url_safe(m: SignerView, value: Seq<char>) -> bool {
    forall|i: int| 0 <= i < signature_text(m, value, m.0).len() ==> is_b64url_char(#[trigger] signature_text(m, value, m.0)[i])
}

proof fn lemma_last_unsafe_index(sep: Seq<char>, i: int)
    requires
        0 <= i < sep.len(),
        !is_sep_unsafe_char(sep[i]),
    ensures
        exists|u: int| i <= u < sep.len() && !is_sep_unsafe_char(#[trigger] sep[u])
            && forall|w: int| u < w < sep.len() ==> is_sep_unsafe_char(#[trigger] sep[w]),
    decreases sep.len() - i,
{
    if exists|w: int| i < w < sep.len() && !is_sep_unsafe_char(#[trigger] sep[w]) {
        let w = choose|w: int| i < w < sep.len() && !is_sep_unsafe_char(#[trigger] sep[w]);
        lemma_last_unsafe_index(sep, w);
    } else {
        assert(forall|w: int| i < w < sep.len() ==> is_sep_unsafe_char(#[trigger] sep[w]));
    }
}

/// In `value + sep + tail`, with an accepted separator and a tail made of
/// separator-safe characters, the last occurrence of the separator is the
/// one after `value`.
proof fn lemma_sep_last_before_tail(value: Seq<char>, sep: Seq<char>, tail: Seq<char>)
    requires
        sep_ok(sep),
        forall|i: int| 0 <= i < tail.len() ==> is_sep_unsafe_char(#[trigger] tail[i]),
    ensures
        last_occurrence(value + sep + tail, sep) == Some(value.len() as int),
{
    let t = value + sep + tail;
    let p0 = value.len() as int;
    assert(t.subrange(p0, p0 + sep.len()) =~= sep);
    let i0 = choose|i: int| 0 <= i < sep.len() && !is_sep_unsafe_char(#[trigger] sep[i]);
    lemma_last_unsafe_index(sep, i0);
    let u = choose|u: int| 0 <= u < sep.len() && !is_sep_unsafe_char(#[trigger] sep[u])
        && forall|w: int| u < w < sep.len() ==> is_sep_unsafe_char(#[trigger] sep[w]);
    assert forall|j: int| p0 < j <= t.len() implies !occurs_at(t, sep, j) by {
        if occurs_at(t, sep, j) {
            assert(t.subrange(j, j + sep.len())[u] == sep[u]);
            assert(t[j + u] == sep[u]);
            if j + u >= p0 + sep.len() {
                assert(t[j + u] == tail[j + u - p0 - sep.len()]);
            } else {
                assert(t[j + u] == sep[j + u - p0]);
                assert(is_sep_unsafe_char(sep[j + u - p0]));
            }
        }
    }
    assert(is_last_occurrence(t, sep, p0));
    lemma_last_occurrence_unique(t, sep, p0);
}

/// Unsigning what a signer signed gives the value back: for a signer with an
/// accepted separator and any nonempty value (whose signature, as every
/// signature, is URL-safe base 64), `unsign(sign(v))` is `Ok(v)`.
pub proof fn law_unsign_after_sign(m: SignerView, v: Seq<char>)
    requires
        sep_ok(m.2),
        v.len() > 0,
        signature_is_url_safe(m, v),
    ensures
        unsign_outcome(m, signed_text(m, v)) == Ok::<Seq<char>, Seq<char>>(v),
{
    let sig = signature_text(m, v, m.0);
    let t = signed_text(m, v);
    assert forall|i: int| 0 <= i < sig.len() implies is_sep_unsafe_char(#[trigger] sig[i]) by {
        assert(is_b64url_char(sig[i]));
    }
    lemma_sep_last_before_tail(v, m.2, sig);
    assert(t.subrange(0, v.len() as int) =~= v);
    assert(t.subrange((v.len() + m.2.len()) as int, t.len() as int) =~= sig);
}

/// Law: a verifier with the same separator, salt and algorithm accepts what
/// a signer signed when the signer's key is the verifier's key or one of its
/// fallback keys.
pub proof fn law_fallback_key_accepts(m: SignerView, w: SignerView, v: Seq<char>)
    requires
        sep_ok(m.2),
        v.len() > 0,
        signature_is_url_safe(m, v),
        w.2 == m.2,
        w.3 == m.3,
        w.4 == m.4,
        w.0 == m.0 || exists|i: int| 0 <= i < w.1.len() && #[trigger] w.1[i] == m.0,
    ensures
        unsign_outcome(w, signed_text(m, v)) == Ok::<Seq<char>, Seq<char>>(v),
{
    let t = signed_text(m, v);
    let sig = signature_text(m, v, m.0);
    assert forall|i: int| 0 <= i < sig.len() implies is_sep_unsafe_char(#[trigger] sig[i]) by {
        assert(is_b64url_char(sig[i]));
    }
    lemma_sep_last_before_tail(v, m.2, sig);
    assert(t.subrange(0, v.len() as int) =~= v);
    assert(t.subrange((v.len() + m.2.len()) as int, t.len() as int) =~= sig);
    assert(signature_text(w, v, m.0) == sig);
    if w.0 != m.0 {
        let i = choose|i: int| 0 <= i < w.1.len() && #[trigger] w.1[i] == m.0;
        assert(sig_matches(w, v, sig, w.1[i]));
    }
    assert(sig_accepted(w, v, sig));
}

// ---------------------------------------------------------------------------
// Compressed payloads
// ---------------------------------------------------------------------------

/// The zlib stream that `flate2` writes for `data` at the default level.
pub uninterp spec fn zlib_compressed(data: Seq<u8>) -> Seq<u8>;

/// `flate2::write::ZlibEncoder` at the default level over `data`: the output
/// is determined by the data. Writing into a `Vec` does not fail.
#[verifier::external_body]
fn zlib_compress(data: &[u8]) -> (r: Vec<u8>)
    ensures
        r@ == zlib_compressed(data@),
{
    let mut encoder = flate2::write::ZlibEncoder::new(Vec::new(), flate2::Compression::default());
    std::io::Write::write_all(&mut encoder, data).expect("writing into a Vec does not fail");
    encoder.finish().expect("writing into a Vec does not fail")
}

/// What `flate2`'s zlib decoder makes of `data`: the bytes, or the error's text.
pub uninterp spec fn zlib_decompressed(data: Seq<u8>) -> Result<Seq<u8>, Seq<char>>;

/// `flate2::read::ZlibDecoder` read to the end, with the error as its
/// `Display` text. The outcome is determined by the data; a stream the
/// encoder wrote decodes to what was encoded.
#[verifier::external_body]
fn zlib_decompress(data: &[u8]) -> (r: Result<Vec<u8>, String>)
    ensures
        match r {
            Ok(v) => zlib_decompressed(data@) == Ok::<Seq<u8>, Seq<char>>(v@),
            Err(e) => zlib_decompressed(data@) == Err::<Seq<u8>, Seq<char>>(e@),
        },
        forall|d: Seq<u8>| data@ == #[trigger] zlib_compressed(d) ==> (r is Ok && r->Ok_0@ == d),
{
    let mut decoder = flate2::read::ZlibDecoder::new(data);
    let mut out: Vec<u8> = Vec::new();
    match std::io::Read::read_to_end(&mut decoder, &mut out) {
        Ok(_) => Ok(out),
        Err(e) => Err(e.to_string()),
    }
}

/// The payload is compressed when asked and when that saves more than one byte.
pub open spec fn payload_compressed(data: Seq<u8>, compress: bool) -> bool {
    compress && zlib_compressed(data).len() + 1 < data.len()
}

/// The base-64 part of a carried payload.
pub open spec fn payload_body(data: Seq<u8>, compress: bool) -> Seq<char> {
    if payload_compressed(data, compress) { base64_url_nopad(zlib_compressed(data)) } else { base64_url_nopad(data) }
}

/// The text a payload is carried as before signing: its URL-safe base 64,
/// after a `.` when the payload was compressed.
pub open spec fn payload_text(data: Seq<u8>, compress: bool) -> Seq<char> {
    if payload_compressed(data, compress) { seq!['.'] + payload_body(data, compress) } else { payload_body(data, compress) }
}

/// Every character of `t` is URL-safe base 64.
pub open spec fn url_safe_text(t: Seq<char>) -> bool {
    forall|i: int| 0 <= i < t.len() ==> is_b64url_char(#[trigger] t[i])
}

/// Builds the text that carries `data`: compressed when asked and when that
/// saves more than one byte, then base-64 encoded.
fn encode_payload(data: &[u8], compress: bool) -> (r: String)
    requires
        b64_nopad_len(data@.len()) <= usize::MAX,
    ensures
        r@ == payload_text(data@, compress),
        url_safe_text(payload_body(data@, compress)),
        data@.len() > 0 ==> r@.len() > 0,
{
    if compress {
        let compressed = zlib_compress(data);
        if compressed.len() < saturating_sub_one(data.len()) {
            assert(b64_nopad_len(compressed@.len()) <= b64_nopad_len(data@.len())) by (nonlinear_arith)
                requires compressed@.len() < data@.len();
            let b = b64_encode(compressed.as_slice());
            let mut r = String::new();
            push_char(&mut r, '.');
            r.append(b.as_str());
            assert(r@ =~= seq!['.'] + base64_url_nopad(zlib_compressed(data@)));
            return r;
        }
    }
    let r = b64_encode(data);
    assert(data@.len() > 0 ==> b64_nopad_len(data@.len()) > 0) by (nonlinear_arith);
    r
}

/// `n - 1`, or `0` for `0`.
fn saturating_sub_one(n: usize) -> (r: usize)
    ensures
        r == if n == 0 { 0 } else { n - 1 },
{
    if n == 0 { 0 } else { n - 1 }
}

/// What a `sign_payload` call on nonempty `data` establishes: the sizes fit
/// the encoder, the carried text is nonempty, and both it and its signature
/// are URL-safe base 64.
pub open spec fn payload_carriable(m: SignerView, data: Seq<u8>, compress: bool) -> bool {
    &&& b64_nopad_len(data.len()) <= usize::MAX
    &&& url_safe_text(payload_body(data, compress))
    &&& payload_text(data, compress).len() > 0
    &&& signature_is_url_safe(m, payload_text(data, compress))
}

/// What a carried payload text decodes to: the bytes, or the message of the
/// first failing step.
pub open spec fn payload_outcome(text: Seq<char>) -> Result<Seq<u8>, Seq<char>> {
    let compressed = text.len() > 0 && text[0] == '.';
    let body = if compressed { text.drop_first() } else { text };
    match base64_url_decode(b64_padded(body)) {
        Err(e) => Err("base64 decode error: "@ + e),
        Ok(d) => if compressed {
            match zlib_decompressed(d) {
                Ok(u) => Ok(u),
                Err(e) => Err("decompress error: "@ + e),
            }
        } else {
            Ok(d)
        },
    }
}

/// Decodes a carried payload text.
pub fn decode_payload(text: &str) -> (r: Result<Vec<u8>, BadSignature>)
    ensures
        match payload_outcome(text@) {
            Ok(d) => r matches Ok(v) && v@ == d,
            Err(e) => r matches Err(b) && b.message@ == e,
        },
        forall|data: Seq<u8>, compress: bool| b64_nopad_len(data.len()) <= usize::MAX
            && url_safe_text(payload_body(data, compress))
            && text@ == #[trigger] payload_text(data, compress) ==> (r is Ok && r->Ok_0@ == data),
{
    let chars = chars_of(text);
    let compressed = chars.len() > 0 && chars[0] == '.';
    let body = if compressed { string_from_range(&chars, 1, chars.len()) } else { owned(text) };
    assert(compressed ==> body@ =~= text@.drop_first());
    proof {
        assert forall|data: Seq<u8>, compress: bool| b64_nopad_len(data.len()) <= usize::MAX
            && url_safe_text(payload_body(data, compress))
            && text@ == #[trigger] payload_text(data, compress) implies
            (compressed == payload_compressed(data, compress) && body@ == payload_body(data, compress)) by {
            if payload_compressed(data, compress) {
                assert(text@[0] == '.');
                assert(text@.drop_first() =~= payload_body(data, compress));
            } else if text@.len() > 0 {
                assert(is_b64url_char(payload_body(data, compress)[0]));
            }
        }
    }
    let d = match b64_decode(body.as_str()) {
        Ok(d) => d,
        Err(e) => {
            return Err(e);
        },
    };
    if compressed {
        match zlib_decompress(d.as_slice()) {
            Ok(u) => Ok(u),
            Err(e) => Err(BadSignature { message: concat2("decompress error: ", e.as_str()) }),
        }
    } else {
        Ok(d)
    }
}

impl Signer {
    /// Signs the serialised bytes of an object: compressed when asked and
    /// when that pays, base-64 encoded, then signed.
    pub fn sign_payload(&self, data: &[u8], compress: bool) -> (r: String)
        requires
            b64_nopad_len(data@.len()) <= usize::MAX,
        ensures
            r@ == signed_text(self@, payload_text(data@, compress)),
            data@.len() > 0 ==> payload_carriable(self@, data@, compress),
    {
        let text = encode_payload(data, compress);
        self.sign(text.as_str())
    }

    /// Checks a signed payload and gives back its serialised bytes. What
    /// `sign_payload` made of some bytes (with an accepted separator) gives
    /// those bytes back.
    pub fn unsign_payload(&self, signed: &str) -> (r: Result<Vec<u8>, BadSignature>)
        ensures
            match unsign_outcome(self@, signed@) {
                Err(e) => r matches Err(b) && b.message@ == e,
                Ok(text) => match payload_outcome(text) {
                    Ok(d) => r matches Ok(v) && v@ == d,
                    Err(e) => r matches Err(b) && b.message@ == e,
                },
            },
            forall|data: Seq<u8>, compress: bool| sep_ok(self@.2) && payload_carriable(self@, data, compress)
                && signed@ == #[trigger] signed_text(self@, payload_text(data, compress))
                ==> (r is Ok && r->Ok_0@ == data),
    {
        proof {
            assert forall|data: Seq<u8>, compress: bool| sep_ok(self@.2) && payload_carriable(self@, data, compress)
                && signed@ == #[trigger] signed_text(self@, payload_text(data, compress)) implies
                unsign_outcome(self@, signed@) == Ok::<Seq<char>, Seq<char>>(payload_text(data, compress)) by {
                law_unsign_after_sign(self@, payload_text(data, compress));
            }
        }
        let text = match self.unsign(signed) {
            Ok(t) => t,
            Err(e) => {
                return Err(e);
            },
        };
        decode_payload(text.as_str())
    }
}

// ---------------------------------------------------------------------------
// TimestampSigner
// ---------------------------------------------------------------------------

/// `SystemTime::now().duration_since(UNIX_EPOCH)` in milliseconds, `None`
/// when the clock is set before the epoch. It reads the clock, so nothing
/// is stated of the reading.
#[verifier::external_body]
fn clock_millis() -> (r: Option<u128>) {
    match std::time::SystemTime::now().duration_since(std::time::UNIX_EPOCH) {
        Ok(d) => Some(d.as_millis()),
        Err(_) => None,
    }
}

/// The timestamp of now in milliseconds, cut to `i64` as a cast does. A
/// clock set before the Unix epoch, where the time cannot be read as a
/// duration since it, gives 0.
fn unix_millis() -> (r: i64)
{
    match clock_millis() {
        Some(ms) => ms as i64,
        None => 0,
    }
}

/// A signer that puts a base-62 timestamp between the value and the signature.
pub struct TimestampSigner {
    inner: Signer,
}

impl View for TimestampSigner {
    type V = SignerView;

    closed spec fn view(&self) -> SignerView {
        self.inner@
    }
}

/// `value`, the separator and the base-62 timestamp: what gets signed.
pub open spec fn timestamped_value(m: SignerView, value: Seq<char>, millis: int) -> Seq<char> {
    value + m.2 + b62_text(millis)
}

/// What `unsign_timestamped` answers: the value and the timestamp of a text
/// whose signature is accepted, or the message of the first failing step.
pub open spec fn timestamped_outcome(m: SignerView, signed: Seq<char>) -> Result<(Seq<char>, int), Seq<char>> {
    match unsign_outcome(m, signed) {
        Err(e) => Err(e),
        Ok(inner) => match last_occurrence(inner, m.2) {
            None => Err("no separator in timestamp-signed value"@),
            Some(pos) => match b62_decoded(encode_utf8(inner.subrange(pos + m.2.len(), inner.len() as int))) {
                Err(e) => Err(e),
                Ok(t) => Ok((inner.subrange(0, pos), t)),
            },
        },
    }
}

impl TimestampSigner {
    /// A timestamp signer with the given settings (the separator as for `Signer::new`).
    pub fn new(key: Vec<u8>, sep: String, salt: String, algorithm: Algorithm, fallback_keys: Vec<Vec<u8>>) -> (r: Self)
        requires
            sep_ok(sep@),
        ensures
            r@ == (key@, key_views(fallback_keys@), sep@, salt@, algorithm),
    {
        TimestampSigner { inner: Signer::new(key, sep, salt, algorithm, fallback_keys) }
    }

    /// A timestamp signer with the default signer settings.
    pub fn default() -> (r: Self)
        ensures
            r@ == (Seq::<u8>::empty(), Seq::<Seq<u8>>::empty(), ":"@, "django.core.signing.Signer"@, Algorithm::Sha256),
    {
        TimestampSigner { inner: Signer::default() }
    }

    /// The current time in milliseconds since the epoch, in base 62.
    pub fn timestamp() -> (r: String)
        ensures
            exists|t: i64| r@ == b62_text(t as int),
    {
        b62_encode(unix_millis())
    }

    /// The signer underneath.
    pub fn signer(&self) -> (r: &Signer)
        ensures
            r@ == self@,
    {
        &self.inner
    }

    /// Signs `value` with the timestamp `millis`.
    pub fn sign_with_timestamp(&self, value: &str, millis: i64) -> (r: String)
        ensures
            r@ == signed_text(self@, timestamped_value(self@, value@, millis as int)),
            signature_is_url_safe(self@, timestamped_value(self@, value@, millis as int)),
    {
        let ts = b62_encode(millis);
        let with_ts = concat3(value, self.inner.sep.as_str(), ts.as_str());
        self.inner.sign(with_ts.as_str())
    }

    /// Signs `value` with the current time.
    pub fn sign(&self, value: &str) -> (r: String)
        ensures
            exists|t: i64| r@ == signed_text(self@, timestamped_value(self@, value@, t as int)),
    {
        self.sign_with_timestamp(value, unix_millis())
    }

    /// Checks the signature and splits off the timestamp: the value and the
    /// time it was signed at, in milliseconds. Whether it is too old is for
    /// the caller to judge.
    pub fn unsign_timestamped(&self, signed_value: &str) -> (r: Result<(String, i64), BadSignature>)
        ensures
            match timestamped_outcome(self@, signed_value@) {
                Ok((v, t)) => r matches Ok(p) && p.0@ == v && p.1 == t,
                Err(e) => r matches Err(b) && b.message@ == e,
            },
    {
        let result = match self.inner.unsign(signed_value) {
            Ok(v) => v,
            Err(e) => {
                return Err(e);
            },
        };
        let chars = chars_of(result.as_str());
        let sep = self.inner.sep.as_str();
        let pos = match rfind_str(&chars, sep) {
            Some(p) => p,
            None => {
                return Err(BadSignature::new("no separator in timestamp-signed value"));
            },
        };
        let sep_len = chars_of(sep).len();
        let value = string_from_range(&chars, 0, pos);
        let ts = string_from_range(&chars, pos + sep_len, chars.len());
        match b62_decode(ts.as_str()) {
            Ok(t) => Ok((value, t)),
            Err(e) => Err(e),
        }
    }

    /// Signs the serialised bytes of an object, as `Signer::sign_payload`
    /// does, with the timestamp `millis`.
    pub fn sign_payload_with_timestamp(&self, data: &[u8], compress: bool, millis: i64) -> (r: String)
        requires
            b64_nopad_len(data@.len()) <= usize::MAX,
        ensures
            r@ == signed_text(self@, timestamped_value(self@, payload_text(data@, compress), millis as int)),
            url_safe_text(payload_body(data@, compress)),
            signature_is_url_safe(self@, timestamped_value(self@, payload_text(data@, compress), millis as int)),
    {
        let text = encode_payload(data, compress);
        self.sign_with_timestamp(text.as_str(), millis)
    }

    /// Signs the serialised bytes of an object with the current time.
    pub fn sign_payload(&self, data: &[u8], compress: bool) -> (r: String)
        requires
            b64_nopad_len(data@.len()) <= usize::MAX,
        ensures
            exists|t: i64| r@ == signed_text(self@, timestamped_value(self@, payload_text(data@, compress), t as int)),
    {
        self.sign_payload_with_timestamp(data, compress, unix_millis())
    }
}

/// The text of a base-62 number is made of characters that no accepted
/// separator is made of alone.
proof fn lemma_b62_text_sep_safe(t: int)
    ensures
        forall|i: int| 0 <= i < b62_text(t).len() ==> is_sep_unsafe_char(#[trigger] b62_text(t)[i]),
{
    let m: nat = if t < 0 { (-t) as nat } else { t as nat };
    lemma_b62_digits_chars(m);
    if t < 0 {
        assert forall|i: int| 0 <= i < b62_text(t).len() implies is_sep_unsafe_char(#[trigger] b62_text(t)[i]) by {
            if i > 0 {
                assert(b62_text(t)[i] == b62_digits(m)[i - 1]);
            }
        }
    }
}

proof fn lemma_b62_digits_chars(n: nat)
    ensures
        forall|i: int| 0 <= i < b62_digits(n).len() ==> is_sep_unsafe_char(#[trigger] b62_digits(n)[i]),
    decreases n,
{
    if n >= 62 {
        lemma_b62_digits_chars(n / 62);
        let p = b62_digits(n / 62);
        assert forall|i: int| 0 <= i < b62_digits(n).len() implies is_sep_unsafe_char(#[trigger] b62_digits(n)[i]) by {
            if i < p.len() {
                assert(b62_digits(n)[i] == p[i]);
            } else {
                lemma_b62_char_class(n % 62);
            }
        }
    } else {
        lemma_b62_char_class(n);
    }
}

proof fn lemma_b62_char_class(d: nat)
    requires
        d < 62,
    ensures
        is_sep_unsafe_char(b62_char(d)),
{
    lemma_b62_char(d);
    if d < 10 {
        assert((b62_char(d) as u32) == 48 + d);
    } else if d < 36 {
        assert((b62_char(d) as u32) == 65 + d - 10);
    } else {
        assert((b62_char(d) as u32) == 97 + d - 36);
    }
}

/// Unsigning what a timestamp signer signed gives back the value and the
/// timestamp it was signed with: for an accepted separator, any value, and
/// any timestamp but the `i64` minimum.
pub proof fn law_unsign_timestamped_after_sign(m: SignerView, v: Seq<char>, millis: i64)
    requires
        sep_ok(m.2),
        millis > i64::MIN,
        signature_is_url_safe(m, timestamped_value(m, v, millis as int)),
    ensures
        timestamped_outcome(m, signed_text(m, timestamped_value(m, v, millis as int)))
            == Ok::<(Seq<char>, int), Seq<char>>((v, millis as int)),
{
    let inner = timestamped_value(m, v, millis as int);
    let ts = b62_text(millis as int);
    lemma_b62_digits_shape(if millis < 0 { (-(millis as int)) as nat } else { millis as nat });
    assert(ts.len() > 0);
    assert(inner.len() > 0);
    law_unsign_after_sign(m, inner);
    lemma_b62_text_sep_safe(millis as int);
    lemma_sep_last_before_tail(v, m.2, ts);
    assert(inner.subrange(0, v.len() as int) =~= v);
    assert(inner.subrange((v.len() + m.2.len()) as int, inner.len() as int) =~= ts);
    law_b62_roundtrip(millis);
}

} // verus!
