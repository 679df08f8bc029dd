//! Database functions (`django.db.models.functions`) rendered with numbered parameters.

use vstd::prelude::*;
use crate::text::{concat2, concat3, int_str, join, join_strings, nat_str, owned, i64_to_string, u64_to_string, usize_to_string, views};

verus! {

/// Supported SQL function types.
///
/// `Power` holds its exponent as the decimal text it renders with.
#[derive(Debug, Clone, PartialEq, Eq)]
pub enum DbFunction {
    Coalesce(Vec<String>),
    Concat(Vec<String>),
    Length(String),
    Lower(String),
    Upper(String),
    Trim(String),
    LTrim(String),
    RTrim(String),
    Substr(String, isize, Option<isize>),
    Replace(String, String, String),
    Reverse(String),
    Md5(String),
    Sha1(String),
    Sha256(String),
    Sha512(String),
    Crc32(String),
    Cast(String, String),
    Abs(String),
    Ceil(String),
    Floor(String),
    Round(String, Option<u32>),
    Power(String, String),
    Sqrt(String),
    Now,
    ExtractYear(String),
    ExtractMonth(String),
    ExtractDay(String),
    ExtractHour(String),
    ExtractMinute(String),
    ExtractSecond(String),
    StrIndex(String, String),
    Greatest(Vec<String>),
    Least(Vec<String>),
}

/// `$i, $i+1, ...` for `n` parameters starting at `start`.
pub open spec fn param_list(start: nat, n: nat) -> Seq<Seq<char>>
    decreases n,
{
    if n == 0 { Seq::empty() } else { param_list(start, (n - 1) as nat).push("$"@ + nat_str((start + n - 1) as nat)) }
}

/// `CAST(strftime('unit', field) AS INTEGER)`.
pub open spec fn extract_sql(unit: Seq<char>, field: Seq<char>) -> Seq<char> {
    "CAST(strftime('"@ + unit + "', "@ + field + ") AS INTEGER)"@
}

/// `name(arg)`.
pub open spec fn call1(name: Seq<char>, arg: Seq<char>) -> Seq<char> {
    name + "("@ + arg + ")"@
}

/// The SQL of a function whose parameters are numbered from `idx`, and the next free number.
pub open spec fn function_sql(f: DbFunction, idx: nat) -> (Seq<char>, nat) {
    match f {
        DbFunction::Coalesce(fs) => ("COALESCE("@ + join(param_list(idx, fs@.len()), ", "@) + ")"@, idx + fs@.len()),
        DbFunction::Concat(fs) => ("CONCAT("@ + join(param_list(idx, fs@.len()), ", "@) + ")"@, idx + fs@.len()),
        DbFunction::Length(x) => (call1("LENGTH"@, x@), idx),
        DbFunction::Lower(x) => (call1("LOWER"@, x@), idx),
        DbFunction::Upper(x) => (call1("UPPER"@, x@), idx),
        DbFunction::Trim(x) => (call1("TRIM"@, x@), idx),
        DbFunction::LTrim(x) => (call1("LTRIM"@, x@), idx),
        DbFunction::RTrim(x) => (call1("RTRIM"@, x@), idx),
        DbFunction::Substr(x, start, len) => (match len {
            Some(l) => "SUBSTR("@ + x@ + ", "@ + int_str(start as int) + ", "@ + int_str(l as int) + ")"@,
            None => "SUBSTR("@ + x@ + ", "@ + int_str(start as int) + ")"@,
        }, idx),
        DbFunction::Replace(x, _a, _b) =>
            ("REPLACE("@ + x@ + ", $"@ + nat_str(idx) + ", $"@ + nat_str(idx + 1) + ")"@, idx + 2),
        DbFunction::Reverse(x) => (call1("REVERSE"@, x@), idx),
        DbFunction::Md5(x) => (call1("MD5"@, x@), idx),
        DbFunction::Sha1(x) => (call1("SHA1"@, x@), idx),
        DbFunction::Sha256(x) => (call1("SHA256"@, x@), idx),
        DbFunction::Sha512(x) => (call1("SHA512"@, x@), idx),
        DbFunction::Crc32(x) => (call1("CRC32"@, x@), idx),
        DbFunction::Cast(x, t) => ("CAST("@ + x@ + " AS "@ + t@ + ")"@, idx),
        DbFunction::Abs(x) => (call1("ABS"@, x@), idx),
        DbFunction::Ceil(x) => (call1("CEIL"@, x@), idx),
        DbFunction::Floor(x) => (call1("FLOOR"@, x@), idx),
        DbFunction::Round(x, d) => (match d {
            Some(n) => "ROUND("@ + x@ + ", "@ + nat_str(n as nat) + ")"@,
            None => call1("ROUND"@, x@),
        }, idx),
        DbFunction::Power(x, e) => ("POWER("@ + x@ + ", "@ + e@ + ")"@, idx),
        DbFunction::Sqrt(x) => (call1("SQRT"@, x@), idx),
        DbFunction::Now => ("NOW()"@, idx),
        DbFunction::ExtractYear(x) => (extract_sql("%Y"@, x@), idx),
        DbFunction::ExtractMonth(x) => (extract_sql("%m"@, x@), idx),
        DbFunction::ExtractDay(x) => (extract_sql("%d"@, x@), idx),
        DbFunction::ExtractHour(x) => (extract_sql("%H"@, x@), idx),
        DbFunction::ExtractMinute(x) => (extract_sql("%M"@, x@), idx),
        DbFunction::ExtractSecond(x) => (extract_sql("%S"@, x@), idx),
        DbFunction::StrIndex(x, _s) => ("INSTR("@ + x@ + ", $"@ + nat_str(idx) + ")"@, idx + 1),
        DbFunction::Greatest(fs) => ("GREATEST("@ + join(views(fs@), ", "@) + ")"@, idx),
        DbFunction::Least(fs) => ("LEAST("@ + join(views(fs@), ", "@) + ")"@, idx),
    }
}

/// Renders `count` numbered parameters from `*idx`, advancing it.
fn params(idx: &mut usize, count: usize) -> (r: String)
    requires
        *old(idx) + count <= usize::MAX,
    ensures
        r@ == join(param_list(*old(idx) as nat, count as nat), ", "@),
        *final(idx) == *old(idx) + count,
{
    let start = *idx;
    let mut parts: Vec<String> = Vec::new();
    let mut k: usize = 0;
    while k < count
        invariant
            k <= count,
            start + count <= usize::MAX,
            *idx == start + k,
            views(parts@) == param_list(start as nat, k as nat),
        decreases count - k,
    {
        let ghost before = views(parts@);
        let n = usize_to_string(*idx);
        parts.push(concat2("$", n.as_str()));
        assert(views(parts@) =~= before.push("$"@ + nat_str(*idx as nat)));
        *idx = *idx + 1;
        k = k + 1;
    }
    join_strings(&parts, ", ")
}

fn wrap(name: &str, arg: &str) -> (r: String)
    ensures
        r@ == call1(name@, arg@),
{
    let h = concat2(name, "(");
    concat3(h.as_str(), arg, ")")
}

fn extract(unit: &str, field: &str) -> (r: String)
    ensures
        r@ == extract_sql(unit@, field@),
{
    let h = concat3("CAST(strftime('", unit, "', ");
    concat3(h.as_str(), field, ") AS INTEGER)")
}

impl DbFunction {
    /// The number of parameters the function consumes.
    pub open spec fn param_count(self) -> nat {
        match self {
            DbFunction::Coalesce(fs) => fs@.len(),
            DbFunction::Concat(fs) => fs@.len(),
            DbFunction::Replace(..) => 2,
            DbFunction::StrIndex(..) => 1,
            _ => 0,
        }
    }

    /// Generate SQL for this function, numbering its parameters from `*param_idx`
    /// and advancing `*param_idx` past them.
    pub fn to_sql(&self, param_idx: &mut usize) -> (r: String)
        requires
            *old(param_idx) + self.param_count() <= usize::MAX,
        ensures
            r@ == function_sql(*self, *old(param_idx) as nat).0,
            *final(param_idx) == function_sql(*self, *old(param_idx) as nat).1,
    {
        match self {
            DbFunction::Coalesce(fields) => {
                let ghost start = *param_idx;
                let p = params(param_idx, fields.len());
                assert(p@ == join(param_list(start as nat, fields@.len()), ", "@));
                concat3("COALESCE(", p.as_str(), ")")
            }
            DbFunction::Concat(fields) => {
                let ghost start = *param_idx;
                let p = params(param_idx, fields.len());
                assert(p@ == join(param_list(start as nat, fields@.len()), ", "@));
                concat3("CONCAT(", p.as_str(), ")")
            }
            DbFunction::Length(f) => wrap("LENGTH", f.as_str()),
            DbFunction::Lower(f) => wrap("LOWER", f.as_str()),
            DbFunction::Upper(f) => wrap("UPPER", f.as_str()),
            DbFunction::Trim(f) => wrap("TRIM", f.as_str()),
            DbFunction::LTrim(f) => wrap("LTRIM", f.as_str()),
            DbFunction::RTrim(f) => wrap("RTRIM", f.as_str()),
            DbFunction::Substr(f, start, len) => {
                let s = i64_to_string(*start as i64);
                let h = concat3("SUBSTR(", f.as_str(), ", ");
                let h = concat2(h.as_str(), s.as_str());
                match len {
                    Some(l) => {
                        let ls = i64_to_string(*l as i64);
                        let h2 = concat3(h.as_str(), ", ", ls.as_str());
                        concat2(h2.as_str(), ")")
                    }
                    None => concat2(h.as_str(), ")"),
                }
            }
            DbFunction::Replace(f, _from, _to) => {
                let a = usize_to_string(*param_idx);
                *param_idx = *param_idx + 1;
                let b = usize_to_string(*param_idx);
                *param_idx = *param_idx + 1;
                let h = concat3("REPLACE(", f.as_str(), ", $");
                let h = concat3(h.as_str(), a.as_str(), ", $");
                concat3(h.as_str(), b.as_str(), ")")
            }
            DbFunction::Reverse(f) => wrap("REVERSE", f.as_str()),
            DbFunction::Md5(f) => wrap("MD5", f.as_str()),
            DbFunction::Sha1(f) => wrap("SHA1", f.as_str()),
            DbFunction::Sha256(f) => wrap("SHA256", f.as_str()),
            DbFunction::Sha512(f) => wrap("SHA512", f.as_str()),
            DbFunction::Crc32(f) => wrap("CRC32", f.as_str()),
            DbFunction::Cast(f, t) => {
                let h = concat3("CAST(", f.as_str(), " AS ");
                concat3(h.as_str(), t.as_str(), ")")
            }
            DbFunction::Abs(f) => wrap("ABS", f.as_str()),
            DbFunction::Ceil(f) => wrap("CEIL", f.as_str()),
            DbFunction::Floor(f) => wrap("FLOOR", f.as_str()),
            DbFunction::Round(f, d) => match d {
                Some(n) => {
                    let ns = u64_to_string(*n as u64);
                    let h = concat3("ROUND(", f.as_str(), ", ");
                    concat3(h.as_str(), ns.as_str(), ")")
                }
                None => wrap("ROUND", f.as_str()),
            },
            DbFunction::Power(f, e) => {
                let h = concat3("POWER(", f.as_str(), ", ");
                concat3(h.as_str(), e.as_str(), ")")
            }
            DbFunction::Sqrt(f) => wrap("SQRT", f.as_str()),
            DbFunction::Now => owned("NOW()"),
            DbFunction::ExtractYear(f) => extract("%Y", f.as_str()),
            DbFunction::ExtractMonth(f) => extract("%m", f.as_str()),
            DbFunction::ExtractDay(f) => extract("%d", f.as_str()),
            DbFunction::ExtractHour(f) => extract("%H", f.as_str()),
            DbFunction::ExtractMinute(f) => extract("%M", f.as_str()),
            DbFunction::ExtractSecond(f) => extract("%S", f.as_str()),
            DbFunction::StrIndex(f, _s) => {
                let a = usize_to_string(*param_idx);
                *param_idx = *param_idx + 1;
                let h = concat3("INSTR(", f.as_str(), ", $");
                concat3(h.as_str(), a.as_str(), ")")
            }
            DbFunction::Greatest(fields) => {
                let j = join_strings(fields, ", ");
                concat3("GREATEST(", j.as_str(), ")")
            }
            DbFunction::Least(fields) => {
                let j = join_strings(fields, ", ");
                concat3("LEAST(", j.as_str(), ")")
            }
        }
    }
}

pub fn coalesce(fields: Vec<String>) -> (f: DbFunction) ensures f == DbFunction::Coalesce(fields) { DbFunction::Coalesce(fields) }
pub fn concat(fields: Vec<String>) -> (f: DbFunction) ensures f == DbFunction::Concat(fields) { DbFunction::Concat(fields) }
pub fn length(field: &str) -> (f: DbFunction) ensures f matches DbFunction::Length(x) && x@ == field@ { DbFunction::Length(owned(field)) }
pub fn lower(field: &str) -> (f: DbFunction) ensures f matches DbFunction::Lower(x) && x@ == field@ { DbFunction::Lower(owned(field)) }
pub fn upper(field: &str) -> (f: DbFunction) ensures f matches DbFunction::Upper(x) && x@ == field@ { DbFunction::Upper(owned(field)) }
pub fn trim(field: &str) -> (f: DbFunction) ensures f matches DbFunction::Trim(x) && x@ == field@ { DbFunction::Trim(owned(field)) }
pub fn ltrim(field: &str) -> (f: DbFunction) ensures f matches DbFunction::LTrim(x) && x@ == field@ { DbFunction::LTrim(owned(field)) }
pub fn rtrim(field: &str) -> (f: DbFunction) ensures f matches DbFunction::RTrim(x) && x@ == field@ { DbFunction::RTrim(owned(field)) }
pub fn substr(field: &str, start: isize, len: Option<isize>) -> (f: DbFunction)
    ensures f matches DbFunction::Substr(x, s, l) && x@ == field@ && s == start && l == len
{
    DbFunction::Substr(owned(field), start, len)
}
pub fn replace(field: &str, from: &str, to: &str) -> (f: DbFunction)
    ensures f matches DbFunction::Replace(x, a, b) && x@ == field@ && a@ == from@ && b@ == to@
{
    DbFunction::Replace(owned(field), owned(from), owned(to))
}
pub fn reverse(field: &str) -> (f: DbFunction) ensures f matches DbFunction::Reverse(x) && x@ == field@ { DbFunction::Reverse(owned(field)) }
pub fn md5(field: &str) -> (f: DbFunction) ensures f matches DbFunction::Md5(x) && x@ == field@ { DbFunction::Md5(owned(field)) }
pub fn now() -> (f: DbFunction) ensures f == DbFunction::Now { DbFunction::Now }
pub fn abs(field: &str) -> (f: DbFunction) ensures f matches DbFunction::Abs(x) && x@ == field@ { DbFunction::Abs(owned(field)) }
pub fn ceil(field: &str) -> (f: DbFunction) ensures f matches DbFunction::Ceil(x) && x@ == field@ { DbFunction::Ceil(owned(field)) }
pub fn floor(field: &str) -> (f: DbFunction) ensures f matches DbFunction::Floor(x) && x@ == field@ { DbFunction::Floor(owned(field)) }
pub fn round(field: &str, decimals: Option<u32>) -> (f: DbFunction)
    ensures f matches DbFunction::Round(x, d) && x@ == field@ && d == decimals
{
    DbFunction::Round(owned(field), decimals)
}
pub fn sqrt(field: &str) -> (f: DbFunction) ensures f matches DbFunction::Sqrt(x) && x@ == field@ { DbFunction::Sqrt(owned(field)) }
pub fn greatest(fields: Vec<String>) -> (f: DbFunction) ensures f == DbFunction::Greatest(fields) { DbFunction::Greatest(fields) }
pub fn least(fields: Vec<String>) -> (f: DbFunction) ensures f == DbFunction::Least(fields) { DbFunction::Least(fields) }
pub fn cast(field: &str, as_type: &str) -> (f: DbFunction)
    ensures f matches DbFunction::Cast(x, t) && x@ == field@ && t@ == as_type@
{
    DbFunction::Cast(owned(field), owned(as_type))
}
pub fn extract_year(field: &str) -> (f: DbFunction) ensures f matches DbFunction::ExtractYear(x) && x@ == field@ { DbFunction::ExtractYear(owned(field)) }
pub fn extract_month(field: &str) -> (f: DbFunction) ensures f matches DbFunction::ExtractMonth(x) && x@ == field@ { DbFunction::ExtractMonth(owned(field)) }
pub fn extract_day(field: &str) -> (f: DbFunction) ensures f matches DbFunction::ExtractDay(x) && x@ == field@ { DbFunction::ExtractDay(owned(field)) }
pub fn extract_hour(field: &str) -> (f: DbFunction) ensures f matches DbFunction::ExtractHour(x) && x@ == field@ { DbFunction::ExtractHour(owned(field)) }
pub fn extract_minute(field: &str) -> (f: DbFunction) ensures f matches DbFunction::ExtractMinute(x) && x@ == field@ { DbFunction::ExtractMinute(owned(field)) }
pub fn extract_second(field: &str) -> (f: DbFunction) ensures f matches DbFunction::ExtractSecond(x) && x@ == field@ { DbFunction::ExtractSecond(owned(field)) }

} // verus!
