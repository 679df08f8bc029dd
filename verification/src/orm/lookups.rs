//! Lookup types for query filters (`django.db.models.lookups`).

use vstd::prelude::*;
use crate::text::{
    chars_of, concat2, concat3, contains_seq, has_char, is_last_occurrence, join, join_strings,
    lemma_split_char_nonempty, lowercase, nat_str, occurs_at, owned, rfind_seq, split_char,
    split_on_char, str_eq, string_from_range, to_lowercase, trim, trim_seq, usize_to_string, views,
};

verus! {

/// A single filter condition.
#[derive(Debug, Clone, PartialEq, Eq)]
pub struct FilterCondition {
    pub field: String,
    pub lookup: Lookup,
    pub value: String,
}

/// All supported lookup types (Django's defaults).
#[derive(Debug, Clone, Copy, PartialEq, Eq, Structural)]
pub enum Lookup {
    Exact,
    IExact,
    Contains,
    IContains,
    In,
    Gt,
    Gte,
    Lt,
    Lte,
    StartsWith,
    IStartsWith,
    EndsWith,
    IEndsWith,
    Range,
    Year,
    Month,
    Day,
    WeekDay,
    Quarter,
    Hour,
    Minute,
    Second,
    IsNull,
    Regex,
    IRegex,
    Ne,
}

/// The lookup a suffix names; unknown suffixes mean `Exact`.
pub open spec fn lookup_named(s: Seq<char>) -> Lookup {
    if s == "exact"@ { Lookup::Exact }
    else if s == "iexact"@ { Lookup::IExact }
    else if s == "contains"@ { Lookup::Contains }
    else if s == "icontains"@ { Lookup::IContains }
    else if s == "in"@ { Lookup::In }
    else if s == "gt"@ { Lookup::Gt }
    else if s == "gte"@ { Lookup::Gte }
    else if s == "lt"@ { Lookup::Lt }
    else if s == "lte"@ { Lookup::Lte }
    else if s == "startswith"@ { Lookup::StartsWith }
    else if s == "istartswith"@ { Lookup::IStartsWith }
    else if s == "endswith"@ { Lookup::EndsWith }
    else if s == "iendswith"@ { Lookup::IEndsWith }
    else if s == "range"@ { Lookup::Range }
    else if s == "year"@ { Lookup::Year }
    else if s == "month"@ { Lookup::Month }
    else if s == "day"@ { Lookup::Day }
    else if s == "week_day"@ { Lookup::WeekDay }
    else if s == "quarter"@ { Lookup::Quarter }
    else if s == "hour"@ { Lookup::Hour }
    else if s == "minute"@ { Lookup::Minute }
    else if s == "second"@ { Lookup::Second }
    else if s == "isnull"@ { Lookup::IsNull }
    else if s == "regex"@ { Lookup::Regex }
    else if s == "iregex"@ { Lookup::IRegex }
    else if s == "ne"@ { Lookup::Ne }
    else { Lookup::Exact }
}

/// `field__lookup` split at the last `__`: the field and the lookup it names.
pub open spec fn parsed_lookup(full: Seq<char>) -> (Seq<char>, Lookup) {
    if contains_seq(full, "__"@) {
        let i = choose|i: int| is_last_occurrence(full, "__"@, i);
        (full.subrange(0, i), lookup_named(full.subrange(i + 2, full.len() as int)))
    } else {
        (full, Lookup::Exact)
    }
}

/// `f__suffix`, for a suffix without underscores, splits into `f` and the
/// lookup the suffix names.
pub proof fn lemma_parsed_lookup_suffix(f: Seq<char>, suffix: Seq<char>)
    requires
        forall|k: int| 0 <= k < suffix.len() ==> suffix[k] != '_',
    ensures
        parsed_lookup(f + "__"@ + suffix) == (f, lookup_named(suffix)),
{
    reveal_strlit("__");
    let full = f + "__"@ + suffix;
    let n = f.len() as int;
    assert(full.subrange(n, n + 2) =~= "__"@);
    assert(occurs_at(full, "__"@, n));
    assert forall|j: int| n < j <= full.len() implies !occurs_at(full, "__"@, j) by {
        if occurs_at(full, "__"@, j) {
            assert(full.subrange(j, j + 2)[1] == '_');
            assert(full[j + 1] == suffix[j + 1 - n - 2]);
        }
    }
    assert(is_last_occurrence(full, "__"@, n));
    assert(contains_seq(full, "__"@));
    let i = choose|i: int| is_last_occurrence(full, "__"@, i);
    assert(i == n) by {
        if i < n {
            assert(!occurs_at(full, "__"@, n));
        } else if i > n {
            assert(!occurs_at(full, "__"@, i));
        }
    }
    assert(full.subrange(0, n) =~= f);
    assert(full.subrange(n + 2, full.len() as int) =~= suffix);
}

/// The comparison suffixes name the comparison lookups.
pub proof fn lemma_comparison_names()
    ensures
        lookup_named("lt"@) == Lookup::Lt,
        lookup_named("lte"@) == Lookup::Lte,
        lookup_named("gt"@) == Lookup::Gt,
        lookup_named("gte"@) == Lookup::Gte,
{
    reveal_strlit("exact");
    reveal_strlit("iexact");
    reveal_strlit("contains");
    reveal_strlit("icontains");
    reveal_strlit("in");
    reveal_strlit("gt");
    reveal_strlit("gte");
    reveal_strlit("lt");
    reveal_strlit("lte");
    assert("lt"@ != "in"@ && "lt"@ != "gt"@ && "gt"@ != "in"@) by {
        assert("lt"@[0] != "in"@[0] && "lt"@[0] != "gt"@[0] && "gt"@[0] != "in"@[0]);
    }
    assert("lte"@ != "gte"@) by {
        assert("lte"@[0] != "gte"@[0]);
    }
    assert("lt"@.len() == 2 && "lte"@.len() == 3 && "gte"@.len() == 3 && "gt"@.len() == 2);
    assert("exact"@.len() == 5 && "iexact"@.len() == 6 && "contains"@.len() == 8 && "icontains"@.len() == 9);
    assert("lt"@ != "exact"@ && "lt"@ != "iexact"@ && "lt"@ != "contains"@ && "lt"@ != "icontains"@ && "lt"@ != "gte"@);
    assert("lte"@ != "exact"@ && "lte"@ != "iexact"@ && "lte"@ != "contains"@ && "lte"@ != "icontains"@);
    assert("lte"@ != "in"@ && "lte"@ != "gt"@ && "lte"@ != "lt"@);
}

/// The two pieces of `s` around its first comma, the second empty when there is none.
pub open spec fn split_once_comma(s: Seq<char>) -> Seq<Seq<char>> {
    if has_char(s, ',') {
        let i = choose|i: int| 0 <= i < s.len() && s[i] == ',' && forall|j: int| 0 <= j < i ==> s[j] != ',';
        seq![s.subrange(0, i), s.subrange(i + 1, s.len() as int)]
    } else {
        seq![s, Seq::empty()]
    }
}

impl Lookup {
    pub open spec fn operator(self) -> Seq<char> {
        match self {
            Lookup::Exact | Lookup::IExact => "="@,
            Lookup::Contains | Lookup::IContains => "LIKE"@,
            Lookup::In => "IN"@,
            Lookup::Gt => ">"@,
            Lookup::Gte => ">="@,
            Lookup::Lt => "<"@,
            Lookup::Lte => "<="@,
            Lookup::StartsWith | Lookup::IStartsWith => "LIKE"@,
            Lookup::EndsWith | Lookup::IEndsWith => "LIKE"@,
            Lookup::Range => "BETWEEN"@,
            Lookup::Year | Lookup::Month | Lookup::Day | Lookup::WeekDay | Lookup::Quarter
            | Lookup::Hour | Lookup::Minute | Lookup::Second => "="@,
            Lookup::IsNull => "IS NULL"@,
            Lookup::Regex | Lookup::IRegex => "REGEXP"@,
            Lookup::Ne => "!="@,
        }
    }

    /// The query parameters a value becomes under this lookup.
    pub open spec fn formatted(self, v: Seq<char>) -> Seq<Seq<char>> {
        match self {
            Lookup::Contains => seq!["%"@ + v + "%"@],
            Lookup::IContains => seq!["%"@ + lowercase(v) + "%"@],
            Lookup::StartsWith => seq![v + "%"@],
            Lookup::IStartsWith => seq![lowercase(v) + "%"@],
            Lookup::EndsWith => seq!["%"@ + v],
            Lookup::IEndsWith => seq!["%"@ + lowercase(v)],
            Lookup::IExact => seq![lowercase(v)],
            Lookup::Range => split_once_comma(v),
            Lookup::In => split_char(v, ',').map_values(|p: Seq<char>| trim_seq(p)),
            Lookup::IsNull => Seq::empty(),
            _ => seq![v],
        }
    }

    /// The SQL condition for `field` with its first parameter numbered `idx`.
    pub open spec fn snippet(self, field: Seq<char>, idx: nat) -> Seq<char> {
        let p = "$"@ + nat_str(idx);
        match self {
            Lookup::Exact => field + " = "@ + p,
            Lookup::IExact => "LOWER("@ + field + ") = LOWER("@ + p + ")"@,
            Lookup::Contains => field + " LIKE "@ + p,
            Lookup::IContains => "LOWER("@ + field + ") LIKE LOWER("@ + p + ")"@,
            Lookup::In => field + " IN ("@ + p + ")"@,
            Lookup::Gt => field + " > "@ + p,
            Lookup::Gte => field + " >= "@ + p,
            Lookup::Lt => field + " < "@ + p,
            Lookup::Lte => field + " <= "@ + p,
            Lookup::StartsWith => field + " LIKE "@ + p,
            Lookup::IStartsWith => "LOWER("@ + field + ") LIKE LOWER("@ + p + ")"@,
            Lookup::EndsWith => field + " LIKE "@ + p,
            Lookup::IEndsWith => "LOWER("@ + field + ") LIKE LOWER("@ + p + ")"@,
            Lookup::Range => field + " BETWEEN "@ + p + " AND $"@ + nat_str(idx + 1),
            Lookup::Year => "CAST(strftime('%Y', "@ + field + ") AS INTEGER) = "@ + p,
            Lookup::Month => "CAST(strftime('%m', "@ + field + ") AS INTEGER) = "@ + p,
            Lookup::Day => "CAST(strftime('%d', "@ + field + ") AS INTEGER) = "@ + p,
            Lookup::WeekDay => "CAST(strftime('%w', "@ + field + ") AS INTEGER) + 1 = "@ + p,
            Lookup::Quarter => "CAST((CAST(strftime('%m', "@ + field + ") AS INTEGER) + 2) / 3 AS INTEGER) = "@ + p,
            Lookup::Hour => "CAST(strftime('%H', "@ + field + ") AS INTEGER) = "@ + p,
            Lookup::Minute => "CAST(strftime('%M', "@ + field + ") AS INTEGER) = "@ + p,
            Lookup::Second => "CAST(strftime('%S', "@ + field + ") AS INTEGER) = "@ + p,
            Lookup::IsNull => field + " IS NULL"@,
            Lookup::Regex | Lookup::IRegex => field + " REGEXP "@ + p,
            Lookup::Ne => field + " != "@ + p,
        }
    }

    fn named(s: &str) -> (l: Lookup)
        ensures
            l == lookup_named(s@),
    {
        if str_eq(s, "exact") { Lookup::Exact }
        else if str_eq(s, "iexact") { Lookup::IExact }
        else if str_eq(s, "contains") { Lookup::Contains }
        else if str_eq(s, "icontains") { Lookup::IContains }
        else if str_eq(s, "in") { Lookup::In }
        else if str_eq(s, "gt") { Lookup::Gt }
        else if str_eq(s, "gte") { Lookup::Gte }
        else if str_eq(s, "lt") { Lookup::Lt }
        else if str_eq(s, "lte") { Lookup::Lte }
        else if str_eq(s, "startswith") { Lookup::StartsWith }
        else if str_eq(s, "istartswith") { Lookup::IStartsWith }
        else if str_eq(s, "endswith") { Lookup::EndsWith }
        else if str_eq(s, "iendswith") { Lookup::IEndsWith }
        else if str_eq(s, "range") { Lookup::Range }
        else if str_eq(s, "year") { Lookup::Year }
        else if str_eq(s, "month") { Lookup::Month }
        else if str_eq(s, "day") { Lookup::Day }
        else if str_eq(s, "week_day") { Lookup::WeekDay }
        else if str_eq(s, "quarter") { Lookup::Quarter }
        else if str_eq(s, "hour") { Lookup::Hour }
        else if str_eq(s, "minute") { Lookup::Minute }
        else if str_eq(s, "second") { Lookup::Second }
        else if str_eq(s, "isnull") { Lookup::IsNull }
        else if str_eq(s, "regex") { Lookup::Regex }
        else if str_eq(s, "iregex") { Lookup::IRegex }
        else if str_eq(s, "ne") { Lookup::Ne }
        else { Lookup::Exact }
    }

    /// Parse `field__lookup` into `(field, lookup)`; a bare field means `Exact`.
    pub fn parse(full_field: &str) -> (r: (String, Lookup))
        ensures
            r.0@ == parsed_lookup(full_field@).0,
            r.1 == parsed_lookup(full_field@).1,
    {
        let v = chars_of(full_field);
        let sep = chars_of("__");
        proof { reveal_strlit("__"); }
        match rfind_seq(&v, &sep) {
            Some(pos) => {
                assert(sep@.len() == 2);
                assert(occurs_at(v@, sep@, pos as int));
                assert(pos + sep@.len() <= v@.len());
                assert(pos + 2 <= v.len());
                let field = string_from_range(&v, 0, pos);
                let rest = string_from_range(&v, pos + 2, v.len());
                let lookup = Lookup::named(rest.as_str());
                proof {
                    let i = choose|i: int| is_last_occurrence(full_field@, "__"@, i);
                    assert(is_last_occurrence(full_field@, "__"@, pos as int));
                    if i < pos { assert(!occurs_at(full_field@, "__"@, pos as int)); }
                    if i > pos { assert(!occurs_at(full_field@, "__"@, i)); }
                }
                (field, lookup)
            }
            None => (owned(full_field), Lookup::Exact),
        }
    }

    /// The SQL operator of the lookup.
    pub fn sql_operator(&self) -> (r: &'static str)
        ensures
            r@ == self.operator(),
    {
        match self {
            Lookup::Exact | Lookup::IExact => "=",
            Lookup::Contains => "LIKE",
            Lookup::IContains => "LIKE",
            Lookup::In => "IN",
            Lookup::Gt => ">",
            Lookup::Gte => ">=",
            Lookup::Lt => "<",
            Lookup::Lte => "<=",
            Lookup::StartsWith | Lookup::IStartsWith => "LIKE",
            Lookup::EndsWith | Lookup::IEndsWith => "LIKE",
            Lookup::Range => "BETWEEN",
            Lookup::Year => "=",
            Lookup::Month => "=",
            Lookup::Day => "=",
            Lookup::WeekDay => "=",
            Lookup::Quarter => "=",
            Lookup::Hour => "=",
            Lookup::Minute => "=",
            Lookup::Second => "=",
            Lookup::IsNull => "IS NULL",
            Lookup::Regex | Lookup::IRegex => "REGEXP",
            Lookup::Ne => "!=",
        }
    }

    /// The query parameters `value` becomes under this lookup.
    pub fn format_value(&self, value: &str) -> (r: Vec<String>)
        ensures
            views(r@) == self.formatted(value@),
    {
        let mut r: Vec<String> = Vec::new();
        match self {
            Lookup::Contains => { r.push(concat3("%", value, "%")); }
            Lookup::IContains => {
                let l = to_lowercase(value);
                r.push(concat3("%", l.as_str(), "%"));
            }
            Lookup::StartsWith => { r.push(concat2(value, "%")); }
            Lookup::IStartsWith => {
                let l = to_lowercase(value);
                r.push(concat2(l.as_str(), "%"));
            }
            Lookup::EndsWith => { r.push(concat2("%", value)); }
            Lookup::IEndsWith => {
                let l = to_lowercase(value);
                r.push(concat2("%", l.as_str()));
            }
            Lookup::IExact => { r.push(to_lowercase(value)); }
            Lookup::Range => {
                let v = chars_of(value);
                let mut i: usize = 0;
                while i < v.len() && v[i] != ','
                    invariant
                        v@ == value@,
                        i <= v.len(),
                        forall|j: int| 0 <= j < i ==> v@[j] != ',',
                    decreases v.len() - i,
                {
                    i = i + 1;
                }
                if i < v.len() {
                    r.push(string_from_range(&v, 0, i));
                    r.push(string_from_range(&v, i + 1, v.len()));
                    proof {
                        let k = choose|k: int| 0 <= k < value@.len() && value@[k] == ','
                            && forall|j: int| 0 <= j < k ==> value@[j] != ',';
                        if k < i { assert(value@[k] != ','); }
                        if i < k { assert(value@[i as int] != ','); }
                    }
                } else {
                    r.push(owned(value));
                    r.push(String::new());
                    assert(v@.subrange(0, v.len() as int) =~= v@);
                }
                assert(views(r@) =~= self.formatted(value@));
                return r;
            }
            Lookup::In => {
                let pieces = split_on_char(value, ',');
                let mut i: usize = 0;
                while i < pieces.len()
                    invariant
                        i <= pieces.len(),
                        views(pieces@) == split_char(value@, ','),
                        views(r@) == views(pieces@).take(i as int).map_values(|p: Seq<char>| trim_seq(p)),
                    decreases pieces.len() - i,
                {
                    let t = trim(pieces[i].as_str());
                    let ghost old_r = r@;
                    r.push(t);
                    assert(views(r@) =~= views(old_r).push(t@));
                    assert(views(pieces@).take(i + 1) =~= views(pieces@).take(i as int).push(pieces@[i as int]@));
                    i = i + 1;
                }
                assert(views(pieces@).take(pieces.len() as int) =~= views(pieces@));
                return r;
            }
            Lookup::IsNull => {}
            _ => { r.push(owned(value)); }
        }
        assert(views(r@) =~= self.formatted(value@));
        r
    }

    /// The SQL condition for `field` with its first parameter numbered `param_idx`.
    pub fn sql_snippet(&self, field: &str, param_idx: usize) -> (r: String)
        requires
            *self == Lookup::Range ==> param_idx < usize::MAX,
        ensures
            r@ == self.snippet(field@, param_idx as nat),
    {
        let num = usize_to_string(param_idx);
        let p = concat2("$", num.as_str());
        let p = p.as_str();
        match self {
            Lookup::Exact => concat3(field, " = ", p),
            Lookup::IExact => { let h = concat3("LOWER(", field, ") = LOWER("); concat3(h.as_str(), p, ")") }
            Lookup::Contains => concat3(field, " LIKE ", p),
            Lookup::IContains => { let h = concat3("LOWER(", field, ") LIKE LOWER("); concat3(h.as_str(), p, ")") }
            Lookup::In => { let h = concat3(field, " IN (", p); concat2(h.as_str(), ")") }
            Lookup::Gt => concat3(field, " > ", p),
            Lookup::Gte => concat3(field, " >= ", p),
            Lookup::Lt => concat3(field, " < ", p),
            Lookup::Lte => concat3(field, " <= ", p),
            Lookup::StartsWith => concat3(field, " LIKE ", p),
            Lookup::IStartsWith => { let h = concat3("LOWER(", field, ") LIKE LOWER("); concat3(h.as_str(), p, ")") }
            Lookup::EndsWith => concat3(field, " LIKE ", p),
            Lookup::IEndsWith => { let h = concat3("LOWER(", field, ") LIKE LOWER("); concat3(h.as_str(), p, ")") }
            Lookup::Range => {
                let next = usize_to_string(param_idx + 1);
                let h = concat3(field, " BETWEEN ", p);
                concat3(h.as_str(), " AND $", next.as_str())
            }
            Lookup::Year => { let h = concat3("CAST(strftime('%Y', ", field, ") AS INTEGER) = "); concat2(h.as_str(), p) }
            Lookup::Month => { let h = concat3("CAST(strftime('%m', ", field, ") AS INTEGER) = "); concat2(h.as_str(), p) }
            Lookup::Day => { let h = concat3("CAST(strftime('%d', ", field, ") AS INTEGER) = "); concat2(h.as_str(), p) }
            Lookup::WeekDay => { let h = concat3("CAST(strftime('%w', ", field, ") AS INTEGER) + 1 = "); concat2(h.as_str(), p) }
            Lookup::Quarter => {
                let h = concat3("CAST((CAST(strftime('%m', ", field, ") AS INTEGER) + 2) / 3 AS INTEGER) = ");
                concat2(h.as_str(), p)
            }
            Lookup::Hour => { let h = concat3("CAST(strftime('%H', ", field, ") AS INTEGER) = "); concat2(h.as_str(), p) }
            Lookup::Minute => { let h = concat3("CAST(strftime('%M', ", field, ") AS INTEGER) = "); concat2(h.as_str(), p) }
            Lookup::Second => { let h = concat3("CAST(strftime('%S', ", field, ") AS INTEGER) = "); concat2(h.as_str(), p) }
            Lookup::IsNull => concat2(field, " IS NULL"),
            Lookup::Regex => concat3(field, " REGEXP ", p),
            Lookup::IRegex => concat3(field, " REGEXP ", p),
            Lookup::Ne => concat3(field, " != ", p),
        }
    }
}

/// The conditions parsed from `(field__lookup, value)` pairs, in order.
pub open spec fn parsed_filters(filters: Seq<(String, String)>) -> Seq<(Seq<char>, Lookup, Seq<char>)> {
    filters.map_values(|kv: (String, String)| (parsed_lookup(kv.0@).0, parsed_lookup(kv.0@).1, kv.1@))
}

/// The view of a filter condition.
pub open spec fn condition_view(c: FilterCondition) -> (Seq<char>, Lookup, Seq<char>) {
    (c.field@, c.lookup, c.value@)
}

/// The views of a sequence of filter conditions.
pub open spec fn condition_views(s: Seq<FilterCondition>) -> Seq<(Seq<char>, Lookup, Seq<char>)> {
    s.map_values(|c: FilterCondition| condition_view(c))
}

/// Parse `(field__lookup, value)` pairs into filter conditions.
pub fn parse_filters(filters: &Vec<(String, String)>) -> (r: Vec<FilterCondition>)
    ensures
        condition_views(r@) == parsed_filters(filters@),
{
    let mut r: Vec<FilterCondition> = Vec::new();
    let mut i: usize = 0;
    while i < filters.len()
        invariant
            i <= filters.len(),
            condition_views(r@) == parsed_filters(filters@.take(i as int)),
        decreases filters.len() - i,
    {
        let (field, lookup) = Lookup::parse(filters[i].0.as_str());
        let c = FilterCondition { field, lookup, value: owned(filters[i].1.as_str()) };
        let ghost old_r = r@;
        assert(condition_view(c) == (parsed_lookup(filters@[i as int].0@).0,
            parsed_lookup(filters@[i as int].0@).1, filters@[i as int].1@));
        r.push(c);
        assert(r@ =~= old_r.push(c));
        assert(filters@.take(i + 1) =~= filters@.take(i as int).push(filters@[i as int]));
        assert(condition_views(r@) =~= condition_views(old_r).push(condition_view(c)));
        assert(parsed_filters(filters@.take(i + 1)) =~= parsed_filters(filters@.take(i as int)).push(
            (parsed_lookup(filters@[i as int].0@).0, parsed_lookup(filters@[i as int].0@).1, filters@[i as int].1@)));
        i = i + 1;
    }
    assert(filters@.take(filters.len() as int) =~= filters@);
    r
}

/// The clauses and parameters of a WHERE built from `conds`, numbering
/// parameters from `start`.
pub open spec fn where_parts(conds: Seq<FilterCondition>, start: nat) -> (Seq<Seq<char>>, Seq<Seq<char>>)
    decreases conds.len(),
{
    if conds.len() == 0 {
        (Seq::empty(), Seq::empty())
    } else {
        let c = conds[0];
        let vals = c.lookup.formatted(c.value@);
        let rest = where_parts(conds.drop_first(), start + vals.len());
        (seq![c.lookup.snippet(c.field@, start)] + rest.0, vals + rest.1)
    }
}

/// Build a WHERE clause and its parameters from filter conditions.
pub fn build_where_clause(conditions: &[FilterCondition]) -> (r: (String, Vec<String>))
    requires
        conditions@.len() + parameter_bound(conditions@) < usize::MAX,
    ensures
        conditions@.len() == 0 ==> r.0@.len() == 0 && r.1@.len() == 0,
        conditions@.len() > 0 ==> r.0@ == "WHERE "@ + join(where_parts(conditions@, 1).0, " AND "@)
            && views(r.1@) == where_parts(conditions@, 1).1,
{
    if conditions.len() == 0 {
        return (String::new(), Vec::new());
    }
    let mut clauses: Vec<String> = Vec::new();
    let mut params: Vec<String> = Vec::new();
    let mut param_idx: usize = 1;
    let mut i: usize = 0;
    assert(conditions@.skip(0) =~= conditions@);
    assert(views(clauses@) =~= Seq::<Seq<char>>::empty());
    assert(views(params@) =~= Seq::<Seq<char>>::empty());
    while i < conditions.len()
        invariant
            i <= conditions@.len(),
            conditions@.len() + parameter_bound(conditions@) < usize::MAX,
            param_idx == 1 + views(params@).len(),
            views(params@).len() <= parameter_bound(conditions@.take(i as int)),
            ({
                let rest = where_parts(conditions@.skip(i as int), param_idx as nat);
                views(clauses@) + rest.0 == where_parts(conditions@, 1).0
                    && views(params@) + rest.1 == where_parts(conditions@, 1).1
            }),
        decreases conditions.len() - i,
    {
        let cond = &conditions[i];
        let values = cond.lookup.format_value(cond.value.as_str());
        proof {
            lemma_parameter_bound_prefix(conditions@, i as nat);
            lemma_formatted_len(cond.lookup, cond.value@);
        }
        let snippet = cond.lookup.sql_snippet(cond.field.as_str(), param_idx);
        let ghost old_clauses = views(clauses@);
        let ghost old_params = views(params@);
        clauses.push(snippet);
        assert(views(clauses@) =~= old_clauses.push(snippet@));
        let mut k: usize = 0;
        while k < values.len()
            invariant
                k <= values.len(),
                views(params@) == old_params + views(values@).take(k as int),
            decreases values.len() - k,
        {
            let ghost before = views(params@);
            params.push(values[k].clone());
            assert(views(params@) =~= before.push(values@[k as int]@));
            assert(views(values@).take(k + 1) =~= views(values@).take(k as int).push(values@[k as int]@));
            k = k + 1;
        }
        assert(views(values@).take(values.len() as int) =~= views(values@));
        param_idx = param_idx + values.len();
        proof {
            let s = conditions@.skip(i as int);
            assert(s.drop_first() =~= conditions@.skip(i + 1));
            assert(s[0] == conditions@[i as int]);
        }
        i = i + 1;
    }
    assert(conditions@.skip(i as int).len() == 0);
    assert(views(clauses@) =~= where_parts(conditions@, 1).0);
    assert(views(params@) =~= where_parts(conditions@, 1).1);
    let joined = join_strings(&clauses, " AND ");
    (concat2("WHERE ", joined.as_str()), params)
}

/// An upper bound on the number of parameters the conditions produce.
pub open spec fn parameter_bound(conds: Seq<FilterCondition>) -> nat
    decreases conds.len(),
{
    if conds.len() == 0 {
        0
    } else {
        parameter_bound(conds.drop_last()) + 2 + conds.last().value@.len()
    }
}

proof fn lemma_parameter_bound_prefix(conds: Seq<FilterCondition>, i: nat)
    requires
        i < conds.len(),
    ensures
        parameter_bound(conds.take(i as int)) + 2 + conds[i as int].value@.len()
            == parameter_bound(conds.take((i + 1) as int)),
        parameter_bound(conds.take((i + 1) as int)) <= parameter_bound(conds),
    decreases conds.len() - i,
{
    assert(conds.take((i + 1) as int).drop_last() =~= conds.take(i as int));
    if i + 1 < conds.len() {
        lemma_parameter_bound_prefix(conds, i + 1);
    } else {
        assert(conds.take((i + 1) as int) =~= conds);
    }
}

proof fn lemma_formatted_len(l: Lookup, v: Seq<char>)
    ensures
        l.formatted(v).len() <= v.len() + 2,
{
    if l == Lookup::In {
        lemma_split_char_len(v, ',');
    }
}

/// Splitting on a char yields at most one piece more than there are characters.
pub proof fn lemma_split_char_len(s: Seq<char>, sep: char)
    ensures
        split_char(s, sep).len() <= s.len() + 1,
    decreases s.len(),
{
    if s.len() > 0 {
        lemma_split_char_len(s.drop_last(), sep);
        lemma_split_char_nonempty(s.drop_last(), sep);
    }
}

} // verus!
