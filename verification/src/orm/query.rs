//! SQL query construction from chained method calls (`QueryBuilder`), and
//! iteration over fetched rows (`QuerySetIter`).

use vstd::prelude::*;
use crate::orm::lookups::{lemma_parsed_lookup_suffix, lookup_named, parsed_lookup, condition_view, condition_views, parse_filters, parsed_filters, FilterCondition, Lookup};
use crate::text::{
    append_prefixed, concat2, concat3, contains_seq, join, join_strings, occurs_at, lowercase, nat_str, owned, replace_char, replace_char_str,
    prefixed_all, split_char, split_first, split_first_str, split_on_char, str_eq, str_is_empty, to_lowercase, trim, trim_seq,
    usize_to_string, views, copy_strings, i64_to_string, int_str,
};
use crate::orm::aggregates::{aggregate_sql, Aggregate};

verus! {

/// A condition: field, operator and value text. A condition with an empty
/// field and an empty operator is a raw clause held in the value.
pub type Condition = (Seq<char>, Seq<char>, Seq<char>);

/// The state of a query under construction.
pub struct QueryView {
    pub table: Seq<char>,
    pub fields: Seq<Seq<char>>,
    pub conditions: Seq<Condition>,
    pub order_by: Seq<Seq<char>>,
    pub limit: Option<usize>,
    pub offset: Option<usize>,
    pub joins: Seq<Seq<char>>,
    pub distinct: bool,
    pub select_fields: Seq<Seq<char>>,
    pub deferred_fields: Seq<Seq<char>>,
    pub for_update: bool,
    pub for_update_nowait: bool,
    pub for_update_skip_locked: bool,
    pub extra_selects: Seq<(Seq<char>, Seq<char>)>,
    pub extra_wheres: Seq<Seq<char>>,
    pub extra_tables: Seq<Seq<char>>,
}

impl QueryView {
    /// A fresh query on `table`: all columns, no condition, no ordering.
    pub open spec fn fresh(table: Seq<char>) -> QueryView {
        QueryView {
            table,
            fields: seq!["*"@],
            conditions: Seq::empty(),
            order_by: Seq::empty(),
            limit: None,
            offset: None,
            joins: Seq::empty(),
            distinct: false,
            select_fields: Seq::empty(),
            deferred_fields: Seq::empty(),
            for_update: false,
            for_update_nowait: false,
            for_update_skip_locked: false,
            extra_selects: Seq::empty(),
            extra_wheres: Seq::empty(),
            extra_tables: Seq::empty(),
        }
    }

    /// The query with `c` added as its last condition.
    pub open spec fn with_condition(self, c: Condition) -> QueryView {
        QueryView { conditions: self.conditions.push(c), ..self }
    }

    /// The query with conditions `cs` added after its own.
    pub open spec fn with_conditions(self, cs: Seq<Condition>) -> QueryView {
        QueryView { conditions: self.conditions + cs, ..self }
    }

    /// The query with `o` added as its last ordering term.
    pub open spec fn with_order(self, o: Seq<char>) -> QueryView {
        QueryView { order_by: self.order_by.push(o), ..self }
    }

    /// The query with at most `n` rows.
    pub open spec fn with_limit(self, n: usize) -> QueryView {
        QueryView { limit: Some(n), ..self }
    }

    /// The query skipping its first `n` rows.
    pub open spec fn with_offset(self, n: usize) -> QueryView {
        QueryView { offset: Some(n), ..self }
    }

    /// The query with the join clause `j` added last.
    pub open spec fn with_join(self, j: Seq<char>) -> QueryView {
        QueryView { joins: self.joins.push(j), ..self }
    }

    /// The query selecting distinct rows.
    pub open spec fn with_distinct(self) -> QueryView {
        QueryView { distinct: true, ..self }
    }
}

/// The WHERE text of one condition.
pub open spec fn condition_text(c: Condition) -> Seq<char> {
    if c.0.len() == 0 && c.1.len() == 0 {
        c.2
    } else {
        c.0 + " "@ + c.1 + " "@ + c.2
    }
}

/// Every WHERE clause of a query: its conditions, then its raw clauses.
pub open spec fn where_clauses(q: QueryView) -> Seq<Seq<char>> {
    q.conditions.map_values(|c: Condition| condition_text(c)) + q.extra_wheres
}

/// The text of one computed column: `(expr) AS alias`.
pub open spec fn extra_select_text(p: (Seq<char>, Seq<char>)) -> Seq<char> {
    "("@ + p.1 + ") AS "@ + p.0
}

/// The items of the select list.
pub open spec fn select_items(q: QueryView) -> Seq<Seq<char>> {
    let base = if q.select_fields.len() > 0 {
        q.select_fields
    } else if q.distinct {
        seq!["DISTINCT *"@]
    } else {
        seq!["*"@]
    };
    base + q.extra_selects.map_values(|p: (Seq<char>, Seq<char>)| extra_select_text(p))
}

/// ` WHERE c1 AND c2 ...`, or nothing without clauses.
pub open spec fn where_text(clauses: Seq<Seq<char>>) -> Seq<char> {
    if clauses.len() == 0 { Seq::empty() } else { " WHERE "@ + join(clauses, " AND "@) }
}

/// ` ORDER BY o1, o2 ...`, or nothing without ordering.
pub open spec fn order_text(order: Seq<Seq<char>>) -> Seq<char> {
    if order.len() == 0 { Seq::empty() } else { " ORDER BY "@ + join(order, ", "@) }
}

/// `prefix` and the number, or nothing without one.
pub open spec fn number_text(prefix: Seq<char>, n: Option<usize>) -> Seq<char> {
    match n {
        Some(k) => prefix + nat_str(k as nat),
        None => Seq::empty(),
    }
}

/// The row-locking suffix.
pub open spec fn for_update_text(q: QueryView) -> Seq<char> {
    if !q.for_update {
        Seq::empty()
    } else {
        " FOR UPDATE"@ + (if q.for_update_nowait { " NOWAIT"@ } else { Seq::empty() })
            + (if q.for_update_skip_locked { " SKIP LOCKED"@ } else { Seq::empty() })
    }
}

/// The tables and joins after `FROM table`.
pub open spec fn from_tail(q: QueryView) -> Seq<char> {
    prefixed_all(q.extra_tables, ", "@) + prefixed_all(q.joins, " "@)
}

/// The SELECT statement of a query.
pub open spec fn select_sql(q: QueryView) -> Seq<char> {
    "SELECT "@ + join(select_items(q), ", "@) + " FROM "@ + q.table + from_tail(q)
        + where_text(where_clauses(q)) + order_text(q.order_by) + number_text(" LIMIT "@, q.limit)
        + number_text(" OFFSET "@, q.offset) + for_update_text(q)
}

/// The COUNT statement of a query.
pub open spec fn count_sql(q: QueryView) -> Seq<char> {
    "SELECT COUNT(*) FROM "@ + q.table + from_tail(q) + where_text(where_clauses(q))
}

/// `v` with each single quote doubled, as SQL string literals need.
pub open spec fn sql_escaped(v: Seq<char>) -> Seq<char> {
    replace_char(v, '\'', "''"@)
}

/// `v` between single quotes.
pub open spec fn quoted(v: Seq<char>) -> Seq<char> {
    "'"@ + v + "'"@
}

/// One item of an `IN` list: trimmed, escaped and quoted.
pub open spec fn in_item(s: Seq<char>) -> Seq<char> {
    quoted(sql_escaped(trim_seq(s)))
}

/// The condition a keyword filter `field__lookup=value` becomes.
pub open spec fn lookup_condition(field: Seq<char>, lookup: Lookup, value: Seq<char>) -> Condition {
    let esc = sql_escaped(value);
    match lookup {
        Lookup::Exact => (field, "="@, quoted(esc)),
        Lookup::IExact => (field, "LIKE"@, quoted(lowercase(esc))),
        Lookup::Contains => (field, "LIKE"@, quoted("%"@ + esc + "%"@)),
        Lookup::IContains => (field, "LIKE"@, quoted("%"@ + lowercase(esc) + "%"@)),
        Lookup::In => (field, "IN"@, "("@ + join(split_char(value, ',').map_values(|s: Seq<char>| in_item(s)), ", "@) + ")"@),
        Lookup::Gt => (field, ">"@, value),
        Lookup::Gte => (field, ">="@, value),
        Lookup::Lt => (field, "<"@, value),
        Lookup::Lte => (field, "<="@, value),
        Lookup::StartsWith => (field, "LIKE"@, quoted(esc + "%"@)),
        Lookup::IStartsWith => (field, "LIKE"@, quoted(lowercase(esc) + "%"@)),
        Lookup::EndsWith => (field, "LIKE"@, quoted("%"@ + esc)),
        Lookup::IEndsWith => (field, "LIKE"@, quoted("%"@ + lowercase(esc))),
        Lookup::Range => (field, "BETWEEN"@,
            "'"@ + split_first(value, ',').0 + "' AND '"@ + split_first(value, ',').1 + "'"@),
        Lookup::IsNull => if value == "false"@ || value == "0"@ || value == "False"@ {
            (field, "IS NOT"@, "NULL"@)
        } else {
            (field, "IS"@, "NULL"@)
        },
        Lookup::Ne => (field, "!="@, quoted(esc)),
        _ => (field, "="@, quoted(esc)),
    }
}

/// The conditions that keyword filters become, in order.
pub open spec fn kwarg_conditions(filters: Seq<(String, String)>) -> Seq<Condition> {
    parsed_filters(filters).map_values(|t: (Seq<char>, Lookup, Seq<char>)| lookup_condition(t.0, t.1, t.2))
}

/// The views of stored conditions.
pub open spec fn condition_triples(v: Seq<(String, String, String)>) -> Seq<Condition> {
    v.map_values(|c: (String, String, String)| (c.0@, c.1@, c.2@))
}

/// The views of stored computed columns.
pub open spec fn pair_texts(v: Seq<(String, String)>) -> Seq<(Seq<char>, Seq<char>)> {
    v.map_values(|p: (String, String)| (p.0@, p.1@))
}

/// `INSERT INTO table (k1, k2) VALUES (v1, v2)`.
pub open spec fn insert_sql(data: Seq<(Seq<char>, Seq<char>)>, table: Seq<char>) -> Seq<char> {
    "INSERT INTO "@ + table + " ("@ + join(data.map_values(|p: (Seq<char>, Seq<char>)| p.0), ", "@)
        + ") VALUES ("@ + join(data.map_values(|p: (Seq<char>, Seq<char>)| p.1), ", "@) + ")"@
}

/// `k = v` for one assignment.
pub open spec fn assignment_text(p: (Seq<char>, Seq<char>)) -> Seq<char> {
    p.0 + " = "@ + p.1
}

/// `UPDATE table SET k1 = v1, ... WHERE pk = value`.
pub open spec fn update_sql(data: Seq<(Seq<char>, Seq<char>)>, table: Seq<char>, pk_field: Seq<char>, pk_value: Seq<char>) -> Seq<char> {
    "UPDATE "@ + table + " SET "@ + join(data.map_values(|p: (Seq<char>, Seq<char>)| assignment_text(p)), ", "@)
        + " WHERE "@ + pk_field + " = "@ + pk_value
}

/// `DELETE FROM table WHERE pk = value`.
pub open spec fn delete_sql(table: Seq<char>, pk_field: Seq<char>, pk_value: Seq<char>) -> Seq<char> {
    "DELETE FROM "@ + table + " WHERE "@ + pk_field + " = "@ + pk_value
}

/// A query builder that constructs SQL from method calls.
#[derive(Debug, Clone)]
pub struct QueryBuilder {
    table: String,
    fields: Vec<String>,
    conditions: Vec<(String, String, String)>,
    order_by: Vec<String>,
    limit: Option<usize>,
    offset: Option<usize>,
    joins: Vec<String>,
    distinct_flag: bool,
    select_fields: Vec<String>,
    deferred_fields: Vec<String>,
    for_update: bool,
    for_update_nowait: bool,
    for_update_skip_locked: bool,
    extra_selects: Vec<(String, String)>,
    extra_wheres: Vec<String>,
    extra_tables: Vec<String>,
}

impl View for QueryBuilder {
    type V = QueryView;

    closed spec fn view(&self) -> QueryView {
        QueryView {
            table: self.table@,
            fields: views(self.fields@),
            conditions: condition_triples(self.conditions@),
            order_by: views(self.order_by@),
            limit: self.limit,
            offset: self.offset,
            joins: views(self.joins@),
            distinct: self.distinct_flag,
            select_fields: views(self.select_fields@),
            deferred_fields: views(self.deferred_fields@),
            for_update: self.for_update,
            for_update_nowait: self.for_update_nowait,
            for_update_skip_locked: self.for_update_skip_locked,
            extra_selects: pair_texts(self.extra_selects@),
            extra_wheres: views(self.extra_wheres@),
            extra_tables: views(self.extra_tables@),
        }
    }
}

/// The text of a stored condition.
fn stored_condition_text(c: &(String, String, String)) -> (r: String)
    ensures
        r@ == condition_text((c.0@, c.1@, c.2@)),
{
    if str_is_empty(c.0.as_str()) && str_is_empty(c.1.as_str()) {
        c.2.clone()
    } else {
        let mut r = concat3(c.0.as_str(), " ", c.1.as_str());
        r.append(" ");
        r.append(c.2.as_str());
        r
    }
}

/// `v` with each single quote doubled.
fn escape_sql(v: &str) -> (r: String)
    ensures
        r@ == sql_escaped(v@),
{
    replace_char_str(v, '\'', "''")
}

/// `v` between single quotes.
fn quote(v: &str) -> (r: String)
    ensures
        r@ == quoted(v@),
{
    concat3("'", v, "'")
}

/// The condition a parsed keyword filter becomes.
fn condition_for(cond: &FilterCondition) -> (r: (String, String, String))
    ensures
        (r.0@, r.1@, r.2@) == lookup_condition(cond.field@, cond.lookup, cond.value@),
{
    let field = cond.field.clone();
    let val = cond.value.as_str();
    let esc = escape_sql(val);
    match cond.lookup {
        Lookup::Exact => (field, owned("="), quote(esc.as_str())),
        Lookup::IExact => {
            let low = to_lowercase(esc.as_str());
            (field, owned("LIKE"), quote(low.as_str()))
        },
        Lookup::Contains => {
            let inner = concat3("%", esc.as_str(), "%");
            (field, owned("LIKE"), quote(inner.as_str()))
        },
        Lookup::IContains => {
            let low = to_lowercase(esc.as_str());
            let inner = concat3("%", low.as_str(), "%");
            (field, owned("LIKE"), quote(inner.as_str()))
        },
        Lookup::In => {
            let pieces = split_on_char(val, ',');
            let ghost ps = views(pieces@);
            let mut items: Vec<String> = Vec::new();
            let mut i: usize = 0;
            while i < pieces.len()
                invariant
                    i <= pieces.len(),
                    ps == views(pieces@),
                    views(items@) == ps.take(i as int).map_values(|s: Seq<char>| in_item(s)),
                decreases pieces.len() - i,
            {
                let t = trim(pieces[i].as_str());
                let e = escape_sql(t.as_str());
                let q = quote(e.as_str());
                let ghost before = items@;
                items.push(q);
                assert(views(items@) =~= views(before).push(q@));
                assert(ps.take(i + 1).map_values(|s: Seq<char>| in_item(s))
                    =~= ps.take(i as int).map_values(|s: Seq<char>| in_item(s)).push(in_item(ps[i as int])));
                i = i + 1;
            }
            assert(ps.take(pieces.len() as int) =~= ps);
            let list = join_strings(&items, ", ");
            (field, owned("IN"), concat3("(", list.as_str(), ")"))
        },
        Lookup::Gt => (field, owned(">"), owned(val)),
        Lookup::Gte => (field, owned(">="), owned(val)),
        Lookup::Lt => (field, owned("<"), owned(val)),
        Lookup::Lte => (field, owned("<="), owned(val)),
        Lookup::StartsWith => {
            let inner = concat2(esc.as_str(), "%");
            (field, owned("LIKE"), quote(inner.as_str()))
        },
        Lookup::IStartsWith => {
            let low = to_lowercase(esc.as_str());
            let inner = concat2(low.as_str(), "%");
            (field, owned("LIKE"), quote(inner.as_str()))
        },
        Lookup::EndsWith => {
            let inner = concat2("%", esc.as_str());
            (field, owned("LIKE"), quote(inner.as_str()))
        },
        Lookup::IEndsWith => {
            let low = to_lowercase(esc.as_str());
            let inner = concat2("%", low.as_str());
            (field, owned("LIKE"), quote(inner.as_str()))
        },
        Lookup::Range => {
            let (low, high) = split_first_str(val, ',');
            let mut text = concat3("'", low.as_str(), "' AND '");
            text.append(high.as_str());
            text.append("'");
            (field, owned("BETWEEN"), text)
        },
        Lookup::IsNull => {
            if str_eq(val, "false") || str_eq(val, "0") || str_eq(val, "False") {
                (field, owned("IS NOT"), owned("NULL"))
            } else {
                (field, owned("IS"), owned("NULL"))
            }
        },
        Lookup::Ne => (field, owned("!="), quote(esc.as_str())),
        _ => (field, owned("="), quote(esc.as_str())),
    }
}

impl QueryBuilder {
    /// A query on `table`: all columns, no condition, no ordering, no limit.
    pub fn new(table: &str) -> (r: Self)
        ensures
            r@ == QueryView::fresh(table@),
    {
        let mut fields: Vec<String> = Vec::new();
        fields.push(owned("*"));
        let r = QueryBuilder {
            table: owned(table),
            fields,
            conditions: Vec::new(),
            order_by: Vec::new(),
            limit: None,
            offset: None,
            joins: Vec::new(),
            distinct_flag: false,
            select_fields: Vec::new(),
            deferred_fields: Vec::new(),
            for_update: false,
            for_update_nowait: false,
            for_update_skip_locked: false,
            extra_selects: Vec::new(),
            extra_wheres: Vec::new(),
            extra_tables: Vec::new(),
        };
        assert(r@.fields =~= seq!["*"@]);
        assert(r@.conditions =~= Seq::<Condition>::empty());
        assert(r@.order_by =~= Seq::<Seq<char>>::empty());
        assert(r@.joins =~= Seq::<Seq<char>>::empty());
        assert(r@.select_fields =~= Seq::<Seq<char>>::empty());
        assert(r@.deferred_fields =~= Seq::<Seq<char>>::empty());
        assert(r@.extra_selects =~= Seq::<(Seq<char>, Seq<char>)>::empty());
        assert(r@.extra_wheres =~= Seq::<Seq<char>>::empty());
        assert(r@.extra_tables =~= Seq::<Seq<char>>::empty());
        r
    }

    fn push_condition(self, c: (String, String, String)) -> (r: Self)
        ensures
            r@ == self@.with_condition((c.0@, c.1@, c.2@)),
    {
        let mut b = self;
        let ghost before = b.conditions@;
        b.conditions.push(c);
        assert(condition_triples(b.conditions@) =~= condition_triples(before).push((c.0@, c.1@, c.2@)));
        b
    }

    /// Adds the condition `field op value`.
    pub fn filter(self, field: &str, op: &str, value: &str) -> (r: Self)
        ensures
            r@ == self@.with_condition((field@, op@, value@)),
    {
        self.push_condition((owned(field), owned(op), owned(value)))
    }

    /// Adds the negated condition `field NOT op value`.
    pub fn exclude(self, field: &str, op: &str, value: &str) -> (r: Self)
        ensures
            r@ == self@.with_condition((field@, "NOT "@ + op@, value@)),
    {
        self.push_condition((owned(field), concat2("NOT ", op), owned(value)))
    }

    /// Adds the conditions of keyword filters `field__lookup = value`, in order.
    pub fn filter_kwargs(self, filters: &Vec<(String, String)>) -> (r: Self)
        ensures
            r@ == self@.with_conditions(kwarg_conditions(filters@)),
    {
        let conds = parse_filters(filters);
        let ghost target = kwarg_conditions(filters@);
        let ghost start = self@;
        assert(target == condition_views(conds@).map_values(
            |t: (Seq<char>, Lookup, Seq<char>)| lookup_condition(t.0, t.1, t.2)));
        let mut b = self;
        let mut i: usize = 0;
        while i < conds.len()
            invariant
                i <= conds.len(),
                target.len() == conds@.len(),
                forall|j: int| 0 <= j < conds@.len() ==> #[trigger] target[j]
                    == lookup_condition(conds@[j].field@, conds@[j].lookup, conds@[j].value@),
                b@ == start.with_conditions(target.take(i as int)),
            decreases conds.len() - i,
        {
            let c = condition_for(&conds[i]);
            b = b.push_condition(c);
            assert(target.take(i + 1) =~= target.take(i as int).push(target[i as int]));
            assert(start.conditions + target.take(i + 1) =~= (start.conditions + target.take(i as int)).push(target[i as int]));
            i = i + 1;
        }
        assert(target.take(conds.len() as int) =~= target);
        b
    }

    /// Adds `field` as the last ordering term.
    pub fn order_by(self, field: &str) -> (r: Self)
        ensures
            r@ == self@.with_order(field@),
    {
        let mut b = self;
        let ghost before = b.order_by@;
        b.order_by.push(owned(field));
        assert(views(b.order_by@) =~= views(before).push(field@));
        b
    }

    /// Returns at most `n` rows.
    pub fn limit(self, n: usize) -> (r: Self)
        ensures
            r@ == self@.with_limit(n),
    {
        let mut b = self;
        b.limit = Some(n);
        b
    }

    /// Skips the first `n` rows.
    pub fn offset(self, n: usize) -> (r: Self)
        ensures
            r@ == self@.with_offset(n),
    {
        let mut b = self;
        b.offset = Some(n);
        b
    }

    fn push_join(self, j: String) -> (r: Self)
        ensures
            r@ == self@.with_join(j@),
    {
        let mut b = self;
        let ghost before = b.joins@;
        b.joins.push(j);
        assert(views(b.joins@) =~= views(before).push(j@));
        b
    }

    /// Adds `JOIN table ON on`.
    pub fn join(self, table: &str, on: &str) -> (r: Self)
        ensures
            r@ == self@.with_join("JOIN "@ + table@ + " ON "@ + on@),
    {
        let mut j = concat3("JOIN ", table, " ON ");
        j.append(on);
        self.push_join(j)
    }

    /// Adds `LEFT JOIN table ON on`.
    pub fn left_join(self, table: &str, on: &str) -> (r: Self)
        ensures
            r@ == self@.with_join("LEFT JOIN "@ + table@ + " ON "@ + on@),
    {
        let mut j = concat3("LEFT JOIN ", table, " ON ");
        j.append(on);
        self.push_join(j)
    }

    /// Selects distinct rows.
    pub fn distinct(self) -> (r: Self)
        ensures
            r@ == self@.with_distinct(),
    {
        let mut b = self;
        b.distinct_flag = true;
        b
    }

    fn select_list(&self) -> (r: Vec<String>)
        ensures
            views(r@) == select_items(self@),
    {
        let mut items: Vec<String> = Vec::new();
        let ghost q = self@;
        if self.select_fields.len() > 0 {
            let mut i: usize = 0;
            while i < self.select_fields.len()
                invariant
                    i <= self.select_fields.len(),
                    q == self@,
                    views(items@) == views(self.select_fields@).take(i as int),
                decreases self.select_fields.len() - i,
            {
                let ghost before = items@;
                items.push(self.select_fields[i].clone());
                assert(views(items@) =~= views(before).push(self.select_fields@[i as int]@));
                assert(views(self.select_fields@).take(i + 1) =~= views(self.select_fields@).take(i as int).push(self.select_fields@[i as int]@));
                i = i + 1;
            }
            assert(views(self.select_fields@).take(self.select_fields.len() as int) =~= views(self.select_fields@));
        } else if self.distinct_flag {
            items.push(owned("DISTINCT *"));
            assert(views(items@) =~= seq!["DISTINCT *"@]);
        } else {
            items.push(owned("*"));
            assert(views(items@) =~= seq!["*"@]);
        }
        let ghost base = views(items@);
        let ghost extras = q.extra_selects.map_values(|p: (Seq<char>, Seq<char>)| extra_select_text(p));
        let mut k: usize = 0;
        while k < self.extra_selects.len()
            invariant
                k <= self.extra_selects.len(),
                q == self@,
                extras == q.extra_selects.map_values(|p: (Seq<char>, Seq<char>)| extra_select_text(p)),
                extras.len() == self.extra_selects@.len(),
                views(items@) == base + extras.take(k as int),
            decreases self.extra_selects.len() - k,
        {
            let (alias, expr) = (&self.extra_selects[k].0, &self.extra_selects[k].1);
            let mut t = concat3("(", expr.as_str(), ") AS ");
            t.append(alias.as_str());
            let ghost before = items@;
            assert(q.extra_selects[k as int] == (alias@, expr@));
            items.push(t);
            assert(views(items@) =~= views(before).push(t@));
            assert(extras.take(k + 1) =~= extras.take(k as int).push(extras[k as int]));
            k = k + 1;
        }
        assert(extras.take(self.extra_selects.len() as int) =~= extras);
        items
    }

    fn clause_list(&self) -> (r: Vec<String>)
        ensures
            views(r@) == where_clauses(self@),
    {
        let ghost q = self@;
        let ghost conds = q.conditions.map_values(|c: Condition| condition_text(c));
        let mut out: Vec<String> = Vec::new();
        let mut i: usize = 0;
        while i < self.conditions.len()
            invariant
                i <= self.conditions.len(),
                q == self@,
                conds == q.conditions.map_values(|c: Condition| condition_text(c)),
                conds.len() == self.conditions@.len(),
                views(out@) == conds.take(i as int),
            decreases self.conditions.len() - i,
        {
            let t = stored_condition_text(&self.conditions[i]);
            let ghost before = out@;
            out.push(t);
            assert(views(out@) =~= views(before).push(t@));
            assert(conds.take(i + 1) =~= conds.take(i as int).push(conds[i as int]));
            i = i + 1;
        }
        assert(conds.take(self.conditions.len() as int) =~= conds);
        let mut k: usize = 0;
        while k < self.extra_wheres.len()
            invariant
                k <= self.extra_wheres.len(),
                q == self@,
                views(out@) == conds + q.extra_wheres.take(k as int),
            decreases self.extra_wheres.len() - k,
        {
            let ghost before = out@;
            out.push(self.extra_wheres[k].clone());
            assert(views(out@) =~= views(before).push(q.extra_wheres[k as int]));
            assert(q.extra_wheres.take(k + 1) =~= q.extra_wheres.take(k as int).push(q.extra_wheres[k as int]));
            k = k + 1;
        }
        assert(q.extra_wheres.take(self.extra_wheres.len() as int) =~= q.extra_wheres);
        out
    }

    fn append_where(&self, sql: &mut String)
        ensures
            final(sql)@ == old(sql)@ + where_text(where_clauses(self@)),
    {
        let clauses = self.clause_list();
        if clauses.len() > 0 {
            sql.append(" WHERE ");
            let j = join_strings(&clauses, " AND ");
            sql.append(j.as_str());
        } else {
            assert(views(clauses@).len() == 0);
        }
    }

    fn append_from_tail(&self, sql: &mut String)
        ensures
            final(sql)@ == old(sql)@ + from_tail(self@),
    {
        append_prefixed(sql, self.extra_tables.as_slice(), ", ");
        append_prefixed(sql, self.joins.as_slice(), " ");
    }

    fn append_number(sql: &mut String, prefix: &str, n: Option<usize>)
        ensures
            final(sql)@ == old(sql)@ + number_text(prefix@, n),
    {
        match n {
            Some(k) => {
                sql.append(prefix);
                let t = usize_to_string(k);
                sql.append(t.as_str());
            },
            None => {
                assert(old(sql)@ + Seq::<char>::empty() =~= old(sql)@);
            },
        }
    }

    fn append_for_update(&self, sql: &mut String)
        ensures
            final(sql)@ == old(sql)@ + for_update_text(self@),
    {
        let ghost start = sql@;
        if self.for_update {
            sql.append(" FOR UPDATE");
            let ghost mid = sql@;
            if self.for_update_nowait {
                sql.append(" NOWAIT");
            } else {
                assert(mid + Seq::<char>::empty() =~= mid);
            }
            let ghost mid2 = sql@;
            if self.for_update_skip_locked {
                sql.append(" SKIP LOCKED");
            } else {
                assert(mid2 + Seq::<char>::empty() =~= mid2);
            }
        } else {
            assert(start + Seq::<char>::empty() =~= start);
        }
    }

    /// The SELECT statement: select list, table, extra tables, joins, WHERE,
    /// ORDER BY, LIMIT, OFFSET and row locking, in that order.
    pub fn build_select(&self) -> (r: String)
        ensures
            r@ == select_sql(self@),
    {
        let items = self.select_list();
        let list = join_strings(&items, ", ");
        let mut sql = concat3("SELECT ", list.as_str(), " FROM ");
        sql.append(self.table.as_str());
        self.append_from_tail(&mut sql);
        self.append_where(&mut sql);
        if self.order_by.len() > 0 {
            sql.append(" ORDER BY ");
            let o = join_strings(&self.order_by, ", ");
            sql.append(o.as_str());
        } else {
            assert(views(self.order_by@).len() == 0);
        }
        Self::append_number(&mut sql, " LIMIT ", self.limit);
        Self::append_number(&mut sql, " OFFSET ", self.offset);
        self.append_for_update(&mut sql);
        sql
    }

    /// The COUNT statement over the same tables, joins and conditions.
    pub fn build_count(&self) -> (r: String)
        ensures
            r@ == count_sql(self@),
    {
        let mut sql = concat2("SELECT COUNT(*) FROM ", self.table.as_str());
        self.append_from_tail(&mut sql);
        self.append_where(&mut sql);
        sql
    }

    /// `INSERT INTO table (columns) VALUES (values)`, in the order of `data`.
    pub fn build_insert(data: &Vec<(String, String)>, table: &str) -> (r: String)
        ensures
            r@ == insert_sql(pair_texts(data@), table@),
    {
        let ghost d = pair_texts(data@);
        let ghost ks = d.map_values(|p: (Seq<char>, Seq<char>)| p.0);
        let ghost vs = d.map_values(|p: (Seq<char>, Seq<char>)| p.1);
        let mut keys: Vec<String> = Vec::new();
        let mut vals: Vec<String> = Vec::new();
        let mut i: usize = 0;
        while i < data.len()
            invariant
                i <= data.len(),
                d == pair_texts(data@),
                ks == d.map_values(|p: (Seq<char>, Seq<char>)| p.0),
                vs == d.map_values(|p: (Seq<char>, Seq<char>)| p.1),
                views(keys@) == ks.take(i as int),
                views(vals@) == vs.take(i as int),
            decreases data.len() - i,
        {
            let ghost kb = keys@;
            let ghost vb = vals@;
            keys.push(data[i].0.clone());
            vals.push(data[i].1.clone());
            assert(views(keys@) =~= views(kb).push(ks[i as int]));
            assert(views(vals@) =~= views(vb).push(vs[i as int]));
            assert(ks.take(i + 1) =~= ks.take(i as int).push(ks[i as int]));
            assert(vs.take(i + 1) =~= vs.take(i as int).push(vs[i as int]));
            i = i + 1;
        }
        assert(ks.take(data.len() as int) =~= ks);
        assert(vs.take(data.len() as int) =~= vs);
        let kj = join_strings(&keys, ", ");
        let vj = join_strings(&vals, ", ");
        let mut sql = concat3("INSERT INTO ", table, " (");
        sql.append(kj.as_str());
        sql.append(") VALUES (");
        sql.append(vj.as_str());
        sql.append(")");
        sql
    }

    /// `UPDATE table SET k = v, ... WHERE pk_field = pk_value`, in the order of `data`.
    pub fn build_update(data: &Vec<(String, String)>, table: &str, pk_field: &str, pk_value: &str) -> (r: String)
        ensures
            r@ == update_sql(pair_texts(data@), table@, pk_field@, pk_value@),
    {
        let ghost d = pair_texts(data@);
        let ghost sets = d.map_values(|p: (Seq<char>, Seq<char>)| assignment_text(p));
        let mut parts: Vec<String> = Vec::new();
        let mut i: usize = 0;
        while i < data.len()
            invariant
                i <= data.len(),
                d == pair_texts(data@),
                sets == d.map_values(|p: (Seq<char>, Seq<char>)| assignment_text(p)),
                views(parts@) == sets.take(i as int),
            decreases data.len() - i,
        {
            let t = concat3(data[i].0.as_str(), " = ", data[i].1.as_str());
            let ghost before = parts@;
            parts.push(t);
            assert(views(parts@) =~= views(before).push(sets[i as int]));
            assert(sets.take(i + 1) =~= sets.take(i as int).push(sets[i as int]));
            i = i + 1;
        }
        assert(sets.take(data.len() as int) =~= sets);
        let sj = join_strings(&parts, ", ");
        let mut sql = concat3("UPDATE ", table, " SET ");
        sql.append(sj.as_str());
        sql.append(" WHERE ");
        sql.append(pk_field);
        sql.append(" = ");
        sql.append(pk_value);
        sql
    }

    /// `DELETE FROM table WHERE pk_field = pk_value`.
    pub fn build_delete(table: &str, pk_field: &str, pk_value: &str) -> (r: String)
        ensures
            r@ == delete_sql(table@, pk_field@, pk_value@),
    {
        let mut sql = concat3("DELETE FROM ", table, " WHERE ");
        sql.append(pk_field);
        sql.append(" = ");
        sql.append(pk_value);
        sql
    }
}

/// `x` occurs in `a + x + b`.
proof fn lemma_contains_middle(a: Seq<char>, x: Seq<char>, b: Seq<char>)
    ensures
        contains_seq(a + x + b, x),
{
    assert((a + x + b).subrange(a.len() as int, (a.len() + x.len()) as int) =~= x);
    assert(occurs_at(a + x + b, x, a.len() as int));
}

/// What occurs in `s` occurs in `a + s + b`.
proof fn lemma_contains_within(s: Seq<char>, t: Seq<char>, a: Seq<char>, b: Seq<char>)
    requires
        contains_seq(s, t),
    ensures
        contains_seq(a + s + b, t),
{
    let i = choose|i: int| occurs_at(s, t, i);
    assert((a + s + b).subrange(a.len() + i, a.len() + i + t.len()) =~= s.subrange(i, i + t.len()));
    assert(occurs_at(a + s + b, t, a.len() + i));
}

/// Each part occurs in the parts joined.
proof fn lemma_join_contains(parts: Seq<Seq<char>>, sep: Seq<char>, i: int)
    requires
        0 <= i < parts.len(),
    ensures
        contains_seq(join(parts, sep), parts[i]),
    decreases parts.len(),
{
    if parts.len() == 1 {
        lemma_contains_middle(Seq::empty(), parts[0], Seq::empty());
        assert(Seq::<char>::empty() + parts[0] + Seq::<char>::empty() =~= parts[0]);
    } else if i == parts.len() - 1 {
        lemma_contains_middle(join(parts.drop_last(), sep) + sep, parts.last(), Seq::empty());
        assert(join(parts.drop_last(), sep) + sep + parts.last() + Seq::<char>::empty()
            =~= join(parts, sep));
    } else {
        lemma_join_contains(parts.drop_last(), sep, i);
        assert(parts.drop_last()[i] == parts[i]);
        lemma_contains_within(join(parts.drop_last(), sep), parts[i], Seq::empty(), sep + parts.last());
        assert(Seq::<char>::empty() + join(parts.drop_last(), sep) + (sep + parts.last())
            =~= join(parts, sep));
    }
}

/// A fresh query selects every column of its table and nothing more:
/// `SELECT * FROM table`.
pub proof fn law_fresh_query_selects_all(table: Seq<char>)
    ensures
        select_sql(QueryView::fresh(table)) == "SELECT * FROM "@ + table,
        count_sql(QueryView::fresh(table)) == "SELECT COUNT(*) FROM "@ + table,
{
    let q = QueryView::fresh(table);
    reveal_strlit("SELECT ");
    reveal_strlit("*");
    reveal_strlit(" FROM ");
    reveal_strlit("SELECT * FROM ");
    assert(select_items(q) =~= seq!["*"@]);
    assert(join(select_items(q), ", "@) == "*"@);
    assert(where_clauses(q) =~= Seq::<Seq<char>>::empty());
    assert(from_tail(q) =~= Seq::<char>::empty());
    assert(select_sql(q) =~= "SELECT * FROM "@ + table);
    assert(count_sql(q) =~= "SELECT COUNT(*) FROM "@ + table);
}

/// Every condition added by `filter` appears, as `field op value`, in the
/// SELECT and COUNT statements of the query.
pub proof fn law_filter_condition_in_statements(q: QueryView, c: Condition)
    ensures
        contains_seq(select_sql(q.with_condition(c)), condition_text(c)),
        contains_seq(count_sql(q.with_condition(c)), condition_text(c)),
{
    let q2 = q.with_condition(c);
    let clauses = where_clauses(q2);
    let i = q.conditions.len() as int;
    assert(clauses[i] == condition_text(c));
    lemma_join_contains(clauses, " AND "@, i);
    lemma_contains_within(join(clauses, " AND "@), condition_text(c), " WHERE "@, Seq::empty());
    assert(" WHERE "@ + join(clauses, " AND "@) + Seq::<char>::empty() =~= where_text(clauses));
    let head = "SELECT "@ + join(select_items(q2), ", "@) + " FROM "@ + q2.table + from_tail(q2);
    let tail = order_text(q2.order_by) + number_text(" LIMIT "@, q2.limit)
        + number_text(" OFFSET "@, q2.offset) + for_update_text(q2);
    lemma_contains_within(where_text(clauses), condition_text(c), head, tail);
    assert(head + where_text(clauses) + tail =~= select_sql(q2));
    let chead = "SELECT COUNT(*) FROM "@ + q2.table + from_tail(q2);
    lemma_contains_within(where_text(clauses), condition_text(c), chead, Seq::empty());
    assert(chead + where_text(clauses) + Seq::<char>::empty() =~= count_sql(q2));
}

/// Ordering and paging change the SELECT statement only: the COUNT
/// statement stays the same.
pub proof fn law_count_ignores_order_and_paging(q: QueryView, o: Seq<char>, n: usize, m: usize)
    ensures
        count_sql(q.with_order(o)) == count_sql(q),
        count_sql(q.with_limit(n)) == count_sql(q),
        count_sql(q.with_offset(m)) == count_sql(q),
{
    assert(where_clauses(q.with_order(o)) =~= where_clauses(q));
    assert(where_clauses(q.with_limit(n)) =~= where_clauses(q));
    assert(where_clauses(q.with_offset(m)) =~= where_clauses(q));
}

/// The last limit set is the one that holds.
pub proof fn law_last_limit_wins(q: QueryView, a: usize, b: usize)
    ensures
        q.with_limit(a).with_limit(b) == q.with_limit(b),
        q.with_offset(a).with_offset(b) == q.with_offset(b),
{
}

proof fn lemma_with_missing_contains(d: Seq<Seq<char>>, fs: Seq<Seq<char>>)
    ensures
        forall|x: Seq<char>| fs.contains(x) ==> with_missing(d, fs).contains(x),
        forall|x: Seq<char>| d.contains(x) ==> with_missing(d, fs).contains(x),
    decreases fs.len(),
{
    if fs.len() > 0 {
        lemma_with_missing_contains(d, fs.drop_last());
        let e = with_missing(d, fs.drop_last());
        assert(with_missing(d, fs) == if e.contains(fs.last()) { e } else { e.push(fs.last()) });
        assert forall|x: Seq<char>| fs.contains(x) implies with_missing(d, fs).contains(x) by {
            let j = choose|j: int| 0 <= j < fs.len() && fs[j] == x;
            if j < fs.len() - 1 {
                assert(fs.drop_last()[j] == x);
                assert(fs.drop_last().contains(x));
            } else {
                assert(x == fs.last());
            }
            if !e.contains(fs.last()) {
                assert(e.push(fs.last())[e.len() as int] == fs.last());
            }
            if e.contains(x) && !e.contains(fs.last()) {
                let k = choose|k: int| 0 <= k < e.len() && e[k] == x;
                assert(e.push(fs.last())[k] == x);
            }
        }
        assert forall|x: Seq<char>| d.contains(x) implies with_missing(d, fs).contains(x) by {
            if !e.contains(fs.last()) {
                let k = choose|k: int| 0 <= k < e.len() && e[k] == x;
                assert(e.push(fs.last())[k] == x);
            }
        }
    }
}

proof fn lemma_with_missing_present(e: Seq<Seq<char>>, fs: Seq<Seq<char>>)
    requires
        forall|x: Seq<char>| fs.contains(x) ==> e.contains(x),
    ensures
        with_missing(e, fs) == e,
    decreases fs.len(),
{
    if fs.len() > 0 {
        assert forall|x: Seq<char>| fs.drop_last().contains(x) implies e.contains(x) by {
            let j = choose|j: int| 0 <= j < fs.drop_last().len() && fs.drop_last()[j] == x;
            assert(fs[j] == x);
        }
        lemma_with_missing_present(e, fs.drop_last());
        assert(fs[fs.len() - 1] == fs.last());
    }
}

proof fn lemma_without_absent(d: Seq<Seq<char>>, f: Seq<char>)
    requires
        !d.contains(f),
    ensures
        without(d, f) == d,
    decreases d.len(),
{
    if d.len() > 0 {
        assert(!d.drop_last().contains(f)) by {
            if d.drop_last().contains(f) {
                let j = choose|j: int| 0 <= j < d.drop_last().len() && d.drop_last()[j] == f;
                assert(d[j] == f);
            }
        }
        lemma_without_absent(d.drop_last(), f);
        assert(d[d.len() - 1] == d.last());
        assert(d.drop_last().push(d.last()) =~= d);
    }
}

/// Deferring the same fields twice defers nothing more.
pub proof fn law_defer_idempotent(d: Seq<Seq<char>>, fs: Seq<Seq<char>>)
    ensures
        with_missing(with_missing(d, fs), fs) == with_missing(d, fs),
{
    lemma_with_missing_contains(d, fs);
    lemma_with_missing_present(with_missing(d, fs), fs);
}

/// Undeferring a field that was just deferred, and was not deferred before,
/// leaves the deferred fields as they were.
pub proof fn law_undefer_undoes_defer(d: Seq<Seq<char>>, f: Seq<char>)
    requires
        !d.contains(f),
    ensures
        without(with_missing(d, seq![f]), f) == d,
{
    assert(seq![f].drop_last() =~= Seq::<Seq<char>>::empty());
    assert(seq![f].last() == f);
    assert(with_missing(d, seq![f].drop_last()) == d);
    assert(with_missing(d, seq![f]) == d.push(f));
    assert(d.push(f).drop_last() =~= d);
    assert(d.push(f).last() == f);
    lemma_without_absent(d, f);
}

/// Locking rows leaves the count statement as it was.
pub proof fn law_for_update_keeps_count(q: QueryView, nowait: bool, skip_locked: bool)
    ensures
        count_sql(QueryView { for_update: true, for_update_nowait: nowait, for_update_skip_locked: skip_locked, ..q }) == count_sql(q),
{
}

/// The view of a fetched row: column names and values, in order.
pub open spec fn row_view(row: Seq<(String, String)>) -> Seq<(Seq<char>, Seq<char>)> {
    pair_texts(row)
}

fn copy_row(row: &Vec<(String, String)>) -> (r: Vec<(String, String)>)
    ensures
        pair_texts(r@) == pair_texts(row@),
{
    let mut r: Vec<(String, String)> = Vec::new();
    let mut i: usize = 0;
    while i < row.len()
        invariant
            i <= row.len(),
            pair_texts(r@) == pair_texts(row@).take(i as int),
        decreases row.len() - i,
    {
        let p = (row[i].0.clone(), row[i].1.clone());
        let ghost before = r@;
        r.push(p);
        assert(pair_texts(r@) =~= pair_texts(before).push((p.0@, p.1@)));
        assert(pair_texts(row@).take(i + 1) =~= pair_texts(row@).take(i as int).push(pair_texts(row@)[i as int]));
        i = i + 1;
    }
    assert(pair_texts(row@).take(row.len() as int) =~= pair_texts(row@));
    r
}

/// Hands out fetched rows one at a time, in order.
#[derive(Debug, Clone)]
pub struct QuerySetIter {
    rows: Vec<Vec<(String, String)>>,
    index: usize,
}

impl QuerySetIter {
    /// The rows still to come.
    pub closed spec fn remaining(&self) -> Seq<Seq<(Seq<char>, Seq<char>)>> {
        self.rows@.subrange(self.index as int, self.rows@.len() as int).map_values(
            |row: Vec<(String, String)>| row_view(row@))
    }

    /// The rows still to come are meaningful only while the position is in range.
    pub closed spec fn wf(&self) -> bool {
        self.index <= self.rows@.len()
    }

    /// An iterator over `rows`, from the first.
    pub fn new(rows: Vec<Vec<(String, String)>>) -> (r: Self)
        ensures
            r.wf(),
            r.remaining() == rows@.map_values(|row: Vec<(String, String)>| row_view(row@)),
    {
        let r = QuerySetIter { rows, index: 0 };
        assert(r.rows@.subrange(0, r.rows@.len() as int) =~= r.rows@);
        r
    }

    /// The next row, or `None` once every row was handed out.
    pub fn next(&mut self) -> (r: Option<Vec<(String, String)>>)
        requires
            old(self).wf(),
        ensures
            final(self).wf(),
            old(self).remaining().len() == 0 ==> r is None && final(self).remaining().len() == 0,
            old(self).remaining().len() > 0 ==> r is Some
                && row_view(r->Some_0@) == old(self).remaining()[0]
                && final(self).remaining() == old(self).remaining().drop_first(),
    {
        if self.index >= self.rows.len() {
            return None;
        }
        let row = copy_row(&self.rows[self.index]);
        let ghost before = self.remaining();
        self.index = self.index + 1;
        assert(self.remaining() =~= before.drop_first());
        Some(row)
    }
}

/// `f` without its leading `-` characters.
pub open spec fn strip_dashes(f: Seq<char>) -> Seq<char>
    decreases f.len(),
{
    if f.len() > 0 && f[0] == '-' { strip_dashes(f.drop_first()) } else { f }
}

/// An ordering field turned around: `-f` for `f`, and `f` for `-f` (all
/// leading dashes dropped).
pub open spec fn reversed_order(f: Seq<char>) -> Seq<char> {
    if f.len() > 0 && f[0] == '-' { strip_dashes(f) } else { seq!['-'] + f }
}

fn reverse_field(f: &str) -> (r: String)
    ensures
        r@ == reversed_order(f@),
{
    let v = crate::text::chars_of(f);
    if v.len() > 0 && v[0] == '-' {
        let mut i: usize = 0;
        assert(v@.subrange(0, v@.len() as int) =~= v@);
        while i < v.len() && v[i] == '-'
            invariant
                i <= v@.len(),
                strip_dashes(v@) == strip_dashes(v@.subrange(i as int, v@.len() as int)),
            decreases v.len() - i,
        {
            assert(v@.subrange(i as int, v@.len() as int).drop_first() =~= v@.subrange(i + 1, v@.len() as int));
            i = i + 1;
        }
        let r = crate::text::string_from_range(&v, i, v.len());
        proof {
            let t = v@.subrange(i as int, v@.len() as int);
            if t.len() > 0 {
                assert(t[0] == v@[i as int]);
            }
        }
        r
    } else {
        let r = concat2("-", f);
        proof {
            reveal_strlit("-");
            assert(r@ =~= seq!['-'] + f@);
        }
        r
    }
}

impl QueryBuilder {
    fn reversed(self) -> (r: Self)
        ensures
            r@ == (QueryView { order_by: self@.order_by.map_values(|f: Seq<char>| reversed_order(f)), ..self@ }),
    {
        let mut b = self;
        let mut out: Vec<String> = Vec::new();
        let mut i: usize = 0;
        while i < b.order_by.len()
            invariant
                i <= b.order_by@.len(),
                views(out@) == views(b.order_by@).take(i as int).map_values(|f: Seq<char>| reversed_order(f)),
            decreases b.order_by.len() - i,
        {
            let t = reverse_field(b.order_by[i].as_str());
            let ghost before = views(out@);
            out.push(t);
            assert(views(out@) =~= before.push(t@));
            assert(views(b.order_by@).take(i + 1) =~= views(b.order_by@).take(i as int).push(b.order_by@[i as int]@));
            assert(views(out@) =~= views(b.order_by@).take(i + 1).map_values(|f: Seq<char>| reversed_order(f)));
            i = i + 1;
        }
        assert(views(b.order_by@).take(b.order_by@.len() as int) =~= views(b.order_by@));
        b.order_by = out;
        b
    }

    fn with_select_fields(self, fields: &Vec<&str>) -> (r: Self)
        ensures
            r@ == (QueryView { select_fields: fields@.map_values(|f: &str| f@), ..self@ }),
    {
        let mut b = self;
        let mut out: Vec<String> = Vec::new();
        let mut i: usize = 0;
        while i < fields.len()
            invariant
                i <= fields@.len(),
                views(out@) == fields@.take(i as int).map_values(|f: &str| f@),
            decreases fields.len() - i,
        {
            let ghost before = views(out@);
            let o = owned(fields[i]);
            out.push(o);
            assert(views(out@) =~= before.push(o@));
            assert(fields@.take(i + 1) =~= fields@.take(i as int).push(fields@[i as int]));
            assert(views(out@) =~= fields@.take(i + 1).map_values(|f: &str| f@));
            i = i + 1;
        }
        assert(fields@.take(fields@.len() as int) =~= fields@);
        b.select_fields = out;
        b
    }
}

/// `d` with each of `fs` added at the end, in order, unless it is there already.
pub open spec fn with_missing(d: Seq<Seq<char>>, fs: Seq<Seq<char>>) -> Seq<Seq<char>>
    decreases fs.len(),
{
    if fs.len() == 0 {
        d
    } else {
        let e = with_missing(d, fs.drop_last());
        if e.contains(fs.last()) { e } else { e.push(fs.last()) }
    }
}

/// `d` without any entry equal to `f`, the others in order.
pub open spec fn without(d: Seq<Seq<char>>, f: Seq<char>) -> Seq<Seq<char>>
    decreases d.len(),
{
    if d.len() == 0 {
        d
    } else {
        let e = without(d.drop_last(), f);
        if d.last() == f { e } else { e.push(d.last()) }
    }
}

/// The views of string slices.
pub open spec fn str_views(v: Seq<&str>) -> Seq<Seq<char>> {
    v.map_values(|s: &str| s@)
}

/// The views of pairs of string slices.
pub open spec fn str_pair_views(v: Seq<(&str, &str)>) -> Seq<(Seq<char>, Seq<char>)> {
    v.map_values(|p: (&str, &str)| (p.0@, p.1@))
}

/// The join condition that relates `table` to the table of relation `rel`
/// through the column `rel_id`.
pub open spec fn related_on(table: Seq<char>, rel: Seq<char>) -> Seq<char> {
    table + "."@ + rel + "_id = "@ + rel + ".id"@
}

/// The `LEFT JOIN` clause that `select_related` adds for `rel`.
pub open spec fn related_join(table: Seq<char>, rel: Seq<char>) -> Seq<char> {
    "LEFT JOIN "@ + rel + " ON "@ + related_on(table, rel)
}

/// The query over the rows of `a` and `b` combined by the set operator
/// `keyword` (`UNION`, `INTERSECT`, `EXCEPT`), as a subquery named `alias`; it
/// keeps the columns that `a` selects and nothing else of either.
pub open spec fn combined(keyword: Seq<char>, alias: Seq<char>, a: QueryView, b: QueryView) -> QueryView {
    QueryView {
        table: "("@ + select_sql(a) + " "@ + keyword + " "@ + select_sql(b) + ") AS "@ + alias,
        fields: a.fields,
        select_fields: a.select_fields,
        ..QueryView::fresh(Seq::empty())
    }
}

/// The selected columns once the aggregate text `agg` is annotated: next to
/// all columns when none (or only `*`) were chosen, else after the chosen ones.
pub open spec fn annotated_fields(fields: Seq<Seq<char>>, agg: Seq<char>) -> Seq<Seq<char>> {
    if fields.len() == 0 || fields == seq!["*"@] {
        seq!["*, "@ + agg]
    } else {
        fields.push(agg)
    }
}

fn append_strs(out: &mut Vec<String>, items: &Vec<&str>)
    ensures
        views(final(out)@) == views(old(out)@) + str_views(items@),
{
    let ghost start = views(out@);
    let mut i: usize = 0;
    while i < items.len()
        invariant
            i <= items@.len(),
            views(out@) == start + str_views(items@.take(i as int)),
        decreases items.len() - i,
    {
        let ghost before = views(out@);
        let o = owned(items[i]);
        out.push(o);
        assert(views(out@) =~= before.push(o@));
        assert(str_views(items@.take(i + 1)) =~= str_views(items@.take(i as int)).push(items@[i as int]@));
        i = i + 1;
    }
    assert(items@.take(items@.len() as int) =~= items@);
}

fn contains_string(v: &Vec<String>, s: &str) -> (r: bool)
    ensures
        r == views(v@).contains(s@),
{
    let mut i: usize = 0;
    while i < v.len()
        invariant
            i <= v@.len(),
            forall|j: int| 0 <= j < i ==> v@[j]@ != s@,
        decreases v.len() - i,
    {
        if str_eq(v[i].as_str(), s) {
            assert(views(v@)[i as int] == s@);
            return true;
        }
        i = i + 1;
    }
    proof {
        if views(v@).contains(s@) {
            let j = choose|j: int| 0 <= j < views(v@).len() && views(v@)[j] == s@;
            assert(v@[j]@ == s@);
        }
    }
    false
}

impl QueryBuilder {
    fn defer_fields(self, fields: &Vec<&str>) -> (r: Self)
        ensures
            r@ == (QueryView { deferred_fields: with_missing(self@.deferred_fields, str_views(fields@)), ..self@ }),
    {
        let mut b = self;
        let ghost d0 = b@.deferred_fields;
        let mut i: usize = 0;
        assert(str_views(fields@.take(0)) =~= Seq::<Seq<char>>::empty());
        while i < fields.len()
            invariant
                i <= fields@.len(),
                b@ == (QueryView { deferred_fields: with_missing(d0, str_views(fields@.take(i as int))), ..self@ }),
            decreases fields.len() - i,
        {
            let ghost fs = str_views(fields@.take(i + 1));
            assert(fs.drop_last() =~= str_views(fields@.take(i as int)));
            assert(fs.last() == fields@[i as int]@);
            if !contains_string(&b.deferred_fields, fields[i]) {
                let ghost before = views(b.deferred_fields@);
                let o = owned(fields[i]);
                b.deferred_fields.push(o);
                assert(views(b.deferred_fields@) =~= before.push(o@));
            }
            i = i + 1;
        }
        assert(fields@.take(fields@.len() as int) =~= fields@);
        b
    }

    fn undefer_field(self, field: &str) -> (r: Self)
        ensures
            r@ == (QueryView { deferred_fields: without(self@.deferred_fields, field@), ..self@ }),
    {
        let mut b = self;
        let ghost d0 = views(b.deferred_fields@);
        let mut kept: Vec<String> = Vec::new();
        let mut i: usize = 0;
        assert(d0.take(0) =~= Seq::<Seq<char>>::empty());
        while i < b.deferred_fields.len()
            invariant
                i <= b.deferred_fields@.len(),
                d0 == views(b.deferred_fields@),
                views(kept@) == without(d0.take(i as int), field@),
            decreases b.deferred_fields.len() - i,
        {
            assert(d0.take(i + 1).drop_last() =~= d0.take(i as int));
            if !str_eq(b.deferred_fields[i].as_str(), field) {
                let ghost before = views(kept@);
                let o = b.deferred_fields[i].clone();
                kept.push(o);
                assert(views(kept@) =~= before.push(o@));
            }
            i = i + 1;
        }
        assert(d0.take(d0.len() as int) =~= d0);
        b.deferred_fields = kept;
        b
    }
}

/// The text of a condition as the update and delete statements write it:
/// field, operator and value, spaced.
pub open spec fn plain_condition_text(c: Condition) -> Seq<char> {
    c.0 + " "@ + c.1 + " "@ + c.2
}

/// ` WHERE ...` over the conditions alone (no raw clauses).
pub open spec fn condition_where(q: QueryView) -> Seq<char> {
    where_text(q.conditions.map_values(|c: Condition| condition_text(c)))
}

/// ` WHERE ...` over the conditions alone, each written plainly.
pub open spec fn plain_where(q: QueryView) -> Seq<char> {
    where_text(q.conditions.map_values(|c: Condition| plain_condition_text(c)))
}

/// The SQLite expression that cuts `field` down to a year, month or day.
pub open spec fn date_expression(field: Seq<char>, kind: Seq<char>) -> Option<Seq<char>> {
    if kind == "year"@ {
        Some("strftime('%Y', "@ + field + ")"@)
    } else if kind == "month"@ {
        Some("strftime('%Y-%m', "@ + field + ")"@)
    } else if kind == "day"@ {
        Some("strftime('%Y-%m-%d', "@ + field + ")"@)
    } else {
        None
    }
}

/// One assignment of an update: `field = 'value'`, the value escaped.
pub open spec fn assignment_quoted(p: (Seq<char>, Seq<char>)) -> Seq<char> {
    p.0 + " = '"@ + sql_escaped(p.1) + "'"@
}


fn where_suffix(clauses: &Vec<String>) -> (r: String)
    ensures
        r@ == where_text(views(clauses@)),
{
    if clauses.len() > 0 {
        let j = join_strings(clauses, " AND ");
        concat2(" WHERE ", j.as_str())
    } else {
        String::new()
    }
}

impl QueryBuilder {
    fn condition_texts(&self, plain: bool) -> (r: Vec<String>)
        ensures
            plain ==> views(r@) == self@.conditions.map_values(|c: Condition| plain_condition_text(c)),
            !plain ==> views(r@) == self@.conditions.map_values(|c: Condition| condition_text(c)),
    {
        let ghost conds = self@.conditions;
        let ghost f = if plain { |c: Condition| plain_condition_text(c) } else { |c: Condition| condition_text(c) };
        let mut out: Vec<String> = Vec::new();
        let mut i: usize = 0;
        while i < self.conditions.len()
            invariant
                i <= self.conditions@.len(),
                conds == self@.conditions,
                conds.len() == self.conditions@.len(),
                f == (if plain { |c: Condition| plain_condition_text(c) } else { |c: Condition| condition_text(c) }),
                views(out@) == conds.take(i as int).map_values(f),
            decreases self.conditions.len() - i,
        {
            let c = &self.conditions[i];
            assert(conds[i as int] == (c.0@, c.1@, c.2@));
            let t = if plain {
                let mut t = concat3(c.0.as_str(), " ", c.1.as_str());
                t.append(" ");
                t.append(c.2.as_str());
                t
            } else {
                stored_condition_text(c)
            };
            let ghost before = views(out@);
            out.push(t);
            assert(views(out@) =~= before.push(t@));
            assert(conds.take(i + 1) =~= conds.take(i as int).push(conds[i as int]));
            assert(views(out@) =~= conds.take(i + 1).map_values(f));
            i = i + 1;
        }
        assert(conds.take(conds.len() as int) =~= conds);
        out
    }
}


/// A query under construction that may be marked empty; running it is left
/// to the caller's database.
#[derive(Debug, Clone)]
pub struct QuerySet {
    builder: QueryBuilder,
    is_none: bool,
    annotations: Vec<Aggregate>,
}

impl QuerySet {
    /// The query as built.
    pub closed spec fn query(&self) -> QueryView {
        self.builder@
    }

    /// The query set is the always-empty one.
    pub closed spec fn spec_is_none(&self) -> bool {
        self.is_none
    }

    /// The aggregates annotated so far, in order.
    pub closed spec fn annotations(&self) -> Seq<Aggregate> {
        self.annotations@
    }

    /// All rows of `table`.
    pub fn new(table: &str) -> (r: Self)
        ensures
            r.query() == QueryView::fresh(table@),
            !r.spec_is_none(),
            r.annotations().len() == 0,
    {
        QuerySet { builder: QueryBuilder::new(table), is_none: false, annotations: Vec::new() }
    }

    /// The query set that yields no rows (`none()`), on no table.
    pub fn none() -> (r: Self)
        ensures
            r.query() == QueryView::fresh(Seq::empty()),
            r.spec_is_none(),
            r.annotations().len() == 0,
    {
        proof { reveal_strlit(""); }
        assert(""@ =~= Seq::<char>::empty());
        QuerySet { builder: QueryBuilder::new(""), is_none: true, annotations: Vec::new() }
    }

    /// Whether it is the always-empty query set.
    pub fn is_none(&self) -> (r: bool)
        ensures
            r == self.spec_is_none(),
    {
        self.is_none
    }

    /// Keeps rows where `field op value` holds.
    pub fn filter(self, field: &str, op: &str, value: &str) -> (r: Self)
        ensures
            r.query() == self.query().with_condition((field@, op@, value@)),
            r.spec_is_none() == self.spec_is_none(),
            r.annotations() == self.annotations(),
    {
        QuerySet { builder: self.builder.filter(field, op, value), is_none: self.is_none, annotations: self.annotations }
    }

    /// Drops rows where `field op value` holds.
    pub fn exclude(self, field: &str, op: &str, value: &str) -> (r: Self)
        ensures
            r.query() == self.query().with_condition((field@, "NOT "@ + op@, value@)),
            r.spec_is_none() == self.spec_is_none(),
            r.annotations() == self.annotations(),
    {
        QuerySet { builder: self.builder.exclude(field, op, value), is_none: self.is_none, annotations: self.annotations }
    }

    /// Keeps rows matching each `field__lookup=value` filter.
    pub fn filter_kwargs(self, filters: &Vec<(String, String)>) -> (r: Self)
        ensures
            r.query() == self.query().with_conditions(kwarg_conditions(filters@)),
            r.spec_is_none() == self.spec_is_none(),
            r.annotations() == self.annotations(),
    {
        QuerySet { builder: self.builder.filter_kwargs(filters), is_none: self.is_none, annotations: self.annotations }
    }

    /// Orders by `field` after the orderings already given.
    pub fn order_by(self, field: &str) -> (r: Self)
        ensures
            r.query() == self.query().with_order(field@),
            r.spec_is_none() == self.spec_is_none(),
            r.annotations() == self.annotations(),
    {
        QuerySet { builder: self.builder.order_by(field), is_none: self.is_none, annotations: self.annotations }
    }

    /// Returns at most `n` rows.
    pub fn limit(self, n: usize) -> (r: Self)
        ensures
            r.query() == self.query().with_limit(n),
            r.spec_is_none() == self.spec_is_none(),
            r.annotations() == self.annotations(),
    {
        QuerySet { builder: self.builder.limit(n), is_none: self.is_none, annotations: self.annotations }
    }

    /// Skips the first `n` rows.
    pub fn offset(self, n: usize) -> (r: Self)
        ensures
            r.query() == self.query().with_offset(n),
            r.spec_is_none() == self.spec_is_none(),
            r.annotations() == self.annotations(),
    {
        QuerySet { builder: self.builder.offset(n), is_none: self.is_none, annotations: self.annotations }
    }

    /// Turns every ordering around (see [`reversed_order`]).
    pub fn reverse(self) -> (r: Self)
        ensures
            r.query() == (QueryView { order_by: self.query().order_by.map_values(|f: Seq<char>| reversed_order(f)), ..self.query() }),
            r.spec_is_none() == self.spec_is_none(),
            r.annotations() == self.annotations(),
    {
        QuerySet { builder: self.builder.reversed(), is_none: self.is_none, annotations: self.annotations }
    }

    /// The same query set: there is one database here.
    pub fn db_alias(self, alias: &str) -> (r: Self)
        ensures
            r.query() == self.query(),
            r.spec_is_none() == self.spec_is_none(),
            r.annotations() == self.annotations(),
    {
        self
    }

    /// Selects only `fields`.
    pub fn values(self, fields: &Vec<&str>) -> (r: Self)
        ensures
            r.query() == (QueryView { select_fields: fields@.map_values(|f: &str| f@), ..self.query() }),
            r.spec_is_none() == self.spec_is_none(),
            r.annotations() == self.annotations(),
    {
        QuerySet { builder: self.builder.with_select_fields(fields), is_none: self.is_none, annotations: self.annotations }
    }

    /// Defers loading `fields`: each is added to the deferred ones unless it
    /// is there already.
    pub fn defer(self, fields: &Vec<&str>) -> (r: Self)
        ensures
            r.query() == (QueryView { deferred_fields: with_missing(self.query().deferred_fields, str_views(fields@)), ..self.query() }),
            r.spec_is_none() == self.spec_is_none(),
            r.annotations() == self.annotations(),
    {
        QuerySet { builder: self.builder.defer_fields(fields), is_none: self.is_none, annotations: self.annotations }
    }

    /// Loads only `fields`.
    pub fn only(self, fields: &Vec<&str>) -> (r: Self)
        ensures
            r.query() == (QueryView { select_fields: str_views(fields@), ..self.query() }),
            r.spec_is_none() == self.spec_is_none(),
            r.annotations() == self.annotations(),
    {
        QuerySet { builder: self.builder.with_select_fields(fields), is_none: self.is_none, annotations: self.annotations }
    }

    /// No longer defers `field`.
    pub fn undefer(self, field: &str) -> (r: Self)
        ensures
            r.query() == (QueryView { deferred_fields: without(self.query().deferred_fields, field@), ..self.query() }),
            r.spec_is_none() == self.spec_is_none(),
            r.annotations() == self.annotations(),
    {
        QuerySet { builder: self.builder.undefer_field(field), is_none: self.is_none, annotations: self.annotations }
    }

    /// Joins the table of each relation through its foreign-key column
    /// `<relation>_id`, in order.
    pub fn select_related(self, relations: &Vec<&str>) -> (r: Self)
        ensures
            r.query() == (QueryView {
                joins: self.query().joins + str_views(relations@).map_values(|rel: Seq<char>| related_join(self.query().table, rel)),
                ..self.query()
            }),
            r.spec_is_none() == self.spec_is_none(),
            r.annotations() == self.annotations(),
    {
        let ghost q0 = self.builder@;
        let mut b = self.builder;
        let mut i: usize = 0;
        assert(str_views(relations@.take(0)).map_values(|rel: Seq<char>| related_join(q0.table, rel)) =~= Seq::<Seq<char>>::empty());
        assert(q0.joins + Seq::<Seq<char>>::empty() =~= q0.joins);
        while i < relations.len()
            invariant
                i <= relations@.len(),
                b@ == (QueryView {
                    joins: q0.joins + str_views(relations@.take(i as int)).map_values(|rel: Seq<char>| related_join(q0.table, rel)),
                    ..q0
                }),
            decreases relations.len() - i,
        {
            let rel = relations[i];
            let mut on = concat3(b.table.as_str(), ".", rel);
            on.append("_id = ");
            on.append(rel);
            on.append(".id");
            let ghost before = b@.joins;
            b = b.left_join(rel, on.as_str());
            assert(str_views(relations@.take(i + 1)).map_values(|x: Seq<char>| related_join(q0.table, x))
                =~= str_views(relations@.take(i as int)).map_values(|x: Seq<char>| related_join(q0.table, x)).push(related_join(q0.table, rel@)));
            assert(b@.joins =~= q0.joins + str_views(relations@.take(i + 1)).map_values(|x: Seq<char>| related_join(q0.table, x)));
            i = i + 1;
        }
        assert(relations@.take(relations@.len() as int) =~= relations@);
        QuerySet { builder: b, is_none: self.is_none, annotations: self.annotations }
    }

    /// Locks the selected rows (`FOR UPDATE`), optionally without waiting
    /// (`NOWAIT`) or skipping locked rows (`SKIP LOCKED`).
    pub fn select_for_update(self, nowait: bool, skip_locked: bool) -> (r: Self)
        ensures
            r.query() == (QueryView {
                for_update: true,
                for_update_nowait: nowait,
                for_update_skip_locked: skip_locked,
                ..self.query()
            }),
            r.spec_is_none() == self.spec_is_none(),
            r.annotations() == self.annotations(),
    {
        let mut b = self.builder;
        b.for_update = true;
        b.for_update_nowait = nowait;
        b.for_update_skip_locked = skip_locked;
        QuerySet { builder: b, is_none: self.is_none, annotations: self.annotations }
    }

    /// Adds raw SQL: computed columns `(expr) AS alias`, `WHERE` clauses,
    /// tables after the main one, and ordering terms; each list is added
    /// after what is there.
    pub fn extra(
        self,
        extra_select: Option<Vec<(&str, &str)>>,
        where_sql: Option<Vec<&str>>,
        tables: Option<Vec<&str>>,
        order_by: Option<Vec<&str>>,
    ) -> (r: Self)
        ensures
            r.query() == (QueryView {
                extra_selects: self.query().extra_selects + match extra_select {
                    Some(v) => str_pair_views(v@),
                    None => Seq::empty(),
                },
                extra_wheres: self.query().extra_wheres + match where_sql {
                    Some(v) => str_views(v@),
                    None => Seq::empty(),
                },
                extra_tables: self.query().extra_tables + match tables {
                    Some(v) => str_views(v@),
                    None => Seq::empty(),
                },
                order_by: self.query().order_by + match order_by {
                    Some(v) => str_views(v@),
                    None => Seq::empty(),
                },
                ..self.query()
            }),
            r.spec_is_none() == self.spec_is_none(),
            r.annotations() == self.annotations(),
    {
        let mut b = self.builder;
        let ghost q0 = b@;
        match &extra_select {
            Some(sel) => {
                let mut i: usize = 0;
                while i < sel.len()
                    invariant
                        i <= sel@.len(),
                        b@ == (QueryView { extra_selects: q0.extra_selects + str_pair_views(sel@.take(i as int)), ..q0 }),
                    decreases sel.len() - i,
                {
                    let ghost before = b.extra_selects@;
                    let pair = (owned(sel[i].0), owned(sel[i].1));
                    b.extra_selects.push(pair);
                    assert(pair_texts(b.extra_selects@) =~= pair_texts(before).push((sel@[i as int].0@, sel@[i as int].1@)));
                    assert(str_pair_views(sel@.take(i + 1)) =~= str_pair_views(sel@.take(i as int)).push((sel@[i as int].0@, sel@[i as int].1@)));
                    i = i + 1;
                }
                assert(sel@.take(sel@.len() as int) =~= sel@);
            },
            None => {
                assert(q0.extra_selects + Seq::<(Seq<char>, Seq<char>)>::empty() =~= q0.extra_selects);
            },
        }
        let ghost q1 = b@;
        match &where_sql {
            Some(v) => { append_strs(&mut b.extra_wheres, v); },
            None => { assert(q1.extra_wheres + Seq::<Seq<char>>::empty() =~= q1.extra_wheres); },
        }
        let ghost q2 = b@;
        match &tables {
            Some(v) => { append_strs(&mut b.extra_tables, v); },
            None => { assert(q2.extra_tables + Seq::<Seq<char>>::empty() =~= q2.extra_tables); },
        }
        let ghost q3 = b@;
        match &order_by {
            Some(v) => { append_strs(&mut b.order_by, v); },
            None => { assert(q3.order_by + Seq::<Seq<char>>::empty() =~= q3.order_by); },
        }
        QuerySet { builder: b, is_none: self.is_none, annotations: self.annotations }
    }

    /// Annotates each row with the aggregate `agg`: its SQL is selected next
    /// to all columns when none (or only `*`) were chosen, else after them.
    pub fn annotate(self, agg: &Aggregate) -> (r: Self)
        ensures
            r.query() == (QueryView { select_fields: annotated_fields(self.query().select_fields, aggregate_sql(*agg)), ..self.query() }),
            r.spec_is_none() == self.spec_is_none(),
            r.annotations() == self.annotations().push(*agg),
    {
        let sql = agg.to_sql();
        let mut annotations = self.annotations;
        annotations.push(Aggregate {
            agg_type: agg.agg_type,
            field: agg.field.clone(),
            alias: agg.alias.clone(),
            distinct: agg.distinct,
        });
        let mut b = self.builder;
        let ghost before = views(b.select_fields@);
        let all = b.select_fields.len() == 0 || (b.select_fields.len() == 1 && str_eq(b.select_fields[0].as_str(), "*"));
        proof {
            reveal_strlit("*");
            if before.len() == 1 && before[0] == "*"@ {
                assert(before =~= seq!["*"@]);
            }
        }
        if all {
            let mut v: Vec<String> = Vec::new();
            v.push(concat2("*, ", sql.as_str()));
            assert(views(v@) =~= seq!["*, "@ + aggregate_sql(*agg)]);
            b.select_fields = v;
        } else {
            b.select_fields.push(sql);
            assert(views(b.select_fields@) =~= before.push(aggregate_sql(*agg)));
        }
        QuerySet { builder: b, is_none: self.is_none, annotations }
    }

    fn combine(qs1: QuerySet, qs2: QuerySet, keyword: &str, alias: &str) -> (r: Self)
        ensures
            r.query() == combined(keyword@, alias@, qs1.query(), qs2.query()),
            !r.spec_is_none(),
            r.annotations().len() == 0,
    {
        let s1 = qs1.builder.build_select();
        let s2 = qs2.builder.build_select();
        let mut table = concat3("(", s1.as_str(), " ");
        table.append(keyword);
        table.append(" ");
        table.append(s2.as_str());
        table.append(") AS ");
        table.append(alias);
        let mut b = QueryBuilder::new(table.as_str());
        b.fields = copy_strings(&qs1.builder.fields);
        b.select_fields = copy_strings(&qs1.builder.select_fields);
        QuerySet { builder: b, is_none: false, annotations: Vec::new() }
    }

    /// The rows of either query set (`UNION`), as the subquery `union_qs`.
    pub fn union(qs1: QuerySet, qs2: QuerySet) -> (r: Self)
        ensures
            r.query() == combined("UNION"@, "union_qs"@, qs1.query(), qs2.query()),
            !r.spec_is_none(),
            r.annotations().len() == 0,
    {
        Self::combine(qs1, qs2, "UNION", "union_qs")
    }

    /// The rows of both query sets (`INTERSECT`), as the subquery `inter_qs`.
    pub fn intersection(qs1: QuerySet, qs2: QuerySet) -> (r: Self)
        ensures
            r.query() == combined("INTERSECT"@, "inter_qs"@, qs1.query(), qs2.query()),
            !r.spec_is_none(),
            r.annotations().len() == 0,
    {
        Self::combine(qs1, qs2, "INTERSECT", "inter_qs")
    }

    /// The rows of the first query set not in the second (`EXCEPT`), as the
    /// subquery `diff_qs`.
    pub fn difference(qs1: QuerySet, qs2: QuerySet) -> (r: Self)
        ensures
            r.query() == combined("EXCEPT"@, "diff_qs"@, qs1.query(), qs2.query()),
            !r.spec_is_none(),
            r.annotations().len() == 0,
    {
        Self::combine(qs1, qs2, "EXCEPT", "diff_qs")
    }

    /// The statement that lists the distinct years, months or days of
    /// `field`; any other `kind` is refused.
    pub fn dates_sql(&self, field: &str, kind: &str) -> (r: Result<String, String>)
        ensures
            match date_expression(field@, kind@) {
                Some(e) => r matches Ok(t) && t@ == "SELECT DISTINCT "@ + e + " AS date_val FROM "@ + self.query().table,
                None => r matches Err(m) && m@ == "Invalid kind '"@ + kind@ + "' for dates()"@,
            },
    {
        let pattern = if str_eq(kind, "year") {
            "%Y"
        } else if str_eq(kind, "month") {
            "%Y-%m"
        } else if str_eq(kind, "day") {
            "%Y-%m-%d"
        } else {
            let mut m = concat3("Invalid kind '", kind, "' for dates()");
            return Err(m);
        };
        let mut e = concat3("strftime('", pattern, "', ");
        e.append(field);
        e.append(")");
        proof {
            reveal_strlit("%Y");
            reveal_strlit("%Y-%m");
            reveal_strlit("%Y-%m-%d");
            reveal_strlit("strftime('");
            reveal_strlit("', ");
            reveal_strlit("strftime('%Y', ");
            reveal_strlit("strftime('%Y-%m', ");
            reveal_strlit("strftime('%Y-%m-%d', ");
            assert(e@ =~= date_expression(field@, kind@)->0);
        }
        let mut t = concat3("SELECT DISTINCT ", e.as_str(), " AS date_val FROM ");
        t.append(self.builder.table.as_str());
        Ok(t)
    }

    /// The query-plan statement for the `SELECT`.
    pub fn explain_sql(&self) -> (r: String)
        ensures
            r@ == "EXPLAIN QUERY PLAN "@ + select_sql(self.query()),
    {
        let s = self.builder.build_select();
        concat2("EXPLAIN QUERY PLAN ", s.as_str())
    }

    /// The statement computing `agg` over the rows the conditions keep (raw
    /// clauses aside).
    pub fn aggregate_statement(&self, agg: &Aggregate) -> (r: String)
        ensures
            r@ == "SELECT "@ + aggregate_sql(*agg) + " FROM "@ + self.query().table + condition_where(self.query()),
    {
        let a = agg.to_sql();
        let mut t = concat3("SELECT ", a.as_str(), " FROM ");
        t.append(self.builder.table.as_str());
        let w = where_suffix(&self.builder.condition_texts(false));
        t.append(w.as_str());
        t
    }

    /// The statement fetching the rows with the given ids.
    pub fn in_bulk_sql(&self, ids: &Vec<i64>) -> (r: String)
        ensures
            r@ == "SELECT * FROM "@ + self.query().table + " WHERE id IN ("@
                + join(ids@.map_values(|i: i64| int_str(i as int)), ", "@) + ")"@,
    {
        let mut parts: Vec<String> = Vec::new();
        let mut i: usize = 0;
        while i < ids.len()
            invariant
                i <= ids@.len(),
                views(parts@) == ids@.take(i as int).map_values(|k: i64| int_str(k as int)),
            decreases ids.len() - i,
        {
            let ghost before = views(parts@);
            let t = i64_to_string(ids[i]);
            parts.push(t);
            assert(views(parts@) =~= before.push(t@));
            assert(ids@.take(i + 1) =~= ids@.take(i as int).push(ids@[i as int]));
            assert(views(parts@) =~= ids@.take(i + 1).map_values(|k: i64| int_str(k as int)));
            i = i + 1;
        }
        assert(ids@.take(ids@.len() as int) =~= ids@);
        let j = join_strings(&parts, ", ");
        let mut t = concat3("SELECT * FROM ", self.builder.table.as_str(), " WHERE id IN (");
        t.append(j.as_str());
        t.append(")");
        t
    }

    /// The statement fetching the row with primary key `pk`.
    pub fn get_by_pk_sql(&self, pk: i64) -> (r: String)
        ensures
            r@ == "SELECT * FROM "@ + self.query().table + " WHERE id = "@ + int_str(pk as int),
    {
        let n = i64_to_string(pk);
        let mut t = concat3("SELECT * FROM ", self.builder.table.as_str(), " WHERE id = ");
        t.append(n.as_str());
        t
    }

    /// The statement setting each field of `data` to its quoted value on the
    /// rows the conditions keep.
    pub fn update_statement(&self, data: &Vec<(String, String)>) -> (r: String)
        ensures
            r@ == "UPDATE "@ + self.query().table + " SET "@
                + join(pair_texts(data@).map_values(|p: (Seq<char>, Seq<char>)| assignment_quoted(p)), ", "@)
                + plain_where(self.query()),
    {
        let ghost ps = pair_texts(data@);
        let mut sets: Vec<String> = Vec::new();
        let mut i: usize = 0;
        while i < data.len()
            invariant
                i <= data@.len(),
                ps == pair_texts(data@),
                views(sets@) == ps.take(i as int).map_values(|p: (Seq<char>, Seq<char>)| assignment_quoted(p)),
            decreases data.len() - i,
        {
            let ghost before = views(sets@);
            let mut t = concat2(data[i].0.as_str(), " = '");
            let v = escape_sql(data[i].1.as_str());
            t.append(v.as_str());
            t.append("'");
            sets.push(t);
            assert(views(sets@) =~= before.push(t@));
            assert(ps.take(i + 1) =~= ps.take(i as int).push(ps[i as int]));
            assert(views(sets@) =~= ps.take(i + 1).map_values(|p: (Seq<char>, Seq<char>)| assignment_quoted(p)));
            i = i + 1;
        }
        assert(ps.take(ps.len() as int) =~= ps);
        let j = join_strings(&sets, ", ");
        let mut t = concat3("UPDATE ", self.builder.table.as_str(), " SET ");
        t.append(j.as_str());
        let w = where_suffix(&self.builder.condition_texts(true));
        t.append(w.as_str());
        t
    }

    /// The statement deleting the rows the conditions keep.
    pub fn delete_statement(&self) -> (r: String)
        ensures
            r@ == "DELETE FROM "@ + self.query().table + plain_where(self.query()),
    {
        let mut t = concat2("DELETE FROM ", self.builder.table.as_str());
        let w = where_suffix(&self.builder.condition_texts(true));
        t.append(w.as_str());
        t
    }

    /// The `SELECT` statement.
    pub fn sql(&self) -> (r: String)
        ensures
            r@ == select_sql(self.query()),
    {
        self.builder.build_select()
    }

    /// The `SELECT COUNT(*)` statement.
    pub fn count_sql(&self) -> (r: String)
        ensures
            r@ == count_sql(self.query()),
    {
        self.builder.build_count()
    }
}

/// Law: the keyword filters `field__lt`, `field__lte`, `field__gt` and
/// `field__gte` become the conditions `field < v`, `field <= v`,
/// `field > v` and `field >= v`: `lt` and `gt` are strict, `lte` and `gte`
/// are not.
pub proof fn law_comparison_filters(key: String, value: String, field: Seq<char>)
    ensures
        key@ == field + "__lt"@ ==> kwarg_conditions(seq![(key, value)]) == seq![(field, "<"@, value@)],
        key@ == field + "__lte"@ ==> kwarg_conditions(seq![(key, value)]) == seq![(field, "<="@, value@)],
        key@ == field + "__gt"@ ==> kwarg_conditions(seq![(key, value)]) == seq![(field, ">"@, value@)],
        key@ == field + "__gte"@ ==> kwarg_conditions(seq![(key, value)]) == seq![(field, ">="@, value@)],
{
    reveal_strlit("__lt");
    reveal_strlit("__lte");
    reveal_strlit("__gt");
    reveal_strlit("__gte");
    reveal_strlit("__");
    reveal_strlit("lt");
    reveal_strlit("lte");
    reveal_strlit("gt");
    reveal_strlit("gte");
    crate::orm::lookups::lemma_comparison_names();
    let pairs = seq![(key, value)];
    assert(kwarg_conditions(pairs).len() == 1);
    assert(kwarg_conditions(pairs)[0] == lookup_condition(parsed_lookup(key@).0, parsed_lookup(key@).1, value@));
    if key@ == field + "__lt"@ {
        assert(field + "__lt"@ =~= field + "__"@ + "lt"@);
        lemma_parsed_lookup_suffix(field, "lt"@);
        assert(kwarg_conditions(pairs) =~= seq![(field, "<"@, value@)]);
    }
    if key@ == field + "__lte"@ {
        assert(field + "__lte"@ =~= field + "__"@ + "lte"@);
        lemma_parsed_lookup_suffix(field, "lte"@);
        assert(kwarg_conditions(pairs) =~= seq![(field, "<="@, value@)]);
    }
    if key@ == field + "__gt"@ {
        assert(field + "__gt"@ =~= field + "__"@ + "gt"@);
        lemma_parsed_lookup_suffix(field, "gt"@);
        assert(kwarg_conditions(pairs) =~= seq![(field, ">"@, value@)]);
    }
    if key@ == field + "__gte"@ {
        assert(field + "__gte"@ =~= field + "__"@ + "gte"@);
        lemma_parsed_lookup_suffix(field, "gte"@);
        assert(kwarg_conditions(pairs) =~= seq![(field, ">="@, value@)]);
    }
}

} // verus!
