//! Aggregation support for ORM queries (`django.db.models.aggregates`).

use vstd::prelude::*;
use crate::text::{join, concat2, concat3, owned, views, join_strings};

verus! {

/// Supported aggregation types.
#[derive(Debug, Clone, Copy, PartialEq, Eq, Structural)]
pub enum AggType {
    Count,
    Sum,
    Avg,
    Min,
    Max,
    StdDev,
    Variance,
}

impl AggType {
    /// The SQL function name of the aggregate.
    pub open spec fn sql_name(self) -> Seq<char> {
        match self {
            AggType::Count => "COUNT"@,
            AggType::Sum => "SUM"@,
            AggType::Avg => "AVG"@,
            AggType::Min => "MIN"@,
            AggType::Max => "MAX"@,
            AggType::StdDev => "STDDEV"@,
            AggType::Variance => "VARIANCE"@,
        }
    }

    /// The SQL function name in lowercase, used for default aliases.
    pub open spec fn lower_name(self) -> Seq<char> {
        match self {
            AggType::Count => "count"@,
            AggType::Sum => "sum"@,
            AggType::Avg => "avg"@,
            AggType::Min => "min"@,
            AggType::Max => "max"@,
            AggType::StdDev => "stddev"@,
            AggType::Variance => "variance"@,
        }
    }

    /// The SQL function name, as the type displays.
    pub fn to_string(&self) -> (r: String)
        ensures
            r@ == self.sql_name(),
    {
        match self {
            AggType::Count => owned("COUNT"),
            AggType::Sum => owned("SUM"),
            AggType::Avg => owned("AVG"),
            AggType::Min => owned("MIN"),
            AggType::Max => owned("MAX"),
            AggType::StdDev => owned("STDDEV"),
            AggType::Variance => owned("VARIANCE"),
        }
    }

    fn lowercase_name(&self) -> (r: &'static str)
        ensures
            r@ == self.lower_name(),
    {
        match self {
            AggType::Count => "count",
            AggType::Sum => "sum",
            AggType::Avg => "avg",
            AggType::Min => "min",
            AggType::Max => "max",
            AggType::StdDev => "stddev",
            AggType::Variance => "variance",
        }
    }
}

/// A single aggregation expression: `AggType(field)` with optional alias.
#[derive(Debug, Clone)]
pub struct Aggregate {
    pub agg_type: AggType,
    pub field: String,
    pub alias: String,
    pub distinct: bool,
}

/// The SQL text of an aggregate.
pub open spec fn aggregate_sql(a: Aggregate) -> Seq<char> {
    a.agg_type.sql_name() + "("@ + (if a.distinct { "DISTINCT "@ } else { ""@ }) + a.field@
        + ") AS "@ + a.alias@
}

/// The SQL texts of a sequence of aggregates.
pub open spec fn aggregates_sql(s: Seq<Aggregate>) -> Seq<Seq<char>> {
    s.map_values(|a: Aggregate| aggregate_sql(a))
}

impl Aggregate {
    /// Create a new aggregate, aliased `<lowercase function>_<field>`.
    pub fn new(agg_type: AggType, field: &str) -> (a: Self)
        ensures
            a.agg_type == agg_type,
            a.field@ == field@,
            a.alias@ == agg_type.lower_name() + "_"@ + field@,
            !a.distinct,
    {
        let alias = concat3(agg_type.lowercase_name(), "_", field);
        Aggregate { agg_type, field: owned(field), alias, distinct: false }
    }

    /// Create with a custom alias.
    pub fn with_alias(agg_type: AggType, field: &str, alias: &str) -> (a: Self)
        ensures
            a.agg_type == agg_type,
            a.field@ == field@,
            a.alias@ == alias@,
            !a.distinct,
    {
        Aggregate { agg_type, field: owned(field), alias: owned(alias), distinct: false }
    }

    /// Set the DISTINCT flag.
    pub fn distinct(self, value: bool) -> (a: Self)
        ensures
            a.agg_type == self.agg_type,
            a.field == self.field,
            a.alias == self.alias,
            a.distinct == value,
    {
        Aggregate { distinct: value, ..self }
    }

    /// Generate SQL for this aggregate.
    pub fn to_sql(&self) -> (r: String)
        ensures
            r@ == aggregate_sql(*self),
    {
        let name = self.agg_type.to_string();
        let d = if self.distinct { "DISTINCT " } else { "" };
        let head = concat3(name.as_str(), "(", d);
        let mid = concat3(head.as_str(), self.field.as_str(), ") AS ");
        concat2(mid.as_str(), self.alias.as_str())
    }
}

/// A collection of aggregations for a query.
#[derive(Debug, Clone)]
pub struct Aggregation {
    pub aggregates: Vec<Aggregate>,
}

impl Aggregation {
    /// Create an empty aggregation set.
    pub fn new() -> (a: Self)
        ensures
            a.aggregates@.len() == 0,
    {
        Aggregation { aggregates: Vec::new() }
    }

    /// Add an aggregate; returns the collection for chaining.
    pub fn add(&mut self, agg: Aggregate) -> (r: &mut Self)
        ensures
            r.aggregates@ == old(self).aggregates@.push(agg),
            *final(self) == *final(r),
    {
        self.aggregates.push(agg);
        self
    }

    fn single(agg: Aggregate) -> (a: Self)
        ensures
            a.aggregates@ == seq![agg],
    {
        let mut v = Vec::new();
        v.push(agg);
        Aggregation { aggregates: v }
    }

    /// A set holding `Count(field)`.
    pub fn count(field: &str) -> (a: Self)
        ensures
            a.aggregates@.len() == 1,
            a.aggregates@[0].agg_type == AggType::Count,
            a.aggregates@[0].field@ == field@,
            a.aggregates@[0].alias@ == AggType::Count.lower_name() + "_"@ + field@,
            !a.aggregates@[0].distinct,
    {
        Self::single(Aggregate::new(AggType::Count, field))
    }

    /// A set holding `Sum(field)`.
    pub fn sum(field: &str) -> (a: Self)
        ensures
            a.aggregates@.len() == 1,
            a.aggregates@[0].agg_type == AggType::Sum,
            a.aggregates@[0].field@ == field@,
            a.aggregates@[0].alias@ == AggType::Sum.lower_name() + "_"@ + field@,
            !a.aggregates@[0].distinct,
    {
        Self::single(Aggregate::new(AggType::Sum, field))
    }

    /// A set holding `Avg(field)`.
    pub fn avg(field: &str) -> (a: Self)
        ensures
            a.aggregates@.len() == 1,
            a.aggregates@[0].agg_type == AggType::Avg,
            a.aggregates@[0].field@ == field@,
            a.aggregates@[0].alias@ == AggType::Avg.lower_name() + "_"@ + field@,
            !a.aggregates@[0].distinct,
    {
        Self::single(Aggregate::new(AggType::Avg, field))
    }

    /// A set holding `Min(field)`.
    pub fn min(field: &str) -> (a: Self)
        ensures
            a.aggregates@.len() == 1,
            a.aggregates@[0].agg_type == AggType::Min,
            a.aggregates@[0].field@ == field@,
            a.aggregates@[0].alias@ == AggType::Min.lower_name() + "_"@ + field@,
            !a.aggregates@[0].distinct,
    {
        Self::single(Aggregate::new(AggType::Min, field))
    }

    /// A set holding `Max(field)`.
    pub fn max(field: &str) -> (a: Self)
        ensures
            a.aggregates@.len() == 1,
            a.aggregates@[0].agg_type == AggType::Max,
            a.aggregates@[0].field@ == field@,
            a.aggregates@[0].alias@ == AggType::Max.lower_name() + "_"@ + field@,
            !a.aggregates@[0].distinct,
    {
        Self::single(Aggregate::new(AggType::Max, field))
    }

    /// The SELECT list of the aggregates, or `None` when there are none.
    pub fn to_sql(&self) -> (r: Option<String>)
        ensures
            self.aggregates@.len() == 0 ==> r is None,
            self.aggregates@.len() > 0 ==> (r matches Some(s) && s@ == join(aggregates_sql(self.aggregates@), ", "@)),
    {
        if self.aggregates.len() == 0 {
            return None;
        }
        let mut parts: Vec<String> = Vec::new();
        let mut i: usize = 0;
        while i < self.aggregates.len()
            invariant
                i <= self.aggregates.len(),
                views(parts@) == aggregates_sql(self.aggregates@.take(i as int)),
            decreases self.aggregates.len() - i,
        {
            let ghost old_parts = parts@;
            let s = self.aggregates[i].to_sql();
            assert(s@ == aggregate_sql(self.aggregates@[i as int]));
            parts.push(s);
            assert(views(parts@) =~= views(old_parts).push(s@));
            assert(self.aggregates@.take(i + 1) =~= self.aggregates@.take(i as int).push(self.aggregates@[i as int]));
            assert(views(parts@) =~= aggregates_sql(self.aggregates@.take(i + 1)));
            i = i + 1;
        }
        assert(self.aggregates@.take(self.aggregates.len() as int) =~= self.aggregates@);
        Some(join_strings(&parts, ", "))
    }

    /// Number of aggregates.
    pub fn len(&self) -> (n: usize)
        ensures
            n == self.aggregates@.len(),
    {
        self.aggregates.len()
    }

    pub fn is_empty(&self) -> (b: bool)
        ensures
            b == (self.aggregates@.len() == 0),
    {
        self.aggregates.len() == 0
    }
}

/// `Count(field)`.
pub fn count(field: &str) -> (a: Aggregate)
    ensures
        a.agg_type == AggType::Count, a.field@ == field@, a.alias@ == AggType::Count.lower_name() + "_"@ + field@, !a.distinct,
{
    Aggregate::new(AggType::Count, field)
}

/// `Sum(field)`.
pub fn sum(field: &str) -> (a: Aggregate)
    ensures
        a.agg_type == AggType::Sum, a.field@ == field@, a.alias@ == AggType::Sum.lower_name() + "_"@ + field@, !a.distinct,
{
    Aggregate::new(AggType::Sum, field)
}

/// `Avg(field)`.
pub fn avg(field: &str) -> (a: Aggregate)
    ensures
        a.agg_type == AggType::Avg, a.field@ == field@, a.alias@ == AggType::Avg.lower_name() + "_"@ + field@, !a.distinct,
{
    Aggregate::new(AggType::Avg, field)
}

/// `Min(field)`.
pub fn min(field: &str) -> (a: Aggregate)
    ensures
        a.agg_type == AggType::Min, a.field@ == field@, a.alias@ == AggType::Min.lower_name() + "_"@ + field@, !a.distinct,
{
    Aggregate::new(AggType::Min, field)
}

/// `Max(field)`.
pub fn max(field: &str) -> (a: Aggregate)
    ensures
        a.agg_type == AggType::Max, a.field@ == field@, a.alias@ == AggType::Max.lower_name() + "_"@ + field@, !a.distinct,
{
    Aggregate::new(AggType::Max, field)
}

/// `StdDev(field)`.
pub fn stddev(field: &str) -> (a: Aggregate)
    ensures
        a.agg_type == AggType::StdDev, a.field@ == field@, a.alias@ == AggType::StdDev.lower_name() + "_"@ + field@, !a.distinct,
{
    Aggregate::new(AggType::StdDev, field)
}

/// `Variance(field)`.
pub fn variance(field: &str) -> (a: Aggregate)
    ensures
        a.agg_type == AggType::Variance, a.field@ == field@, a.alias@ == AggType::Variance.lower_name() + "_"@ + field@, !a.distinct,
{
    Aggregate::new(AggType::Variance, field)
}

} // verus!
