use rjango::orm::aggregates::{avg, count, max, min, stddev, sum, variance, AggType, Aggregate, Aggregation};

#[test]
fn test_agg_type_display() {
        assert_eq!(AggType::Count.to_string(), "COUNT");
        assert_eq!(AggType::Sum.to_string(), "SUM");
        assert_eq!(AggType::Avg.to_string(), "AVG");
        assert_eq!(AggType::Min.to_string(), "MIN");
        assert_eq!(AggType::Max.to_string(), "MAX");
        assert_eq!(AggType::StdDev.to_string(), "STDDEV");
        assert_eq!(AggType::Variance.to_string(), "VARIANCE");
    }

#[test]
fn test_aggregate_new() {
        let agg = Aggregate::new(AggType::Count, "id");
        assert_eq!(agg.agg_type, AggType::Count);
        assert_eq!(agg.field, "id");
        assert_eq!(agg.alias, "count_id");
        assert!(!agg.distinct);
    }

#[test]
fn test_aggregate_with_alias() {
        let agg = Aggregate::with_alias(AggType::Sum, "price", "total_price");
        assert_eq!(agg.alias, "total_price");
    }

#[test]
fn test_aggregate_distinct() {
        let agg = Aggregate::new(AggType::Count, "name").distinct(true);
        assert!(agg.distinct);
        let sql = agg.to_sql();
        assert!(sql.contains("DISTINCT"));
    }

#[test]
fn test_aggregate_to_sql() {
        let agg = Aggregate::new(AggType::Count, "id");
        let sql = agg.to_sql();
        assert_eq!(sql, "COUNT(id) AS count_id");
    }

#[test]
fn test_aggregate_sum_to_sql() {
        let agg = Aggregate::with_alias(AggType::Sum, "price", "total");
        let sql = agg.to_sql();
        assert_eq!(sql, "SUM(price) AS total");
    }

#[test]
fn test_aggregation_new() {
        let agg = Aggregation::new();
        assert!(agg.is_empty());
    }

#[test]
fn test_aggregation_add() {
        let mut agg = Aggregation::new();
        agg.add(Aggregate::new(AggType::Count, "id"));
        agg.add(Aggregate::new(AggType::Sum, "price"));
        assert_eq!(agg.len(), 2);
    }

#[test]
fn test_aggregation_count_helper() {
        let agg = Aggregation::count("id");
        assert_eq!(agg.len(), 1);
    }

#[test]
fn test_aggregation_sum_helper() {
        let agg = Aggregation::sum("amount");
        assert_eq!(agg.len(), 1);
    }

#[test]
fn test_aggregation_avg_helper() {
        let agg = Aggregation::avg("rating");
        assert_eq!(agg.len(), 1);
    }

#[test]
fn test_aggregation_min_helper() {
        let agg = Aggregation::min("price");
        assert_eq!(agg.len(), 1);
    }

#[test]
fn test_aggregation_max_helper() {
        let agg = Aggregation::max("price");
        assert_eq!(agg.len(), 1);
    }

#[test]
fn test_aggregation_to_sql_empty() {
        let agg = Aggregation::new();
        assert_eq!(agg.to_sql(), None);
    }

#[test]
fn test_aggregation_to_sql_multiple() {
        let mut agg = Aggregation::new();
        agg.add(Aggregate::new(AggType::Count, "id"));
        agg.add(Aggregate::with_alias(AggType::Sum, "price", "total"));
        let sql = agg.to_sql().unwrap();
        assert!(sql.contains("COUNT(id)"));
        assert!(sql.contains("SUM(price) AS total"));
    }

#[test]
fn test_shorthand_functions() {
        assert_eq!(count("id").agg_type, AggType::Count);
        assert_eq!(sum("p").agg_type, AggType::Sum);
        assert_eq!(avg("p").agg_type, AggType::Avg);
        assert_eq!(min("p").agg_type, AggType::Min);
        assert_eq!(max("p").agg_type, AggType::Max);
        assert_eq!(stddev("p").agg_type, AggType::StdDev);
        assert_eq!(variance("p").agg_type, AggType::Variance);
    }

#[test]
fn test_aggregate_clone() {
        let agg = Aggregate::new(AggType::Count, "id");
        let cloned = agg.clone();
        assert_eq!(agg.agg_type, cloned.agg_type);
        assert_eq!(agg.alias, cloned.alias);
    }
