//! Behavior of the statistics aggregator across row groups.

use pq::stats::ColumnSummary;
use pq::stats::PhysicalType;
use pq::stats::StatValue;
use pq::stats::StatsRecord;
use pq::stats::aggregate;
use pq::stats::filter_by_name;
use pq::stats::stat_lt_exec;

fn record(null_count: Option<u64>, min: Option<StatValue>, max: Option<StatValue>) -> StatsRecord {
    StatsRecord {
        null_count,
        min,
        max,
    }
}

#[test]
fn two_group_aggregation_scenario() {
    // Column `amount`: group A {null: 1, min: 10, max: 50},
    // group B {null: 0, min: 5, max: 100}.
    let columns = vec![("amount".to_string(), PhysicalType::Int64)];
    let groups = vec![
        vec![Some(record(
            Some(1),
            Some(StatValue::Int(10)),
            Some(StatValue::Int(50)),
        ))],
        vec![Some(record(
            Some(0),
            Some(StatValue::Int(5)),
            Some(StatValue::Int(100)),
        ))],
    ];
    let out = aggregate(&columns, &groups);
    assert_eq!(out.len(), 1);
    assert_eq!(out[0].name, "amount");
    assert_eq!(out[0].physical_type, PhysicalType::Int64);
    assert_eq!(out[0].null_count, 1);
    assert_eq!(out[0].min, Some(StatValue::Int(5)));
    assert_eq!(out[0].max, Some(StatValue::Int(100)));
}

#[test]
fn unknown_null_count_contributes_nothing() {
    let columns = vec![("c".to_string(), PhysicalType::Int32)];
    let groups = vec![
        vec![Some(record(None, Some(StatValue::Int(3)), None))],
        vec![Some(record(Some(4), None, Some(StatValue::Int(9))))],
    ];
    let out = aggregate(&columns, &groups);
    assert_eq!(out[0].null_count, 4);
    // Absence never resets a bound already found.
    assert_eq!(out[0].min, Some(StatValue::Int(3)));
    assert_eq!(out[0].max, Some(StatValue::Int(9)));
}

#[test]
fn missing_records_are_no_contribution() {
    let columns = vec![("c".to_string(), PhysicalType::Int64)];
    let groups = vec![vec![None], vec![Some(record(Some(2), None, None))], vec![None]];
    let out = aggregate(&columns, &groups);
    assert_eq!(out[0].null_count, 2);
    assert_eq!(out[0].min, None);
    assert_eq!(out[0].max, None);
}

#[test]
fn byte_array_bounds_fold_in_byte_order() {
    let columns = vec![("name".to_string(), PhysicalType::ByteArray)];
    let groups = vec![
        vec![Some(record(
            Some(0),
            Some(StatValue::Bytes(b"banana".to_vec())),
            Some(StatValue::Bytes(b"cherry".to_vec())),
        ))],
        vec![Some(record(
            Some(0),
            Some(StatValue::Bytes(b"apple".to_vec())),
            Some(StatValue::Bytes(b"apricot".to_vec())),
        ))],
    ];
    let out = aggregate(&columns, &groups);
    assert_eq!(out[0].min, Some(StatValue::Bytes(b"apple".to_vec())));
    assert_eq!(out[0].max, Some(StatValue::Bytes(b"cherry".to_vec())));
}

#[test]
fn byte_order_treats_prefix_as_smaller() {
    assert!(stat_lt_exec(
        &StatValue::Bytes(b"app".to_vec()),
        &StatValue::Bytes(b"apple".to_vec())
    ));
    assert!(!stat_lt_exec(
        &StatValue::Bytes(b"apple".to_vec()),
        &StatValue::Bytes(b"apple".to_vec())
    ));
    assert!(stat_lt_exec(&StatValue::Bool(false), &StatValue::Bool(true)));
}

#[test]
fn legacy_opaque_bounds_take_the_last_seen_value() {
    let columns = vec![("ts".to_string(), PhysicalType::Int96)];
    let groups = vec![
        vec![Some(record(
            Some(0),
            Some(StatValue::Opaque("Int96 { value: [1, 0, 0] }".to_string())),
            None,
        ))],
        vec![Some(record(
            Some(0),
            Some(StatValue::Opaque("Int96 { value: [9, 9, 9] }".to_string())),
            None,
        ))],
    ];
    let out = aggregate(&columns, &groups);
    assert_eq!(
        out[0].min,
        Some(StatValue::Opaque("Int96 { value: [9, 9, 9] }".to_string()))
    );
}

#[test]
fn float_bounds_fold_by_their_order_key() {
    let columns = vec![("x".to_string(), PhysicalType::Double)];
    let groups = vec![
        vec![Some(record(
            Some(0),
            Some(StatValue::Float(200, "2.5".to_string())),
            Some(StatValue::Float(200, "2.5".to_string())),
        ))],
        vec![Some(record(
            Some(0),
            Some(StatValue::Float(100, "1.5".to_string())),
            Some(StatValue::Float(300, "3.5".to_string())),
        ))],
    ];
    let out = aggregate(&columns, &groups);
    assert_eq!(out[0].min, Some(StatValue::Float(100, "1.5".to_string())));
    assert_eq!(out[0].max, Some(StatValue::Float(300, "3.5".to_string())));
}

#[test]
fn saturating_null_counts_never_wrap() {
    let columns = vec![("c".to_string(), PhysicalType::Int64)];
    let groups = vec![
        vec![Some(record(Some(u64::MAX), None, None))],
        vec![Some(record(Some(5), None, None))],
    ];
    let out = aggregate(&columns, &groups);
    assert_eq!(out[0].null_count, u64::MAX);
}

#[test]
fn column_filter_applies_after_aggregation() {
    let columns = vec![
        ("id".to_string(), PhysicalType::Int64),
        ("name".to_string(), PhysicalType::ByteArray),
    ];
    let groups = vec![vec![
        Some(record(Some(0), Some(StatValue::Int(1)), Some(StatValue::Int(2)))),
        Some(record(Some(3), None, None)),
    ]];
    let out = aggregate(&columns, &groups);
    assert_eq!(out.len(), 2);
    let only_name = filter_by_name(&out, "name");
    assert_eq!(only_name.len(), 1);
    assert_eq!(only_name[0].name, "name");
    assert_eq!(only_name[0].null_count, 3);
    let none = filter_by_name(&out, "missing");
    assert_eq!(none.len(), 0);
}

#[test]
fn physical_type_names_match_the_collaborator() {
    assert_eq!(PhysicalType::Boolean.display_name(), "BOOLEAN");
    assert_eq!(PhysicalType::Int32.display_name(), "INT32");
    assert_eq!(PhysicalType::Int64.display_name(), "INT64");
    assert_eq!(PhysicalType::Int96.display_name(), "INT96");
    assert_eq!(PhysicalType::Float.display_name(), "FLOAT");
    assert_eq!(PhysicalType::Double.display_name(), "DOUBLE");
    assert_eq!(PhysicalType::ByteArray.display_name(), "BYTE_ARRAY");
    assert_eq!(
        PhysicalType::FixedLenByteArray.display_name(),
        "FIXED_LEN_BYTE_ARRAY"
    );
}

#[test]
fn fresh_summary_is_empty() {
    let s = ColumnSummary::new("c".to_string(), PhysicalType::Boolean);
    assert_eq!(s.null_count, 0);
    assert_eq!(s.min, None);
    assert_eq!(s.max, None);
}
