use vrl::stats::{
    AggregationKey, Aggregator, ClientGroupedStats, PartitionKey, PayloadAggregationKey,
    compute_apm_stats, group_by_payload, has_top_level, payload_keys_equal, to_string_lossy,
    TOP_LEVEL_KEY,
};
use vrl::value::Value;

fn bytes(s: &str) -> Value {
    Value::Bytes(s.to_string())
}

fn span_with_top_level(v: Value) -> Vec<(String, Value)> {
    vec![("metrics".to_string(), Value::Object(vec![(TOP_LEVEL_KEY.to_string(), v)]))]
}

fn payload_key() -> PayloadAggregationKey {
    PayloadAggregationKey {
        env: "prod".to_string(),
        hostname: "host".to_string(),
        version: "1.2".to_string(),
        container_id: "c1".to_string(),
    }
}

#[test]
fn top_level_needs_positive_float() {
    assert!(has_top_level(&span_with_top_level(Value::Float(1.0f64.to_bits()))));
    assert!(has_top_level(&span_with_top_level(Value::Float(0.0f64.to_bits()))));
    assert!(has_top_level(&span_with_top_level(Value::Float(f64::INFINITY.to_bits()))));
    assert!(!has_top_level(&span_with_top_level(Value::Float((-1.0f64).to_bits()))));
    assert!(!has_top_level(&span_with_top_level(Value::Float(f64::NAN.to_bits()))));
    assert!(!has_top_level(&span_with_top_level(Value::Integer(1))));
    assert!(!has_top_level(&vec![]));
    assert!(!has_top_level(&vec![("metrics".to_string(), Value::Integer(1))]));
}

#[test]
fn aggregation_key_from_span() {
    let span = vec![
        ("service".to_string(), bytes("web")),
        ("name".to_string(), bytes("request")),
        ("resource".to_string(), Value::Integer(-42)),
        ("other".to_string(), bytes("ignored")),
    ];
    let key = AggregationKey::NewAggregationFromSpan(&span, "origin".to_string(), payload_key());
    assert_eq!(key.bucket_key.service, "web");
    assert_eq!(key.bucket_key.name, "request");
    assert_eq!(key.bucket_key.resource, "-42");
    assert_eq!(key.bucket_key.ty, "");
    assert_eq!(key.bucket_key.status_code, 0);
    assert_eq!(key.payload_key.env, "prod");
    assert_eq!(key.payload_key.container_id, "c1");
}

#[test]
fn lossy_text_of_scalars() {
    assert_eq!(to_string_lossy(&Value::Integer(1234)), Some("1234".to_string()));
    assert_eq!(to_string_lossy(&Value::Integer(i64::MIN)), Some(i64::MIN.to_string()));
    assert_eq!(to_string_lossy(&Value::Boolean(true)), Some("true".to_string()));
    assert_eq!(to_string_lossy(&Value::Null), Some("<null>".to_string()));
    assert_eq!(to_string_lossy(&Value::Array(vec![])), None);
}

#[test]
fn apm_stats_carry_partition() {
    let key = PartitionKey {
        env: Some("staging".to_string()),
        hostname: None,
        agent_version: Some("7.0".to_string()),
    };
    let payload = compute_apm_stats(&key, &vec![Value::Null, Value::Integer(1)]);
    assert_eq!(payload.agent_env, "staging");
    assert_eq!(payload.agent_hostname, "");
    assert_eq!(payload.agent_version, "7.0");
    assert!(payload.stats.is_empty());
    assert!(!payload.client_computed);
    let aggregator = Aggregator::new();
    aggregator.handle_trace(&Value::Null);
    assert!(aggregator.get_client_stats_payload().is_empty());
}

fn grouped_stats(service: &str, hits: u64) -> ClientGroupedStats {
    ClientGroupedStats {
        service: service.to_string(),
        name: String::new(),
        resource: String::new(),
        http_status_code: 0,
        ty: String::new(),
        db_type: String::new(),
        hits,
        errors: 0,
        duration: 0,
        ok_summary: vec![],
        error_summary: vec![],
        synthetics: false,
        top_level_hits: 0,
    }
}

#[test]
fn stats_grouped_by_payload_key() {
    let mut other = payload_key();
    other.env = "dev".to_string();
    let entries = vec![
        (payload_key(), grouped_stats("a", 1)),
        (other.clone(), grouped_stats("b", 2)),
        (payload_key(), grouped_stats("c", 3)),
    ];
    let buckets = group_by_payload(100, 10, entries);
    assert_eq!(buckets.len(), 2);
    assert_eq!(buckets[0].0, payload_key());
    assert_eq!(buckets[1].0, other);
    let first: Vec<u64> = buckets[0].1.stats.iter().map(|s| s.hits).collect();
    assert_eq!(first, vec![1, 3]);
    assert_eq!(buckets[1].1.stats[0].service, "b");
    for (_, b) in &buckets {
        assert_eq!(b.start, 100);
        assert_eq!(b.duration, 10);
        assert_eq!(b.agent_time_shift, 0);
    }
    assert!(group_by_payload(0, 0, vec![]).is_empty());
    assert!(payload_keys_equal(&payload_key(), &payload_key()));
    assert!(!payload_keys_equal(&payload_key(), &other));
}
