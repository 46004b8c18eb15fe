use rust_gcp::config::AppConfig;
use rust_gcp::datastore::infer_kind;
use rust_gcp::logging::{CustomMakeSpan, LogLevel};
use rust_gcp::numeric::dec_string;
use rust_gcp::records::{record_data_len, record_json, FieldValue, TestStats};

#[test]
fn decimal_rendering() {
    assert_eq!(dec_string(0), "0");
    assert_eq!(dec_string(7), "7");
    assert_eq!(dec_string(1234567890), "1234567890");
    assert_eq!(dec_string(u64::MAX), "18446744073709551615");
}

#[test]
fn record_json_renders_all_value_kinds() {
    let fields = vec![
        ("s".to_string(), FieldValue::Text("hi".to_string())),
        ("i".to_string(), FieldValue::Int(-12)),
        ("l".to_string(), FieldValue::Long(i64::MIN)),
        ("b".to_string(), FieldValue::Boolean(true)),
        ("z".to_string(), FieldValue::Null),
    ];
    let bytes = record_json(&fields);
    assert_eq!(
        String::from_utf8(bytes).unwrap(),
        "{\"s\":\"hi\",\"i\":-12,\"l\":-9223372036854775808,\"b\":true,\"z\":null}"
    );
}

#[test]
fn record_json_escapes_strings() {
    let fields = vec![(
        "s".to_string(),
        FieldValue::Text("a\"b\\c\nd\te\u{1}".to_string()),
    )];
    let bytes = record_json(&fields);
    assert_eq!(
        String::from_utf8(bytes).unwrap(),
        "{\"s\":\"a\\\"b\\\\c\\nd\\te\\u0001\"}"
    );
}

#[test]
fn record_json_keeps_non_ascii_text() {
    let fields = vec![("s".to_string(), FieldValue::Text("héllo".to_string()))];
    let bytes = record_json(&fields);
    assert_eq!(String::from_utf8(bytes).unwrap(), "{\"s\":\"héllo\"}");
}

#[test]
fn data_len_is_the_rendering_length() {
    let fields = vec![("a".to_string(), FieldValue::Int(5))];
    assert_eq!(record_data_len(&fields), "{\"a\":5}".len());
}

#[test]
fn test_stats_fields_in_declaration_order() {
    let stats = TestStats {
        event_type: "install".to_string(),
        created_at: "2024-01-01".to_string(),
        count: Some(2),
        ..TestStats::default()
    };
    let fields = stats.to_fields();
    assert_eq!(fields.len(), 18);
    assert_eq!(fields[0], ("event_type".to_string(), FieldValue::Text("install".to_string())));
    assert_eq!(fields[1], ("created_at".to_string(), FieldValue::Text("2024-01-01".to_string())));
    assert_eq!(fields[2], ("app_pkg".to_string(), FieldValue::Null));
    assert_eq!(fields[16], ("count".to_string(), FieldValue::Int(2)));
    assert_eq!(fields[17], ("ad_refresh_rate".to_string(), FieldValue::Null));
}

#[test]
fn test_stats_data_len_counts_rendered_bytes() {
    let stats = TestStats {
        event_type: "e".to_string(),
        ..TestStats::default()
    };
    let fields = stats.to_fields();
    assert_eq!(stats.data_len(), record_json(&fields).len());
}

#[test]
fn infer_kind_takes_the_last_path_segment() {
    assert_eq!(infer_kind("crate_name::models::TestData"), "TestData");
    assert_eq!(infer_kind("TestData"), "TestData");
    assert_eq!(infer_kind("alloc::vec::Vec<u8>"), "Vec<u8>");
    assert_eq!(infer_kind(""), "");
}

#[test]
fn make_span_builders() {
    let spanner = CustomMakeSpan::new();
    assert_eq!(spanner.level, LogLevel::Debug);
    assert!(!spanner.include_headers);
    let spanner = spanner.level(LogLevel::Info).include_headers(true);
    assert_eq!(spanner.level, LogLevel::Info);
    assert!(spanner.include_headers);
    assert_eq!(CustomMakeSpan::default(), CustomMakeSpan::new());
}

#[test]
fn live_environment_is_prod_exactly() {
    let mut config = AppConfig::default();
    assert_eq!(config.env, "dev");
    assert!(!config.is_live_env());
    config.env = "prod".to_string();
    assert!(config.is_live_env());
    config.env = "production".to_string();
    assert!(!config.is_live_env());
}

#[test]
fn default_config_thresholds() {
    let config = AppConfig::default();
    assert_eq!(config.pubsub.max_messages, 10);
    assert_eq!(config.pubsub.max_bytes, 1024);
    assert_eq!(config.pubsub.max_latency, 5);
    assert_eq!(config.port, 3000);
    assert_eq!(config.redisport, 6379);
}
