use rust_gcp::encoder::{avro_name_ok, AvroParser, Schema};
use rust_gcp::errors::{EncodeError, SchemaError};
use rust_gcp::local_cache::{CacheValue, InstanceCache, ValueKind};
use rust_gcp::records::FieldValue;
use rust_gcp::schema_source::{
    schema_cache_key, schema_from_local, schema_from_origin, schema_from_shared,
};

const DEFINITION: &str = r#"{"type":"record","name":"rec","fields":[
    {"name":"a","type":"string"},
    {"name":"b","type":["null","string"]},
    {"name":"n","type":"long"}]}"#;

#[test]
fn parse_reads_fields_and_nullability() {
    let schema = Schema::parse(DEFINITION).unwrap();
    let fields = &schema.record.fields;
    assert_eq!(fields.len(), 3);
    assert_eq!(fields[0].name, "a");
    assert!(!fields[0].nullable);
    assert_eq!(fields[1].name, "b");
    assert!(fields[1].nullable);
    assert_eq!(fields[2].name, "n");
    assert!(!fields[2].nullable);
}

#[test]
fn parse_rejects_non_record_definitions() {
    assert!(matches!(Schema::parse("\"string\""), Err(SchemaError::Parse(_))));
    assert!(matches!(Schema::parse("not a schema"), Err(SchemaError::Parse(_))));
}

#[test]
fn missing_nullable_field_encodes_as_null() {
    let schema = Schema::parse(DEFINITION).unwrap();
    let parser = AvroParser;
    let record = vec![
        ("a".to_string(), FieldValue::Text("x".to_string())),
        ("n".to_string(), FieldValue::Long(3)),
    ];
    let reconciled = parser.validate(&record, &schema.record).unwrap();
    assert_eq!(reconciled.len(), 3);
    assert_eq!(reconciled[1], ("b".to_string(), FieldValue::Null));
    let encoded = parser.parse_and_encode(&record, &schema).unwrap();
    // string "x"; union branch 0 (null); long 3 in zigzag
    assert_eq!(encoded, vec![0x02, b'x', 0x00, 0x06]);
}

#[test]
fn missing_required_field_fails_validation() {
    let schema = Schema::parse(DEFINITION).unwrap();
    let parser = AvroParser;
    let record = vec![("b".to_string(), FieldValue::Text("y".to_string()))];
    match parser.parse_and_encode(&record, &schema) {
        Err(EncodeError::Validation { missing_field }) => assert_eq!(missing_field, "a"),
        other => panic!("expected a validation failure, got {:?}", other),
    }
}

#[test]
fn undeclared_fields_are_dropped() {
    let schema = Schema::parse(DEFINITION).unwrap();
    let parser = AvroParser;
    let record = vec![
        ("extra".to_string(), FieldValue::Boolean(true)),
        ("a".to_string(), FieldValue::Text("x".to_string())),
        ("n".to_string(), FieldValue::Long(0)),
    ];
    let reconciled = parser.validate(&record, &schema.record).unwrap();
    assert_eq!(
        reconciled,
        vec![
            ("a".to_string(), FieldValue::Text("x".to_string())),
            ("b".to_string(), FieldValue::Null),
            ("n".to_string(), FieldValue::Long(0)),
        ]
    );
}

#[test]
fn schema_fields_are_reordered_to_schema_order() {
    let schema = Schema::parse(DEFINITION).unwrap();
    let parser = AvroParser;
    let record = vec![
        ("n".to_string(), FieldValue::Long(1)),
        ("a".to_string(), FieldValue::Text("z".to_string())),
    ];
    let reconciled = parser.validate(&record, &schema.record).unwrap();
    assert_eq!(reconciled[0].0, "a");
    assert_eq!(reconciled[1].0, "b");
    assert_eq!(reconciled[2].0, "n");
}

#[test]
fn first_lookup_populates_both_tiers_second_costs_nothing() {
    let mut cache = InstanceCache::new();
    let mut origin_fetches = 0;

    // first lookup: local miss, shared miss, origin fetch
    assert!(schema_from_local(&mut cache, "dest", 100).is_none());
    assert!(schema_from_shared(&mut cache, "dest", 100, None).is_none());
    origin_fetches += 1;
    let (got, write) = schema_from_origin(&mut cache, "dest", 100, Ok(DEFINITION.to_string()));
    let schema = got.unwrap();
    assert_eq!(schema.definition, DEFINITION);
    let write = write.unwrap();
    assert_eq!(write.key, "dest_schema");
    assert_eq!(write.value, DEFINITION);
    assert_eq!(write.ttl_secs, 86400);

    // second lookup within the ttl: the local tier answers alone
    let again = schema_from_local(&mut cache, "dest", 50_000).unwrap();
    assert_eq!(again.definition, DEFINITION);
    assert_eq!(origin_fetches, 1);
}

#[test]
fn corrupted_local_entry_falls_through() {
    let mut cache = InstanceCache::new();
    let key = schema_cache_key("dest");
    assert_eq!(key, "dest_schema");
    cache.set(&key, CacheValue::Text("{ corrupted".to_string()), 86400, 100);
    // the bad entry does not answer and does not block the next tier
    assert!(schema_from_local(&mut cache, "dest", 101).is_none());
    let got = schema_from_shared(&mut cache, "dest", 101, Some(DEFINITION.to_string()));
    assert!(got.is_some());
}

#[test]
fn shared_tier_schema_populates_local() {
    let mut cache = InstanceCache::new();
    let got = schema_from_shared(&mut cache, "dest", 100, Some(DEFINITION.to_string()));
    assert!(got.is_some());
    let key = schema_cache_key("dest");
    assert_eq!(
        cache.get(&key, ValueKind::Text, 101),
        Some(CacheValue::Text(DEFINITION.to_string()))
    );
}

#[test]
fn origin_failure_is_a_fetch_error() {
    let mut cache = InstanceCache::new();
    let (got, write) = schema_from_origin(&mut cache, "dest", 100, Err("down".to_string()));
    assert_eq!(got, Err(SchemaError::Fetch("down".to_string())));
    assert!(write.is_none());
}

#[test]
fn unparseable_origin_definition_is_a_parse_error_but_still_cached() {
    let mut cache = InstanceCache::new();
    let (got, write) = schema_from_origin(&mut cache, "dest", 100, Ok("broken".to_string()));
    assert!(matches!(got, Err(SchemaError::Parse(_))));
    assert!(write.is_some());
    let key = schema_cache_key("dest");
    assert_eq!(
        cache.get(&key, ValueKind::Text, 101),
        Some(CacheValue::Text("broken".to_string()))
    );
}

#[test]
fn mismatched_value_type_is_an_encode_error() {
    let schema = Schema::parse(DEFINITION).unwrap();
    let parser = AvroParser;
    // every schema field is present, but "n" carries text where the
    // schema declares a long
    let record = vec![
        ("a".to_string(), FieldValue::Text("x".to_string())),
        ("n".to_string(), FieldValue::Text("not a number".to_string())),
    ];
    assert!(matches!(
        parser.parse_and_encode(&record, &schema),
        Err(EncodeError::Encode(_))
    ));
}

#[test]
fn present_nullable_field_carries_its_union_branch() {
    let schema = Schema::parse(DEFINITION).unwrap();
    let parser = AvroParser;
    let record = vec![
        ("a".to_string(), FieldValue::Text("x".to_string())),
        ("b".to_string(), FieldValue::Text("y".to_string())),
        ("n".to_string(), FieldValue::Long(3)),
    ];
    let encoded = parser.parse_and_encode(&record, &schema).unwrap();
    // string "x"; union branch 1, then string "y"; long 3 in zigzag
    assert_eq!(encoded, vec![0x02, b'x', 0x02, 0x02, b'y', 0x06]);
}

#[test]
fn nullable_integer_field_carries_its_union_branch() {
    let definition = r#"{"type":"record","name":"rec","fields":[
        {"name":"c","type":["null","int"]}]}"#;
    let schema = Schema::parse(definition).unwrap();
    let parser = AvroParser;
    let with_value = vec![("c".to_string(), FieldValue::Int(5))];
    // union branch 1, then int 5 in zigzag
    assert_eq!(
        parser.parse_and_encode(&with_value, &schema).unwrap(),
        vec![0x02, 0x0A]
    );
    let without: Vec<(String, FieldValue)> = Vec::new();
    // union branch 0 (null), which carries nothing
    assert_eq!(parser.parse_and_encode(&without, &schema).unwrap(), vec![0x00]);
}

#[test]
fn test_stats_record_encodes_against_its_schema() {
    let definition = r#"{"type":"record","name":"stats","fields":[
        {"name":"event_type","type":"string"},
        {"name":"created_at","type":"string"},
        {"name":"app_pkg","type":["null","string"]},
        {"name":"count","type":["null","int"]}]}"#;
    let schema = Schema::parse(definition).unwrap();
    let parser = AvroParser;
    let stats = rust_gcp::records::TestStats {
        event_type: "e".to_string(),
        created_at: "c".to_string(),
        count: Some(2),
        ..rust_gcp::records::TestStats::default()
    };
    let encoded = parser.parse_and_encode(&stats.to_fields(), &schema).unwrap();
    // "e"; "c"; null branch for app_pkg; int branch then 2 in zigzag
    assert_eq!(encoded, vec![0x02, b'e', 0x02, b'c', 0x00, 0x02, 0x04]);
}

#[test]
fn names_outside_the_grammar_are_parse_errors() {
    // the Avro library aborts on these instead of reporting an error;
    // the guard must turn each into a plain parse failure
    let bad_record_name = r#"{"type":"record","name":"bad-name","fields":[]}"#;
    assert!(matches!(Schema::parse(bad_record_name), Err(SchemaError::Parse(_))));
    let bad_type_reference = r#"{"type":"record","name":"r","fields":[
        {"name":"f","type":"no-such-name!"}]}"#;
    assert!(matches!(Schema::parse(bad_type_reference), Err(SchemaError::Parse(_))));
    let bad_alias = r#"{"type":"record","name":"r","aliases":["bad alias"],"fields":[]}"#;
    assert!(matches!(Schema::parse(bad_alias), Err(SchemaError::Parse(_))));
    let bad_inner_name = r#"{"type":"record","name":"r","fields":[
        {"name":"f","type":{"type":"record","name":"in-ner","fields":[]}}]}"#;
    assert!(matches!(Schema::parse(bad_inner_name), Err(SchemaError::Parse(_))));
}

#[test]
fn name_grammar_checker() {
    assert!(avro_name_ok("rec"));
    assert!(avro_name_ok("_x9"));
    assert!(avro_name_ok("com.example.Rec"));
    assert!(!avro_name_ok(""));
    assert!(!avro_name_ok("bad-name"));
    assert!(!avro_name_ok("9x"));
    assert!(!avro_name_ok("a..b"));
    assert!(!avro_name_ok("a."));
    assert!(!avro_name_ok(".c"));
    assert!(!avro_name_ok("a b"));
}

#[test]
fn oversized_integer_sizes_are_parse_errors() {
    // the Avro library aborts while rendering such a schema into an
    // error message instead of reporting one; the guard turns the text
    // away up front
    let big_fixed = r#"{"type":"record","name":"r","fields":[
        {"name":"f","type":{"type":"fixed","name":"x","size":9223372036854775808},"default":true}]}"#;
    assert!(matches!(Schema::parse(big_fixed), Err(SchemaError::Parse(_))));
    let big_precision = r#"{"type":"record","name":"r","fields":[
        {"name":"f","type":{"type":"fixed","name":"x","size":4,
         "logicalType":"decimal","precision":9223372036854775808,"scale":2}}]}"#;
    assert!(matches!(Schema::parse(big_precision), Err(SchemaError::Parse(_))));
    // an ordinary size parses fine
    let small = r#"{"type":"record","name":"r","fields":[
        {"name":"f","type":{"type":"fixed","name":"x","size":4}}]}"#;
    assert!(Schema::parse(small).is_ok());
}
