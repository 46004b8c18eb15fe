use rust_gcp::encoder::Schema;
use rust_gcp::errors::PublishError;
use rust_gcp::publisher::{
    batch_bytes, dead_letter_identity, dead_letter_topic, encode_batch, error_record_fields,
    error_record_json, topic_of, PubSubPublisher, StatWithMetadata, StepOutcome, QUEUE_CAPACITY,
};
use rust_gcp::records::{FieldValue, TestStats};

fn stat(event: &str) -> Vec<(String, FieldValue)> {
    let record = TestStats {
        event_type: event.to_string(),
        ..TestStats::default()
    };
    record.to_fields()
}

#[test]
fn queue_capacity_is_one_thousand() {
    assert_eq!(QUEUE_CAPACITY, 1000);
}

#[test]
fn publish_reports_queue_full_at_capacity() {
    let mut publisher = PubSubPublisher::new();
    for i in 0..QUEUE_CAPACITY {
        let r = publisher.publish("d".to_string(), format!("t{}", i), stat("e"));
        assert_eq!(r, Ok(()));
    }
    let r = publisher.publish("d".to_string(), "overflow".to_string(), stat("e"));
    assert_eq!(r, Err(PublishError::QueueFull));
}

#[test]
fn topic_is_dataset_and_table() {
    let s = StatWithMetadata {
        dataset_id: "ds".to_string(),
        table_id: "tbl".to_string(),
        stat: stat("e"),
    };
    assert_eq!(topic_of(&s), "ds_tbl");
}

#[test]
fn count_triggered_flush_after_three_records() {
    let mut publisher = PubSubPublisher::new();
    for _ in 0..3 {
        publisher
            .publish("ds".to_string(), "tbl".to_string(), stat("e"))
            .unwrap();
    }
    assert!(matches!(publisher.process_next(3, 10_000), StepOutcome::Appended));
    assert!(matches!(publisher.process_next(3, 10_000), StepOutcome::Appended));
    match publisher.process_next(3, 10_000) {
        StepOutcome::Flushed(topic, batch) => {
            assert_eq!(topic, "ds_tbl");
            assert_eq!(batch.len(), 3);
        },
        other => panic!("expected a flush, got {:?}", step_name(&other)),
    }
    // the open batch is empty immediately after the flush
    let flushed = publisher.tick();
    assert!(flushed.is_empty());
}

fn step_name(s: &StepOutcome) -> &'static str {
    match s {
        StepOutcome::Idle => "idle",
        StepOutcome::Appended => "appended",
        StepOutcome::Flushed(_, _) => "flushed",
    }
}

#[test]
fn byte_triggered_flush() {
    let mut publisher = PubSubPublisher::new();
    publisher
        .publish("ds".to_string(), "tbl".to_string(), stat("e"))
        .unwrap();
    // one record's rendering is far larger than one byte
    match publisher.process_next(100, 1) {
        StepOutcome::Flushed(topic, batch) => {
            assert_eq!(topic, "ds_tbl");
            assert_eq!(batch.len(), 1);
        },
        other => panic!("expected a flush, got {:?}", step_name(&other)),
    }
}

#[test]
fn time_triggered_flush_collects_open_batches() {
    let mut publisher = PubSubPublisher::new();
    publisher
        .publish("ds".to_string(), "tbl".to_string(), stat("e"))
        .unwrap();
    assert!(matches!(publisher.process_next(100, 1_000_000), StepOutcome::Appended));
    let flushed = publisher.tick();
    assert_eq!(flushed.len(), 1);
    assert_eq!(flushed[0].0, "ds_tbl");
    assert_eq!(flushed[0].1.len(), 1);
    // the batch was swapped for an empty one: a second timer pass
    // flushes nothing
    assert!(publisher.tick().is_empty());
}

#[test]
fn grouping_is_per_destination() {
    let mut publisher = PubSubPublisher::new();
    publisher
        .publish("a".to_string(), "t".to_string(), stat("e"))
        .unwrap();
    publisher
        .publish("b".to_string(), "t".to_string(), stat("e"))
        .unwrap();
    assert!(matches!(publisher.process_next(10, 1_000_000), StepOutcome::Appended));
    assert!(matches!(publisher.process_next(10, 1_000_000), StepOutcome::Appended));
    let flushed = publisher.tick();
    assert_eq!(flushed.len(), 2);
    assert_eq!(flushed[0].0, "a_t");
    assert_eq!(flushed[1].0, "b_t");
}

#[test]
fn idle_step_on_empty_queue() {
    let mut publisher = PubSubPublisher::new();
    assert!(matches!(publisher.process_next(10, 100), StepOutcome::Idle));
}

#[test]
fn batch_bytes_sums_record_renderings() {
    let a = StatWithMetadata {
        dataset_id: "d".to_string(),
        table_id: "t".to_string(),
        stat: stat("x"),
    };
    let one = batch_bytes(&vec![a]);
    let b = StatWithMetadata {
        dataset_id: "d".to_string(),
        table_id: "t".to_string(),
        stat: stat("x"),
    };
    let c = StatWithMetadata {
        dataset_id: "d".to_string(),
        table_id: "t".to_string(),
        stat: stat("x"),
    };
    let two = batch_bytes(&vec![b, c]);
    assert_eq!(two, 2 * one);
}

#[test]
fn encode_batch_drops_failing_records() {
    let definition = r#"{"type":"record","name":"rec","fields":[
        {"name":"a","type":"string"}]}"#;
    let schema = Schema::parse(definition).unwrap();
    let good = StatWithMetadata {
        dataset_id: "d".to_string(),
        table_id: "t".to_string(),
        stat: vec![("a".to_string(), FieldValue::Text("x".to_string()))],
    };
    let bad = StatWithMetadata {
        dataset_id: "d".to_string(),
        table_id: "t".to_string(),
        stat: vec![("other".to_string(), FieldValue::Text("y".to_string()))],
    };
    let encoded = encode_batch(&vec![good, bad], &schema);
    assert_eq!(encoded.len(), 1);
    // avro string: zigzag length 1, then the byte of "x"
    assert_eq!(encoded[0], vec![0x02, b'x']);
}

#[test]
fn dead_letter_record_wire_text() {
    assert_eq!(dead_letter_topic(), "general_error");
    let bytes = error_record_json("ds", "tbl", "send failed");
    assert_eq!(
        bytes,
        b"{\"bq_table_id\":\"tbl\",\"dataset_id\":\"ds\",\"error_message\":\"send failed\"}"
            .to_vec()
    );
}

#[test]
fn dead_letter_record_escapes_the_reason() {
    let bytes = error_record_json("d", "t", "a \"quoted\"\nreason");
    assert_eq!(
        bytes,
        b"{\"bq_table_id\":\"t\",\"dataset_id\":\"d\",\"error_message\":\"a \\\"quoted\\\"\\nreason\"}"
            .to_vec()
    );
}

#[test]
fn per_destination_append_order_is_kept() {
    let mut publisher = PubSubPublisher::new();
    for event in ["first", "second", "third"] {
        publisher
            .publish("ds".to_string(), "tbl".to_string(), stat(event))
            .unwrap();
    }
    for _ in 0..3 {
        publisher.process_next(100, 1_000_000);
    }
    let flushed = publisher.tick();
    assert_eq!(flushed.len(), 1);
    let events: Vec<&FieldValue> = flushed[0].1.iter().map(|s| &s.stat[0].1).collect();
    assert_eq!(
        events,
        vec![
            &FieldValue::Text("first".to_string()),
            &FieldValue::Text("second".to_string()),
            &FieldValue::Text("third".to_string()),
        ]
    );
}

#[test]
fn interleaved_destinations_flush_independently() {
    let mut publisher = PubSubPublisher::new();
    publisher.publish("a".to_string(), "t".to_string(), stat("a1")).unwrap();
    publisher.publish("b".to_string(), "t".to_string(), stat("b1")).unwrap();
    publisher.publish("a".to_string(), "t".to_string(), stat("a2")).unwrap();
    // destination a reaches its count threshold; b stays open
    assert!(matches!(publisher.process_next(2, 1_000_000), StepOutcome::Appended));
    assert!(matches!(publisher.process_next(2, 1_000_000), StepOutcome::Appended));
    match publisher.process_next(2, 1_000_000) {
        StepOutcome::Flushed(topic, batch) => {
            assert_eq!(topic, "a_t");
            assert_eq!(batch.len(), 2);
        },
        other => panic!("expected a flush, got {:?}", step_name(&other)),
    }
    let remaining = publisher.tick();
    assert_eq!(remaining.len(), 1);
    assert_eq!(remaining[0].0, "b_t");
    assert_eq!(remaining[0].1.len(), 1);
}

#[test]
fn dead_letter_records_take_the_ordinary_publish_path() {
    let (dl_dataset, dl_table) = dead_letter_identity();
    let probe = StatWithMetadata {
        dataset_id: dl_dataset.to_string(),
        table_id: dl_table.to_string(),
        stat: stat("e"),
    };
    // the identity composes to the fixed dead-letter destination
    assert_eq!(topic_of(&probe), dead_letter_topic());

    let mut publisher = PubSubPublisher::new();
    let fields = error_record_fields("ds", "tbl", "send failed");
    publisher
        .publish(dl_dataset.to_string(), dl_table.to_string(), fields)
        .unwrap();
    match publisher.process_next(1, 1_000_000) {
        StepOutcome::Flushed(topic, batch) => {
            assert_eq!(topic, "general_error");
            assert_eq!(batch.len(), 1);
            assert_eq!(batch[0].stat[2].1, FieldValue::Text("send failed".to_string()));
        },
        other => panic!("expected a flush, got {:?}", step_name(&other)),
    }
}
