use iot_sim::config::{DatasetConfig, KafkaConfig, KafkaSecurityConfig};
use iot_sim::export::{
    dataset_object_key, dataset_start_label, filename_component, kafka_settings, metadata_object_key,
    metrics_route, sequence_column, DatasetRun, MetadataExporter, RowGroupBuffer, ROW_GROUP_SIZE,
};

#[test]
fn dataset_run_uses_entity_id_object_key() {
    assert_eq!(
        dataset_object_key("data_center_rack_01", "2026-08-01T00:00:00Z"),
        "dataset/data_center_rack_01-2026-08-01T00:00:00Z.parquet"
    );
}

#[test]
fn object_key_sanitizes_unsafe_entity_characters() {
    assert_eq!(filename_component("rack 01/β"), "rack_01__");
    assert_eq!(filename_component("A-z.0_9"), "A-z.0_9");
    assert_eq!(
        dataset_object_key("plant/line 3", "2026-08-01T00:00:00Z"),
        "dataset/plant_line_3-2026-08-01T00:00:00Z.parquet"
    );
}

#[test]
fn metadata_key_names_the_run_start() {
    assert_eq!(
        metadata_object_key("2026-08-01T00:00:00Z"),
        "metadata/anomalies-2026-08-01T00:00:00Z.json"
    );
}

#[test]
fn dataset_start_label_is_rfc3339_seconds_in_utc() {
    assert_eq!(dataset_start_label(1_785_542_400_000).unwrap(), "2026-08-01T00:00:00Z");
    assert_eq!(dataset_start_label(1_785_542_400_999).unwrap(), "2026-08-01T00:00:00Z");
    assert_eq!(dataset_start_label(0).unwrap(), "1970-01-01T00:00:00Z");
    assert_eq!(
        dataset_start_label(i64::MAX).unwrap_err(),
        "dataset start timestamp is not representable"
    );
}

#[test]
fn metadata_exporter_keys_its_document_by_the_run_start() {
    let exporter = MetadataExporter::new(DatasetConfig::default(), 1_785_542_400_000).unwrap();
    assert_eq!(exporter.key(), "metadata/anomalies-2026-08-01T00:00:00Z.json");
    assert_eq!(exporter.name(), "metadata");
    assert_eq!(exporter.config().s3_bucket_name, "iotsim");
    assert!(MetadataExporter::new(DatasetConfig::default(), i64::MIN).is_none());
}

#[test]
fn sequence_column_saturates_at_the_signed_maximum() {
    assert_eq!(sequence_column(7), 7);
    assert_eq!(sequence_column(i64::MAX as u64), i64::MAX);
    assert_eq!(sequence_column(u64::MAX), i64::MAX);
}

#[test]
fn row_groups_are_cut_in_order_and_keep_the_remainder() {
    let mut buffer = RowGroupBuffer::new(3);
    let groups = buffer.push_rows(vec![1, 2]);
    assert!(groups.is_empty());
    let groups = buffer.push_rows(vec![3, 4, 5, 6, 7]);
    assert_eq!(groups, vec![vec![1, 2, 3], vec![4, 5, 6]]);
    let groups = buffer.push_rows(vec![8, 9]);
    assert_eq!(groups, vec![vec![7, 8, 9]]);
    let groups = buffer.push_rows(vec![10]);
    assert!(groups.is_empty());
    assert_eq!(buffer.take_remaining(), vec![10]);
    assert!(buffer.take_remaining().is_empty());
}

#[test]
fn dataset_row_groups_hold_one_hundred_thousand_rows() {
    assert_eq!(ROW_GROUP_SIZE, 100_000);
    let mut run: DatasetRun<u32> = DatasetRun::new(1_785_542_400_000).unwrap();
    let groups = run.buffer_rows((0..250_000).collect());
    assert_eq!(groups.len(), 2);
    assert!(groups.iter().all(|g| g.len() == ROW_GROUP_SIZE));
    assert_eq!(groups[1][0], 100_000);
    assert!(run.finish().is_none());
}

#[test]
fn dataset_run_opens_its_file_for_the_first_entity_only() {
    let mut run: DatasetRun<u8> = DatasetRun::new(1_785_542_400_000).unwrap();
    assert_eq!(run.start_label(), "2026-08-01T00:00:00Z");
    assert_eq!(run.object_key(), None);
    assert!(run.open_for("data_center_rack_01"));
    assert!(!run.open_for("other_entity"));
    assert_eq!(
        run.object_key(),
        Some("dataset/data_center_rack_01-2026-08-01T00:00:00Z.parquet")
    );
    assert!(run.buffer_rows(vec![1, 2, 3]).is_empty());
    let (key, rest) = run.finish().unwrap();
    assert_eq!(key, "dataset/data_center_rack_01-2026-08-01T00:00:00Z.parquet");
    assert_eq!(rest, vec![1, 2, 3]);
    assert_eq!(run.object_key(), None);
    assert!(DatasetRun::<u8>::new(i64::MAX).is_err());
}

#[test]
fn metrics_route_always_starts_with_a_slash() {
    assert_eq!(metrics_route("/metrics"), "/metrics");
    assert_eq!(metrics_route("metrics"), "/metrics");
    assert_eq!(metrics_route(""), "/");
}

#[test]
fn kafka_settings_add_only_configured_security() {
    let mut config = KafkaConfig::default();
    config.brokers = "broker-1:9092".to_string();
    let settings = kafka_settings(&config);
    let expected: Vec<(String, String)> = vec![
        ("bootstrap.servers".into(), "broker-1:9092".into()),
        ("client.id".into(), "iot-sim".into()),
        ("message.timeout.ms".into(), "5000".into()),
        ("enable.idempotence".into(), "true".into()),
        ("acks".into(), "all".into()),
    ];
    assert_eq!(settings, expected);
    config.security = KafkaSecurityConfig {
        security_protocol: Some("SASL_SSL".into()),
        sasl_mechanism: None,
        username: Some("user".into()),
        password: Some("pw".into()),
    };
    let settings = kafka_settings(&config);
    assert_eq!(settings.len(), 8);
    assert_eq!(settings[5], ("security.protocol".to_string(), "SASL_SSL".to_string()));
    assert_eq!(settings[6], ("sasl.username".to_string(), "user".to_string()));
    assert_eq!(settings[7], ("sasl.password".to_string(), "pw".to_string()));
}

#[test]
fn dataset_start_is_read_from_the_configured_time() {
    let mut config = DatasetConfig::default();
    assert_eq!(iot_sim::export::dataset_start_millis(&config), None);
    config.start_time = Some("2026-08-01T00:00:00Z".into());
    assert_eq!(iot_sim::export::dataset_start_millis(&config), Some(1_785_542_400_000));
    config.start_time = Some("2026-08-01T02:00:00+02:00".into());
    assert_eq!(iot_sim::export::dataset_start_millis(&config), Some(1_785_542_400_000));
    config.start_time = Some("August first".into());
    assert_eq!(iot_sim::export::dataset_start_millis(&config), None);
}
