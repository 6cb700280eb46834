use iot_sim::config::{
    default_client_id, default_kafka_topic, default_prometheus_bind, default_prometheus_path,
    default_quantity, default_s3_bucket_name, default_schema_version, default_shutdown_timeout,
    enabled_by_default, AnomalyTargetConfig, ConfigurationError, ExportersConfig, LoggingConfig,
    RuntimeConfig, SensorType,
};
use iot_sim::validation::{
    AnomaliesConfig, AnomalyProfileConfig, AnomalyStrategyConfig, AnomalyTriggerConfig, AppConfig,
    DataCenterRackConfig, EntityConfig, ScenarioSignalConfig, ScenarioWaveformConfig, SensorConfig,
};

fn rack_sensor() -> SensorConfig {
    SensorConfig {
        sensor_type: SensorType::DataCenterRack,
        id_prefix: "rack-telemetry-01".into(),
        quantity: 1,
        timestep_ms: 104,
        enabled: true,
        inverted_bounds: false,
        scenario: None,
        data_center_rack: Some(DataCenterRackConfig { settings_valid: true, seed: Some(1) }),
    }
}

/// The shape of the shipped sample configuration: one rack entity with one
/// rack sensor and one anomaly profile on its temperature.
fn sample_config() -> AppConfig {
    let mut exporters = ExportersConfig::default();
    exporters.prometheus.enabled = true;
    AppConfig {
        config_name: "data-center-rack".into(),
        schema_version: default_schema_version(),
        runtime: RuntimeConfig::default(),
        exporters,
        logging: LoggingConfig::default(),
        anomalies: AnomaliesConfig {
            enabled: true,
            seed: Some(42),
            profiles: vec![AnomalyProfileConfig {
                name: "rack_temperature_spike".into(),
                enabled: true,
                target: AnomalyTargetConfig {
                    sensor_id: "rack-telemetry-01".into(),
                    metric: "temperature_f".into(),
                },
                trigger: AnomalyTriggerConfig::default(),
                strategy: AnomalyStrategyConfig::Spike { offset_finite: true, multiplier_finite: true },
            }],
        },
        entities: vec![EntityConfig {
            entity_type: "server_rack".into(),
            entity_id: "data_center_rack_01".into(),
            description: "Simulated server rack".into(),
            sensors: vec![rack_sensor()],
        }],
    }
}

fn validation_message(config: &AppConfig) -> String {
    let error = config.validate_at(1_800_000_000_000).unwrap_err();
    assert!(matches!(error, ConfigurationError::Validation(_)));
    error.message()
}

#[test]
fn sample_configuration_loads_and_defines_all_sensor_types() {
    let config = sample_config();
    assert!(config.validate().is_ok());
    let count: usize = config.entities.iter().map(|entity| entity.sensors.len()).sum();
    assert_eq!(count, 1);
    assert_eq!(config.entities.len(), 1);
    assert_eq!(config.anomalies.profiles.len(), 1);
}

#[test]
fn anomaly_target_metric_must_belong_to_its_sensor() {
    let mut config = sample_config();
    config.anomalies.profiles[0].target.metric = "not_a_weather_metric".into();
    let message = validation_message(&config);
    assert!(message.contains("not emitted by sensor 'rack-telemetry-01'"));
    assert_eq!(
        message,
        "invalid configuration: anomaly profile 'rack_temperature_spike' metric 'not_a_weather_metric' is not emitted by sensor 'rack-telemetry-01'"
    );
}

#[test]
fn anomaly_threshold_must_be_a_probability_boundary() {
    let mut config = sample_config();
    config.anomalies.profiles[0].trigger.threshold_valid = false;
    assert!(validation_message(&config).contains("must be between 0 and 1"));
}

#[test]
fn test_rack_configuration_emits_96_points_per_day_at_10_second_days() {
    let config = sample_config();
    let sensor = &config.entities[0].sensors[0];
    assert_eq!(sensor.timestep_ms, 104);
    assert!(sensor.data_center_rack.as_ref().unwrap().settings_valid);
}

#[test]
fn dataset_exporter_is_exclusive_with_streaming_exporters() {
    let mut config = sample_config();
    config.exporters.dataset.enabled = true;
    config.exporters.dataset.start_time = Some("2026-01-01T00:00:00Z".into());
    config.exporters.kafka.enabled = true;
    config.exporters.kafka.brokers = "broker:9092".into();
    assert!(validation_message(&config)
        .contains("dataset exporter cannot be enabled with Kafka or Prometheus exporters"));
}

#[test]
fn dataset_exporter_requires_a_historical_start_time() {
    let mut config = sample_config();
    config.exporters.prometheus.enabled = false;
    config.exporters.kafka.enabled = false;
    config.exporters.dataset.enabled = true;
    config.exporters.dataset.start_time = None;
    assert!(validation_message(&config).contains("dataset.start_time is required"));
}

#[test]
fn dataset_start_time_must_be_rfc3339_and_not_in_the_future() {
    let mut config = sample_config();
    config.exporters.prometheus.enabled = false;
    config.exporters.dataset.enabled = true;
    config.exporters.dataset.start_time = Some("yesterday".into());
    assert!(validation_message(&config)
        .starts_with("invalid configuration: exporters.dataset.start_time must be RFC 3339: "));
    config.exporters.dataset.start_time = Some("2030-01-01T00:00:00Z".into());
    assert_eq!(
        validation_message(&config),
        "invalid configuration: exporters.dataset.start_time must not be in the future"
    );
    config.exporters.dataset.start_time = Some("2026-08-01T00:00:00Z".into());
    assert!(config.validate_at(1_800_000_000_000).is_ok());
    config.exporters.dataset.s3_bucket_name = "  ".into();
    assert_eq!(
        validation_message(&config),
        "invalid configuration: exporters.dataset.s3_bucket_name cannot be empty when dataset exporter is enabled"
    );
}

#[test]
fn configuration_needs_a_name_and_an_entity() {
    let mut config = sample_config();
    config.config_name = " \t".into();
    assert_eq!(validation_message(&config), "invalid configuration: config_name cannot be empty");
    let mut config = sample_config();
    config.entities.clear();
    assert_eq!(validation_message(&config), "invalid configuration: at least one entity is required");
}

#[test]
fn entity_and_sensor_identities_must_be_unique() {
    let mut config = sample_config();
    let twin = config.entities[0].clone();
    config.entities.push(twin);
    assert_eq!(
        validation_message(&config),
        "invalid configuration: duplicate entity_id 'data_center_rack_01'"
    );
    let mut config = sample_config();
    let mut other = config.entities[0].clone();
    other.entity_id = "data_center_rack_02".into();
    config.entities.push(other);
    assert_eq!(
        validation_message(&config),
        "invalid configuration: duplicate expanded sensor_id 'rack-telemetry-01'"
    );
    let mut config = sample_config();
    config.entities[0].sensors.clear();
    assert_eq!(
        validation_message(&config),
        "invalid configuration: entity 'data_center_rack_01' has no sensors"
    );
}

#[test]
fn sensor_templates_need_quantity_timestep_and_bounds() {
    let mut config = sample_config();
    config.entities[0].sensors[0].quantity = 0;
    assert_eq!(
        validation_message(&config),
        "invalid configuration: sensor 'rack-telemetry-01' quantity must be greater than zero"
    );
    let mut config = sample_config();
    config.entities[0].sensors[0].timestep_ms = 0;
    assert_eq!(
        validation_message(&config),
        "invalid configuration: sensor 'rack-telemetry-01' timestep_ms must be greater than zero"
    );
    let mut config = sample_config();
    config.entities[0].sensors[0].data_center_rack = None;
    assert_eq!(
        validation_message(&config),
        "invalid configuration: data_center_rack sensor 'rack-telemetry-01' requires a data_center_rack block"
    );
}

#[test]
fn scenario_blocks_belong_to_scenario_sensors() {
    let mut config = sample_config();
    config.entities[0].sensors.push(SensorConfig {
        sensor_type: SensorType::ScenarioSignal,
        id_prefix: "kiln-temp".into(),
        quantity: 2,
        timestep_ms: 1000,
        enabled: true,
        inverted_bounds: false,
        scenario: Some(ScenarioSignalConfig {
            metric: "temperature_c".into(),
            baseline_finite: true,
            noise_sigma_valid: true,
            waveform: ScenarioWaveformConfig::StepCycle { value_count: 0, values_finite: true, samples_per_step: 1 },
            seed: None,
        }),
        data_center_rack: None,
    });
    assert_eq!(
        validation_message(&config),
        "invalid configuration: scenario_signal sensor 'kiln-temp' has an invalid waveform"
    );
    config.entities[0].sensors[1].scenario.as_mut().unwrap().waveform = ScenarioWaveformConfig::Constant;
    assert!(config.validate_at(0).is_ok());
    config.anomalies.profiles[0].target = AnomalyTargetConfig {
        sensor_id: "kiln-temp-02".into(),
        metric: "temperature_c".into(),
    };
    assert!(config.validate_at(0).is_ok());
}

#[test]
fn anomaly_profiles_need_names_targets_and_durations() {
    let mut config = sample_config();
    config.anomalies.profiles[0].target.sensor_id = "missing-01".into();
    assert_eq!(
        validation_message(&config),
        "invalid configuration: anomaly profile 'rack_temperature_spike' references unknown sensor_id 'missing-01'"
    );
    let mut config = sample_config();
    config.anomalies.profiles[0].strategy = AnomalyStrategyConfig::Drift { duration_samples: 0, total_offset_finite: true };
    assert_eq!(
        validation_message(&config),
        "invalid configuration: anomaly profile 'rack_temperature_spike' duration_samples must be greater than zero"
    );
    let mut config = sample_config();
    let twin = config.anomalies.profiles[0].clone();
    config.anomalies.profiles.push(twin);
    assert_eq!(
        validation_message(&config),
        "invalid configuration: duplicate anomaly profile name 'rack_temperature_spike'"
    );
    let mut config = sample_config();
    config.anomalies.profiles[0].strategy = AnomalyStrategyConfig::Spike { offset_finite: false, multiplier_finite: true };
    assert_eq!(
        validation_message(&config),
        "invalid configuration: anomaly profile 'rack_temperature_spike' offset must be finite"
    );
}

#[test]
fn streaming_exporters_need_their_endpoints() {
    let mut config = sample_config();
    config.exporters.prometheus.bind = "".into();
    assert_eq!(validation_message(&config), "invalid configuration: exporters.prometheus.bind cannot be empty");
    let mut config = sample_config();
    config.exporters.kafka.enabled = true;
    assert_eq!(
        validation_message(&config),
        "invalid configuration: exporters.kafka.brokers cannot be empty when Kafka is enabled"
    );
}

#[test]
fn load_errors_carry_their_reason() {
    let error = ConfigurationError::Load("missing file".into());
    assert_eq!(error.message(), "could not load configuration: missing file");
}

#[test]
fn defaults_match_the_documented_values() {
    assert_eq!(default_schema_version(), "1.0");
    assert_eq!(default_shutdown_timeout(), 10);
    assert_eq!(default_prometheus_bind(), "0.0.0.0:9898");
    assert_eq!(default_prometheus_path(), "/metrics");
    assert_eq!(default_kafka_topic(), "iot.telemetry.v1");
    assert_eq!(default_client_id(), "iot-sim");
    assert_eq!(default_s3_bucket_name(), "iotsim");
    assert_eq!(default_quantity(), 1);
    assert!(enabled_by_default());
    assert_eq!(RuntimeConfig::default().shutdown_timeout_seconds, 10);
}

#[test]
fn sensor_types_emit_their_documented_metrics() {
    assert_eq!(SensorType::Weather.metric_names(), &["temperature_c", "humidity_pct", "pressure_hpa"]);
    assert_eq!(SensorType::Sound.metric_names(), &["decibels_db"]);
    assert_eq!(
        SensorType::DataCenterRack.metric_names(),
        &["cpu_utilization", "temperature_f", "relative_humidity_pct", "day_of_week"]
    );
    assert_eq!(SensorType::Electrical.metric_names().len(), 25);
}

#[test]
fn expanded_identities_are_zero_padded_for_multiple_sensors() {
    let mut sensor = rack_sensor();
    assert_eq!(sensor.expanded_id(1), "rack-telemetry-01");
    sensor.id_prefix = "ph".into();
    sensor.quantity = 12;
    assert_eq!(sensor.expanded_id(1), "ph-01");
    assert_eq!(sensor.expanded_id(12), "ph-12");
    assert_eq!(sensor.expanded_id(100), "ph-100");
}
