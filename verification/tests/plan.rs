use iot_sim::config::{ExportersConfig, SensorType};
use iot_sim::plan::{
    config_path_from_args, expand_sensors, plan_exporters, plan_services, service_for, ExporterKind, ServiceKind,
};
use iot_sim::validation::SensorConfig;

fn template(prefix: &str, quantity: usize, enabled: bool) -> SensorConfig {
    SensorConfig {
        sensor_type: SensorType::Ph,
        id_prefix: prefix.into(),
        quantity,
        timestep_ms: 1000,
        enabled,
        inverted_bounds: false,
        scenario: None,
        data_center_rack: None,
    }
}

#[test]
fn services_are_built_once_in_build_order() {
    let plan = plan_services(&[
        SensorType::DataCenterRack,
        SensorType::Orp,
        SensorType::Weather,
        SensorType::Ph,
        SensorType::LoadCell,
    ]);
    assert_eq!(
        plan,
        vec![
            ServiceKind::Weather,
            ServiceKind::Electrochemistry,
            ServiceKind::Hydraulics,
            ServiceKind::DataCenterRack
        ]
    );
    assert!(plan_services(&[]).is_empty());
    let names: Vec<&str> = plan.iter().map(|k| k.name()).collect();
    assert_eq!(names, vec!["weather", "electrochemistry", "fluid_hydraulics", "data_center_rack"]);
}

#[test]
fn each_sensor_type_belongs_to_one_service() {
    assert_eq!(service_for(SensorType::Conductivity), ServiceKind::Electrochemistry);
    assert_eq!(service_for(SensorType::ProcessAnalyticsFtir), ServiceKind::ProcessAnalytics);
    assert_eq!(service_for(SensorType::Photoionization), ServiceKind::GasSafety);
    assert_eq!(service_for(SensorType::MassFlow), ServiceKind::Hydraulics);
    assert_eq!(service_for(SensorType::ScenarioSignal), ServiceKind::ScenarioSignals);
    assert_eq!(ServiceKind::ScenarioSignals.name(), "industrial_scenario_signals");
    assert_eq!(ServiceKind::GasSafety.name(), "gas_environmental_safety");
    assert_eq!(ServiceKind::ProcessAnalytics.name(), "process_analytics");
}

#[test]
fn exporters_follow_their_enabled_flags() {
    let mut exporters = ExportersConfig::default();
    assert!(plan_exporters(&exporters).is_empty());
    exporters.prometheus.enabled = true;
    exporters.kafka.enabled = true;
    assert_eq!(plan_exporters(&exporters), vec![ExporterKind::Prometheus, ExporterKind::Kafka]);
    let mut dataset = ExportersConfig::default();
    dataset.dataset.enabled = true;
    assert_eq!(plan_exporters(&dataset), vec![ExporterKind::Dataset, ExporterKind::Metadata]);
}

#[test]
fn enabled_templates_expand_into_numbered_sensors() {
    let sensors = expand_sensors(&vec![template("ph", 2, true), template("orp", 3, false), template("cond", 1, true)]);
    let ids: Vec<(usize, &str)> = sensors.iter().map(|s| (s.template, s.sensor_id.as_str())).collect();
    assert_eq!(ids, vec![(0, "ph-01"), (0, "ph-02"), (2, "cond")]);
}

#[test]
fn configuration_path_comes_from_the_arguments() {
    let args = |items: &[&str]| items.iter().map(|s| s.to_string()).collect::<Vec<String>>();
    assert_eq!(config_path_from_args(&args(&[])).unwrap(), "config/simulation.yaml");
    assert_eq!(config_path_from_args(&args(&["--config", "a.yaml"])).unwrap(), "a.yaml");
    assert_eq!(config_path_from_args(&args(&["-c", "b.yaml"])).unwrap(), "b.yaml");
    assert_eq!(config_path_from_args(&args(&["c.yaml", "ignored"])).unwrap(), "c.yaml");
    assert_eq!(config_path_from_args(&args(&["--config"])).unwrap_err(), "--config requires a path");
}
