use vstd::prelude::*;
use vstd::string::*;

verus! {

/// Every logical sensor kind the simulator knows how to drive.
#[derive(Debug, Clone, Copy, PartialEq, Eq, Hash, Structural)]
pub enum SensorType {
    Weather,
    Sound,
    Electrical,
    Ph,
    Orp,
    Conductivity,
    ChemicalConcentration,
    ProcessAnalyticsFtir,
    DissolvedOxygen,
    ToxicGas,
    CombustibleGas,
    Photoionization,
    Level,
    MassFlow,
    LoadCell,
    ScenarioSignal,
    DataCenterRack,
}

/// The metric names a sensor type emits, in emission order. A scenario
/// signal declares its single metric in its own configuration instead.
pub open spec fn spec_metric_names(t: SensorType) -> Seq<Seq<char>> {
    match t {
        SensorType::Weather => seq!["temperature_c"@, "humidity_pct"@, "pressure_hpa"@],
        SensorType::Sound => seq!["decibels_db"@],
        SensorType::Electrical => seq!["voltage_a_v"@, "current_a_a"@, "power_a_kw"@, "apparent_power_a_kva"@, "power_factor_a"@, "voltage_thd_a_pct"@, "active_energy_a_kwh"@, "apparent_energy_a_kvah"@, "voltage_b_v"@, "current_b_a"@, "power_b_kw"@, "apparent_power_b_kva"@, "power_factor_b"@, "voltage_thd_b_pct"@, "active_energy_b_kwh"@, "apparent_energy_b_kvah"@, "voltage_c_v"@, "current_c_a"@, "power_c_kw"@, "apparent_power_c_kva"@, "power_factor_c"@, "voltage_thd_c_pct"@, "active_energy_c_kwh"@, "apparent_energy_c_kvah"@, "safety_relay_tripped"@],
        SensorType::Ph => seq!["ph_units"@],
        SensorType::Orp => seq!["orp_mv"@],
        SensorType::Conductivity => seq!["conductivity_ms_cm"@],
        SensorType::ChemicalConcentration => seq!["concentration_mol_l"@],
        SensorType::ProcessAnalyticsFtir => seq!["absorbance_lambda_1"@, "absorbance_lambda_2"@, "absorbance_lambda_3"@, "absorbance_lambda_4"@, "optical_path_length_cm"@],
        SensorType::DissolvedOxygen => seq!["dissolved_oxygen_mg_l"@],
        SensorType::ToxicGas => seq!["carbon_monoxide_co_ppm"@, "sensor_health_warning"@],
        SensorType::CombustibleGas => seq!["combustible_gas_lel_pct"@],
        SensorType::Photoionization => seq!["voc_pid_ppm"@],
        SensorType::Level => seq!["tank_level_pct"@, "fluid_volume_liters"@],
        SensorType::MassFlow => seq!["mass_flow_rate_l_min"@],
        SensorType::LoadCell => seq!["load_cell_weight_kg"@, "mixer_active"@],
        SensorType::ScenarioSignal => seq![],
        SensorType::DataCenterRack => seq!["cpu_utilization"@, "temperature_f"@, "relative_humidity_pct"@, "day_of_week"@],
    }
}

/// How many metrics each sensor type emits: only a scenario signal, whose
/// single metric comes from its own configuration, declares none; an
/// electrical meter emits eight readings for each of its three phases and
/// its safety relay; a weather station temperature, humidity and pressure;
/// an FTIR analyser four absorbances and its optical path; a data-center
/// rack its CPU load, temperature, humidity and weekday; toxic-gas, level
/// and load-cell sensors two metrics; every other type one.
pub proof fn lemma_metric_counts(t: SensorType)
    ensures
        (spec_metric_names(t).len() == 0) <==> t is ScenarioSignal,
        spec_metric_names(t).len() == match t {
            SensorType::Electrical => 25nat,
            SensorType::ProcessAnalyticsFtir => 5,
            SensorType::DataCenterRack => 4,
            SensorType::Weather => 3,
            SensorType::ToxicGas | SensorType::Level | SensorType::LoadCell => 2,
            SensorType::ScenarioSignal => 0,
            _ => 1,
        },
{
}

impl SensorType {
    /// The metric names emitted by this sensor type.
    pub fn metric_names(self) -> (names: &'static [&'static str])
        ensures
            names@.map_values(|s: &str| s@) == spec_metric_names(self),
    {
        match self {
            SensorType::Weather => {
                let names: &'static [&'static str] = &["temperature_c", "humidity_pct", "pressure_hpa"];
                assert(names@.map_values(|s: &str| s@) =~= seq!["temperature_c"@, "humidity_pct"@, "pressure_hpa"@]);
                names
            },
            SensorType::Sound => {
                let names: &'static [&'static str] = &["decibels_db"];
                assert(names@.map_values(|s: &str| s@) =~= seq!["decibels_db"@]);
                names
            },
            SensorType::Electrical => {
                let names: &'static [&'static str] = &["voltage_a_v", "current_a_a", "power_a_kw", "apparent_power_a_kva", "power_factor_a", "voltage_thd_a_pct", "active_energy_a_kwh", "apparent_energy_a_kvah", "voltage_b_v", "current_b_a", "power_b_kw", "apparent_power_b_kva", "power_factor_b", "voltage_thd_b_pct", "active_energy_b_kwh", "apparent_energy_b_kvah", "voltage_c_v", "current_c_a", "power_c_kw", "apparent_power_c_kva", "power_factor_c", "voltage_thd_c_pct", "active_energy_c_kwh", "apparent_energy_c_kvah", "safety_relay_tripped"];
                assert(names@.map_values(|s: &str| s@) =~= seq!["voltage_a_v"@, "current_a_a"@, "power_a_kw"@, "apparent_power_a_kva"@, "power_factor_a"@, "voltage_thd_a_pct"@, "active_energy_a_kwh"@, "apparent_energy_a_kvah"@, "voltage_b_v"@, "current_b_a"@, "power_b_kw"@, "apparent_power_b_kva"@, "power_factor_b"@, "voltage_thd_b_pct"@, "active_energy_b_kwh"@, "apparent_energy_b_kvah"@, "voltage_c_v"@, "current_c_a"@, "power_c_kw"@, "apparent_power_c_kva"@, "power_factor_c"@, "voltage_thd_c_pct"@, "active_energy_c_kwh"@, "apparent_energy_c_kvah"@, "safety_relay_tripped"@]);
                names
            },
            SensorType::Ph => {
                let names: &'static [&'static str] = &["ph_units"];
                assert(names@.map_values(|s: &str| s@) =~= seq!["ph_units"@]);
                names
            },
            SensorType::Orp => {
                let names: &'static [&'static str] = &["orp_mv"];
                assert(names@.map_values(|s: &str| s@) =~= seq!["orp_mv"@]);
                names
            },
            SensorType::Conductivity => {
                let names: &'static [&'static str] = &["conductivity_ms_cm"];
                assert(names@.map_values(|s: &str| s@) =~= seq!["conductivity_ms_cm"@]);
                names
            },
            SensorType::ChemicalConcentration => {
                let names: &'static [&'static str] = &["concentration_mol_l"];
                assert(names@.map_values(|s: &str| s@) =~= seq!["concentration_mol_l"@]);
                names
            },
            SensorType::ProcessAnalyticsFtir => {
                let names: &'static [&'static str] = &["absorbance_lambda_1", "absorbance_lambda_2", "absorbance_lambda_3", "absorbance_lambda_4", "optical_path_length_cm"];
                assert(names@.map_values(|s: &str| s@) =~= seq!["absorbance_lambda_1"@, "absorbance_lambda_2"@, "absorbance_lambda_3"@, "absorbance_lambda_4"@, "optical_path_length_cm"@]);
                names
            },
            SensorType::DissolvedOxygen => {
                let names: &'static [&'static str] = &["dissolved_oxygen_mg_l"];
                assert(names@.map_values(|s: &str| s@) =~= seq!["dissolved_oxygen_mg_l"@]);
                names
            },
            SensorType::ToxicGas => {
                let names: &'static [&'static str] = &["carbon_monoxide_co_ppm", "sensor_health_warning"];
                assert(names@.map_values(|s: &str| s@) =~= seq!["carbon_monoxide_co_ppm"@, "sensor_health_warning"@]);
                names
            },
            SensorType::CombustibleGas => {
                let names: &'static [&'static str] = &["combustible_gas_lel_pct"];
                assert(names@.map_values(|s: &str| s@) =~= seq!["combustible_gas_lel_pct"@]);
                names
            },
            SensorType::Photoionization => {
                let names: &'static [&'static str] = &["voc_pid_ppm"];
                assert(names@.map_values(|s: &str| s@) =~= seq!["voc_pid_ppm"@]);
                names
            },
            SensorType::Level => {
                let names: &'static [&'static str] = &["tank_level_pct", "fluid_volume_liters"];
                assert(names@.map_values(|s: &str| s@) =~= seq!["tank_level_pct"@, "fluid_volume_liters"@]);
                names
            },
            SensorType::MassFlow => {
                let names: &'static [&'static str] = &["mass_flow_rate_l_min"];
                assert(names@.map_values(|s: &str| s@) =~= seq!["mass_flow_rate_l_min"@]);
                names
            },
            SensorType::LoadCell => {
                let names: &'static [&'static str] = &["load_cell_weight_kg", "mixer_active"];
                assert(names@.map_values(|s: &str| s@) =~= seq!["load_cell_weight_kg"@, "mixer_active"@]);
                names
            },
            // Metric names are declared per sensor by its scenario block.
            SensorType::ScenarioSignal => {
                let names: &'static [&'static str] = &[];
                assert(names@.map_values(|s: &str| s@) =~= seq![]);
                names
            },
            SensorType::DataCenterRack => {
                let names: &'static [&'static str] = &["cpu_utilization", "temperature_f", "relative_humidity_pct", "day_of_week"];
                assert(names@.map_values(|s: &str| s@) =~= seq!["cpu_utilization"@, "temperature_f"@, "relative_humidity_pct"@, "day_of_week"@]);
                names
            },
        }
    }
}

/// Why a configuration could not be used.
#[derive(Debug)]
pub enum ConfigurationError {
    /// The configuration sources could not be read or deserialized.
    Load(String),
    /// The configuration was read but breaks a rule; the text says which.
    Validation(String),
}

impl ConfigurationError {
    /// The error's display text.
    pub fn message(&self) -> (r: String)
        ensures
            r@ == match self {
                ConfigurationError::Load(s) => "could not load configuration: "@ + s@,
                ConfigurationError::Validation(s) => "invalid configuration: "@ + s@,
            },
    {
        let (mut text, detail) = match self {
            ConfigurationError::Load(s) => (String::from_str("could not load configuration: "), s),
            ConfigurationError::Validation(s) => (String::from_str("invalid configuration: "), s),
        };
        text.append(detail.as_str());
        text
    }
}

/// Process lifecycle controls.
#[derive(Debug, Clone)]
pub struct RuntimeConfig {
    pub shutdown_timeout_seconds: u64,
    pub run_duration_seconds: Option<u64>,
}

/// The schema version assumed when a configuration does not name one.
pub fn default_schema_version() -> (r: String)
    ensures
        r@ == "1.0"@,
{
    String::from_str("1.0")
}

/// Seconds allowed for a graceful shutdown when none is configured.
pub fn default_shutdown_timeout() -> (r: u64)
    ensures
        r == 10,
{
    10
}

impl Default for RuntimeConfig {
    fn default() -> (r: Self)
        ensures
            r.shutdown_timeout_seconds == 10,
            r.run_duration_seconds is None,
    {
        RuntimeConfig { shutdown_timeout_seconds: default_shutdown_timeout(), run_duration_seconds: None }
    }
}

/// Simulator-specific console output. General log filtering stays with the
/// logging framework's own environment settings.
#[derive(Debug, Clone)]
pub struct LoggingConfig {
    pub simulator_stream: SimulatorStreamConfig,
}

/// Emitting each generated reading as JSON at `INFO` level, to confirm that
/// scheduling and models produce telemetry.
#[derive(Debug, Clone)]
pub struct SimulatorStreamConfig {
    pub enabled: bool,
}

impl Default for SimulatorStreamConfig {
    fn default() -> (r: Self)
        ensures
            !r.enabled,
    {
        SimulatorStreamConfig { enabled: false }
    }
}

impl Default for LoggingConfig {
    fn default() -> (r: Self)
        ensures
            !r.simulator_stream.enabled,
    {
        LoggingConfig { simulator_stream: SimulatorStreamConfig::default() }
    }
}

/// One metric of one expanded sensor.
#[derive(Debug, Clone, PartialEq, Eq, Hash)]
pub struct AnomalyTargetConfig {
    pub sensor_id: String,
    pub metric: String,
}

/// How a contextual condition compares the observed value with its bound.
#[derive(Debug, Clone, Copy, PartialEq, Eq, Structural)]
pub enum ComparisonOperator {
    GreaterThan,
    GreaterThanOrEqual,
    LessThan,
    LessThanOrEqual,
    Equal,
    NotEqual,
}

/// The transports that receive telemetry.
#[derive(Debug, Clone)]
pub struct ExportersConfig {
    pub prometheus: PrometheusConfig,
    pub kafka: KafkaConfig,
    pub dataset: DatasetConfig,
}

/// A finite historical Parquet dataset uploaded to S3-compatible storage.
#[derive(Debug, Clone)]
pub struct DatasetConfig {
    pub enabled: bool,
    /// Inclusive RFC 3339 instant at which the generated history begins.
    pub start_time: Option<String>,
    pub s3_endpoint_url: String,
    pub s3_bucket_name: String,
    pub s3_access_key: String,
    pub s3_secret_key: String,
}

pub fn default_s3_endpoint_url() -> (r: String)
    ensures
        r@ == "http://192.168.1.50:9000"@,
{
    String::from_str("http://192.168.1.50:9000")
}

pub fn default_s3_bucket_name() -> (r: String)
    ensures
        r@ == "iotsim"@,
{
    String::from_str("iotsim")
}

pub fn default_s3_access_key() -> (r: String)
    ensures
        r@ == "access"@,
{
    String::from_str("access")
}

pub fn default_s3_secret_key() -> (r: String)
    ensures
        r@ == "secret"@,
{
    String::from_str("secret")
}

impl Default for DatasetConfig {
    fn default() -> (r: Self)
        ensures
            !r.enabled,
            r.start_time is None,
            r.s3_endpoint_url@ == "http://192.168.1.50:9000"@,
            r.s3_bucket_name@ == "iotsim"@,
            r.s3_access_key@ == "access"@,
            r.s3_secret_key@ == "secret"@,
    {
        DatasetConfig {
            enabled: false,
            start_time: None,
            s3_endpoint_url: default_s3_endpoint_url(),
            s3_bucket_name: default_s3_bucket_name(),
            s3_access_key: default_s3_access_key(),
            s3_secret_key: default_s3_secret_key(),
        }
    }
}

/// The pull endpoint that Prometheus scrapes.
#[derive(Debug, Clone)]
pub struct PrometheusConfig {
    pub enabled: bool,
    pub bind: String,
    pub path: String,
}

pub fn default_prometheus_bind() -> (r: String)
    ensures
        r@ == "0.0.0.0:9898"@,
{
    String::from_str("0.0.0.0:9898")
}

pub fn default_prometheus_path() -> (r: String)
    ensures
        r@ == "/metrics"@,
{
    String::from_str("/metrics")
}

impl Default for PrometheusConfig {
    fn default() -> (r: Self)
        ensures
            !r.enabled,
            r.bind@ == "0.0.0.0:9898"@,
            r.path@ == "/metrics"@,
    {
        PrometheusConfig { enabled: false, bind: default_prometheus_bind(), path: default_prometheus_path() }
    }
}

/// The keyed JSON Kafka producer.
#[derive(Debug, Clone)]
pub struct KafkaConfig {
    pub enabled: bool,
    pub brokers: String,
    pub topic: String,
    pub client_id: String,
    pub security: KafkaSecurityConfig,
}

/// Optional SASL settings of the Kafka producer.
#[derive(Debug, Clone)]
pub struct KafkaSecurityConfig {
    pub security_protocol: Option<String>,
    pub sasl_mechanism: Option<String>,
    pub username: Option<String>,
    pub password: Option<String>,
}

impl Default for KafkaSecurityConfig {
    fn default() -> (r: Self)
        ensures
            r.security_protocol is None,
            r.sasl_mechanism is None,
            r.username is None,
            r.password is None,
    {
        KafkaSecurityConfig { security_protocol: None, sasl_mechanism: None, username: None, password: None }
    }
}

pub fn default_kafka_topic() -> (r: String)
    ensures
        r@ == "iot.telemetry.v1"@,
{
    String::from_str("iot.telemetry.v1")
}

pub fn default_client_id() -> (r: String)
    ensures
        r@ == "iot-sim"@,
{
    String::from_str("iot-sim")
}

impl Default for KafkaConfig {
    fn default() -> (r: Self)
        ensures
            !r.enabled,
            r.brokers@ == Seq::<char>::empty(),
            r.topic@ == "iot.telemetry.v1"@,
            r.client_id@ == "iot-sim"@,
            r.security.security_protocol is None,
            r.security.sasl_mechanism is None,
            r.security.username is None,
            r.security.password is None,
    {
        KafkaConfig {
            enabled: false,
            brokers: String::new(),
            topic: default_kafka_topic(),
            client_id: default_client_id(),
            security: KafkaSecurityConfig::default(),
        }
    }
}

impl Default for ExportersConfig {
    fn default() -> (r: Self)
        ensures
            !r.prometheus.enabled,
            r.prometheus.bind@ == "0.0.0.0:9898"@,
            r.prometheus.path@ == "/metrics"@,
            !r.kafka.enabled,
            r.kafka.brokers@ == Seq::<char>::empty(),
            r.kafka.topic@ == "iot.telemetry.v1"@,
            r.kafka.client_id@ == "iot-sim"@,
            r.kafka.security.security_protocol is None,
            r.kafka.security.sasl_mechanism is None,
            r.kafka.security.username is None,
            r.kafka.security.password is None,
            !r.dataset.enabled,
            r.dataset.start_time is None,
            r.dataset.s3_endpoint_url@ == "http://192.168.1.50:9000"@,
            r.dataset.s3_bucket_name@ == "iotsim"@,
            r.dataset.s3_access_key@ == "access"@,
            r.dataset.s3_secret_key@ == "secret"@,
    {
        ExportersConfig {
            prometheus: PrometheusConfig::default(),
            kafka: KafkaConfig::default(),
            dataset: DatasetConfig::default(),
        }
    }
}

/// Each sensor template expands to one sensor unless it says otherwise.
pub fn default_quantity() -> (r: usize)
    ensures
        r == 1,
{
    1
}

/// Sensors and anomaly profiles are enabled unless they say otherwise.
pub fn enabled_by_default() -> (r: bool)
    ensures
        r,
{
    true
}

} // verus!
