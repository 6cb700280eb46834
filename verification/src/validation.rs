//! The simulator configuration as its validation rules read it, and those
//! rules. Floating-point settings are represented by the outcome of the check
//! that the rules apply to them, evaluated when the configuration is loaded.
use vstd::prelude::*;
use vstd::string::*;

use crate::config::{
    spec_metric_names, AnomalyTargetConfig, ComparisonOperator, ConfigurationError, DatasetConfig,
    ExportersConfig, LoggingConfig, RuntimeConfig, SensorType,
};
use crate::text::{blank, decimal_width2, is_blank, push_decimal_width2, push_text, same_text};
use crate::time::{rfc3339_timestamp_millis, parse_rfc3339_millis, system_clock_millis};

verus! {

/// The configured facility and everything the simulator does with it.
#[derive(Debug, Clone)]
pub struct AppConfig {
    pub config_name: String,
    pub schema_version: String,
    pub runtime: RuntimeConfig,
    pub exporters: ExportersConfig,
    pub logging: LoggingConfig,
    pub anomalies: AnomaliesConfig,
    pub entities: Vec<EntityConfig>,
}

/// A physical or logical asset and its sensor templates.
#[derive(Debug, Clone)]
pub struct EntityConfig {
    pub entity_type: String,
    pub entity_id: String,
    pub description: String,
    pub sensors: Vec<SensorConfig>,
}

/// A sensor template, expanded into `quantity` sensors.
#[derive(Debug, Clone)]
pub struct SensorConfig {
    pub sensor_type: SensorType,
    pub id_prefix: String,
    pub quantity: usize,
    pub timestep_ms: u64,
    pub enabled: bool,
    /// `min_value >= max_value` for the configured output bounds.
    pub inverted_bounds: bool,
    pub scenario: Option<ScenarioSignalConfig>,
    pub data_center_rack: Option<DataCenterRackConfig>,
}

/// A configurable single-metric industrial signal.
#[derive(Debug, Clone)]
pub struct ScenarioSignalConfig {
    pub metric: String,
    /// The baseline is a finite number.
    pub baseline_finite: bool,
    /// The noise sigma is finite and not negative.
    pub noise_sigma_valid: bool,
    pub waveform: ScenarioWaveformConfig,
    pub seed: Option<u64>,
}

/// The deterministic shape of a scenario signal.
#[derive(Debug, Clone)]
pub enum ScenarioWaveformConfig {
    Constant,
    Sine {
        /// The amplitude is finite.
        amplitude_finite: bool,
        period_samples: u64,
        /// The phase is finite.
        phase_finite: bool,
    },
    StepCycle {
        value_count: usize,
        /// Every step value is finite.
        values_finite: bool,
        samples_per_step: u64,
    },
    BatchTemperature {
        /// The low temperature is finite.
        low_finite: bool,
        /// The peak temperature is finite.
        peak_finite: bool,
        rise_samples: u64,
        plateau_samples: u64,
        cool_samples: u64,
    },
}

/// The physical settings of a simulated server rack.
#[derive(Debug, Clone)]
pub struct DataCenterRackConfig {
    /// All settings are finite, the thermal lift, noise sigmas are not
    /// negative, the cooling time constant and week duration are positive,
    /// the weekend spike probability lies in [0, 1] and the anomaly
    /// humidity in [0, 100].
    pub settings_valid: bool,
    pub seed: Option<u64>,
}

/// Post-sample anomaly injection.
#[derive(Debug, Clone)]
pub struct AnomaliesConfig {
    pub enabled: bool,
    /// A fixed seed makes random activation and noise reproducible.
    pub seed: Option<u64>,
    pub profiles: Vec<AnomalyProfileConfig>,
}

impl Default for AnomaliesConfig {
    /// An omitted anomaly block: disabled, unseeded, with no profiles.
    fn default() -> (r: Self)
        ensures
            !r.enabled,
            r.seed is None,
            r.profiles@.len() == 0,
    {
        AnomaliesConfig { enabled: false, seed: None, profiles: Vec::new() }
    }
}

/// One named anomaly profile.
#[derive(Debug, Clone)]
pub struct AnomalyProfileConfig {
    pub name: String,
    pub enabled: bool,
    pub target: AnomalyTargetConfig,
    pub trigger: AnomalyTriggerConfig,
    pub strategy: AnomalyStrategyConfig,
}

/// When a profile may start an event.
#[derive(Debug, Clone)]
pub struct AnomalyTriggerConfig {
    /// The activation threshold is finite and lies in [0, 1].
    pub threshold_valid: bool,
    pub cooldown_samples: u64,
    /// Deterministic baseline warm-up before the profile may activate.
    pub start_after_samples: u64,
    /// Warm-up production cycles of model-level profiles.
    pub start_after_cycles: u64,
}

impl Default for AnomalyTriggerConfig {
    /// A valid activation threshold (0.999 by default), no cooldown and no
    /// warm-up.
    fn default() -> (r: Self)
        ensures
            r.threshold_valid,
            r.cooldown_samples == 0,
            r.start_after_samples == 0,
            r.start_after_cycles == 0,
    {
        AnomalyTriggerConfig { threshold_valid: true, cooldown_samples: 0, start_after_samples: 0, start_after_cycles: 0 }
    }
}

/// A contextual condition on another metric.
#[derive(Debug, Clone)]
pub struct AnomalyConditionConfig {
    pub source: AnomalyTargetConfig,
    pub operator: ComparisonOperator,
    /// The comparison bound is finite.
    pub value_finite: bool,
}

/// What an anomaly event does to its target.
#[derive(Debug, Clone)]
pub enum AnomalyStrategyConfig {
    Spike { offset_finite: bool, multiplier_finite: bool },
    SpikeDrop { spike_value_finite: bool, drop_value_finite: bool },
    StuckAt {
        duration_samples: u64,
        /// The freeze value is absent or finite.
        value_finite: bool,
    },
    Drift { duration_samples: u64, total_offset_finite: bool },
    BatchCoolingStretch {
        duration_samples: u64,
        low_finite: bool,
        peak_finite: bool,
        rise_samples: u64,
        plateau_samples: u64,
        initial_cool_samples: u64,
        final_cool_samples: u64,
        batches: u64,
    },
    Noise {
        duration_samples: u64,
        /// Sigma is finite and positive.
        sigma_valid: bool,
    },
    Contextual {
        duration_samples: u64,
        condition: AnomalyConditionConfig,
        /// The override value is absent or finite.
        value_finite: bool,
        offset_finite: bool,
        multiplier_finite: bool,
    },
    RoboticAirLockSealFailure { faulted_cycles_before_maintenance: u64, maintenance_cycles: u64 },
    RoboticAirLockWetPayload { duration_cycles: u64 },
}

// ---------------------------------------------------------------------------
// Sensor identities

/// The identity of expanded sensor `index` (one-based) of a template: the
/// prefix itself for a single sensor, otherwise the prefix followed by `-`
/// and the index padded to two digits.
pub open spec fn spec_expanded_id(prefix: Seq<char>, quantity: nat, index: nat) -> Seq<char> {
    if quantity == 1 {
        prefix
    } else {
        prefix + "-"@ + decimal_width2(index)
    }
}

impl SensorConfig {
    /// The sensor identity of expanded sensor `one_based_index`.
    pub fn expanded_id(&self, one_based_index: usize) -> (r: String)
        ensures
            r@ == spec_expanded_id(self.id_prefix@, self.quantity as nat, one_based_index as nat),
    {
        if self.quantity == 1 {
            self.id_prefix.clone()
        } else {
            let mut id = self.id_prefix.clone();
            push_text(&mut id, "-");
            push_decimal_width2(&mut id, one_based_index);
            id
        }
    }
}

/// The metrics that every sensor expanded from `s` emits.
pub open spec fn sensor_metric_names(s: SensorConfig) -> Seq<Seq<char>> {
    if s.sensor_type == SensorType::ScenarioSignal && s.scenario is Some {
        seq![s.scenario->0.metric@]
    } else {
        spec_metric_names(s.sensor_type)
    }
}

// ---------------------------------------------------------------------------
// The rules, as the first message that a configuration earns

pub open spec fn named(before: Seq<char>, name: Seq<char>, after: Seq<char>) -> Seq<char> {
    before + name + after
}

pub open spec fn waveform_invalid(w: ScenarioWaveformConfig) -> bool {
    match w {
        ScenarioWaveformConfig::Constant => false,
        ScenarioWaveformConfig::Sine { amplitude_finite, period_samples, phase_finite } =>
            !amplitude_finite || period_samples == 0 || !phase_finite,
        ScenarioWaveformConfig::StepCycle { value_count, values_finite, samples_per_step } =>
            value_count == 0 || samples_per_step == 0 || !values_finite,
        ScenarioWaveformConfig::BatchTemperature {
            low_finite,
            peak_finite,
            rise_samples,
            plateau_samples,
            cool_samples,
        } => !low_finite || !peak_finite || rise_samples == 0 || plateau_samples == 0 || cool_samples
            == 0,
    }
}

pub open spec fn scenario_issue(sc: ScenarioSignalConfig, prefix: Seq<char>) -> Option<Seq<char>> {
    if is_blank(sc.metric@) || !sc.baseline_finite {
        Some(named("scenario_signal sensor '"@, prefix, "' requires a non-empty metric and finite baseline"@))
    } else if !sc.noise_sigma_valid {
        Some(named("scenario_signal sensor '"@, prefix, "' noise_sigma must be finite and non-negative"@))
    } else if waveform_invalid(sc.waveform) {
        Some(named("scenario_signal sensor '"@, prefix, "' has an invalid waveform"@))
    } else {
        None
    }
}

/// The rules on a template's scenario and rack blocks.
pub open spec fn kind_issue(s: SensorConfig) -> Option<Seq<char>> {
    let p = s.id_prefix@;
    if s.sensor_type == SensorType::ScenarioSignal {
        match s.scenario {
            None => Some(named("scenario_signal sensor '"@, p, "' requires a scenario block"@)),
            Some(sc) => scenario_issue(sc, p),
        }
    } else if s.scenario is Some {
        Some(named("sensor '"@, p, "' may only use scenario with type scenario_signal"@))
    } else if s.sensor_type == SensorType::DataCenterRack {
        match s.data_center_rack {
            None => Some(named("data_center_rack sensor '"@, p, "' requires a data_center_rack block"@)),
            Some(r) => if !r.settings_valid {
                Some(named("data_center_rack sensor '"@, p, "' has invalid physical model settings"@))
            } else {
                None
            },
        }
    } else if s.data_center_rack is Some {
        Some(named("sensor '"@, p, "' may only use data_center_rack with type data_center_rack"@))
    } else {
        None
    }
}

/// Whether some catalogued sensor has identity `id`.
pub open spec fn catalogue_has(cat: Seq<(Seq<char>, Seq<Seq<char>>)>, id: Seq<char>) -> bool {
    exists|i: int| 0 <= i < cat.len() && #[trigger] cat[i].0 == id
}

/// Cataloguing expanded sensor `index` of template `s`.
pub open spec fn index_step(s: SensorConfig, cat: Seq<(Seq<char>, Seq<Seq<char>>)>, index: nat) -> Result<
    Seq<(Seq<char>, Seq<Seq<char>>)>,
    Seq<char>,
> {
    let id = spec_expanded_id(s.id_prefix@, s.quantity as nat, index);
    if catalogue_has(cat, id) {
        Err(named("duplicate expanded sensor_id '"@, id, "'"@))
    } else {
        match kind_issue(s) {
            Some(m) => Err(m),
            None => Ok(cat.push((id, sensor_metric_names(s)))),
        }
    }
}

/// Cataloguing expanded sensors `1..=n` of template `s`.
pub open spec fn indices_fold(s: SensorConfig, cat: Seq<(Seq<char>, Seq<Seq<char>>)>, n: nat) -> Result<
    Seq<(Seq<char>, Seq<Seq<char>>)>,
    Seq<char>,
>
    decreases n,
{
    if n == 0 {
        Ok(cat)
    } else {
        match indices_fold(s, cat, (n - 1) as nat) {
            Ok(c) => index_step(s, c, n),
            Err(m) => Err(m),
        }
    }
}

/// Checking template `s` and cataloguing its sensors.
pub open spec fn sensor_step(s: SensorConfig, cat: Seq<(Seq<char>, Seq<Seq<char>>)>) -> Result<
    Seq<(Seq<char>, Seq<Seq<char>>)>,
    Seq<char>,
> {
    let p = s.id_prefix@;
    if s.quantity == 0 {
        Err(named("sensor '"@, p, "' quantity must be greater than zero"@))
    } else if s.timestep_ms == 0 {
        Err(named("sensor '"@, p, "' timestep_ms must be greater than zero"@))
    } else if s.inverted_bounds {
        Err(named("sensor '"@, p, "' min_value must be less than max_value"@))
    } else {
        indices_fold(s, cat, s.quantity as nat)
    }
}

/// Checking the first `k` templates of `sensors`.
pub open spec fn sensors_fold(sensors: Seq<SensorConfig>, cat: Seq<(Seq<char>, Seq<Seq<char>>)>, k: nat) -> Result<
    Seq<(Seq<char>, Seq<Seq<char>>)>,
    Seq<char>,
>
    decreases k,
{
    if k == 0 {
        Ok(cat)
    } else {
        match sensors_fold(sensors, cat, (k - 1) as nat) {
            Ok(c) => sensor_step(sensors[k - 1], c),
            Err(m) => Err(m),
        }
    }
}

/// Checking one entity after the entities whose identities are in `ids`.
pub open spec fn entity_step(e: EntityConfig, ids: Seq<Seq<char>>, cat: Seq<(Seq<char>, Seq<Seq<char>>)>) -> Result<
    (Seq<Seq<char>>, Seq<(Seq<char>, Seq<Seq<char>>)>),
    Seq<char>,
> {
    if ids.contains(e.entity_id@) {
        Err(named("duplicate entity_id '"@, e.entity_id@, "'"@))
    } else if e.sensors@.len() == 0 {
        Err(named("entity '"@, e.entity_id@, "' has no sensors"@))
    } else {
        match sensors_fold(e.sensors@, cat, e.sensors@.len()) {
            Ok(c) => Ok((ids.push(e.entity_id@), c)),
            Err(m) => Err(m),
        }
    }
}

/// Checking the first `k` entities: their identities and the catalogue of
/// every expanded sensor with the metrics it emits.
pub open spec fn entities_fold(entities: Seq<EntityConfig>, k: nat) -> Result<
    (Seq<Seq<char>>, Seq<(Seq<char>, Seq<Seq<char>>)>),
    Seq<char>,
>
    decreases k,
{
    if k == 0 {
        Ok((seq![], seq![]))
    } else {
        match entities_fold(entities, (k - 1) as nat) {
            Ok(acc) => entity_step(entities[k - 1], acc.0, acc.1),
            Err(m) => Err(m),
        }
    }
}

/// The metrics of the first catalogued sensor with identity `id`.
pub open spec fn catalogue_metrics(cat: Seq<(Seq<char>, Seq<Seq<char>>)>, id: Seq<char>) -> Option<Seq<Seq<char>>>
    decreases cat.len(),
{
    if cat.len() == 0 {
        None
    } else if cat[0].0 == id {
        Some(cat[0].1)
    } else {
        catalogue_metrics(cat.drop_first(), id)
    }
}

/// A profile's reference to a sensor metric must resolve.
pub open spec fn target_issue(profile: Seq<char>, t: AnomalyTargetConfig, cat: Seq<(Seq<char>, Seq<Seq<char>>)>) -> Option<Seq<char>> {
    match catalogue_metrics(cat, t.sensor_id@) {
        None => Some(
            "anomaly profile '"@ + profile + "' references unknown sensor_id '"@ + t.sensor_id@ + "'"@,
        ),
        Some(metrics) => if !metrics.contains(t.metric@) {
            Some(
                "anomaly profile '"@ + profile + "' metric '"@ + t.metric@ + "' is not emitted by sensor '"@
                    + t.sensor_id@ + "'"@,
            )
        } else {
            None
        },
    }
}

pub open spec fn not_finite(profile: Seq<char>, field: Seq<char>) -> Seq<char> {
    "anomaly profile '"@ + profile + "' "@ + field + " must be finite"@
}

/// Whether a strategy that lasts for a configured number of samples was
/// given none.
pub open spec fn zero_duration(st: AnomalyStrategyConfig) -> bool {
    match st {
        AnomalyStrategyConfig::StuckAt { duration_samples, .. } => duration_samples == 0,
        AnomalyStrategyConfig::Drift { duration_samples, .. } => duration_samples == 0,
        AnomalyStrategyConfig::BatchCoolingStretch { duration_samples, .. } => duration_samples == 0,
        AnomalyStrategyConfig::Noise { duration_samples, .. } => duration_samples == 0,
        AnomalyStrategyConfig::Contextual { duration_samples, .. } => duration_samples == 0,
        _ => false,
    }
}

/// The rules on a profile's strategy settings.
pub open spec fn strategy_issue(p: Seq<char>, st: AnomalyStrategyConfig, cat: Seq<(Seq<char>, Seq<Seq<char>>)>) -> Option<Seq<char>> {
    if zero_duration(st) {
        Some(named("anomaly profile '"@, p, "' duration_samples must be greater than zero"@))
    } else {
        match st {
            AnomalyStrategyConfig::Spike { offset_finite, multiplier_finite } => if !offset_finite {
                Some(not_finite(p, "offset"@))
            } else if !multiplier_finite {
                Some(not_finite(p, "multiplier"@))
            } else {
                None
            },
            AnomalyStrategyConfig::SpikeDrop { spike_value_finite, drop_value_finite } =>
                if !spike_value_finite {
                Some(not_finite(p, "spike_value"@))
            } else if !drop_value_finite {
                Some(not_finite(p, "drop_value"@))
            } else {
                None
            },
            AnomalyStrategyConfig::StuckAt { value_finite, .. } => if !value_finite {
                Some(not_finite(p, "value"@))
            } else {
                None
            },
            AnomalyStrategyConfig::Drift { total_offset_finite, .. } => if !total_offset_finite {
                Some(not_finite(p, "total_offset"@))
            } else {
                None
            },
            AnomalyStrategyConfig::BatchCoolingStretch {
                low_finite,
                peak_finite,
                rise_samples,
                plateau_samples,
                initial_cool_samples,
                final_cool_samples,
                batches,
                ..
            } => if !low_finite {
                Some(not_finite(p, "low"@))
            } else if !peak_finite {
                Some(not_finite(p, "peak"@))
            } else if rise_samples == 0 || plateau_samples == 0 || initial_cool_samples == 0
                || final_cool_samples < initial_cool_samples || batches < 2 {
                Some(named("anomaly profile '"@, p, "' has an invalid batch cooling profile"@))
            } else {
                None
            },
            AnomalyStrategyConfig::Noise { sigma_valid, .. } => if !sigma_valid {
                Some(named("anomaly profile '"@, p, "' sigma must be finite and greater than zero"@))
            } else {
                None
            },
            AnomalyStrategyConfig::Contextual {
                condition,
                value_finite,
                offset_finite,
                multiplier_finite,
                ..
            } => match target_issue(p, condition.source, cat) {
                Some(m) => Some(m),
                None => if !condition.value_finite {
                    Some(not_finite(p, "condition.value"@))
                } else if !value_finite {
                    Some(not_finite(p, "value"@))
                } else if !offset_finite {
                    Some(not_finite(p, "offset"@))
                } else if !multiplier_finite {
                    Some(not_finite(p, "multiplier"@))
                } else {
                    None
                },
            },
            _ => None,
        }
    }
}

/// Checking one profile after the profiles whose names are in `names`.
pub open spec fn profile_step(pr: AnomalyProfileConfig, names: Seq<Seq<char>>, cat: Seq<(Seq<char>, Seq<Seq<char>>)>) -> Result<
    Seq<Seq<char>>,
    Seq<char>,
> {
    let p = pr.name@;
    if is_blank(p) {
        Err("anomaly profile name cannot be empty"@)
    } else if names.contains(p) {
        Err(named("duplicate anomaly profile name '"@, p, "'"@))
    } else {
        match target_issue(p, pr.target, cat) {
            Some(m) => Err(m),
            None => if !pr.trigger.threshold_valid {
                Err(named("anomaly profile '"@, p, "' trigger.threshold must be between 0 and 1"@))
            } else {
                match strategy_issue(p, pr.strategy, cat) {
                    Some(m) => Err(m),
                    None => Ok(names.push(p)),
                }
            },
        }
    }
}

/// Checking the first `k` profiles.
pub open spec fn profiles_fold(profiles: Seq<AnomalyProfileConfig>, cat: Seq<(Seq<char>, Seq<Seq<char>>)>, k: nat) -> Result<
    Seq<Seq<char>>,
    Seq<char>,
>
    decreases k,
{
    if k == 0 {
        Ok(seq![])
    } else {
        match profiles_fold(profiles, cat, (k - 1) as nat) {
            Ok(names) => profile_step(profiles[k - 1], names, cat),
            Err(m) => Err(m),
        }
    }
}

pub open spec fn empty_dataset_setting(name: Seq<char>) -> Seq<char> {
    "exporters.dataset."@ + name + " cannot be empty when dataset exporter is enabled"@
}

/// The dataset exporter's own rules at wall-clock instant `now_ms`.
pub open spec fn dataset_issue(d: DatasetConfig, now_ms: int) -> Option<Seq<char>> {
    match d.start_time {
        None => Some("exporters.dataset.start_time is required when dataset exporter is enabled"@),
        Some(start) => match rfc3339_timestamp_millis(start@) {
            Err(e) => Some("exporters.dataset.start_time must be RFC 3339: "@ + e),
            Ok(start_ms) => if start_ms > now_ms {
                Some("exporters.dataset.start_time must not be in the future"@)
            } else if is_blank(d.s3_endpoint_url@) {
                Some(empty_dataset_setting("s3_endpoint_url"@))
            } else if is_blank(d.s3_bucket_name@) {
                Some(empty_dataset_setting("s3_bucket_name"@))
            } else if is_blank(d.s3_access_key@) {
                Some(empty_dataset_setting("s3_access_key"@))
            } else if is_blank(d.s3_secret_key@) {
                Some(empty_dataset_setting("s3_secret_key"@))
            } else {
                None
            },
        },
    }
}

/// The exporter rules at wall-clock instant `now_ms`.
pub open spec fn exporters_issue(x: ExportersConfig, now_ms: int) -> Option<Seq<char>> {
    if x.prometheus.enabled && is_blank(x.prometheus.bind@) {
        Some("exporters.prometheus.bind cannot be empty"@)
    } else if x.kafka.enabled && is_blank(x.kafka.brokers@) {
        Some("exporters.kafka.brokers cannot be empty when Kafka is enabled"@)
    } else if x.kafka.enabled && is_blank(x.kafka.topic@) {
        Some("exporters.kafka.topic cannot be empty when Kafka is enabled"@)
    } else if x.dataset.enabled && (x.kafka.enabled || x.prometheus.enabled) {
        Some("dataset exporter cannot be enabled with Kafka or Prometheus exporters"@)
    } else if x.dataset.enabled {
        dataset_issue(x.dataset, now_ms)
    } else {
        None
    }
}

/// The message of the first rule that `c` breaks, checked at wall-clock
/// instant `now_ms`, or `None` when it breaks none.
pub open spec fn spec_validation(c: AppConfig, now_ms: int) -> Option<Seq<char>> {
    if is_blank(c.config_name@) {
        Some("config_name cannot be empty"@)
    } else if c.entities@.len() == 0 {
        Some("at least one entity is required"@)
    } else {
        match entities_fold(c.entities@, c.entities@.len()) {
            Err(m) => Some(m),
            Ok(acc) => match profiles_fold(c.anomalies.profiles@, acc.1, c.anomalies.profiles@.len()) {
                Err(m) => Some(m),
                Ok(_) => exporters_issue(c.exporters, now_ms),
            },
        }
    }
}

/// The validation outcome that `spec_validation` prescribes.
pub open spec fn validation_outcome(r: Result<(), ConfigurationError>, issue: Option<Seq<char>>) -> bool {
    match issue {
        None => r is Ok,
        Some(m) => r matches Err(ConfigurationError::Validation(text)) && text@ == m,
    }
}

// ---------------------------------------------------------------------------
// Once a fold fails, it stays failed with the same message.

proof fn lemma_indices_fold_fails(s: SensorConfig, cat: Seq<(Seq<char>, Seq<Seq<char>>)>, k: nat, n: nat)
    requires
        k <= n,
        indices_fold(s, cat, k) is Err,
    ensures
        indices_fold(s, cat, n) == indices_fold(s, cat, k),
    decreases n - k,
{
    if k < n {
        lemma_indices_fold_fails(s, cat, k, (n - 1) as nat);
    }
}

proof fn lemma_sensors_fold_fails(ss: Seq<SensorConfig>, cat: Seq<(Seq<char>, Seq<Seq<char>>)>, k: nat, n: nat)
    requires
        k <= n,
        sensors_fold(ss, cat, k) is Err,
    ensures
        sensors_fold(ss, cat, n) == sensors_fold(ss, cat, k),
    decreases n - k,
{
    if k < n {
        lemma_sensors_fold_fails(ss, cat, k, (n - 1) as nat);
    }
}

proof fn lemma_entities_fold_fails(es: Seq<EntityConfig>, k: nat, n: nat)
    requires
        k <= n,
        entities_fold(es, k) is Err,
    ensures
        entities_fold(es, n) == entities_fold(es, k),
    decreases n - k,
{
    if k < n {
        lemma_entities_fold_fails(es, k, (n - 1) as nat);
    }
}

proof fn lemma_profiles_fold_fails(ps: Seq<AnomalyProfileConfig>, cat: Seq<(Seq<char>, Seq<Seq<char>>)>, k: nat, n: nat)
    requires
        k <= n,
        profiles_fold(ps, cat, k) is Err,
    ensures
        profiles_fold(ps, cat, n) == profiles_fold(ps, cat, k),
    decreases n - k,
{
    if k < n {
        lemma_profiles_fold_fails(ps, cat, k, (n - 1) as nat);
    }
}

// ---------------------------------------------------------------------------
// What a configuration that passes validation guarantees.

/// The identities in a sensor catalogue, in cataloguing order.
pub open spec fn catalogue_ids(cat: Seq<(Seq<char>, Seq<Seq<char>>)>) -> Seq<Seq<char>> {
    cat.map_values(|e: (Seq<char>, Seq<Seq<char>>)| e.0)
}

/// The identities of the sensors that template `s` expands into, in order.
pub open spec fn template_ids(s: SensorConfig) -> Seq<Seq<char>> {
    Seq::new(s.quantity as nat, |i: int| spec_expanded_id(s.id_prefix@, s.quantity as nat, (i + 1) as nat))
}

/// The identities of the sensors of the first `k` templates, in order.
pub open spec fn templates_ids(ss: Seq<SensorConfig>, k: nat) -> Seq<Seq<char>>
    decreases k,
{
    if k == 0 {
        seq![]
    } else {
        templates_ids(ss, (k - 1) as nat) + template_ids(ss[k - 1])
    }
}

/// The identities of every sensor of the first `k` entities, in order.
pub open spec fn entities_sensor_ids(es: Seq<EntityConfig>, k: nat) -> Seq<Seq<char>>
    decreases k,
{
    if k == 0 {
        seq![]
    } else {
        entities_sensor_ids(es, (k - 1) as nat) + templates_ids(es[k - 1].sensors@, es[k - 1].sensors@.len())
    }
}

/// The catalogue of every expanded sensor of `c` with the metrics it emits,
/// as the entity rules build it.
pub open spec fn config_catalogue(c: AppConfig) -> Seq<(Seq<char>, Seq<Seq<char>>)> {
    match entities_fold(c.entities@, c.entities@.len()) {
        Ok(acc) => acc.1,
        Err(_) => seq![],
    }
}

/// Whether target `t` names a metric that its catalogued sensor emits.
pub open spec fn target_resolves(t: AnomalyTargetConfig, cat: Seq<(Seq<char>, Seq<Seq<char>>)>) -> bool {
    catalogue_metrics(cat, t.sensor_id@) matches Some(ms) && ms.contains(t.metric@)
}

proof fn lemma_push_distinct<A>(s: Seq<A>, x: A)
    requires
        s.no_duplicates(),
        !s.contains(x),
    ensures
        s.push(x).no_duplicates(),
{
    assert forall|i: int, j: int| 0 <= i < s.push(x).len() && 0 <= j < s.push(x).len() && i != j implies s.push(
        x,
    )[i] != s.push(x)[j] by {
        if i == s.len() as int {
            assert(s[j] == s.push(x)[j]);
        } else if j == s.len() as int {
            assert(s[i] == s.push(x)[i]);
        }
    }
}

proof fn lemma_indices_catalogue(s: SensorConfig, cat: Seq<(Seq<char>, Seq<Seq<char>>)>, n: nat)
    requires
        n <= s.quantity,
        catalogue_ids(cat).no_duplicates(),
    ensures
        indices_fold(s, cat, n) matches Ok(c) ==> catalogue_ids(c) == catalogue_ids(cat) + template_ids(s).take(
            n as int,
        ) && catalogue_ids(c).no_duplicates(),
    decreases n,
{
    if n == 0 {
        assert(catalogue_ids(cat) + template_ids(s).take(0) =~= catalogue_ids(cat));
    } else {
        let m = (n - 1) as nat;
        lemma_indices_catalogue(s, cat, m);
        if let Ok(c) = indices_fold(s, cat, m) {
            let id = spec_expanded_id(s.id_prefix@, s.quantity as nat, n);
            if let Ok(next) = index_step(s, c, n) {
                assert(!catalogue_has(c, id));
                let e = next.last();
                assert(next == c.push(e));
                assert(catalogue_ids(next) =~= catalogue_ids(c).push(id));
                if catalogue_ids(c).contains(id) {
                    let j = choose|j: int| 0 <= j < catalogue_ids(c).len() && catalogue_ids(c)[j] == id;
                    assert(c[j].0 == id);
                }
                lemma_push_distinct(catalogue_ids(c), id);
                assert(template_ids(s).take(n as int) =~= template_ids(s).take(m as int).push(id));
            }
        }
    }
}

proof fn lemma_sensors_catalogue(ss: Seq<SensorConfig>, cat: Seq<(Seq<char>, Seq<Seq<char>>)>, k: nat)
    requires
        k <= ss.len(),
        catalogue_ids(cat).no_duplicates(),
    ensures
        sensors_fold(ss, cat, k) matches Ok(c) ==> catalogue_ids(c) == catalogue_ids(cat) + templates_ids(ss, k)
            && catalogue_ids(c).no_duplicates(),
        sensors_fold(ss, cat, k) is Ok ==> forall|i: int| 0 <= i < k ==> (#[trigger] ss[i]).quantity > 0
            && ss[i].timestep_ms > 0 && !ss[i].inverted_bounds,
    decreases k,
{
    if k == 0 {
        assert(catalogue_ids(cat) + templates_ids(ss, 0) =~= catalogue_ids(cat));
    } else {
        let m = (k - 1) as nat;
        lemma_sensors_catalogue(ss, cat, m);
        if let Ok(c) = sensors_fold(ss, cat, m) {
            let s = ss[m as int];
            if sensor_step(s, c) is Ok {
                lemma_indices_catalogue(s, c, s.quantity as nat);
                assert(template_ids(s).take(s.quantity as int) =~= template_ids(s));
                assert(catalogue_ids(cat) + templates_ids(ss, k) =~= catalogue_ids(cat) + templates_ids(ss, m)
                    + template_ids(s));
            }
        }
    }
}

proof fn lemma_entities_catalogue(es: Seq<EntityConfig>, k: nat)
    requires
        k <= es.len(),
    ensures
        entities_fold(es, k) matches Ok(acc) ==> {
            &&& acc.0 == Seq::new(k, |i: int| es[i].entity_id@)
            &&& acc.0.no_duplicates()
            &&& catalogue_ids(acc.1) == entities_sensor_ids(es, k)
            &&& catalogue_ids(acc.1).no_duplicates()
        },
        entities_fold(es, k) is Ok ==> forall|i: int, j: int| 0 <= i < k && 0 <= j < (#[trigger] es[i]).sensors@.len()
            ==> (#[trigger] es[i].sensors@[j]).quantity > 0 && es[i].sensors@[j].timestep_ms > 0
            && !es[i].sensors@[j].inverted_bounds,
    decreases k,
{
    if k == 0 {
        assert(Seq::<Seq<char>>::empty() =~= Seq::new(0, |i: int| es[i].entity_id@));
        assert(catalogue_ids(seq![]) =~= Seq::<Seq<char>>::empty());
    } else {
        let m = (k - 1) as nat;
        lemma_entities_catalogue(es, m);
        if let Ok(acc) = entities_fold(es, m) {
            let e = es[m as int];
            if let Ok(next) = entity_step(e, acc.0, acc.1) {
                lemma_sensors_catalogue(e.sensors@, acc.1, e.sensors@.len());
                lemma_push_distinct(acc.0, e.entity_id@);
                assert(next.0 =~= Seq::new(k, |i: int| es[i].entity_id@));
            }
        }
    }
}

proof fn lemma_profiles_checked(ps: Seq<AnomalyProfileConfig>, cat: Seq<(Seq<char>, Seq<Seq<char>>)>, k: nat)
    requires
        k <= ps.len(),
    ensures
        profiles_fold(ps, cat, k) matches Ok(names) ==> names == Seq::new(k, |i: int| ps[i].name@)
            && names.no_duplicates(),
        profiles_fold(ps, cat, k) is Ok ==> forall|i: int| 0 <= i < k ==> target_resolves(
            (#[trigger] ps[i]).target,
            cat,
        ) && ps[i].trigger.threshold_valid,
    decreases k,
{
    if k == 0 {
        assert(Seq::<Seq<char>>::empty() =~= Seq::new(0, |i: int| ps[i].name@));
    } else {
        let m = (k - 1) as nat;
        lemma_profiles_checked(ps, cat, m);
        if let Ok(names) = profiles_fold(ps, cat, m) {
            let p = ps[m as int];
            if let Ok(next) = profile_step(p, names, cat) {
                lemma_push_distinct(names, p.name@);
                assert(next =~= Seq::new(k, |i: int| ps[i].name@));
            }
        }
    }
}

/// A configuration that passes validation is consistent: entity identities
/// are distinct; every sensor template expands into at least one sensor,
/// has a cadence and proper bounds; the expanded sensor identities, in
/// configuration order, are all distinct and make up the sensor catalogue;
/// anomaly profile names are distinct, and every profile's target names a
/// metric that the targeted sensor emits, with a valid threshold.
pub proof fn lemma_valid_configuration_is_consistent(c: AppConfig, now_ms: int)
    requires
        spec_validation(c, now_ms) is None,
    ensures
        forall|i: int, j: int| 0 <= i < j < c.entities@.len() ==> c.entities@[i].entity_id@
            != c.entities@[j].entity_id@,
        forall|i: int, j: int| 0 <= i < c.entities@.len() && 0 <= j < (#[trigger] c.entities@[i]).sensors@.len()
            ==> (#[trigger] c.entities@[i].sensors@[j]).quantity > 0 && c.entities@[i].sensors@[j].timestep_ms > 0
            && !c.entities@[i].sensors@[j].inverted_bounds,
        catalogue_ids(config_catalogue(c)) == entities_sensor_ids(c.entities@, c.entities@.len()),
        entities_sensor_ids(c.entities@, c.entities@.len()).no_duplicates(),
        forall|i: int, j: int| 0 <= i < j < c.anomalies.profiles@.len() ==> c.anomalies.profiles@[i].name@
            != c.anomalies.profiles@[j].name@,
        forall|i: int| 0 <= i < c.anomalies.profiles@.len() ==> target_resolves(
            (#[trigger] c.anomalies.profiles@[i]).target,
            config_catalogue(c),
        ) && c.anomalies.profiles@[i].trigger.threshold_valid,
{
    let es = c.entities@;
    lemma_entities_catalogue(es, es.len());
    let acc = entities_fold(es, es.len())->Ok_0;
    let ids = acc.0;
    assert forall|i: int, j: int| 0 <= i < j < es.len() implies es[i].entity_id@ != es[j].entity_id@ by {
        assert(ids[i] == es[i].entity_id@ && ids[j] == es[j].entity_id@);
    }
    let ps = c.anomalies.profiles@;
    lemma_profiles_checked(ps, acc.1, ps.len());
    let names = profiles_fold(ps, acc.1, ps.len())->Ok_0;
    assert forall|i: int, j: int| 0 <= i < j < ps.len() implies ps[i].name@ != ps[j].name@ by {
        assert(names[i] == ps[i].name@ && names[j] == ps[j].name@);
    }
}

/// Whether a scenario waveform can be generated: finite amplitudes, phases,
/// levels and step values, a positive sine period, at least one step value
/// held for at least one sample, and batch phases of at least one sample.
pub open spec fn waveform_usable(w: ScenarioWaveformConfig) -> bool {
    match w {
        ScenarioWaveformConfig::Constant => true,
        ScenarioWaveformConfig::Sine { amplitude_finite, period_samples, phase_finite } => amplitude_finite
            && phase_finite && period_samples > 0,
        ScenarioWaveformConfig::StepCycle { value_count, values_finite, samples_per_step } => value_count > 0
            && values_finite && samples_per_step > 0,
        ScenarioWaveformConfig::BatchTemperature { low_finite, peak_finite, rise_samples, plateau_samples, cool_samples } =>
            low_finite && peak_finite && rise_samples > 0 && plateau_samples > 0 && cool_samples > 0,
    }
}

/// Whether template `s` carries the blocks its type needs: a scenario
/// signal, and only it, has a usable scenario block with a named metric and
/// a finite baseline and noise; a data-center rack has a rack block with
/// valid settings, and no other type but a scenario signal (whose rack
/// block is never read) has one.
pub open spec fn template_blocks_valid(s: SensorConfig) -> bool {
    &&& (s.scenario is Some <==> s.sensor_type == SensorType::ScenarioSignal)
    &&& (s.sensor_type == SensorType::DataCenterRack ==> s.data_center_rack is Some)
    &&& (s.scenario matches Some(sc) ==> !is_blank(sc.metric@) && sc.baseline_finite && sc.noise_sigma_valid
        && waveform_usable(sc.waveform))
    &&& (s.sensor_type != SensorType::ScenarioSignal ==> (s.data_center_rack matches Some(r)
        ==> s.sensor_type == SensorType::DataCenterRack && r.settings_valid))
}

proof fn lemma_kind_issue_none(s: SensorConfig)
    ensures
        kind_issue(s) is None <==> template_blocks_valid(s),
{
}

proof fn lemma_indices_blocks(s: SensorConfig, cat: Seq<(Seq<char>, Seq<Seq<char>>)>, n: nat)
    requires
        n >= 1,
        indices_fold(s, cat, n) is Ok,
    ensures
        template_blocks_valid(s),
    decreases n,
{
    if n == 1 {
        lemma_kind_issue_none(s);
        assert(index_step(s, cat, 1) is Ok);
    } else {
        if indices_fold(s, cat, (n - 1) as nat) is Err {
            assert(indices_fold(s, cat, n) is Err);
        }
        lemma_indices_blocks(s, cat, (n - 1) as nat);
    }
}

proof fn lemma_sensors_blocks(ss: Seq<SensorConfig>, cat: Seq<(Seq<char>, Seq<Seq<char>>)>, k: nat)
    requires
        k <= ss.len(),
        sensors_fold(ss, cat, k) is Ok,
    ensures
        forall|i: int| 0 <= i < k ==> template_blocks_valid(#[trigger] ss[i]),
    decreases k,
{
    if k > 0 {
        let m = (k - 1) as nat;
        if sensors_fold(ss, cat, m) is Err {
            assert(sensors_fold(ss, cat, k) is Err);
        }
        lemma_sensors_blocks(ss, cat, m);
        let c = sensors_fold(ss, cat, m)->Ok_0;
        let s = ss[m as int];
        assert(sensor_step(s, c) is Ok);
        lemma_indices_blocks(s, c, s.quantity as nat);
    }
}

proof fn lemma_entities_blocks(es: Seq<EntityConfig>, k: nat)
    requires
        k <= es.len(),
        entities_fold(es, k) is Ok,
    ensures
        forall|i: int| 0 <= i < k ==> (#[trigger] es[i]).sensors@.len() > 0,
        forall|i: int, j: int| 0 <= i < k && 0 <= j < (#[trigger] es[i]).sensors@.len() ==> template_blocks_valid(
            #[trigger] es[i].sensors@[j],
        ),
    decreases k,
{
    if k > 0 {
        let m = (k - 1) as nat;
        if entities_fold(es, m) is Err {
            assert(entities_fold(es, k) is Err);
        }
        lemma_entities_blocks(es, m);
        let acc = entities_fold(es, m)->Ok_0;
        let e = es[m as int];
        assert(entity_step(e, acc.0, acc.1) is Ok);
        lemma_sensors_blocks(e.sensors@, acc.1, e.sensors@.len());
    }
}

/// A configuration that passes validation gives every entity at least one
/// sensor template, and every template exactly the blocks its type needs,
/// each of them usable.
pub proof fn lemma_valid_sensor_templates(c: AppConfig, now_ms: int)
    requires
        spec_validation(c, now_ms) is None,
    ensures
        forall|i: int| 0 <= i < c.entities@.len() ==> (#[trigger] c.entities@[i]).sensors@.len() > 0,
        forall|i: int, j: int| 0 <= i < c.entities@.len() && 0 <= j < (#[trigger] c.entities@[i]).sensors@.len()
            ==> template_blocks_valid(#[trigger] c.entities@[i].sensors@[j]),
{
    lemma_entities_blocks(c.entities@, c.entities@.len());
}

/// Whether strategy `st` is usable over sensor catalogue `cat`: every
/// strategy that lasts a configured number of samples lasts at least one;
/// every value, offset and multiplier is finite; a noise sigma is valid; a
/// batch cooling profile has rising, plateau and cooling phases, cooling
/// that does not shorten, and at least two batches; a contextual condition
/// reads a metric that its sensor emits. Model-level strategies carry no
/// such settings.
pub open spec fn strategy_settings_valid(st: AnomalyStrategyConfig, cat: Seq<(Seq<char>, Seq<Seq<char>>)>) -> bool {
    match st {
        AnomalyStrategyConfig::Spike { offset_finite, multiplier_finite } => offset_finite && multiplier_finite,
        AnomalyStrategyConfig::SpikeDrop { spike_value_finite, drop_value_finite } => spike_value_finite
            && drop_value_finite,
        AnomalyStrategyConfig::StuckAt { duration_samples, value_finite } => duration_samples > 0 && value_finite,
        AnomalyStrategyConfig::Drift { duration_samples, total_offset_finite } => duration_samples > 0
            && total_offset_finite,
        AnomalyStrategyConfig::BatchCoolingStretch {
            duration_samples,
            low_finite,
            peak_finite,
            rise_samples,
            plateau_samples,
            initial_cool_samples,
            final_cool_samples,
            batches,
        } => duration_samples > 0 && low_finite && peak_finite && rise_samples > 0 && plateau_samples > 0
            && initial_cool_samples > 0 && initial_cool_samples <= final_cool_samples && batches >= 2,
        AnomalyStrategyConfig::Noise { duration_samples, sigma_valid } => duration_samples > 0 && sigma_valid,
        AnomalyStrategyConfig::Contextual {
            duration_samples,
            condition,
            value_finite,
            offset_finite,
            multiplier_finite,
        } => duration_samples > 0 && target_resolves(condition.source, cat) && condition.value_finite
            && value_finite && offset_finite && multiplier_finite,
        AnomalyStrategyConfig::RoboticAirLockSealFailure { .. } => true,
        AnomalyStrategyConfig::RoboticAirLockWetPayload { .. } => true,
    }
}

proof fn lemma_strategy_issue_none(p: Seq<char>, st: AnomalyStrategyConfig, cat: Seq<(Seq<char>, Seq<Seq<char>>)>)
    ensures
        strategy_issue(p, st, cat) is None <==> strategy_settings_valid(st, cat),
{
}

proof fn lemma_profiles_settings(ps: Seq<AnomalyProfileConfig>, cat: Seq<(Seq<char>, Seq<Seq<char>>)>, k: nat)
    requires
        k <= ps.len(),
        profiles_fold(ps, cat, k) is Ok,
    ensures
        forall|i: int| 0 <= i < k ==> !is_blank((#[trigger] ps[i]).name@) && strategy_settings_valid(
            ps[i].strategy,
            cat,
        ),
    decreases k,
{
    if k > 0 {
        let m = (k - 1) as nat;
        if profiles_fold(ps, cat, m) is Err {
            assert(profiles_fold(ps, cat, k) is Err);
        }
        lemma_profiles_settings(ps, cat, m);
        let names = profiles_fold(ps, cat, m)->Ok_0;
        lemma_strategy_issue_none(ps[m as int].name@, ps[m as int].strategy, cat);
        assert(profile_step(ps[m as int], names, cat) is Ok);
    }
}

/// A configuration that passes validation has only named anomaly profiles,
/// each with usable strategy settings.
pub proof fn lemma_valid_profile_settings(c: AppConfig, now_ms: int)
    requires
        spec_validation(c, now_ms) is None,
    ensures
        forall|i: int| 0 <= i < c.anomalies.profiles@.len() ==> !is_blank((#[trigger] c.anomalies.profiles@[i]).name@)
            && strategy_settings_valid(c.anomalies.profiles@[i].strategy, config_catalogue(c)),
{
    let ps = c.anomalies.profiles@;
    let acc = entities_fold(c.entities@, c.entities@.len())->Ok_0;
    lemma_profiles_settings(ps, acc.1, ps.len());
}

/// A configuration that passes validation at instant `now_ms` has a name
/// and at least one entity, and its exporters are usable: an enabled
/// Prometheus exporter has a bind address; an enabled Kafka exporter has
/// brokers and a topic; an enabled dataset exporter runs alone, starts at a
/// well-formed RFC 3339 instant no later than `now_ms`, and has its S3
/// endpoint, bucket and keys.
pub proof fn lemma_valid_exporters(c: AppConfig, now_ms: int)
    requires
        spec_validation(c, now_ms) is None,
    ensures
        !is_blank(c.config_name@),
        c.entities@.len() > 0,
        c.exporters.prometheus.enabled ==> !is_blank(c.exporters.prometheus.bind@),
        c.exporters.kafka.enabled ==> !is_blank(c.exporters.kafka.brokers@),
        c.exporters.kafka.enabled ==> !is_blank(c.exporters.kafka.topic@),
        c.exporters.dataset.enabled ==> !c.exporters.kafka.enabled && !c.exporters.prometheus.enabled,
        c.exporters.dataset.enabled ==> ({
            let d = c.exporters.dataset;
            &&& d.start_time is Some
            &&& rfc3339_timestamp_millis(d.start_time->0@) matches Ok(start_ms) && start_ms <= now_ms
            &&& !is_blank(d.s3_endpoint_url@)
            &&& !is_blank(d.s3_bucket_name@)
            &&& !is_blank(d.s3_access_key@)
            &&& !is_blank(d.s3_secret_key@)
        }),
{
}

/// Only the dataset's start-time rule reads the clock: without the dataset
/// exporter, the outcome of validation does not depend on the instant.
pub proof fn lemma_validation_ignores_clock_without_dataset(c: AppConfig, t1: int, t2: int)
    requires
        !c.exporters.dataset.enabled,
    ensures
        spec_validation(c, t1) == spec_validation(c, t2),
{
}

/// A configuration that is valid at some instant stays valid later: the
/// passing of time never invalidates a dataset start time.
pub proof fn lemma_validity_persists(c: AppConfig, t1: int, t2: int)
    requires
        spec_validation(c, t1) is None,
        t1 <= t2,
    ensures
        spec_validation(c, t2) is None,
{
}

// ---------------------------------------------------------------------------
// The checks

/// A catalogued expanded sensor: its identity and the metrics it emits.
struct Catalogued {
    id: String,
    metrics: Vec<String>,
}

spec fn texts(v: Seq<String>) -> Seq<Seq<char>> {
    v.map_values(|m: String| m@)
}

spec fn catalogue_view(c: Seq<Catalogued>) -> Seq<(Seq<char>, Seq<Seq<char>>)> {
    c.map_values(|e: Catalogued| (e.id@, texts(e.metrics@)))
}

/// An optional message matches an optional specified message.
pub open spec fn same_issue(r: Option<String>, m: Option<Seq<char>>) -> bool {
    match m {
        None => r is None,
        Some(t) => r matches Some(x) && x@ == t,
    }
}

/// A step's outcome matches its specified outcome.
pub open spec fn same_step<T>(r: Result<(), String>, m: Result<T, Seq<char>>) -> bool {
    match m {
        Ok(_) => r is Ok,
        Err(t) => r matches Err(x) && x@ == t,
    }
}

fn message(before: &str, name: &str, after: &str) -> (r: String)
    ensures
        r@ == named(before@, name@, after@),
{
    let mut m = String::from_str(before);
    push_text(&mut m, name);
    push_text(&mut m, after);
    m
}

fn text_in(list: &Vec<String>, item: &str) -> (r: bool)
    ensures
        r == texts(list@).contains(item@),
{
    let mut i: usize = 0;
    while i < list.len()
        invariant
            i <= list@.len(),
            forall|j: int| 0 <= j < i ==> texts(list@)[j] != item@,
        decreases list@.len() - i,
    {
        if same_text(list[i].as_str(), item) {
            assert(texts(list@)[i as int] == item@);
            return true;
        }
        i = i + 1;
    }
    false
}

fn catalogue_index(cat: &Vec<Catalogued>, id: &str) -> (r: Option<usize>)
    ensures
        match catalogue_metrics(catalogue_view(cat@), id@) {
            None => r is None,
            Some(ms) => r matches Some(i) && i < cat@.len() && texts(cat@[i as int].metrics@) == ms,
        },
        r is None <==> !catalogue_has(catalogue_view(cat@), id@),
{
    let ghost view = catalogue_view(cat@);
    assert(view.subrange(0, view.len() as int) =~= view);
    let mut i: usize = 0;
    while i < cat.len()
        invariant
            i <= cat@.len(),
            view == catalogue_view(cat@),
            catalogue_metrics(view, id@) == catalogue_metrics(view.subrange(i as int, view.len() as int), id@),
            forall|j: int| 0 <= j < i ==> view[j].0 != id@,
        decreases cat@.len() - i,
    {
        let ghost rest = view.subrange(i as int, view.len() as int);
        assert(rest[0] == view[i as int]);
        if same_text(cat[i].id.as_str(), id) {
            assert(catalogue_has(view, id@)) by {
                assert(view[i as int].0 == id@);
            }
            return Some(i);
        }
        assert(rest.drop_first() =~= view.subrange(i + 1, view.len() as int));
        i = i + 1;
    }
    assert(view.subrange(i as int, view.len() as int) =~= Seq::<(Seq<char>, Seq<Seq<char>>)>::empty());
    None
}

fn catalogue_holds(cat: &Vec<Catalogued>, id: &str) -> (r: bool)
    ensures
        r == catalogue_has(catalogue_view(cat@), id@),
{
    catalogue_index(cat, id).is_some()
}

fn metric_list(s: &SensorConfig) -> (r: Vec<String>)
    ensures
        texts(r@) == sensor_metric_names(*s),
{
    if s.sensor_type == SensorType::ScenarioSignal {
        if let Some(sc) = &s.scenario {
            let r = vec![sc.metric.clone()];
            assert(texts(r@) =~= seq![sc.metric@]);
            return r;
        }
    }
    let names = s.sensor_type.metric_names();
    let mut r: Vec<String> = Vec::new();
    let mut i: usize = 0;
    while i < names.len()
        invariant
            i <= names@.len(),
            names@.map_values(|t: &str| t@) == spec_metric_names(s.sensor_type),
            texts(r@) == names@.map_values(|t: &str| t@).subrange(0, i as int),
        decreases names@.len() - i,
    {
        let owned = names[i].to_owned();
        assert(owned@ == names@.map_values(|t: &str| t@)[i as int]);
        let ghost before = r@;
        r.push(owned);
        assert(r@ == before.push(owned));
        assert(texts(r@) =~= texts(before).push(owned@));
        assert(texts(r@) =~= names@.map_values(|t: &str| t@).subrange(0, i + 1));
        i = i + 1;
    }
    assert(names@.map_values(|t: &str| t@).subrange(0, i as int) =~= names@.map_values(|t: &str| t@));
    r
}

fn waveform_rejected(w: &ScenarioWaveformConfig) -> (r: bool)
    ensures
        r == waveform_invalid(*w),
{
    match w {
        ScenarioWaveformConfig::Constant => false,
        ScenarioWaveformConfig::Sine { amplitude_finite, period_samples, phase_finite } =>
            !*amplitude_finite || *period_samples == 0 || !*phase_finite,
        ScenarioWaveformConfig::StepCycle { value_count, values_finite, samples_per_step } =>
            *value_count == 0 || *samples_per_step == 0 || !*values_finite,
        ScenarioWaveformConfig::BatchTemperature {
            low_finite,
            peak_finite,
            rise_samples,
            plateau_samples,
            cool_samples,
        } => !*low_finite || !*peak_finite || *rise_samples == 0 || *plateau_samples == 0
            || *cool_samples == 0,
    }
}

fn check_scenario(sc: &ScenarioSignalConfig, prefix: &str) -> (r: Option<String>)
    ensures
        same_issue(r, scenario_issue(*sc, prefix@)),
{
    if blank(sc.metric.as_str()) || !sc.baseline_finite {
        Some(message("scenario_signal sensor '", prefix, "' requires a non-empty metric and finite baseline"))
    } else if !sc.noise_sigma_valid {
        Some(message("scenario_signal sensor '", prefix, "' noise_sigma must be finite and non-negative"))
    } else if waveform_rejected(&sc.waveform) {
        Some(message("scenario_signal sensor '", prefix, "' has an invalid waveform"))
    } else {
        None
    }
}

fn check_kind(s: &SensorConfig) -> (r: Option<String>)
    ensures
        same_issue(r, kind_issue(*s)),
{
    let p = s.id_prefix.as_str();
    if s.sensor_type == SensorType::ScenarioSignal {
        match &s.scenario {
            None => Some(message("scenario_signal sensor '", p, "' requires a scenario block")),
            Some(sc) => check_scenario(sc, p),
        }
    } else if s.scenario.is_some() {
        Some(message("sensor '", p, "' may only use scenario with type scenario_signal"))
    } else if s.sensor_type == SensorType::DataCenterRack {
        match &s.data_center_rack {
            None => Some(message("data_center_rack sensor '", p, "' requires a data_center_rack block")),
            Some(rack) => if !rack.settings_valid {
                Some(message("data_center_rack sensor '", p, "' has invalid physical model settings"))
            } else {
                None
            },
        }
    } else if s.data_center_rack.is_some() {
        Some(message("sensor '", p, "' may only use data_center_rack with type data_center_rack"))
    } else {
        None
    }
}

fn check_indices(s: &SensorConfig, cat: &mut Vec<Catalogued>) -> (r: Result<(), String>)
    ensures
        same_step(r, indices_fold(*s, catalogue_view(old(cat)@), s.quantity as nat)),
        indices_fold(*s, catalogue_view(old(cat)@), s.quantity as nat) matches Ok(c)
            ==> catalogue_view(final(cat)@) == c,
{
    let ghost start = catalogue_view(cat@);
    let mut index: usize = 0;
    while index < s.quantity
        invariant
            index <= s.quantity,
            start == catalogue_view(old(cat)@),
            indices_fold(*s, start, index as nat) == Ok::<_, Seq<char>>(catalogue_view(cat@)),
        decreases s.quantity - index,
    {
        index = index + 1;
        let id = s.expanded_id(index);
        if catalogue_holds(cat, id.as_str()) {
            proof {
                lemma_indices_fold_fails(*s, start, index as nat, s.quantity as nat);
                }
            return Err(message("duplicate expanded sensor_id '", id.as_str(), "'"));
        }
        match check_kind(s) {
            Some(m) => {
                proof {
                    lemma_indices_fold_fails(*s, start, index as nat, s.quantity as nat);
                }
                return Err(m);
            },
            None => {},
        }
        let metrics = metric_list(s);
        let ghost before = cat@;
        cat.push(Catalogued { id, metrics });
        assert(catalogue_view(cat@) =~= catalogue_view(before).push(
            (spec_expanded_id(s.id_prefix@, s.quantity as nat, index as nat), sensor_metric_names(*s)),
        ));
    }
    Ok(())
}

fn check_sensor(s: &SensorConfig, cat: &mut Vec<Catalogued>) -> (r: Result<(), String>)
    ensures
        same_step(r, sensor_step(*s, catalogue_view(old(cat)@))),
        sensor_step(*s, catalogue_view(old(cat)@)) matches Ok(c) ==> catalogue_view(final(cat)@) == c,
{
    let p = s.id_prefix.as_str();
    if s.quantity == 0 {
        return Err(message("sensor '", p, "' quantity must be greater than zero"));
    }
    if s.timestep_ms == 0 {
        return Err(message("sensor '", p, "' timestep_ms must be greater than zero"));
    }
    if s.inverted_bounds {
        return Err(message("sensor '", p, "' min_value must be less than max_value"));
    }
    check_indices(s, cat)
}

fn check_sensors(sensors: &Vec<SensorConfig>, cat: &mut Vec<Catalogued>) -> (r: Result<(), String>)
    ensures
        same_step(r, sensors_fold(sensors@, catalogue_view(old(cat)@), sensors@.len())),
        sensors_fold(sensors@, catalogue_view(old(cat)@), sensors@.len()) matches Ok(c)
            ==> catalogue_view(final(cat)@) == c,
{
    let ghost start = catalogue_view(cat@);
    let mut k: usize = 0;
    while k < sensors.len()
        invariant
            k <= sensors@.len(),
            start == catalogue_view(old(cat)@),
            sensors_fold(sensors@, start, k as nat) == Ok::<_, Seq<char>>(catalogue_view(cat@)),
        decreases sensors@.len() - k,
    {
        let r = check_sensor(&sensors[k], cat);
        if r.is_err() {
            proof {
                lemma_sensors_fold_fails(sensors@, start, (k + 1) as nat, sensors@.len());
            }
            return r;
        }
        k = k + 1;
    }
    Ok(())
}

fn check_entities(entities: &Vec<EntityConfig>) -> (r: Result<Vec<Catalogued>, String>)
    ensures
        match entities_fold(entities@, entities@.len()) {
            Ok(acc) => r matches Ok(c) && catalogue_view(c@) == acc.1,
            Err(m) => r matches Err(x) && x@ == m,
        },
{
    let mut ids: Vec<String> = Vec::new();
    let mut cat: Vec<Catalogued> = Vec::new();
    let mut k: usize = 0;
    assert(catalogue_view(cat@) =~= seq![]);
    assert(texts(ids@) =~= seq![]);
    while k < entities.len()
        invariant
            k <= entities@.len(),
            entities_fold(entities@, k as nat) == Ok::<_, Seq<char>>((texts(ids@), catalogue_view(cat@))),
        decreases entities@.len() - k,
    {
        let e = &entities[k];
        if text_in(&ids, e.entity_id.as_str()) {
            proof {
                lemma_entities_fold_fails(entities@, (k + 1) as nat, entities@.len());
            }
            return Err(message("duplicate entity_id '", e.entity_id.as_str(), "'"));
        }
        if e.sensors.len() == 0 {
            proof {
                lemma_entities_fold_fails(entities@, (k + 1) as nat, entities@.len());
            }
            return Err(message("entity '", e.entity_id.as_str(), "' has no sensors"));
        }
        let ghost before_ids = ids@;
        let ghost before_cat = catalogue_view(cat@);
        assert(entities@[k as int] == *e);
        match check_sensors(&e.sensors, &mut cat) {
            Err(m) => {
                proof {
                    lemma_entities_fold_fails(entities@, (k + 1) as nat, entities@.len());
                }
                return Err(m);
            },
            Ok(()) => {},
        }
        let id = e.entity_id.clone();
        ids.push(id);
        assert(ids@ == before_ids.push(id));
        assert(texts(ids@) =~= texts(before_ids).push(e.entity_id@));
        assert(entity_step(*e, texts(before_ids), before_cat) == Ok::<_, Seq<char>>(
            (texts(ids@), catalogue_view(cat@)),
        ));
        k = k + 1;
    }
    Ok(cat)
}

fn validate_anomaly_target(profile: &str, t: &AnomalyTargetConfig, cat: &Vec<Catalogued>) -> (r: Option<String>)
    ensures
        same_issue(r, target_issue(profile@, *t, catalogue_view(cat@))),
{
    match catalogue_index(cat, t.sensor_id.as_str()) {
        None => {
            let mut m = String::from_str("anomaly profile '");
            push_text(&mut m, profile);
            push_text(&mut m, "' references unknown sensor_id '");
            push_text(&mut m, t.sensor_id.as_str());
            push_text(&mut m, "'");
            Some(m)
        },
        Some(i) => {
            if text_in(&cat[i].metrics, t.metric.as_str()) {
                None
            } else {
                let mut m = String::from_str("anomaly profile '");
                push_text(&mut m, profile);
                push_text(&mut m, "' metric '");
                push_text(&mut m, t.metric.as_str());
                push_text(&mut m, "' is not emitted by sensor '");
                push_text(&mut m, t.sensor_id.as_str());
                push_text(&mut m, "'");
                Some(m)
            }
        },
    }
}

fn non_finite(profile: &str, field: &str) -> (r: String)
    ensures
        r@ == not_finite(profile@, field@),
{
    let mut m = String::from_str("anomaly profile '");
    push_text(&mut m, profile);
    push_text(&mut m, "' ");
    push_text(&mut m, field);
    push_text(&mut m, " must be finite");
    m
}

fn check_strategy(p: &str, st: &AnomalyStrategyConfig, cat: &Vec<Catalogued>) -> (r: Option<String>)
    ensures
        same_issue(r, strategy_issue(p@, *st, catalogue_view(cat@))),
{
    let zero = match st {
        AnomalyStrategyConfig::StuckAt { duration_samples, .. } => *duration_samples == 0,
        AnomalyStrategyConfig::Drift { duration_samples, .. } => *duration_samples == 0,
        AnomalyStrategyConfig::BatchCoolingStretch { duration_samples, .. } => *duration_samples == 0,
        AnomalyStrategyConfig::Noise { duration_samples, .. } => *duration_samples == 0,
        AnomalyStrategyConfig::Contextual { duration_samples, .. } => *duration_samples == 0,
        _ => false,
    };
    if zero {
        return Some(message("anomaly profile '", p, "' duration_samples must be greater than zero"));
    }
    match st {
        AnomalyStrategyConfig::Spike { offset_finite, multiplier_finite } => if !*offset_finite {
            Some(non_finite(p, "offset"))
        } else if !*multiplier_finite {
            Some(non_finite(p, "multiplier"))
        } else {
            None
        },
        AnomalyStrategyConfig::SpikeDrop { spike_value_finite, drop_value_finite } =>
            if !*spike_value_finite {
            Some(non_finite(p, "spike_value"))
        } else if !*drop_value_finite {
            Some(non_finite(p, "drop_value"))
        } else {
            None
        },
        AnomalyStrategyConfig::StuckAt { value_finite, .. } => if !*value_finite {
            Some(non_finite(p, "value"))
        } else {
            None
        },
        AnomalyStrategyConfig::Drift { total_offset_finite, .. } => if !*total_offset_finite {
            Some(non_finite(p, "total_offset"))
        } else {
            None
        },
        AnomalyStrategyConfig::BatchCoolingStretch {
            low_finite,
            peak_finite,
            rise_samples,
            plateau_samples,
            initial_cool_samples,
            final_cool_samples,
            batches,
            ..
        } => if !*low_finite {
            Some(non_finite(p, "low"))
        } else if !*peak_finite {
            Some(non_finite(p, "peak"))
        } else if *rise_samples == 0 || *plateau_samples == 0 || *initial_cool_samples == 0
            || *final_cool_samples < *initial_cool_samples || *batches < 2 {
            Some(message("anomaly profile '", p, "' has an invalid batch cooling profile"))
        } else {
            None
        },
        AnomalyStrategyConfig::Noise { sigma_valid, .. } => if !*sigma_valid {
            Some(message("anomaly profile '", p, "' sigma must be finite and greater than zero"))
        } else {
            None
        },
        AnomalyStrategyConfig::Contextual {
            condition,
            value_finite,
            offset_finite,
            multiplier_finite,
            ..
        } => match validate_anomaly_target(p, &condition.source, cat) {
            Some(m) => Some(m),
            None => if !condition.value_finite {
                Some(non_finite(p, "condition.value"))
            } else if !*value_finite {
                Some(non_finite(p, "value"))
            } else if !*offset_finite {
                Some(non_finite(p, "offset"))
            } else if !*multiplier_finite {
                Some(non_finite(p, "multiplier"))
            } else {
                None
            },
        },
        _ => None,
    }
}

fn check_profiles(profiles: &Vec<AnomalyProfileConfig>, cat: &Vec<Catalogued>) -> (r: Result<(), String>)
    ensures
        same_step(r, profiles_fold(profiles@, catalogue_view(cat@), profiles@.len())),
{
    let ghost view = catalogue_view(cat@);
    let mut names: Vec<String> = Vec::new();
    let mut k: usize = 0;
    assert(texts(names@) =~= seq![]);
    while k < profiles.len()
        invariant
            k <= profiles@.len(),
            view == catalogue_view(cat@),
            profiles_fold(profiles@, view, k as nat) == Ok::<_, Seq<char>>(texts(names@)),
        decreases profiles@.len() - k,
    {
        let pr = &profiles[k];
        let p = pr.name.as_str();
        let failure: Option<String> = if blank(p) {
            Some(String::from_str("anomaly profile name cannot be empty"))
        } else if text_in(&names, p) {
            Some(message("duplicate anomaly profile name '", p, "'"))
        } else {
            match validate_anomaly_target(p, &pr.target, cat) {
                Some(m) => Some(m),
                None => if !pr.trigger.threshold_valid {
                    Some(message("anomaly profile '", p, "' trigger.threshold must be between 0 and 1"))
                } else {
                    check_strategy(p, &pr.strategy, cat)
                },
            }
        };
        match failure {
            Some(m) => {
                proof {
                    lemma_profiles_fold_fails(profiles@, view, (k + 1) as nat, profiles@.len());
                }
                return Err(m);
            },
            None => {},
        }
        let ghost before = names@;
        let owned = pr.name.clone();
        names.push(owned);
        assert(names@ == before.push(owned));
        assert(texts(names@) =~= texts(before).push(pr.name@));
        k = k + 1;
    }
    Ok(())
}

fn empty_setting(name: &str) -> (r: String)
    ensures
        r@ == empty_dataset_setting(name@),
{
    let mut m = String::from_str("exporters.dataset.");
    push_text(&mut m, name);
    push_text(&mut m, " cannot be empty when dataset exporter is enabled");
    m
}

fn check_dataset(d: &DatasetConfig, now_ms: i64) -> (r: Option<String>)
    ensures
        same_issue(r, dataset_issue(*d, now_ms as int)),
{
    match &d.start_time {
        None => Some(String::from_str("exporters.dataset.start_time is required when dataset exporter is enabled")),
        Some(start) => match parse_rfc3339_millis(start.as_str()) {
            Err(e) => {
                let mut m = String::from_str("exporters.dataset.start_time must be RFC 3339: ");
                push_text(&mut m, e.as_str());
                Some(m)
            },
            Ok(start_ms) => if start_ms > now_ms {
                Some(String::from_str("exporters.dataset.start_time must not be in the future"))
            } else if blank(d.s3_endpoint_url.as_str()) {
                Some(empty_setting("s3_endpoint_url"))
            } else if blank(d.s3_bucket_name.as_str()) {
                Some(empty_setting("s3_bucket_name"))
            } else if blank(d.s3_access_key.as_str()) {
                Some(empty_setting("s3_access_key"))
            } else if blank(d.s3_secret_key.as_str()) {
                Some(empty_setting("s3_secret_key"))
            } else {
                None
            },
        },
    }
}

fn check_exporters(x: &ExportersConfig, now_ms: i64) -> (r: Option<String>)
    ensures
        same_issue(r, exporters_issue(*x, now_ms as int)),
{
    if x.prometheus.enabled && blank(x.prometheus.bind.as_str()) {
        Some(String::from_str("exporters.prometheus.bind cannot be empty"))
    } else if x.kafka.enabled && blank(x.kafka.brokers.as_str()) {
        Some(String::from_str("exporters.kafka.brokers cannot be empty when Kafka is enabled"))
    } else if x.kafka.enabled && blank(x.kafka.topic.as_str()) {
        Some(String::from_str("exporters.kafka.topic cannot be empty when Kafka is enabled"))
    } else if x.dataset.enabled && (x.kafka.enabled || x.prometheus.enabled) {
        Some(String::from_str("dataset exporter cannot be enabled with Kafka or Prometheus exporters"))
    } else if x.dataset.enabled {
        check_dataset(&x.dataset, now_ms)
    } else {
        None
    }
}

impl AppConfig {
    /// Checks every rule, taking `now_ms` as the current wall-clock instant,
    /// and reports the first rule broken.
    pub fn validate_at(&self, now_ms: i64) -> (r: Result<(), ConfigurationError>)
        ensures
            validation_outcome(r, spec_validation(*self, now_ms as int)),
    {
        if blank(self.config_name.as_str()) {
            return Err(ConfigurationError::Validation(String::from_str("config_name cannot be empty")));
        }
        if self.entities.len() == 0 {
            return Err(ConfigurationError::Validation(String::from_str("at least one entity is required")));
        }
        let cat = match check_entities(&self.entities) {
            Err(m) => {
                return Err(ConfigurationError::Validation(m));
            },
            Ok(c) => c,
        };
        match check_profiles(&self.anomalies.profiles, &cat) {
            Err(m) => {
                return Err(ConfigurationError::Validation(m));
            },
            Ok(()) => {},
        }
        match check_exporters(&self.exporters, now_ms) {
            Some(m) => Err(ConfigurationError::Validation(m)),
            None => Ok(()),
        }
    }

    /// Checks every rule against the current wall-clock instant and reports
    /// the first rule broken. Only the dataset start time's rule reads the
    /// clock, and the clock is read only when the dataset exporter is
    /// enabled.
    pub fn validate(&self) -> (r: Result<(), ConfigurationError>)
        ensures
            exists|now_ms: i64| validation_outcome(r, #[trigger] spec_validation(*self, now_ms as int)),
            !self.exporters.dataset.enabled ==> forall|t: int| validation_outcome(
                r,
                #[trigger] spec_validation(*self, t),
            ),
    {
        let now_ms = if self.exporters.dataset.enabled {
            system_clock_millis()
        } else {
            0
        };
        let r = self.validate_at(now_ms);
        assert(validation_outcome(r, spec_validation(*self, now_ms as int)));
        proof {
            if !self.exporters.dataset.enabled {
                assert forall|t: int| validation_outcome(r, #[trigger] spec_validation(*self, t)) by {
                    lemma_validation_ignores_clock_without_dataset(*self, now_ms as int, t);
                }
            }
        }
        r
    }
}

} // verus!
