//! How a validated configuration turns into running parts: the sensors each
//! entity expands into, the simulator services that drive them, the
//! exporters that receive their telemetry, and where the configuration is
//! read from.
use vstd::prelude::*;
use vstd::string::*;

use crate::config::{ExportersConfig, SensorType};
use crate::text::same_text;
use crate::validation::{spec_expanded_id, SensorConfig};

verus! {

/// A simulator service: one physical model family that samples every sensor
/// of the types it owns.
#[derive(Debug, Clone, Copy, PartialEq, Eq, Structural)]
pub enum ServiceKind {
    Weather,
    Sound,
    Electrical,
    Electrochemistry,
    ProcessAnalytics,
    GasSafety,
    Hydraulics,
    ScenarioSignals,
    DataCenterRack,
}

/// The service name reported in logs.
pub open spec fn spec_service_name(k: ServiceKind) -> Seq<char> {
    match k {
        ServiceKind::Weather => "weather"@,
        ServiceKind::Sound => "sound"@,
        ServiceKind::Electrical => "electrical"@,
        ServiceKind::Electrochemistry => "electrochemistry"@,
        ServiceKind::ProcessAnalytics => "process_analytics"@,
        ServiceKind::GasSafety => "gas_environmental_safety"@,
        ServiceKind::Hydraulics => "fluid_hydraulics"@,
        ServiceKind::ScenarioSignals => "industrial_scenario_signals"@,
        ServiceKind::DataCenterRack => "data_center_rack"@,
    }
}

/// The service that samples sensors of type `t`.
pub open spec fn service_of(t: SensorType) -> ServiceKind {
    match t {
        SensorType::Weather => ServiceKind::Weather,
        SensorType::Sound => ServiceKind::Sound,
        SensorType::Electrical => ServiceKind::Electrical,
        SensorType::Ph | SensorType::Orp | SensorType::Conductivity => ServiceKind::Electrochemistry,
        SensorType::ChemicalConcentration | SensorType::ProcessAnalyticsFtir => ServiceKind::ProcessAnalytics,
        SensorType::DissolvedOxygen | SensorType::ToxicGas | SensorType::CombustibleGas
        | SensorType::Photoionization => ServiceKind::GasSafety,
        SensorType::Level | SensorType::MassFlow | SensorType::LoadCell => ServiceKind::Hydraulics,
        SensorType::ScenarioSignal => ServiceKind::ScenarioSignals,
        SensorType::DataCenterRack => ServiceKind::DataCenterRack,
    }
}

impl ServiceKind {
    /// The service name reported in logs.
    pub fn name(self) -> (r: &'static str)
        ensures
            r@ == spec_service_name(self),
    {
        match self {
            ServiceKind::Weather => "weather",
            ServiceKind::Sound => "sound",
            ServiceKind::Electrical => "electrical",
            ServiceKind::Electrochemistry => "electrochemistry",
            ServiceKind::ProcessAnalytics => "process_analytics",
            ServiceKind::GasSafety => "gas_environmental_safety",
            ServiceKind::Hydraulics => "fluid_hydraulics",
            ServiceKind::ScenarioSignals => "industrial_scenario_signals",
            ServiceKind::DataCenterRack => "data_center_rack",
        }
    }
}

/// The service that samples sensors of type `t`.
pub fn service_for(t: SensorType) -> (r: ServiceKind)
    ensures
        r == service_of(t),
{
    match t {
        SensorType::Weather => ServiceKind::Weather,
        SensorType::Sound => ServiceKind::Sound,
        SensorType::Electrical => ServiceKind::Electrical,
        SensorType::Ph | SensorType::Orp | SensorType::Conductivity => ServiceKind::Electrochemistry,
        SensorType::ChemicalConcentration | SensorType::ProcessAnalyticsFtir => ServiceKind::ProcessAnalytics,
        SensorType::DissolvedOxygen | SensorType::ToxicGas | SensorType::CombustibleGas
        | SensorType::Photoionization => ServiceKind::GasSafety,
        SensorType::Level | SensorType::MassFlow | SensorType::LoadCell => ServiceKind::Hydraulics,
        SensorType::ScenarioSignal => ServiceKind::ScenarioSignals,
        SensorType::DataCenterRack => ServiceKind::DataCenterRack,
    }
}

/// Whether some sensor of `types` is sampled by service `k`.
pub open spec fn needs_service(types: Seq<SensorType>, k: ServiceKind) -> bool {
    exists|i: int| 0 <= i < types.len() && service_of(#[trigger] types[i]) == k
}

/// The order in which services are built.
pub open spec fn service_order() -> Seq<ServiceKind> {
    seq![
        ServiceKind::Weather,
        ServiceKind::Sound,
        ServiceKind::Electrical,
        ServiceKind::Electrochemistry,
        ServiceKind::ProcessAnalytics,
        ServiceKind::GasSafety,
        ServiceKind::Hydraulics,
        ServiceKind::ScenarioSignals,
        ServiceKind::DataCenterRack,
    ]
}

/// The services built for sensors of `types`: those that some sensor needs,
/// in build order.
pub open spec fn spec_service_plan(types: Seq<SensorType>) -> Seq<ServiceKind> {
    service_order().filter(|k: ServiceKind| needs_service(types, k))
}

fn service_at(i: usize) -> (r: ServiceKind)
    requires
        i < 9,
    ensures
        r == service_order()[i as int],
{
    if i == 0 { ServiceKind::Weather }
    else if i == 1 { ServiceKind::Sound }
    else if i == 2 { ServiceKind::Electrical }
    else if i == 3 { ServiceKind::Electrochemistry }
    else if i == 4 { ServiceKind::ProcessAnalytics }
    else if i == 5 { ServiceKind::GasSafety }
    else if i == 6 { ServiceKind::Hydraulics }
    else if i == 7 { ServiceKind::ScenarioSignals }
    else { ServiceKind::DataCenterRack }
}

fn uses_service(types: &[SensorType], k: ServiceKind) -> (r: bool)
    ensures
        r == needs_service(types@, k),
{
    let mut i: usize = 0;
    while i < types.len()
        invariant
            i <= types@.len(),
            forall|j: int| 0 <= j < i ==> service_of(#[trigger] types@[j]) != k,
        decreases types@.len() - i,
    {
        if service_for(types[i]) == k {
            return true;
        }
        i = i + 1;
    }
    false
}

/// The services to build for sensors of the given types, in build order.
pub fn plan_services(types: &[SensorType]) -> (r: Vec<ServiceKind>)
    ensures
        r@ == spec_service_plan(types@),
{
    let ghost pred = |k: ServiceKind| needs_service(types@, k);
    let mut plan: Vec<ServiceKind> = Vec::new();
    let mut i: usize = 0;
    assert(service_order().take(0) =~= Seq::<ServiceKind>::empty());
    proof {
        reveal(Seq::filter);
    }
    while i < 9
        invariant
            i <= 9,
            pred == (|k: ServiceKind| needs_service(types@, k)),
            plan@ == service_order().take(i as int).filter(pred),
        decreases 9 - i,
    {
        let k = service_at(i);
        proof {
            assert(service_order().take(i + 1) =~= service_order().take(i as int).push(k));
            service_order().take(i as int).lemma_filter_push(k, pred);
        }
        if uses_service(types, k) {
            plan.push(k);
        }
        i = i + 1;
    }
    assert(service_order().take(9) =~= service_order());
    plan
}

/// A service is built exactly when some configured sensor needs it, and no
/// service is built twice.
pub proof fn lemma_service_plan_exact(types: Seq<SensorType>, k: ServiceKind)
    ensures
        spec_service_plan(types).contains(k) <==> needs_service(types, k),
        spec_service_plan(types).no_duplicates(),
{
    let pred = |x: ServiceKind| needs_service(types, x);
    let order = service_order();
    if spec_service_plan(types).contains(k) {
        let j = choose|j: int| 0 <= j < spec_service_plan(types).len() && spec_service_plan(types)[j] == k;
        order.lemma_filter_pred(pred, j);
    }
    if needs_service(types, k) {
        let i = match k {
            ServiceKind::Weather => 0int,
            ServiceKind::Sound => 1,
            ServiceKind::Electrical => 2,
            ServiceKind::Electrochemistry => 3,
            ServiceKind::ProcessAnalytics => 4,
            ServiceKind::GasSafety => 5,
            ServiceKind::Hydraulics => 6,
            ServiceKind::ScenarioSignals => 7,
            ServiceKind::DataCenterRack => 8,
        };
        assert(order[i] == k);
        order.lemma_filter_contains(pred, i);
    }
    lemma_filter_keeps_distinct(order, pred, order.len());
    assert(order.take(order.len() as int) =~= order);
}

/// Which sensor types each service samples: weather, sound and electrical
/// sensors have a service of their own; pH, ORP and conductivity sensors
/// go to electrochemistry; chemical-concentration and FTIR sensors to
/// process analytics; dissolved-oxygen, toxic-gas, combustible-gas and
/// photoionization sensors to gas safety; level, mass-flow and load-cell
/// sensors to hydraulics; scenario signals and data-center racks to
/// services of their own.
pub proof fn lemma_service_owners(t: SensorType)
    ensures
        (service_of(t) == ServiceKind::Weather) <==> t is Weather,
        (service_of(t) == ServiceKind::Sound) <==> t is Sound,
        (service_of(t) == ServiceKind::Electrical) <==> t is Electrical,
        (service_of(t) == ServiceKind::Electrochemistry) <==> (t is Ph || t is Orp || t is Conductivity),
        (service_of(t) == ServiceKind::ProcessAnalytics) <==> (t is ChemicalConcentration
            || t is ProcessAnalyticsFtir),
        (service_of(t) == ServiceKind::GasSafety) <==> (t is DissolvedOxygen || t is ToxicGas || t is CombustibleGas
            || t is Photoionization),
        (service_of(t) == ServiceKind::Hydraulics) <==> (t is Level || t is MassFlow || t is LoadCell),
        (service_of(t) == ServiceKind::ScenarioSignals) <==> t is ScenarioSignal,
        (service_of(t) == ServiceKind::DataCenterRack) <==> t is DataCenterRack,
{
}

/// Sensors of a single type get exactly one service: the one that samples
/// that type.
pub proof fn lemma_single_type_plan(t: SensorType)
    ensures
        spec_service_plan(seq![t]) == seq![service_of(t)],
{
    let types = seq![t];
    let plan = spec_service_plan(types);
    let k = service_of(t);
    assert(types[0] == t);
    assert(needs_service(types, k));
    lemma_service_plan_exact(types, k);
    assert forall|j: int| 0 <= j < plan.len() implies plan[j] == k by {
        lemma_service_plan_exact(types, plan[j]);
        assert(plan.contains(plan[j]));
        let i = choose|i: int| 0 <= i < types.len() && service_of(#[trigger] types[i]) == plan[j];
        assert(i == 0);
    }
    let j0 = choose|j: int| 0 <= j < plan.len() && plan[j] == k;
    if plan.len() > 1 {
        let other = if j0 == 0 { 1int } else { 0int };
        assert(plan[other] == k);
        assert(false);
    }
    assert(plan =~= seq![k]);
}

proof fn lemma_filter_keeps_distinct(order: Seq<ServiceKind>, pred: spec_fn(ServiceKind) -> bool, n: nat)
    requires
        order == service_order(),
        n <= order.len(),
    ensures
        order.take(n as int).filter(pred).no_duplicates(),
    decreases n,
{
    if n == 0 {
        assert(order.take(0) =~= Seq::<ServiceKind>::empty());
        reveal(Seq::filter);
    } else {
        let m = (n - 1) as nat;
        lemma_filter_keeps_distinct(order, pred, m);
        let k = order[m as int];
        assert(order.take(n as int) =~= order.take(m as int).push(k));
        order.take(m as int).lemma_filter_push(k, pred);
        if order.take(m as int).filter(pred).contains(k) {
            order.take(m as int).lemma_filter_contains_rev(pred, k);
            let j = choose|j: int| 0 <= j < m && order.take(m as int)[j] == k;
            assert(order[j] == order[m as int]);
            assert(false);
        }
    }
}

/// A telemetry exporter.
#[derive(Debug, Clone, Copy, PartialEq, Eq, Structural)]
pub enum ExporterKind {
    Prometheus,
    Kafka,
    /// The historical Parquet dataset.
    Dataset,
    /// The anomaly metadata that accompanies a dataset.
    Metadata,
}

/// The exporters started for an exporter configuration, in start order:
/// Prometheus and Kafka when enabled, and the dataset with its anomaly
/// metadata when the dataset is enabled.
pub open spec fn spec_exporter_plan(x: ExportersConfig) -> Seq<ExporterKind> {
    (if x.prometheus.enabled { seq![ExporterKind::Prometheus] } else { seq![] })
        + (if x.kafka.enabled { seq![ExporterKind::Kafka] } else { seq![] })
        + (if x.dataset.enabled { seq![ExporterKind::Dataset, ExporterKind::Metadata] } else { seq![] })
}

/// Whether exporter `k` is switched on in `x`: the anomaly metadata goes
/// with the dataset.
pub open spec fn exporter_enabled(x: ExportersConfig, k: ExporterKind) -> bool {
    match k {
        ExporterKind::Prometheus => x.prometheus.enabled,
        ExporterKind::Kafka => x.kafka.enabled,
        ExporterKind::Dataset => x.dataset.enabled,
        ExporterKind::Metadata => x.dataset.enabled,
    }
}

/// Exactly the switched-on exporters start, each once; the dataset's
/// anomaly metadata starts right after the dataset, last of all.
pub proof fn lemma_exporter_plan(x: ExportersConfig, k: ExporterKind)
    ensures
        spec_exporter_plan(x).contains(k) <==> exporter_enabled(x, k),
        spec_exporter_plan(x).no_duplicates(),
        spec_exporter_plan(x).len() == (if x.prometheus.enabled { 1int } else { 0 }) + (if x.kafka.enabled {
            1int
        } else {
            0
        }) + (if x.dataset.enabled { 2int } else { 0 }),
        x.dataset.enabled ==> spec_exporter_plan(x).last() == ExporterKind::Metadata
            && spec_exporter_plan(x)[spec_exporter_plan(x).len() - 2] == ExporterKind::Dataset,
{
    let p = spec_exporter_plan(x);
    let a: Seq<ExporterKind> = if x.prometheus.enabled { seq![ExporterKind::Prometheus] } else { seq![] };
    let b: Seq<ExporterKind> = if x.kafka.enabled { seq![ExporterKind::Kafka] } else { seq![] };
    let c: Seq<ExporterKind> = if x.dataset.enabled { seq![ExporterKind::Dataset, ExporterKind::Metadata] } else { seq![] };
    assert(p == a + b + c);
    assert forall|i: int| 0 <= i < p.len() implies exporter_enabled(x, #[trigger] p[i]) && (p[i] == ExporterKind::Prometheus
        ==> i == 0) && (p[i] == ExporterKind::Kafka ==> i == a.len()) && (p[i] == ExporterKind::Dataset ==> i == a.len()
        + b.len()) && (p[i] == ExporterKind::Metadata ==> i == a.len() + b.len() + 1) by {
        if i < a.len() {
            assert(p[i] == a[i]);
        } else if i < a.len() + b.len() {
            assert(p[i] == b[i - a.len()]);
        } else {
            assert(p[i] == c[i - a.len() - b.len()]);
        }
    }
    if exporter_enabled(x, k) {
        let i: int = match k {
            ExporterKind::Prometheus => 0,
            ExporterKind::Kafka => a.len() as int,
            ExporterKind::Dataset => (a.len() + b.len()) as int,
            ExporterKind::Metadata => (a.len() + b.len() + 1) as int,
        };
        if i < a.len() {
            assert(p[i] == a[i]);
        } else if i < a.len() + b.len() {
            assert(p[i] == b[i - a.len()]);
        } else {
            assert(p[i] == c[i - a.len() - b.len()]);
        }
        assert(p[i] == k);
    }
}

/// The exporters to start, in start order.
pub fn plan_exporters(x: &ExportersConfig) -> (r: Vec<ExporterKind>)
    ensures
        r@ == spec_exporter_plan(*x),
{
    let mut plan: Vec<ExporterKind> = Vec::new();
    if x.prometheus.enabled {
        plan.push(ExporterKind::Prometheus);
    }
    if x.kafka.enabled {
        plan.push(ExporterKind::Kafka);
    }
    if x.dataset.enabled {
        plan.push(ExporterKind::Dataset);
        plan.push(ExporterKind::Metadata);
    }
    assert(plan@ =~= spec_exporter_plan(*x));
    plan
}

/// One concrete sensor expanded from a template: the template's position
/// among its entity's templates and the sensor's identity.
#[derive(Debug)]
pub struct ExpandedSensor {
    pub template: usize,
    pub sensor_id: String,
}

/// The identities of the `quantity` sensors of template `s`, numbered from 1.
pub open spec fn template_sensors(s: SensorConfig, template: nat) -> Seq<(nat, Seq<char>)> {
    Seq::new(s.quantity as nat, |i: int| (template, spec_expanded_id(s.id_prefix@, s.quantity as nat, (i + 1) as nat)))
}

/// The sensors of the first `n` templates: each enabled template expanded
/// into its quantity of sensors, in template order; disabled templates
/// contribute none.
pub open spec fn spec_expanded_sensors(templates: Seq<SensorConfig>, n: nat) -> Seq<(nat, Seq<char>)>
    decreases n,
{
    if n == 0 {
        seq![]
    } else {
        let s = templates[n - 1];
        spec_expanded_sensors(templates, (n - 1) as nat) + if s.enabled {
            template_sensors(s, (n - 1) as nat)
        } else {
            seq![]
        }
    }
}

pub open spec fn expanded_view(v: Seq<ExpandedSensor>) -> Seq<(nat, Seq<char>)> {
    v.map_values(|e: ExpandedSensor| (e.template as nat, e.sensor_id@))
}

/// The concrete sensors of an entity's templates.
pub fn expand_sensors(templates: &Vec<SensorConfig>) -> (r: Vec<ExpandedSensor>)
    ensures
        expanded_view(r@) == spec_expanded_sensors(templates@, templates@.len()),
{
    let mut out: Vec<ExpandedSensor> = Vec::new();
    let mut t: usize = 0;
    assert(expanded_view(out@) =~= seq![]);
    while t < templates.len()
        invariant
            t <= templates@.len(),
            expanded_view(out@) == spec_expanded_sensors(templates@, t as nat),
        decreases templates@.len() - t,
    {
        let s = &templates[t];
        let ghost before = expanded_view(out@);
        if s.enabled {
            let mut made: usize = 0;
            while made < s.quantity
                invariant
                    made <= s.quantity,
                    expanded_view(out@) == before + template_sensors(*s, t as nat).take(made as int),
                decreases s.quantity - made,
            {
                let ghost prev = out@;
                let index = made + 1;
                out.push(ExpandedSensor { template: t, sensor_id: s.expanded_id(index) });
                assert(expanded_view(out@) =~= expanded_view(prev).push(
                    (t as nat, spec_expanded_id(s.id_prefix@, s.quantity as nat, index as nat)),
                ));
                assert(template_sensors(*s, t as nat).take(index as int) =~= template_sensors(
                    *s,
                    t as nat,
                ).take(made as int).push((t as nat, spec_expanded_id(s.id_prefix@, s.quantity as nat, index as nat))));
                made = index;
            }
            assert(template_sensors(*s, t as nat).take(s.quantity as int) =~= template_sensors(*s, t as nat));
        }
        assert(expanded_view(out@) =~= spec_expanded_sensors(templates@, (t + 1) as nat));
        t = t + 1;
    }
    out
}

/// The default configuration path.
pub open spec fn default_config_path() -> Seq<char> {
    "config/simulation.yaml"@
}

/// The configuration path that the command-line arguments (without the
/// program name) select: the default when there are none, the argument after
/// `--config` or `-c`, or else the first argument itself.
pub open spec fn spec_config_path(args: Seq<Seq<char>>) -> Result<Seq<char>, Seq<char>> {
    if args.len() == 0 {
        Ok(default_config_path())
    } else if args[0] == "--config"@ || args[0] == "-c"@ {
        if args.len() >= 2 {
            Ok(args[1])
        } else {
            Err("--config requires a path"@)
        }
    } else {
        Ok(args[0])
    }
}

/// The configuration path that the command-line arguments (without the
/// program name) select.
pub fn config_path_from_args(args: &Vec<String>) -> (r: Result<String, String>)
    ensures
        match (r, spec_config_path(args@.map_values(|a: String| a@))) {
            (Ok(p), Ok(q)) => p@ == q,
            (Err(e), Err(m)) => e@ == m,
            _ => false,
        },
{
    let ghost view = args@.map_values(|a: String| a@);
    if args.len() == 0 {
        return Ok(String::from_str("config/simulation.yaml"));
    }
    assert(view[0] == args@[0]@);
    if same_text(args[0].as_str(), "--config") || same_text(args[0].as_str(), "-c") {
        if args.len() >= 2 {
            assert(view[1] == args@[1]@);
            Ok(args[1].clone())
        } else {
            Err(String::from_str("--config requires a path"))
        }
    } else {
        Ok(args[0].clone())
    }
}

/// The command line fails only when the config flag is given without a
/// path; otherwise the path is the flag's argument, the first argument, or,
/// with no argument at all, `config/simulation.yaml`.
pub proof fn lemma_config_path(args: Seq<Seq<char>>)
    ensures
        spec_config_path(args) is Err <==> (args.len() == 1 && (args[0] == "--config"@ || args[0] == "-c"@)),
        args.len() == 0 ==> spec_config_path(args) == Ok::<Seq<char>, Seq<char>>("config/simulation.yaml"@),
        args.len() >= 2 && (args[0] == "--config"@ || args[0] == "-c"@) ==> spec_config_path(args) == Ok::<
            Seq<char>,
            Seq<char>,
        >(args[1]),
        args.len() >= 1 && args[0] != "--config"@ && args[0] != "-c"@ ==> spec_config_path(args) == Ok::<
            Seq<char>,
            Seq<char>,
        >(args[0]),
{
}

/// Sum of the quantities of the enabled templates among the first `n`.
pub open spec fn enabled_quantity(templates: Seq<SensorConfig>, n: nat) -> nat
    decreases n,
{
    if n == 0 {
        0
    } else {
        enabled_quantity(templates, (n - 1) as nat) + if templates[n - 1].enabled {
            templates[n - 1].quantity as nat
        } else {
            0
        }
    }
}

/// An entity's templates expand into as many sensors as their enabled
/// quantities add up to; every sensor comes from an enabled template among
/// them, and a template's sensors follow one another, numbered from 1.
pub proof fn lemma_expanded_sensors(templates: Seq<SensorConfig>, n: nat)
    requires
        n <= templates.len(),
    ensures
        spec_expanded_sensors(templates, n).len() == enabled_quantity(templates, n),
        forall|j: int| 0 <= j < spec_expanded_sensors(templates, n).len() ==> {
            let t = (#[trigger] spec_expanded_sensors(templates, n)[j]).0;
            t < n && templates[t as int].enabled
        },
    decreases n,
{
    if n > 0 {
        lemma_expanded_sensors(templates, (n - 1) as nat);
        let prev = spec_expanded_sensors(templates, (n - 1) as nat);
        let s = templates[n - 1];
        let tail = if s.enabled { template_sensors(s, (n - 1) as nat) } else { seq![] };
        assert(spec_expanded_sensors(templates, n) == prev + tail);
        assert forall|j: int| 0 <= j < spec_expanded_sensors(templates, n).len() implies {
            let t = (#[trigger] spec_expanded_sensors(templates, n)[j]).0;
            t < n && templates[t as int].enabled
        } by {
            if j < prev.len() {
                assert(spec_expanded_sensors(templates, n)[j] == prev[j]);
            } else {
                assert(spec_expanded_sensors(templates, n)[j] == tail[j - prev.len()]);
            }
        }
    }
}

/// A template of one sensor gives it the prefix itself; otherwise sensor
/// `index` is named by the prefix, `-` and its number padded to two digits.
pub proof fn lemma_expanded_id(prefix: Seq<char>, quantity: nat, index: nat)
    ensures
        quantity == 1 ==> spec_expanded_id(prefix, quantity, index) == prefix,
        quantity != 1 && 1 <= index <= 9 ==> spec_expanded_id(prefix, quantity, index) == prefix + seq![
            '-',
            '0',
            (('0' as nat) + index) as char,
        ],
        quantity != 1 && 10 <= index <= 99 ==> spec_expanded_id(prefix, quantity, index) == prefix + seq![
            '-',
            (('0' as nat) + index / 10) as char,
            (('0' as nat) + index % 10) as char,
        ],
{
    reveal_strlit("-");
    if quantity != 1 && 10 <= index <= 99 {
        assert(crate::text::decimal(index / 10) == seq![crate::text::digit_char(index / 10)]);
        assert(spec_expanded_id(prefix, quantity, index) =~= prefix + seq![
            '-',
            (('0' as nat) + index / 10) as char,
            (('0' as nat) + index % 10) as char,
        ]);
    }
    if quantity != 1 && 1 <= index <= 9 {
        assert(spec_expanded_id(prefix, quantity, index) =~= prefix + seq!['-', '0', (('0' as nat) + index) as char]);
    }
}

/// Every service is logged under a name of its own.
pub proof fn lemma_service_names_distinct(a: ServiceKind, b: ServiceKind)
    ensures
        a != b ==> spec_service_name(a) != spec_service_name(b),
{
    reveal_strlit("weather");
    reveal_strlit("sound");
    reveal_strlit("electrical");
    reveal_strlit("electrochemistry");
    reveal_strlit("process_analytics");
    reveal_strlit("gas_environmental_safety");
    reveal_strlit("fluid_hydraulics");
    reveal_strlit("industrial_scenario_signals");
    reveal_strlit("data_center_rack");
    if a != b && spec_service_name(a) == spec_service_name(b) {
        assert(spec_service_name(a).len() == spec_service_name(b).len());
        assert(spec_service_name(a)[0] == spec_service_name(b)[0]);
        assert(spec_service_name(a)[1] == spec_service_name(b)[1]);
    }
}

} // verus!
