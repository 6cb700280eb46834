//! Model-level anomalies of robotic material air locks. Unlike post-sample
//! injection, these profiles are resolved once per production cycle before
//! the air lock's physical model computes its frame: a seal failure faults
//! the seal and then takes the air lock offline for maintenance, a wet
//! payload slows the purge's dew-point recovery.
//!
//! Resolving a cycle takes two calls. `claim_trigger_draws` says which
//! profiles draw their random trigger in this cycle; the caller draws, in
//! profile order, and hands the outcomes to `resolve_cycle`.
use vstd::prelude::*;
use vstd::string::*;

use crate::anomaly::{AnomalyEvent, AnomalyEventCollector};
use crate::lifecycle::{saturating_sum, CycleEvent, SealFailurePhase};
use crate::text::same_text;
use crate::validation::{AnomaliesConfig, AnomalyProfileConfig, AnomalyStrategyConfig};

verus! {

/// What a model-level profile does once it fires.
#[derive(Debug, Clone, Copy, PartialEq, Eq, Structural)]
pub enum AirLockAnomalyKind {
    /// The seal is faulted for `faulted_cycles` cycles, then the air lock is
    /// offline for `maintenance_cycles` cycles.
    SealFailure { faulted_cycles: u64, maintenance_cycles: u64 },
    /// Purge recovery is slowed for `duration_cycles` cycles.
    WetPayload { duration_cycles: u64 },
}

/// The model-level kind of a strategy, if it is one.
pub open spec fn spec_model_level_kind(st: AnomalyStrategyConfig) -> Option<AirLockAnomalyKind> {
    match st {
        AnomalyStrategyConfig::RoboticAirLockSealFailure { faulted_cycles_before_maintenance, maintenance_cycles } =>
            Some(AirLockAnomalyKind::SealFailure {
                faulted_cycles: faulted_cycles_before_maintenance,
                maintenance_cycles,
            }),
        AnomalyStrategyConfig::RoboticAirLockWetPayload { duration_cycles } =>
            Some(AirLockAnomalyKind::WetPayload { duration_cycles }),
        _ => None,
    }
}

/// Whether a strategy acts on the air-lock model rather than on samples.
pub fn is_model_level_strategy(st: &AnomalyStrategyConfig) -> (r: bool)
    ensures
        r == spec_model_level_kind(*st) is Some,
{
    match st {
        AnomalyStrategyConfig::RoboticAirLockSealFailure { .. } => true,
        AnomalyStrategyConfig::RoboticAirLockWetPayload { .. } => true,
        _ => false,
    }
}

fn model_level_kind(st: &AnomalyStrategyConfig) -> (r: Option<AirLockAnomalyKind>)
    ensures
        r == spec_model_level_kind(*st),
{
    match st {
        AnomalyStrategyConfig::RoboticAirLockSealFailure { faulted_cycles_before_maintenance, maintenance_cycles } =>
            Some(AirLockAnomalyKind::SealFailure {
                faulted_cycles: *faulted_cycles_before_maintenance,
                maintenance_cycles: *maintenance_cycles,
            }),
        AnomalyStrategyConfig::RoboticAirLockWetPayload { duration_cycles } =>
            Some(AirLockAnomalyKind::WetPayload { duration_cycles: *duration_cycles }),
        _ => None,
    }
}

/// One model-level profile as the controller sees it.
pub struct AirLockProfileModel {
    pub name: Seq<char>,
    pub sensor_id: Seq<char>,
    pub kind: AirLockAnomalyKind,
    /// The profile's position in the configured profile list.
    pub config_index: nat,
    pub start_after: nat,
    pub last_evaluated: nat,
    pub active_start: Option<u64>,
    /// Whether the latest claim of trigger draws gave this profile a draw
    /// that has not been resolved yet.
    pub claimed: bool,
}

/// The controller's model of configured profile `i`, before any cycle.
pub open spec fn initial_profile(p: AnomalyProfileConfig, i: nat) -> AirLockProfileModel {
    AirLockProfileModel {
        name: p.name@,
        sensor_id: p.target.sensor_id@,
        kind: spec_model_level_kind(p.strategy)->0,
        config_index: i,
        start_after: p.trigger.start_after_cycles as nat,
        last_evaluated: 0,
        active_start: None,
        claimed: false,
    }
}

/// The enabled model-level profiles among the first `n` configured ones.
pub open spec fn model_level_profiles(ps: Seq<AnomalyProfileConfig>, n: nat) -> Seq<AirLockProfileModel>
    decreases n,
{
    if n == 0 {
        seq![]
    } else {
        let p = ps[n - 1];
        model_level_profiles(ps, (n - 1) as nat) + if p.enabled && spec_model_level_kind(p.strategy) is Some {
            seq![initial_profile(p, (n - 1) as nat)]
        } else {
            seq![]
        }
    }
}

/// The profiles that a controller built from `c` holds: none when anomalies
/// are disabled.
pub open spec fn spec_controller_profiles(c: AnomaliesConfig) -> Seq<AirLockProfileModel> {
    if c.enabled {
        model_level_profiles(c.profiles@, c.profiles@.len())
    } else {
        seq![]
    }
}

/// Whether profile `m` draws its trigger for `cycle` of air lock `sensor`.
pub open spec fn draws_trigger(m: AirLockProfileModel, sensor: Seq<char>, cycle: nat) -> bool {
    m.sensor_id == sensor && m.active_start is None && cycle > m.start_after && m.last_evaluated != cycle
}

/// Profile `m` after the draws for `cycle` of air lock `sensor` were claimed:
/// a profile that draws marks the cycle as evaluated and holds the claim;
/// every other profile holds none.
pub open spec fn after_claim(m: AirLockProfileModel, sensor: Seq<char>, cycle: nat) -> AirLockProfileModel {
    if draws_trigger(m, sensor, cycle) {
        AirLockProfileModel { last_evaluated: cycle, claimed: true, ..m }
    } else {
        AirLockProfileModel { claimed: false, ..m }
    }
}

/// The cycle after the last one affected by an event started in `start`.
pub open spec fn event_end(kind: AirLockAnomalyKind, start: u64) -> nat {
    match kind {
        AirLockAnomalyKind::SealFailure { faulted_cycles, maintenance_cycles } =>
            saturating_sum(saturating_sum(start as nat, faulted_cycles as nat), maintenance_cycles as nat),
        AirLockAnomalyKind::WetPayload { duration_cycles } => saturating_sum(start as nat, duration_cycles as nat),
    }
}

/// Profile `m` after its trigger outcome `fired` for `cycle`.
pub open spec fn after_trigger(m: AirLockProfileModel, fired: bool, cycle: u64) -> AirLockProfileModel {
    if fired && m.active_start is None {
        AirLockProfileModel { active_start: Some(cycle), ..m }
    } else {
        m
    }
}

/// Profile `m` after `cycle` has been evaluated: an event whose end has
/// been reached is over, and the cycle is remembered as evaluated.
pub open spec fn after_cycle(m: AirLockProfileModel, cycle: u64) -> AirLockProfileModel {
    match m.active_start {
        Some(start) => if cycle >= event_end(m.kind, start) {
            AirLockProfileModel { active_start: None, last_evaluated: cycle as nat, ..m }
        } else {
            m
        },
        None => m,
    }
}

/// The seal-failure phase that profile `m` puts `cycle` in.
pub open spec fn seal_phase(m: AirLockProfileModel, cycle: u64) -> SealFailurePhase {
    match (m.kind, m.active_start) {
        (AirLockAnomalyKind::SealFailure { faulted_cycles, maintenance_cycles }, Some(start)) => {
            let fault_end = saturating_sum(start as nat, faulted_cycles as nat);
            let maintenance_end = saturating_sum(fault_end, maintenance_cycles as nat);
            if start <= cycle < fault_end {
                SealFailurePhase::SealFaulted
            } else if fault_end <= cycle < maintenance_end {
                SealFailurePhase::MaintenanceOffline
            } else {
                SealFailurePhase::Inactive
            }
        },
        _ => SealFailurePhase::Inactive,
    }
}

/// Whether profile `m` slows purge recovery in `cycle`.
pub open spec fn wet_payload_in(m: AirLockProfileModel, cycle: u64) -> bool {
    match (m.kind, m.active_start) {
        (AirLockAnomalyKind::WetPayload { duration_cycles }, Some(start)) =>
            start <= cycle < saturating_sum(start as nat, duration_cycles as nat),
        _ => false,
    }
}

/// The model-level anomaly state of one production cycle of one air lock.
#[derive(Debug, Clone, Copy, PartialEq, Eq, Structural)]
pub struct AirLockAnomalyState {
    pub seal_faulted: bool,
    pub maintenance_offline: bool,
    /// The configured profile whose recovery multiplier slows this cycle's
    /// purge, if any.
    pub wet_payload_profile: Option<usize>,
}

/// What an activation of profile `m` in `cycle` logs.
pub open spec fn activation_record(m: AirLockProfileModel, cycle: u64, timestamp_ms: i64) -> (i64, Seq<char>, Seq<char>, Seq<char>, Option<u64>) {
    let kind_name = match m.kind {
        AirLockAnomalyKind::SealFailure { .. } => "robotic_air_lock_seal_failure"@,
        AirLockAnomalyKind::WetPayload { .. } => "robotic_air_lock_wet_payload"@,
    };
    (timestamp_ms, kind_name, m.name, m.sensor_id, Some(cycle))
}

/// The fields of a logged event.
pub open spec fn event_record(e: AnomalyEvent) -> (i64, Seq<char>, Seq<char>, Seq<char>, Option<u64>) {
    (e.timestamp_ms, e.anomaly_type@, e.profile@, e.sensor_id@, e.cycle)
}

/// The outcome of resolving `cycle` of air lock `sensor` over the first `n`
/// profiles: the state so far and the activations logged so far.
pub open spec fn resolve_fold(
    ms: Seq<AirLockProfileModel>,
    fired: Seq<bool>,
    sensor: Seq<char>,
    cycle: u64,
    timestamp_ms: i64,
    n: nat,
) -> (AirLockAnomalyState, Seq<(i64, Seq<char>, Seq<char>, Seq<char>, Option<u64>)>)
    decreases n,
{
    if n == 0 {
        (AirLockAnomalyState { seal_faulted: false, maintenance_offline: false, wet_payload_profile: None }, seq![])
    } else {
        let (state, log) = resolve_fold(ms, fired, sensor, cycle, timestamp_ms, (n - 1) as nat);
        let m = ms[n - 1];
        if m.sensor_id != sensor {
            (state, log)
        } else {
            let started = after_trigger(m, fired[n - 1] && m.claimed, cycle);
            let log = if fired[n - 1] && m.claimed && m.active_start is None {
                log.push(activation_record(m, cycle, timestamp_ms))
            } else {
                log
            };
            let phase = seal_phase(started, cycle);
            let state = AirLockAnomalyState {
                seal_faulted: state.seal_faulted || phase == SealFailurePhase::SealFaulted,
                maintenance_offline: state.maintenance_offline || phase == SealFailurePhase::MaintenanceOffline,
                wet_payload_profile: if wet_payload_in(started, cycle) {
                    Some(m.config_index as usize)
                } else {
                    state.wet_payload_profile
                },
            };
            (state, log)
        }
    }
}

/// Profile `m` after `cycle` of air lock `sensor` was resolved with trigger
/// outcome `fired`: an outcome counts only for a draw that the latest claim
/// granted, and every pending claim is spent.
pub open spec fn resolved_profile(m: AirLockProfileModel, fired: bool, sensor: Seq<char>, cycle: u64) -> AirLockProfileModel {
    if m.sensor_id == sensor {
        AirLockProfileModel { claimed: false, ..after_cycle(after_trigger(m, fired && m.claimed, cycle), cycle) }
    } else {
        AirLockProfileModel { claimed: false, ..m }
    }
}

struct AirLockProfile {
    name: String,
    sensor_id: String,
    kind: AirLockAnomalyKind,
    config_index: usize,
}

/// Resolves one profile's event for `cycle`: starts it when its trigger
/// fired while idle, logging the activation, then reports the seal phase and
/// wet-payload effect of the cycle and ends the event once its end is reached.
fn resolve_event(
    p: &AirLockProfile,
    event: &mut CycleEvent,
    fired: bool,
    cycle: u64,
    timestamp_ms: i64,
    log: &mut AnomalyEventCollector,
) -> (r: (SealFailurePhase, bool))
    ensures
        ({
            let m = profile_model(*p, *old(event), false);
            let started = after_trigger(m, fired, cycle);
            &&& profile_model(*p, *final(event), false) == after_cycle(started, cycle)
            &&& r.0 == seal_phase(started, cycle)
            &&& r.1 == wet_payload_in(started, cycle)
            &&& if fired && m.active_start is None {
                &&& final(log)@.len() == old(log)@.len() + 1
                &&& final(log)@.subrange(0, old(log)@.len() as int) == old(log)@
                &&& event_record(final(log)@[old(log)@.len() as int]) == activation_record(m, cycle, timestamp_ms)
            } else {
                final(log)@ == old(log)@
            }
        }),
{
    let ghost m = profile_model(*p, *event, false);
    if fired && event.active_start_cycle().is_none() {
        event.start(cycle);
        let kind_name = match p.kind {
            AirLockAnomalyKind::SealFailure { .. } => String::from_str("robotic_air_lock_seal_failure"),
            AirLockAnomalyKind::WetPayload { .. } => String::from_str("robotic_air_lock_wet_payload"),
        };
        log.record(AnomalyEvent {
            timestamp_ms,
            anomaly_type: kind_name,
            profile: p.name.clone(),
            sensor_id: p.sensor_id.clone(),
            cycle: Some(cycle),
        });
        assert(log@.subrange(0, old(log)@.len() as int) =~= old(log)@);
    }
    let ghost started = profile_model(*p, *event, false);
    assert(started == after_trigger(m, fired, cycle));
    match p.kind {
        AirLockAnomalyKind::SealFailure { faulted_cycles, maintenance_cycles } => {
            let phase = event.seal_failure_phase(cycle, faulted_cycles, maintenance_cycles);
            (phase, false)
        },
        AirLockAnomalyKind::WetPayload { duration_cycles } => {
            let wet = event.wet_payload_active(cycle, duration_cycles);
            (SealFailurePhase::Inactive, wet)
        },
    }
}

/// The registry of model-level air-lock anomaly profiles.
pub struct AirLockController {
    profiles: Vec<AirLockProfile>,
    events: Vec<CycleEvent>,
    claims: Vec<bool>,
}

spec fn profile_model(p: AirLockProfile, e: CycleEvent, claimed: bool) -> AirLockProfileModel {
    AirLockProfileModel {
        name: p.name@,
        sensor_id: p.sensor_id@,
        kind: p.kind,
        config_index: p.config_index as nat,
        start_after: e.start_after(),
        last_evaluated: e.last_evaluated(),
        active_start: e.active_start(),
        claimed,
    }
}

impl AirLockController {
    /// Every profile has its trigger state.
    pub closed spec fn well_formed(&self) -> bool {
        self.profiles@.len() == self.events@.len() && self.claims@.len() == self.events@.len()
    }

    pub closed spec fn view(&self) -> Seq<AirLockProfileModel> {
        Seq::new(self.profiles@.len(), |i: int| profile_model(self.profiles@[i], self.events@[i], self.claims@[i]))
    }

    /// The controller for the enabled model-level profiles of `config`, in
    /// configuration order; none when anomalies are disabled.
    pub fn from_config(config: &AnomaliesConfig) -> (r: Self)
        ensures
            r.well_formed(),
            r@ == spec_controller_profiles(*config),
    {
        let mut profiles: Vec<AirLockProfile> = Vec::new();
        let mut events: Vec<CycleEvent> = Vec::new();
        let mut claims: Vec<bool> = Vec::new();
        if config.enabled {
            let mut i: usize = 0;
            while i < config.profiles.len()
                invariant
                    i <= config.profiles@.len(),
                    profiles@.len() == events@.len(),
                    claims@.len() == events@.len(),
                    Seq::new(profiles@.len(), |j: int| profile_model(profiles@[j], events@[j], claims@[j]))
                        == model_level_profiles(config.profiles@, i as nat),
                decreases config.profiles@.len() - i,
            {
                let p = &config.profiles[i];
                let ghost before = Seq::new(profiles@.len(), |j: int| profile_model(profiles@[j], events@[j], claims@[j]));
                if p.enabled {
                    match model_level_kind(&p.strategy) {
                        Some(kind) => {
                            profiles.push(AirLockProfile {
                                name: p.name.clone(),
                                sensor_id: p.target.sensor_id.clone(),
                                kind,
                                config_index: i,
                            });
                            events.push(CycleEvent::new(p.trigger.start_after_cycles));
                            claims.push(false);
                            assert(Seq::new(profiles@.len(), |j: int| profile_model(profiles@[j], events@[j], claims@[j]))
                                =~= before.push(initial_profile(*p, i as nat)));
                        },
                        None => {},
                    }
                }
                assert(Seq::new(profiles@.len(), |j: int| profile_model(profiles@[j], events@[j], claims@[j]))
                    =~= model_level_profiles(config.profiles@, (i + 1) as nat));
                i = i + 1;
            }
        }
        let r = AirLockController { profiles, events, claims };
        assert(r@ =~= spec_controller_profiles(*config));
        r
    }

    /// The number of model-level profiles held.
    pub fn active_profile_count(&self) -> (r: usize)
        ensures
            r == self@.len(),
    {
        self.profiles.len()
    }

    /// The configured position of profile `i`, to look up its threshold and
    /// recovery multiplier.
    pub fn config_index(&self, i: usize) -> (r: usize)
        requires
            i < self@.len(),
        ensures
            r == self@[i as int].config_index,
    {
        self.profiles[i].config_index
    }

    /// For each profile, whether it draws its random trigger for `cycle` of
    /// air lock `sensor_id`. A profile draws at most once per cycle, only
    /// after its warm-up cycles and only while no event of it runs; a draw
    /// marks the cycle as evaluated. The draws granted here are the only
    /// ones that the next `resolve_cycle` accepts.
    pub fn claim_trigger_draws(&mut self, sensor_id: &str, cycle: u64) -> (r: Vec<bool>)
        requires
            old(self).well_formed(),
        ensures
            final(self).well_formed(),
            r@.len() == old(self)@.len(),
            final(self)@.len() == old(self)@.len(),
            forall|i: int| 0 <= i < r@.len() ==> r@[i] == draws_trigger(#[trigger] old(self)@[i], sensor_id@, cycle as nat),
            forall|i: int| 0 <= i < r@.len() ==> #[trigger] final(self)@[i] == after_claim(old(self)@[i], sensor_id@, cycle as nat),
    {
        let ghost start = self@;
        let mut claims: Vec<bool> = Vec::new();
        let mut i: usize = 0;
        while i < self.profiles.len()
            invariant
                self.profiles@.len() == self.events@.len(),
                self.claims@.len() == self.events@.len(),
                i <= self.profiles@.len(),
                start.len() == self.profiles@.len(),
                claims@.len() == i,
                forall|j: int| 0 <= j < i ==> claims@[j] == draws_trigger(#[trigger] start[j], sensor_id@, cycle as nat),
                forall|j: int| 0 <= j < self.profiles@.len() ==> #[trigger] self@[j] == if j < i && claims@[j] {
                    AirLockProfileModel { last_evaluated: cycle as nat, claimed: true, ..start[j] }
                } else if j < i {
                    AirLockProfileModel { claimed: false, ..start[j] }
                } else {
                    start[j]
                },
            decreases self.profiles@.len() - i,
        {
            let ghost before = self@;
            let ghost events_before = self.events@;
            let ghost pending_before = self.claims@;
            let ghost claims_before = claims@;
            let mut event = self.events[i];
            assert(before[i as int] == start[i as int]);
            assert(profile_model(self.profiles@[i as int], event, self.claims@[i as int]) == start[i as int]);
            let claimed = if same_text(self.profiles[i].sensor_id.as_str(), sensor_id) {
                event.claims_trigger_draw(cycle)
            } else {
                false
            };
            self.events.set(i, event);
            self.claims.set(i, claimed);
            claims.push(claimed);
            proof {
                assert(claims@ == claims_before.push(claimed));
                assert(self@[i as int] == profile_model(self.profiles@[i as int], event, claimed));
                assert(claimed == draws_trigger(start[i as int], sensor_id@, cycle as nat));
                assert forall|j: int| 0 <= j < self.profiles@.len() && j != i implies #[trigger] self@[j]
                    == before[j] by {
                    assert(self.events@[j] == events_before[j]);
                    assert(self.claims@[j] == pending_before[j]);
                }
            }
            i = i + 1;
        }
        claims
    }

    /// Resolves `cycle` of air lock `sensor_id` after the caller drew the
    /// claimed triggers: a profile whose claimed trigger `fired` starts an
    /// event in this cycle, which is logged; an outcome for a profile that
    /// the latest claim gave no draw is ignored, and every claim is spent. Returns whether the seal is faulted or
    /// the air lock offline for maintenance, and which profile's wet payload
    /// slows recovery (the last one, when several do). Events whose end has
    /// been reached are over.
    pub fn resolve_cycle(
        &mut self,
        sensor_id: &str,
        cycle: u64,
        timestamp_ms: i64,
        fired: &Vec<bool>,
        log: &mut AnomalyEventCollector,
    ) -> (r: AirLockAnomalyState)
        requires
            old(self).well_formed(),
            fired@.len() == old(self)@.len(),
        ensures
            final(self).well_formed(),
            final(self)@.len() == old(self)@.len(),
            forall|i: int| 0 <= i < old(self)@.len() ==> #[trigger] final(self)@[i]
                == resolved_profile(old(self)@[i], fired@[i], sensor_id@, cycle),
            r == resolve_fold(old(self)@, fired@, sensor_id@, cycle, timestamp_ms, old(self)@.len()).0,
            final(log)@.len() >= old(log)@.len(),
            final(log)@.subrange(0, old(log)@.len() as int) == old(log)@,
            final(log)@.subrange(old(log)@.len() as int, final(log)@.len() as int).map_values(
                |e: AnomalyEvent| event_record(e),
            ) == resolve_fold(old(self)@, fired@, sensor_id@, cycle, timestamp_ms, old(self)@.len()).1,
    {
        let ghost start = self@;
        let ghost log_start = log@;
        let mut state = AirLockAnomalyState { seal_faulted: false, maintenance_offline: false, wet_payload_profile: None };
        let mut i: usize = 0;
        while i < self.profiles.len()
            invariant
                self.profiles@.len() == self.events@.len(),
                self.claims@.len() == self.events@.len(),
                i <= self.profiles@.len(),
                start.len() == self.profiles@.len(),
                fired@.len() == start.len(),
                forall|j: int| 0 <= j < self.profiles@.len() ==> #[trigger] self@[j] == if j < i {
                    resolved_profile(start[j], fired@[j], sensor_id@, cycle)
                } else {
                    start[j]
                },
                state == resolve_fold(start, fired@, sensor_id@, cycle, timestamp_ms, i as nat).0,
                log@.len() >= log_start.len(),
                log@.subrange(0, log_start.len() as int) == log_start,
                log@.subrange(log_start.len() as int, log@.len() as int).map_values(|e: AnomalyEvent| event_record(e))
                    == resolve_fold(start, fired@, sensor_id@, cycle, timestamp_ms, i as nat).1,
            decreases self.profiles@.len() - i,
        {
            let ghost before = self@;
            let ghost events_before = self.events@;
            let ghost pending_before = self.claims@;
            let ghost log_before = log@;
            let ghost m = start[i as int];
            assert(before[i as int] == m);
            let granted = self.claims[i];
            assert(granted == m.claimed);
            if same_text(self.profiles[i].sensor_id.as_str(), sensor_id) {
                let mut event = self.events[i];
                assert(profile_model(self.profiles@[i as int], event, false) == AirLockProfileModel { claimed: false, ..m });
                let (phase, wet) = resolve_event(
                    &self.profiles[i],
                    &mut event,
                    fired[i] && granted,
                    cycle,
                    timestamp_ms,
                    log,
                );
                if phase == SealFailurePhase::SealFaulted {
                    state.seal_faulted = true;
                } else if phase == SealFailurePhase::MaintenanceOffline {
                    state.maintenance_offline = true;
                }
                if wet {
                    state.wet_payload_profile = Some(self.profiles[i].config_index);
                }
                self.events.set(i, event);
            }
            self.claims.set(i, false);
            proof {
                assert(self@[i as int] == profile_model(self.profiles@[i as int], self.events@[i as int], false));
                assert forall|j: int| 0 <= j < self.profiles@.len() && j != i implies #[trigger] self@[j]
                    == before[j] by {
                    assert(self.events@[j] == events_before[j]);
                    assert(self.claims@[j] == pending_before[j]);
                }
                let old_tail = log_before.subrange(log_start.len() as int, log_before.len() as int);
                let new_tail = log@.subrange(log_start.len() as int, log@.len() as int);
                if log@.len() > log_before.len() {
                    assert(new_tail =~= old_tail.push(log@[log@.len() - 1]));
                    assert(new_tail.map_values(|e: AnomalyEvent| event_record(e)) =~= old_tail.map_values(
                        |e: AnomalyEvent| event_record(e),
                    ).push(event_record(log@[log@.len() - 1])));
                } else {
                    assert(new_tail =~= old_tail);
                }
                assert(log@.subrange(0, log_start.len() as int) =~= log_start);
            }
            i = i + 1;
        }
        state
    }
}

/// A profile draws its trigger at most once per cycle: after the draws of a
/// cycle were claimed and the cycle resolved, whatever the outcome, the
/// profile neither draws again in that cycle nor holds a claim, so a second
/// claim for the same cycle grants it nothing.
pub proof fn lemma_one_draw_per_cycle(m: AirLockProfileModel, fired: bool, sensor: Seq<char>, cycle: u64)
    ensures
        ({
            let resolved = resolved_profile(after_claim(m, sensor, cycle as nat), fired, sensor, cycle);
            &&& !draws_trigger(resolved, sensor, cycle as nat)
            &&& !resolved.claimed
            &&& !after_claim(resolved, sensor, cycle as nat).claimed
        }),
{
}

/// An event starts only from a granted claim: when resolving a claimed cycle
/// starts an event of profile `m`, the profile was idle, past its warm-up
/// cycles and had not been evaluated in that cycle.
pub proof fn lemma_activation_needs_claim(m: AirLockProfileModel, fired: bool, sensor: Seq<char>, cycle: u64)
    ensures
        ({
            let claimed = after_claim(m, sensor, cycle as nat);
            after_trigger(claimed, fired && claimed.claimed, cycle).active_start != claimed.active_start
                ==> m.sensor_id == sensor && m.active_start is None && cycle > m.start_after
                    && m.last_evaluated != cycle
        }),
{
}

/// Resolving a cycle for profiles that hold no claim logs no activation,
/// whatever trigger outcomes are handed in.
pub proof fn lemma_unclaimed_profiles_log_nothing(
    ms: Seq<AirLockProfileModel>,
    fired: Seq<bool>,
    sensor: Seq<char>,
    cycle: u64,
    timestamp_ms: i64,
    n: nat,
)
    requires
        n <= ms.len(),
        forall|i: int| 0 <= i < ms.len() ==> !(#[trigger] ms[i]).claimed,
    ensures
        resolve_fold(ms, fired, sensor, cycle, timestamp_ms, n).1.len() == 0,
    decreases n,
{
    if n > 0 {
        lemma_unclaimed_profiles_log_nothing(ms, fired, sensor, cycle, timestamp_ms, (n - 1) as nat);
        assert(!ms[n - 1].claimed);
    }
}

/// An air lock that no profile targets runs a nominal cycle: resolving it
/// reports no fault, no maintenance and no wet payload, and logs nothing.
pub proof fn lemma_untargeted_air_lock_is_nominal(
    ms: Seq<AirLockProfileModel>,
    fired: Seq<bool>,
    sensor: Seq<char>,
    cycle: u64,
    timestamp_ms: i64,
    n: nat,
)
    requires
        n <= ms.len(),
        forall|i: int| 0 <= i < ms.len() ==> (#[trigger] ms[i]).sensor_id != sensor,
    ensures
        resolve_fold(ms, fired, sensor, cycle, timestamp_ms, n) == (
            AirLockAnomalyState { seal_faulted: false, maintenance_offline: false, wet_payload_profile: None },
            Seq::<(i64, Seq<char>, Seq<char>, Seq<char>, Option<u64>)>::empty(),
        ),
    decreases n,
{
    if n > 0 {
        lemma_untargeted_air_lock_is_nominal(ms, fired, sensor, cycle, timestamp_ms, (n - 1) as nat);
        assert(ms[n - 1].sensor_id != sensor);
    }
}

/// While an event of profile `m` runs, the profile draws no trigger; the
/// first cycle at or past the event's end affects nothing, ends the event
/// and counts as evaluated, so the profile may start again only in a later
/// cycle past its warm-up.
pub proof fn lemma_event_ends_once(m: AirLockProfileModel, fired: bool, sensor: Seq<char>, cycle: u64, later: u64)
    requires
        m.sensor_id == sensor,
        m.active_start is Some,
    ensures
        !draws_trigger(m, sensor, cycle as nat),
        cycle >= event_end(m.kind, m.active_start->0) ==> {
            let resolved = resolved_profile(m, fired, sensor, cycle);
            &&& seal_phase(after_trigger(m, fired && m.claimed, cycle), cycle) == SealFailurePhase::Inactive
            &&& !wet_payload_in(after_trigger(m, fired && m.claimed, cycle), cycle)
            &&& resolved.active_start is None
            &&& !draws_trigger(resolved, sensor, cycle as nat)
            &&& (later != cycle && later > m.start_after ==> draws_trigger(resolved, sensor, later as nat))
        },
        cycle < event_end(m.kind, m.active_start->0) ==> resolved_profile(m, fired, sensor, cycle).active_start
            == m.active_start,
{
}

/// The model-level strategies are exactly the air-lock seal failure and
/// wet payload, and each keeps its configured cycle counts.
pub proof fn lemma_model_level_kinds(st: AnomalyStrategyConfig)
    ensures
        (spec_model_level_kind(st) is Some) <==> (st is RoboticAirLockSealFailure || st is RoboticAirLockWetPayload),
        st matches AnomalyStrategyConfig::RoboticAirLockSealFailure { faulted_cycles_before_maintenance: f, maintenance_cycles: m }
            ==> spec_model_level_kind(st) == Some(AirLockAnomalyKind::SealFailure { faulted_cycles: f, maintenance_cycles: m }),
        st matches AnomalyStrategyConfig::RoboticAirLockWetPayload { duration_cycles: d } ==> spec_model_level_kind(st)
            == Some(AirLockAnomalyKind::WetPayload { duration_cycles: d }),
{
}

/// The phases of an event started in cycle `start`: a seal failure faults
/// the seal for exactly its faulted cycles from `start` on, then keeps the
/// air lock offline for exactly its maintenance cycles, and affects no
/// other cycle; a wet payload slows exactly its duration of cycles from
/// `start` on. (Cycle counts that would pass `u64::MAX` are cut there.)
pub proof fn lemma_event_windows(m: AirLockProfileModel, start: u64, cycle: u64)
    requires
        m.active_start == Some(start),
    ensures
        m.kind matches AirLockAnomalyKind::SealFailure { faulted_cycles: f, maintenance_cycles: mc }
            ==> start + f + mc <= u64::MAX ==> {
            &&& (seal_phase(m, cycle) == SealFailurePhase::SealFaulted) <==> (start <= cycle && cycle < start + f)
            &&& (seal_phase(m, cycle) == SealFailurePhase::MaintenanceOffline) <==> (start + f <= cycle && cycle
                < start + f + mc)
            &&& !wet_payload_in(m, cycle)
            &&& event_end(m.kind, start) == start + f + mc
        },
        m.kind matches AirLockAnomalyKind::WetPayload { duration_cycles: d } ==> start + d <= u64::MAX ==> {
            &&& wet_payload_in(m, cycle) <==> (start <= cycle && cycle < start + d)
            &&& seal_phase(m, cycle) == SealFailurePhase::Inactive
            &&& event_end(m.kind, start) == start + d
        },
{
}

/// Maintenance outranks a seal fault, which outranks normal operation.
pub proof fn lemma_equipment_priority(s: AirLockAnomalyState)
    ensures
        (spec_equipment_state(s) == EquipmentState::MaintenanceOffline) <==> s.maintenance_offline,
        (spec_equipment_state(s) == EquipmentState::FaultedSealActive) <==> (!s.maintenance_offline && s.seal_faulted),
        (spec_equipment_state(s) == EquipmentState::Nominal) <==> (!s.maintenance_offline && !s.seal_faulted),
{
}

/// The operating state of an air lock in a production cycle.
#[derive(Debug, Clone, Copy, PartialEq, Eq, Structural)]
pub enum EquipmentState {
    Nominal,
    FaultedSealActive,
    MaintenanceOffline,
}

impl EquipmentState {
    /// The state's telemetry code.
    pub fn code(self) -> (r: u8)
        ensures
            r == match self {
                EquipmentState::Nominal => 0u8,
                EquipmentState::FaultedSealActive => 1u8,
                EquipmentState::MaintenanceOffline => 2u8,
            },
    {
        match self {
            EquipmentState::Nominal => 0,
            EquipmentState::FaultedSealActive => 1,
            EquipmentState::MaintenanceOffline => 2,
        }
    }
}

/// The phase of an air-lock production cycle.
#[derive(Debug, Clone, Copy, PartialEq, Eq, Structural)]
pub enum CycleStatus {
    Ingress,
    Sealing,
    Purging,
    Egress,
    Reset,
    Maintenance,
}

impl CycleStatus {
    /// The phase's telemetry code.
    pub fn code(self) -> (r: u8)
        ensures
            r == match self {
                CycleStatus::Ingress => 0u8,
                CycleStatus::Sealing => 1u8,
                CycleStatus::Purging => 2u8,
                CycleStatus::Egress => 3u8,
                CycleStatus::Reset => 4u8,
                CycleStatus::Maintenance => 5u8,
            },
    {
        match self {
            CycleStatus::Ingress => 0,
            CycleStatus::Sealing => 1,
            CycleStatus::Purging => 2,
            CycleStatus::Egress => 3,
            CycleStatus::Reset => 4,
            CycleStatus::Maintenance => 5,
        }
    }
}

/// The equipment state that a cycle's anomaly state imposes: maintenance
/// wins over a seal fault.
pub open spec fn spec_equipment_state(s: AirLockAnomalyState) -> EquipmentState {
    if s.maintenance_offline {
        EquipmentState::MaintenanceOffline
    } else if s.seal_faulted {
        EquipmentState::FaultedSealActive
    } else {
        EquipmentState::Nominal
    }
}

/// The equipment state of a cycle and the profile whose wet payload slows
/// its purge; a wet payload only matters while the air lock is nominal.
pub fn equipment_state(s: AirLockAnomalyState) -> (r: (EquipmentState, Option<usize>))
    ensures
        r.0 == spec_equipment_state(s),
        r.1 == if r.0 == EquipmentState::Nominal { s.wet_payload_profile } else { None::<usize> },
{
    let state = if s.maintenance_offline {
        EquipmentState::MaintenanceOffline
    } else if s.seal_faulted {
        EquipmentState::FaultedSealActive
    } else {
        EquipmentState::Nominal
    };
    let wet = match state {
        EquipmentState::Nominal => s.wet_payload_profile,
        _ => None,
    };
    (state, wet)
}

} // verus!
