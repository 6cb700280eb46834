//! Which anomaly profiles act on sampled values, and for how long one of
//! their events lasts. Enabled profiles with a model-level strategy go to
//! the air-lock controller instead; a disabled anomaly block has none.
use vstd::prelude::*;

use crate::airlock::{
    is_model_level_strategy, model_level_profiles, spec_controller_profiles, spec_model_level_kind,
    AirLockProfileModel,
};
use crate::validation::{AnomaliesConfig, AnomalyProfileConfig, AnomalyStrategyConfig};

verus! {

/// The number of target samples that one event of a post-sample strategy
/// changes: one for a spike, two for a spike-drop impulse, the configured
/// duration otherwise. Model-level strategies have none.
pub open spec fn spec_duration_samples(st: AnomalyStrategyConfig) -> Option<u64> {
    match st {
        AnomalyStrategyConfig::Spike { .. } => Some(1),
        AnomalyStrategyConfig::SpikeDrop { .. } => Some(2),
        AnomalyStrategyConfig::StuckAt { duration_samples, .. } => Some(duration_samples),
        AnomalyStrategyConfig::Drift { duration_samples, .. } => Some(duration_samples),
        AnomalyStrategyConfig::BatchCoolingStretch { duration_samples, .. } => Some(duration_samples),
        AnomalyStrategyConfig::Noise { duration_samples, .. } => Some(duration_samples),
        AnomalyStrategyConfig::Contextual { duration_samples, .. } => Some(duration_samples),
        AnomalyStrategyConfig::RoboticAirLockSealFailure { .. } => None,
        AnomalyStrategyConfig::RoboticAirLockWetPayload { .. } => None,
    }
}

/// The number of target samples that one event of strategy `st` changes.
pub fn duration_samples(st: &AnomalyStrategyConfig) -> (r: Option<u64>)
    ensures
        r == spec_duration_samples(*st),
{
    match st {
        AnomalyStrategyConfig::Spike { .. } => Some(1),
        AnomalyStrategyConfig::SpikeDrop { .. } => Some(2),
        AnomalyStrategyConfig::StuckAt { duration_samples, .. } => Some(*duration_samples),
        AnomalyStrategyConfig::Drift { duration_samples, .. } => Some(*duration_samples),
        AnomalyStrategyConfig::BatchCoolingStretch { duration_samples, .. } => Some(*duration_samples),
        AnomalyStrategyConfig::Noise { duration_samples, .. } => Some(*duration_samples),
        AnomalyStrategyConfig::Contextual { duration_samples, .. } => Some(*duration_samples),
        AnomalyStrategyConfig::RoboticAirLockSealFailure { .. } => None,
        AnomalyStrategyConfig::RoboticAirLockWetPayload { .. } => None,
    }
}

/// Every sample-level strategy has an event duration and model-level ones
/// have none: a spike changes one sample, a spike-drop impulse two (the
/// spike and the collapse), and every strategy that configures
/// `duration_samples` lasts exactly that many samples.
pub proof fn lemma_event_durations(st: AnomalyStrategyConfig)
    ensures
        (spec_duration_samples(st) is None) <==> (st is RoboticAirLockSealFailure || st is RoboticAirLockWetPayload),
        st is Spike ==> spec_duration_samples(st) == Some(1u64),
        st is SpikeDrop ==> spec_duration_samples(st) == Some(2u64),
        st matches AnomalyStrategyConfig::StuckAt { duration_samples: d, .. } ==> spec_duration_samples(st) == Some(d),
        st matches AnomalyStrategyConfig::Drift { duration_samples: d, .. } ==> spec_duration_samples(st) == Some(d),
        st matches AnomalyStrategyConfig::BatchCoolingStretch { duration_samples: d, .. } ==> spec_duration_samples(st)
            == Some(d),
        st matches AnomalyStrategyConfig::Noise { duration_samples: d, .. } ==> spec_duration_samples(st) == Some(d),
        st matches AnomalyStrategyConfig::Contextual { duration_samples: d, .. } ==> spec_duration_samples(st)
            == Some(d),
{
}

/// Whether configured profile `p` injects into sampled values.
pub open spec fn injects_samples(p: AnomalyProfileConfig) -> bool {
    p.enabled && spec_model_level_kind(p.strategy) is None
}

/// The positions, among the first `n` configured profiles, of those that
/// inject into sampled values.
pub open spec fn injector_indices(ps: Seq<AnomalyProfileConfig>, n: nat) -> Seq<nat>
    decreases n,
{
    if n == 0 {
        seq![]
    } else {
        injector_indices(ps, (n - 1) as nat) + if injects_samples(ps[n - 1]) {
            seq![(n - 1) as nat]
        } else {
            seq![]
        }
    }
}

/// The positions of the configured profiles that the post-sample injector
/// runs, in configuration order: none when anomalies are disabled.
pub open spec fn spec_injector_profiles(c: AnomaliesConfig) -> Seq<nat> {
    if c.enabled {
        injector_indices(c.profiles@, c.profiles@.len())
    } else {
        seq![]
    }
}

/// The positions of the configured profiles that the post-sample injector
/// runs.
pub fn injector_profiles(c: &AnomaliesConfig) -> (r: Vec<usize>)
    ensures
        r@.map_values(|i: usize| i as nat) == spec_injector_profiles(*c),
{
    let mut out: Vec<usize> = Vec::new();
    if !c.enabled {
        assert(out@.map_values(|i: usize| i as nat) =~= seq![]);
        return out;
    }
    let mut i: usize = 0;
    assert(out@.map_values(|i: usize| i as nat) =~= seq![]);
    while i < c.profiles.len()
        invariant
            c.enabled,
            i <= c.profiles@.len(),
            out@.map_values(|k: usize| k as nat) == injector_indices(c.profiles@, i as nat),
        decreases c.profiles@.len() - i,
    {
        let p = &c.profiles[i];
        let ghost before = out@;
        if p.enabled && !is_model_level_strategy(&p.strategy) {
            out.push(i);
            assert(out@ == before.push(i));
        }
        assert(out@.map_values(|k: usize| k as nat) =~= injector_indices(c.profiles@, (i + 1) as nat));
        i = i + 1;
    }
    out
}

/// The configured positions of the profiles that the air-lock controller
/// holds.
pub open spec fn controller_positions(ms: Seq<AirLockProfileModel>) -> Seq<nat> {
    ms.map_values(|m: AirLockProfileModel| m.config_index)
}

proof fn lemma_concat_contains<A>(a: Seq<A>, b: Seq<A>, x: A)
    ensures
        (a + b).contains(x) <==> a.contains(x) || b.contains(x),
{
    if (a + b).contains(x) {
        let j = choose|j: int| 0 <= j < (a + b).len() && (a + b)[j] == x;
        if j >= a.len() {
            assert(b[j - a.len()] == x);
        } else {
            assert(a[j] == x);
        }
    }
    if a.contains(x) {
        let j = choose|j: int| 0 <= j < a.len() && a[j] == x;
        assert((a + b)[j] == x);
    }
    if b.contains(x) {
        let j = choose|j: int| 0 <= j < b.len() && b[j] == x;
        assert((a + b)[a.len() + j] == x);
    }
}

proof fn lemma_singleton_contains<A>(y: A, x: A)
    ensures
        seq![y].contains(x) <==> x == y,
{
    if x == y {
        assert(seq![y][0] == x);
    }
}

proof fn lemma_split_prefix(ps: Seq<AnomalyProfileConfig>, n: nat, i: nat)
    requires
        n <= ps.len(),
    ensures
        injector_indices(ps, n).contains(i) <==> (i < n && injects_samples(ps[i as int])),
        controller_positions(model_level_profiles(ps, n)).contains(i) <==> (i < n && ps[i as int].enabled
            && spec_model_level_kind(ps[i as int].strategy) is Some),
    decreases n,
{
    if n > 0 {
        let m = (n - 1) as nat;
        lemma_split_prefix(ps, m, i);
        let a = injector_indices(ps, m);
        let b = model_level_profiles(ps, m);
        let p = ps[m as int];
        let tail_a: Seq<nat> = if injects_samples(p) { seq![m] } else { seq![] };
        assert(injector_indices(ps, n) == a + tail_a);
        lemma_concat_contains(a, tail_a, i);
        lemma_singleton_contains(m, i);
        let included = p.enabled && spec_model_level_kind(p.strategy) is Some;
        let tail_b: Seq<AirLockProfileModel> = if included {
            seq![crate::airlock::initial_profile(p, m)]
        } else {
            seq![]
        };
        assert(model_level_profiles(ps, n) == b + tail_b);
        let cb = controller_positions(b);
        let ct = controller_positions(tail_b);
        assert(controller_positions(b + tail_b) =~= cb + ct);
        lemma_concat_contains(cb, ct, i);
        if included {
            assert(ct =~= seq![m]);
        } else {
            assert(ct =~= seq![]);
        }
    }
}

/// Every enabled profile of an enabled anomaly block runs in exactly one
/// place: the post-sample injector takes the sample-level strategies, the
/// air-lock controller the model-level ones; disabled profiles run nowhere.
pub proof fn lemma_profiles_partition(c: AnomaliesConfig, i: nat)
    ensures
        spec_injector_profiles(c).contains(i) <==> (c.enabled && i < c.profiles@.len()
            && c.profiles@[i as int].enabled && spec_model_level_kind(c.profiles@[i as int].strategy) is None),
        controller_positions(spec_controller_profiles(c)).contains(i) <==> (c.enabled && i
            < c.profiles@.len() && c.profiles@[i as int].enabled && spec_model_level_kind(
            c.profiles@[i as int].strategy,
        ) is Some),
{
    if c.enabled {
        lemma_split_prefix(c.profiles@, c.profiles@.len(), i);
    } else {
        assert(controller_positions(spec_controller_profiles(c)) =~= seq![]);
    }
}

/// Whether configured profile `p` runs in the air-lock controller.
pub open spec fn drives_air_lock(p: AnomalyProfileConfig) -> bool {
    p.enabled && spec_model_level_kind(p.strategy) is Some
}

proof fn lemma_prefix_counts(ps: Seq<AnomalyProfileConfig>, n: nat)
    requires
        n <= ps.len(),
    ensures
        model_level_profiles(ps, n).len() == ps.take(n as int).filter(|p: AnomalyProfileConfig| drives_air_lock(p)).len(),
        injector_indices(ps, n).len() == ps.take(n as int).filter(|p: AnomalyProfileConfig| injects_samples(p)).len(),
        ps.take(n as int).filter(|p: AnomalyProfileConfig| p.enabled).len() == model_level_profiles(ps, n).len()
            + injector_indices(ps, n).len(),
    decreases n,
{
    if n == 0 {
        reveal(Seq::filter);
        assert(ps.take(0) =~= Seq::<AnomalyProfileConfig>::empty());
    } else {
        let m = (n - 1) as nat;
        lemma_prefix_counts(ps, m);
        let p = ps[m as int];
        assert(ps.take(n as int) =~= ps.take(m as int).push(p));
        ps.take(m as int).lemma_filter_len_push(|q: AnomalyProfileConfig| drives_air_lock(q), p);
        ps.take(m as int).lemma_filter_len_push(|q: AnomalyProfileConfig| injects_samples(q), p);
        ps.take(m as int).lemma_filter_len_push(|q: AnomalyProfileConfig| q.enabled, p);
    }
}

/// With anomalies enabled, the air-lock controller holds one profile per
/// enabled model-level profile and the post-sample injector one per enabled
/// sample-level profile, so that together they hold every enabled profile
/// once; with anomalies disabled both hold none.
pub proof fn lemma_profile_counts(c: AnomaliesConfig)
    ensures
        spec_controller_profiles(c).len() == if c.enabled {
            c.profiles@.filter(|p: AnomalyProfileConfig| drives_air_lock(p)).len()
        } else {
            0
        },
        spec_injector_profiles(c).len() == if c.enabled {
            c.profiles@.filter(|p: AnomalyProfileConfig| injects_samples(p)).len()
        } else {
            0
        },
        c.enabled ==> spec_controller_profiles(c).len() + spec_injector_profiles(c).len() == c.profiles@.filter(
            |p: AnomalyProfileConfig| p.enabled,
        ).len(),
{
    lemma_prefix_counts(c.profiles@, c.profiles@.len());
    assert(c.profiles@.take(c.profiles@.len() as int) =~= c.profiles@);
}

} // verus!
