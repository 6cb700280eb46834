//! The activation lifecycle that every post-sample anomaly profile shares:
//! a deterministic warm-up, a random trigger decided outside this module,
//! an event of a fixed number of target samples, and a cooldown.
use vstd::prelude::*;

verus! {

/// What one emission of the target metric means for a profile.
#[derive(Debug, Clone, Copy, PartialEq, Eq, Structural)]
pub enum LifecycleStep {
    /// Still inside the configured warm-up; the sample passes unchanged.
    Warmup,
    /// Inside the cooldown after an event; the sample passes unchanged.
    Cooldown,
    /// The profile may start an event on this sample if its trigger fires.
    Eligible,
    /// An event is running and this is its sample with the given index.
    Inject(u64),
}

/// The lifecycle counters of one profile, as mathematical values.
pub struct LifecycleModel {
    pub start_after: nat,
    pub cooldown_samples: nat,
    pub remaining: nat,
    pub active_index: nat,
    pub cooldown_remaining: nat,
    pub observed: nat,
}

/// One injected sample of a running event.
pub open spec fn model_inject(s: LifecycleModel) -> (LifecycleModel, LifecycleStep) {
    let remaining = (s.remaining - 1) as nat;
    (
        LifecycleModel {
            remaining,
            active_index: s.active_index + 1,
            cooldown_remaining: if remaining == 0 { s.cooldown_samples } else { s.cooldown_remaining },
            ..s
        },
        LifecycleStep::Inject(s.active_index as u64),
    )
}

/// One emission of the target metric.
pub open spec fn model_observe(s: LifecycleModel) -> (LifecycleModel, LifecycleStep) {
    if s.observed < s.start_after {
        (LifecycleModel { observed: s.observed + 1, ..s }, LifecycleStep::Warmup)
    } else if s.remaining == 0 {
        if s.cooldown_remaining > 0 {
            (
                LifecycleModel { cooldown_remaining: (s.cooldown_remaining - 1) as nat, ..s },
                LifecycleStep::Cooldown,
            )
        } else {
            (s, LifecycleStep::Eligible)
        }
    } else {
        model_inject(s)
    }
}

/// Starting an event of `duration` samples on an eligible sample; the
/// triggering sample is the event's first.
pub open spec fn model_activate(s: LifecycleModel, duration: nat) -> (LifecycleModel, LifecycleStep) {
    model_inject(LifecycleModel { remaining: duration, active_index: 0, ..s })
}

/// Whether an event may start on the current sample.
pub open spec fn model_eligible(s: LifecycleModel) -> bool {
    s.observed >= s.start_after && s.remaining == 0 && s.cooldown_remaining == 0
}

/// The steps reported by `n` consecutive emissions when no event is started.
pub open spec fn model_steps(s: LifecycleModel, n: nat) -> Seq<LifecycleStep>
    decreases n,
{
    if n == 0 {
        seq![]
    } else {
        seq![model_observe(s).1] + model_steps(model_observe(s).0, (n - 1) as nat)
    }
}

/// The state after `n` consecutive emissions when no event is started.
pub open spec fn model_after(s: LifecycleModel, n: nat) -> LifecycleModel
    decreases n,
{
    if n == 0 {
        s
    } else {
        model_after(model_observe(s).0, (n - 1) as nat)
    }
}

/// Emissions compose: `n + m` emissions are `n` emissions followed by `m`.
pub proof fn lemma_steps_split(s: LifecycleModel, n: nat, m: nat)
    ensures
        model_steps(s, n + m) == model_steps(s, n) + model_steps(model_after(s, n), m),
        model_after(s, n + m) == model_after(model_after(s, n), m),
    decreases n,
{
    if n > 0 {
        lemma_steps_split(model_observe(s).0, (n - 1) as nat, m);
        assert(model_steps(s, n + m) =~= model_steps(s, n) + model_steps(model_after(s, n), m));
    } else {
        assert(model_steps(s, m) =~= seq![] + model_steps(s, m));
    }
}

/// A running event injects its remaining samples with consecutive indices,
/// then arms the cooldown.
pub proof fn lemma_event_runs_to_completion(s: LifecycleModel, r: nat)
    requires
        s.observed >= s.start_after,
        s.remaining == r,
    ensures
        model_steps(s, r) == Seq::new(r, |i: int| LifecycleStep::Inject((s.active_index + i) as u64)),
        r > 0 ==> model_after(s, r) == (LifecycleModel {
            remaining: 0,
            active_index: s.active_index + r,
            cooldown_remaining: s.cooldown_samples,
            ..s
        }),
    decreases r,
{
    if r > 0 {
        let s1 = model_observe(s).0;
        lemma_event_runs_to_completion(s1, (r - 1) as nat);
        assert(model_steps(s, r) =~= Seq::new(
            r,
            |i: int| LifecycleStep::Inject((s.active_index + i) as u64),
        ));
    } else {
        assert(model_steps(s, r) =~= Seq::new(
            r,
            |i: int| LifecycleStep::Inject((s.active_index + i) as u64),
        ));
    }
}

/// A cooldown of `c` samples passes `c` emissions unchanged.
pub proof fn lemma_cooldown_runs_to_completion(s: LifecycleModel, c: nat)
    requires
        s.observed >= s.start_after,
        s.remaining == 0,
        s.cooldown_remaining == c,
    ensures
        model_steps(s, c) == Seq::new(c, |i: int| LifecycleStep::Cooldown),
        model_after(s, c) == (LifecycleModel { cooldown_remaining: 0, ..s }),
    decreases c,
{
    if c > 0 {
        lemma_cooldown_runs_to_completion(model_observe(s).0, (c - 1) as nat);
    }
    assert(model_steps(s, c) =~= Seq::new(c, |i: int| LifecycleStep::Cooldown));
}

/// While no event is started, an eligible profile stays eligible.
pub proof fn lemma_eligible_is_stable(s: LifecycleModel)
    requires
        model_eligible(s),
    ensures
        model_observe(s) == (s, LifecycleStep::Eligible),
{
}

/// Every anomaly profile follows the same event lifecycle: an event started
/// on an eligible sample of a profile with cooldown `c` alters exactly
/// `duration` consecutive target samples, numbered from zero, then lets
/// exactly `c` target samples pass unchanged, and is then eligible again.
pub proof fn lemma_event_then_cooldown(s: LifecycleModel, duration: nat)
    requires
        model_eligible(s),
        duration > 0,
    ensures
        model_activate(s, duration).1 == LifecycleStep::Inject(0),
        model_steps(model_activate(s, duration).0, ((duration - 1) + s.cooldown_samples + 1) as nat)
            == Seq::new((duration - 1) as nat, |i: int| LifecycleStep::Inject((i + 1) as u64))
            + Seq::new(s.cooldown_samples, |i: int| LifecycleStep::Cooldown)
            + seq![LifecycleStep::Eligible],
        model_eligible(
            model_after(model_activate(s, duration).0, ((duration - 1) + s.cooldown_samples) as nat),
        ),
{
    let s1 = model_activate(s, duration).0;
    let d1 = (duration - 1) as nat;
    let c = s.cooldown_samples;
    lemma_event_runs_to_completion(s1, d1);
    lemma_steps_split(s1, d1, c + 1);
    let s2 = model_after(s1, d1);
    if d1 == 0 {
        assert(s2 == s1);
    }
    assert(s2.remaining == 0 && s2.cooldown_remaining == c && s2.observed >= s2.start_after);
    lemma_cooldown_runs_to_completion(s2, c);
    lemma_steps_split(s2, c, 1);
    lemma_steps_split(s1, d1, c);
    let s3 = model_after(s2, c);
    assert(model_observe(s3) == (s3, LifecycleStep::Eligible));
    assert(model_steps(s3, 0) =~= seq![]);
    assert(model_steps(s3, 1) =~= seq![LifecycleStep::Eligible]);
    assert(model_steps(s1, d1) =~= Seq::new(d1, |i: int| LifecycleStep::Inject((i + 1) as u64)));
    assert(model_steps(s1, d1 + c + 1) =~= Seq::new(d1, |i: int| LifecycleStep::Inject((i + 1) as u64))
        + Seq::new(c, |i: int| LifecycleStep::Cooldown) + seq![LifecycleStep::Eligible]);
}

/// A fresh profile lets its first `start_after` target samples pass as
/// warm-up and becomes eligible on the next one.
pub proof fn lemma_warmup_then_eligible(s: LifecycleModel)
    requires
        s.observed == 0,
        s.remaining == 0,
        s.cooldown_remaining == 0,
    ensures
        model_steps(s, s.start_after + 1) == Seq::new(s.start_after, |i: int| LifecycleStep::Warmup).push(
            LifecycleStep::Eligible,
        ),
        model_eligible(model_after(s, s.start_after)),
{
    lemma_warmup_run(s, s.start_after);
    lemma_steps_split(s, s.start_after, 1);
    let s1 = model_after(s, s.start_after);
    assert(model_observe(s1) == (s1, LifecycleStep::Eligible));
    assert(model_steps(s1, 0) =~= seq![]);
    assert(model_steps(s1, 1) =~= seq![LifecycleStep::Eligible]);
    assert(model_steps(s, s.start_after + 1) =~= Seq::new(s.start_after, |i: int| LifecycleStep::Warmup).push(
        LifecycleStep::Eligible,
    ));
}

proof fn lemma_warmup_run(s: LifecycleModel, w: nat)
    requires
        s.observed + w == s.start_after,
    ensures
        model_steps(s, w) == Seq::new(w, |i: int| LifecycleStep::Warmup),
        model_after(s, w) == (LifecycleModel { observed: s.start_after, ..s }),
    decreases w,
{
    if w > 0 {
        lemma_warmup_run(model_observe(s).0, (w - 1) as nat);
    }
    assert(model_steps(s, w) =~= Seq::new(w, |i: int| LifecycleStep::Warmup));
}

/// The lifecycle of one anomaly profile.
pub struct InjectionLifecycle {
    start_after_samples: u64,
    cooldown_samples: u64,
    remaining_samples: u64,
    active_sample_index: u64,
    cooldown_remaining: u64,
    observed_samples: u64,
}

impl InjectionLifecycle {
    #[verifier::type_invariant]
    spec fn counters_fit(&self) -> bool {
        self.active_sample_index + self.remaining_samples <= u64::MAX
    }

    pub closed spec fn view(&self) -> LifecycleModel {
        LifecycleModel {
            start_after: self.start_after_samples as nat,
            cooldown_samples: self.cooldown_samples as nat,
            remaining: self.remaining_samples as nat,
            active_index: self.active_sample_index as nat,
            cooldown_remaining: self.cooldown_remaining as nat,
            observed: self.observed_samples as nat,
        }
    }

    /// A profile that has seen no sample yet.
    pub fn new(start_after_samples: u64, cooldown_samples: u64) -> (r: Self)
        ensures
            r.view() == (LifecycleModel {
                start_after: start_after_samples as nat,
                cooldown_samples: cooldown_samples as nat,
                remaining: 0,
                active_index: 0,
                cooldown_remaining: 0,
                observed: 0,
            }),
    {
        InjectionLifecycle {
            start_after_samples,
            cooldown_samples,
            remaining_samples: 0,
            active_sample_index: 0,
            cooldown_remaining: 0,
            observed_samples: 0,
        }
    }

    /// Whether an event is currently running.
    pub fn is_active(&self) -> (r: bool)
        ensures
            r == (self.view().remaining > 0),
    {
        self.remaining_samples > 0
    }

    fn inject_step(&mut self) -> (r: LifecycleStep)
        requires
            old(self).view().remaining > 0,
        ensures
            (final(self).view(), r) == model_inject(old(self).view()),
    {
        proof {
            use_type_invariant(&*self);
        }
        let index = self.active_sample_index;
        let remaining = self.remaining_samples - 1;
        let cooldown = if remaining == 0 { self.cooldown_samples } else { self.cooldown_remaining };
        *self = InjectionLifecycle {
            start_after_samples: self.start_after_samples,
            cooldown_samples: self.cooldown_samples,
            remaining_samples: remaining,
            active_sample_index: index + 1,
            cooldown_remaining: cooldown,
            observed_samples: self.observed_samples,
        };
        LifecycleStep::Inject(index)
    }

    /// Accounts for one emission of the target metric.
    pub fn observe(&mut self) -> (r: LifecycleStep)
        ensures
            (final(self).view(), r) == model_observe(old(self).view()),
    {
        proof {
            use_type_invariant(&*self);
        }
        if self.observed_samples < self.start_after_samples {
            self.observed_samples = self.observed_samples + 1;
            return LifecycleStep::Warmup;
        }
        if self.remaining_samples == 0 {
            if self.cooldown_remaining > 0 {
                self.cooldown_remaining = self.cooldown_remaining - 1;
                return LifecycleStep::Cooldown;
            }
            return LifecycleStep::Eligible;
        }
        self.inject_step()
    }

    /// Starts an event of `duration_samples` samples on the current,
    /// eligible sample and returns that sample's step, `Inject(0)`.
    pub fn activate(&mut self, duration_samples: u64) -> (r: LifecycleStep)
        requires
            model_eligible(old(self).view()),
            duration_samples > 0,
        ensures
            (final(self).view(), r) == model_activate(old(self).view(), duration_samples as nat),
            r == LifecycleStep::Inject(0),
    {
        *self = InjectionLifecycle {
            start_after_samples: self.start_after_samples,
            cooldown_samples: self.cooldown_samples,
            remaining_samples: duration_samples,
            active_sample_index: 0,
            cooldown_remaining: self.cooldown_remaining,
            observed_samples: self.observed_samples,
        };
        self.inject_step()
    }
}

} // verus!

verus! {

/// The mathematical value of `a + b` saturated at `u64::MAX`.
pub open spec fn saturating_sum(a: nat, b: nat) -> nat {
    if a + b > u64::MAX { u64::MAX as nat } else { a + b }
}

/// Where a model-level seal failure stands in a given production cycle.
#[derive(Debug, Clone, Copy, PartialEq, Eq, Structural)]
pub enum SealFailurePhase {
    /// No seal failure affects this cycle.
    Inactive,
    /// The inflatable seal is faulted.
    SealFaulted,
    /// The air lock is offline for maintenance after the fault.
    MaintenanceOffline,
}

/// The trigger and activity state of a model-level anomaly whose events are
/// measured in whole production cycles instead of target samples.
#[derive(Clone, Copy)]
pub struct CycleEvent {
    start_after_cycles: u64,
    last_evaluated_cycle: u64,
    active_start_cycle: Option<u64>,
}

impl CycleEvent {
    pub closed spec fn start_after(&self) -> nat {
        self.start_after_cycles as nat
    }

    pub closed spec fn last_evaluated(&self) -> nat {
        self.last_evaluated_cycle as nat
    }

    pub closed spec fn active_start(&self) -> Option<u64> {
        self.active_start_cycle
    }

    /// An event that may first trigger in the cycle after `start_after_cycles`.
    pub fn new(start_after_cycles: u64) -> (r: Self)
        ensures
            r.start_after() == start_after_cycles,
            r.last_evaluated() == 0,
            r.active_start() is None,
    {
        CycleEvent { start_after_cycles, last_evaluated_cycle: 0, active_start_cycle: None }
    }

    /// The cycle in which the running event started, if one is running.
    pub fn active_start_cycle(&self) -> (r: Option<u64>)
        ensures
            r == self.active_start(),
    {
        self.active_start_cycle
    }

    /// Whether the random trigger is to be drawn for `cycle`. It is drawn at
    /// most once per cycle, only after the warm-up cycles and only while no
    /// event is running; a draw marks the cycle as evaluated.
    pub fn claims_trigger_draw(&mut self, cycle: u64) -> (r: bool)
        ensures
            r == (old(self).active_start() is None && cycle > old(self).start_after()
                && old(self).last_evaluated() != cycle),
            final(self).start_after() == old(self).start_after(),
            final(self).active_start() == old(self).active_start(),
            final(self).last_evaluated() == if r { cycle as nat } else { old(self).last_evaluated() },
    {
        if self.active_start_cycle.is_some() || cycle <= self.start_after_cycles
            || self.last_evaluated_cycle == cycle {
            return false;
        }
        self.last_evaluated_cycle = cycle;
        true
    }

    /// Starts an event in `cycle` after its trigger fired.
    pub fn start(&mut self, cycle: u64)
        ensures
            final(self).start_after() == old(self).start_after(),
            final(self).last_evaluated() == old(self).last_evaluated(),
            final(self).active_start() == Some(cycle),
    {
        self.active_start_cycle = Some(cycle);
    }

    fn finish(&mut self, cycle: u64)
        ensures
            final(self).start_after() == old(self).start_after(),
            final(self).last_evaluated() == cycle,
            final(self).active_start() is None,
    {
        self.active_start_cycle = None;
        self.last_evaluated_cycle = cycle;
    }

    /// The seal-failure phase of `cycle`: faulted for `faulted_cycles`
    /// cycles from the start, then offline for `maintenance_cycles` cycles.
    /// Once a cycle at or past the end is seen the event is over and the
    /// trigger may fire again in a later cycle.
    pub fn seal_failure_phase(&mut self, cycle: u64, faulted_cycles: u64, maintenance_cycles: u64) -> (r: SealFailurePhase)
        ensures
            final(self).start_after() == old(self).start_after(),
            match old(self).active_start() {
                None => r == SealFailurePhase::Inactive && *final(self) == *old(self),
                Some(start) => {
                    let fault_end = saturating_sum(start as nat, faulted_cycles as nat);
                    let maintenance_end = saturating_sum(fault_end, maintenance_cycles as nat);
                    &&& (start <= cycle < fault_end) ==> r == SealFailurePhase::SealFaulted
                        && *final(self) == *old(self)
                    &&& (fault_end <= cycle < maintenance_end) ==> r
                        == SealFailurePhase::MaintenanceOffline && *final(self) == *old(self)
                    &&& (cycle >= maintenance_end) ==> r == SealFailurePhase::Inactive
                        && final(self).active_start() is None && final(self).last_evaluated() == cycle
                    &&& (cycle < start) ==> r == SealFailurePhase::Inactive && *final(self) == *old(self)
                },
            },
    {
        match self.active_start_cycle {
            None => SealFailurePhase::Inactive,
            Some(start) => {
                let fault_end = start.saturating_add(faulted_cycles);
                let maintenance_end = fault_end.saturating_add(maintenance_cycles);
                if start <= cycle && cycle < fault_end {
                    SealFailurePhase::SealFaulted
                } else if fault_end <= cycle && cycle < maintenance_end {
                    SealFailurePhase::MaintenanceOffline
                } else if cycle >= maintenance_end {
                    self.finish(cycle);
                    SealFailurePhase::Inactive
                } else {
                    SealFailurePhase::Inactive
                }
            },
        }
    }

    /// Whether a wet payload slows purge recovery in `cycle`: it does for
    /// `duration_cycles` cycles from the start. A cycle at or past the end
    /// ends the event.
    pub fn wet_payload_active(&mut self, cycle: u64, duration_cycles: u64) -> (r: bool)
        ensures
            final(self).start_after() == old(self).start_after(),
            match old(self).active_start() {
                None => !r && *final(self) == *old(self),
                Some(start) => {
                    let end = saturating_sum(start as nat, duration_cycles as nat);
                    &&& (start <= cycle < end) ==> r && *final(self) == *old(self)
                    &&& (cycle >= end) ==> !r && final(self).active_start() is None
                        && final(self).last_evaluated() == cycle
                    &&& (cycle < start) ==> !r && *final(self) == *old(self)
                },
            },
    {
        match self.active_start_cycle {
            None => false,
            Some(start) => {
                let end = start.saturating_add(duration_cycles);
                if start <= cycle && cycle < end {
                    true
                } else if cycle >= end {
                    self.finish(cycle);
                    false
                } else {
                    false
                }
            },
        }
    }
}

} // verus!
