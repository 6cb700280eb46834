//! Per-sensor cadence bookkeeping. Time is measured in whole milliseconds on
//! a monotonic clock whose origin is the moment the simulation was built.
use vstd::prelude::*;

verus! {

/// The `k`-th deadline of a cadence that starts at `start` and repeats every
/// `step` milliseconds.
pub open spec fn deadline(start: nat, step: nat, k: nat) -> nat {
    start + k * step
}

/// The cadence state of one scheduled sensor. A schedule is due as soon as it
/// is created and afterwards at every multiple of its timestep from there.
pub struct SensorSchedule<D> {
    definition: D,
    timestep_ms: u64,
    next_due_ms: u64,
    sequence: u64,
}

impl<D> SensorSchedule<D> {
    pub closed spec fn spec_definition(&self) -> D {
        self.definition
    }

    pub closed spec fn spec_timestep(&self) -> nat {
        self.timestep_ms as nat
    }

    pub closed spec fn spec_next_due(&self) -> nat {
        self.next_due_ms as nat
    }

    pub closed spec fn spec_sequence(&self) -> nat {
        self.sequence as nat
    }

    /// A schedule that is first due at `start_ms`.
    pub fn new(definition: D, timestep_ms: u64, start_ms: u64) -> (s: Self)
        requires
            timestep_ms > 0,
        ensures
            s.spec_definition() == definition,
            s.spec_timestep() == timestep_ms,
            s.spec_next_due() == start_ms,
            s.spec_sequence() == 0,
    {
        SensorSchedule { definition, timestep_ms, next_due_ms: start_ms, sequence: 0 }
    }

    /// The sensor this schedule drives.
    pub fn definition(&self) -> (r: &D)
        ensures
            *r == self.spec_definition(),
    {
        &self.definition
    }

    pub fn timestep_ms(&self) -> (r: u64)
        ensures
            r == self.spec_timestep(),
    {
        self.timestep_ms
    }

    /// The instant at which this sensor is next due.
    pub fn next_due(&self) -> (r: u64)
        ensures
            r == self.spec_next_due(),
    {
        self.next_due_ms
    }

    /// The sequence number of the last emitted reading (zero before the first).
    pub fn sequence(&self) -> (r: u64)
        ensures
            r == self.spec_sequence(),
    {
        self.sequence
    }

    /// Whether the sensor is due at `now_ms`.
    pub fn is_due(&self, now_ms: u64) -> (r: bool)
        ensures
            r == (self.spec_next_due() <= now_ms),
    {
        self.next_due_ms <= now_ms
    }

    /// Records one emitted reading at `now_ms` and returns its sequence
    /// number. A late schedule catches up to its next future deadline instead
    /// of owing a burst of missed readings.
    pub fn emit(&mut self, now_ms: u64) -> (sequence: u64)
        requires
            old(self).spec_timestep() > 0,
            old(self).spec_sequence() < u64::MAX,
            now_ms + old(self).spec_timestep() <= u64::MAX,
        ensures
            sequence == old(self).spec_sequence() + 1,
            final(self).spec_sequence() == sequence,
            final(self).spec_definition() == old(self).spec_definition(),
            final(self).spec_timestep() == old(self).spec_timestep(),
            final(self).spec_next_due() > now_ms,
            exists|k: nat|
                final(self).spec_next_due() == #[trigger] deadline(
                    old(self).spec_next_due(),
                    old(self).spec_timestep(),
                    k,
                ),
            old(self).spec_next_due() <= now_ms ==> final(self).spec_next_due()
                <= now_ms + old(self).spec_timestep(),
            old(self).spec_next_due() > now_ms ==> final(self).spec_next_due()
                == old(self).spec_next_due(),
    {
        self.sequence = self.sequence + 1;
        let ghost start = self.next_due_ms as nat;
        let ghost step = self.timestep_ms as nat;
        let ghost mut k: nat = 0;
        let ghost sequence = self.sequence;
        let ghost definition = self.definition;
        while self.next_due_ms <= now_ms
            invariant
                self.sequence == sequence,
                self.definition == definition,
                self.timestep_ms == step,
                step > 0,
                now_ms + step <= u64::MAX,
                self.next_due_ms == deadline(start, step, k),
                k > 0 ==> self.next_due_ms <= now_ms + step,
                k == 0 ==> self.next_due_ms == start,
                start > now_ms ==> k == 0,
            decreases now_ms + step - self.next_due_ms,
        {
            self.next_due_ms = self.next_due_ms + self.timestep_ms;
            proof {
                assert(start + (k + 1) * step == start + k * step + step) by (nonlinear_arith);
                k = k + 1;
            }
        }
        assert(start == old(self).spec_next_due() && step == old(self).spec_timestep());
        assert(self.next_due_ms == deadline(old(self).spec_next_due(), old(self).spec_timestep(), k));
        self.sequence
    }
}

/// What one tick at `now` emits over the first `n` schedules of `ss`: the
/// position of each due schedule, in order, with the sequence number that
/// its reading is given.
pub open spec fn due_emissions<D>(ss: Seq<SensorSchedule<D>>, now: nat, n: nat) -> Seq<(usize, u64)>
    decreases n,
{
    if n == 0 {
        seq![]
    } else {
        let s = ss[n - 1];
        due_emissions(ss, now, (n - 1) as nat) + if s.spec_next_due() <= now {
            seq![((n - 1) as usize, (s.spec_sequence() + 1) as u64)]
        } else {
            seq![]
        }
    }
}

/// Schedule `after` is schedule `before` once it emitted a reading at `now`:
/// the sequence advanced by one and the next deadline is the first one of
/// its cadence after `now`.
pub open spec fn emitted_at<D>(before: SensorSchedule<D>, after: SensorSchedule<D>, now: nat) -> bool {
    &&& after.spec_sequence() == before.spec_sequence() + 1
    &&& after.spec_definition() == before.spec_definition()
    &&& after.spec_timestep() == before.spec_timestep()
    &&& now < after.spec_next_due() <= now + before.spec_timestep()
    &&& exists|k: nat| after.spec_next_due() == #[trigger] deadline(before.spec_next_due(), before.spec_timestep(), k)
}

/// Whether schedule `s` can emit at `now` without its counters overflowing.
pub open spec fn can_emit_at<D>(s: SensorSchedule<D>, now: nat) -> bool {
    &&& s.spec_timestep() > 0
    &&& s.spec_sequence() < u64::MAX
    &&& now + s.spec_timestep() <= u64::MAX
}

/// One tick of a group of schedules at `now_ms`: every due schedule emits
/// exactly one reading and the others are left as they are. Returns, in
/// order, the position of each schedule that emitted with its reading's
/// sequence number.
pub fn emit_due<D>(schedules: &mut Vec<SensorSchedule<D>>, now_ms: u64) -> (r: Vec<(usize, u64)>)
    requires
        forall|i: int|
            0 <= i < old(schedules)@.len() && (#[trigger] old(schedules)@[i]).spec_next_due() <= now_ms
                ==> can_emit_at(old(schedules)@[i], now_ms as nat),
    ensures
        final(schedules)@.len() == old(schedules)@.len(),
        r@ == due_emissions(old(schedules)@, now_ms as nat, old(schedules)@.len()),
        forall|i: int| 0 <= i < old(schedules)@.len() ==> if (#[trigger] old(schedules)@[i]).spec_next_due() <= now_ms {
            emitted_at(old(schedules)@[i], final(schedules)@[i], now_ms as nat)
        } else {
            final(schedules)@[i] == old(schedules)@[i]
        },
{
    let ghost start = schedules@;
    let mut emitted: Vec<(usize, u64)> = Vec::new();
    let mut i: usize = 0;
    while i < schedules.len()
        invariant
            i <= schedules@.len(),
            schedules@.len() == start.len(),
            forall|j: int|
                0 <= j < start.len() && (#[trigger] start[j]).spec_next_due() <= now_ms
                    ==> can_emit_at(start[j], now_ms as nat),
            emitted@ == due_emissions(start, now_ms as nat, i as nat),
            forall|j: int| 0 <= j < i ==> if (#[trigger] start[j]).spec_next_due() <= now_ms {
                emitted_at(start[j], schedules@[j], now_ms as nat)
            } else {
                schedules@[j] == start[j]
            },
            forall|j: int| i <= j < start.len() ==> #[trigger] schedules@[j] == start[j],
        decreases start.len() - i,
    {
        let ghost before = schedules@;
        assert(before[i as int] == start[i as int]);
        if schedules[i].is_due(now_ms) {
            assert(can_emit_at(start[i as int], now_ms as nat));
            let sequence = schedules[i].emit(now_ms);
            emitted.push((i, sequence));
            assert(emitted_at(start[i as int], schedules@[i as int], now_ms as nat));
        }
        assert forall|j: int| 0 <= j < start.len() && j != i implies #[trigger] schedules@[j] == before[j] by {}
        i = i + 1;
    }
    emitted
}

/// An optional machine deadline as a mathematical one.
pub open spec fn due_of(d: Option<u64>) -> Option<nat> {
    match d {
        None => None,
        Some(t) => Some(t as nat),
    }
}

/// The earliest `next_due` among `schedules`, if there is any schedule.
pub open spec fn spec_earliest<D>(schedules: Seq<SensorSchedule<D>>) -> Option<nat>
    decreases schedules.len(),
{
    if schedules.len() == 0 {
        None
    } else {
        let last = schedules.last().spec_next_due();
        match spec_earliest(schedules.drop_last()) {
            None => Some(last),
            Some(m) => Some(if m <= last { m } else { last }),
        }
    }
}

/// The earliest deadline among `schedules`.
pub fn earliest<D>(schedules: &[SensorSchedule<D>]) -> (r: Option<u64>)
    ensures
        due_of(r) == spec_earliest(schedules@),
        r is None <==> schedules@.len() == 0,
        r matches Some(m) ==> (exists|i: int|
            0 <= i < schedules@.len() && schedules@[i].spec_next_due() == m),
        r matches Some(m) ==> (forall|i: int|
            0 <= i < schedules@.len() ==> m <= #[trigger] schedules@[i].spec_next_due()),
{
    let mut best: Option<u64> = None;
    let mut i: usize = 0;
    while i < schedules.len()
        invariant
            i <= schedules@.len(),
            due_of(best) == spec_earliest(schedules@.subrange(0, i as int)),
            best is None <==> i == 0,
            best matches Some(m) ==> (exists|j: int|
                0 <= j < i && schedules@[j].spec_next_due() == m),
            best matches Some(m) ==> (forall|j: int|
                0 <= j < i ==> m <= #[trigger] schedules@[j].spec_next_due()),
        decreases schedules@.len() - i,
    {
        let due = schedules[i].next_due();
        assert(schedules@.subrange(0, i + 1).drop_last() =~= schedules@.subrange(0, i as int));
        best = match best {
            None => Some(due),
            Some(m) => Some(if m <= due { m } else { due }),
        };
        i = i + 1;
    }
    assert(schedules@.subrange(0, i as int) =~= schedules@);
    best
}

/// Whether any of `schedules` is due at `now_ms`.
pub fn any_due<D>(schedules: &[SensorSchedule<D>], now_ms: u64) -> (r: bool)
    ensures
        r == (exists|i: int| 0 <= i < schedules@.len() && #[trigger] schedules@[i].spec_next_due() <= now_ms),
{
    let mut i: usize = 0;
    while i < schedules.len()
        invariant
            i <= schedules@.len(),
            forall|j: int| 0 <= j < i ==> #[trigger] schedules@[j].spec_next_due() > now_ms,
        decreases schedules@.len() - i,
    {
        if schedules[i].is_due(now_ms) {
            return true;
        }
        i = i + 1;
    }
    false
}

/// The shortest cadence among several groups of schedules, if there is any
/// schedule: the interval a shared model assumes when no time has passed.
pub fn shortest_timestep<D>(groups: &[&[SensorSchedule<D>]]) -> (r: Option<u64>)
    ensures
        r is None <==> (forall|g: int| 0 <= g < groups@.len() ==> (#[trigger] groups@[g])@.len() == 0),
        r matches Some(m) ==> (exists|g: int, i: int|
            0 <= g < groups@.len() && 0 <= i < groups@[g]@.len() && groups@[g]@[i].spec_timestep() == m),
        r matches Some(m) ==> (forall|g: int, i: int|
            0 <= g < groups@.len() && 0 <= i < groups@[g]@.len() ==> m <= #[trigger] groups@[g]@[i].spec_timestep()),
{
    let mut best: Option<u64> = None;
    let mut g: usize = 0;
    while g < groups.len()
        invariant
            g <= groups@.len(),
            best is None <==> (forall|h: int| 0 <= h < g ==> (#[trigger] groups@[h])@.len() == 0),
            best matches Some(m) ==> (exists|h: int, i: int|
                0 <= h < g && 0 <= i < groups@[h]@.len() && groups@[h]@[i].spec_timestep() == m),
            best matches Some(m) ==> (forall|h: int, i: int|
                0 <= h < g && 0 <= i < groups@[h]@.len() ==> m <= #[trigger] groups@[h]@[i].spec_timestep()),
        decreases groups@.len() - g,
    {
        let group = groups[g];
        let mut i: usize = 0;
        while i < group.len()
            invariant
                g < groups@.len(),
                group@ == groups@[g as int]@,
                i <= group@.len(),
                best is None <==> ((forall|h: int| 0 <= h < g ==> (#[trigger] groups@[h])@.len() == 0) && i == 0),
                best matches Some(m) ==> (exists|h: int, j: int|
                    ((0 <= h < g && 0 <= j < groups@[h]@.len()) || (h == g && 0 <= j < i))
                        && groups@[h]@[j].spec_timestep() == m),
                best matches Some(m) ==> (forall|h: int, j: int|
                    0 <= h < g && 0 <= j < groups@[h]@.len() ==> m <= #[trigger] groups@[h]@[j].spec_timestep()),
                best matches Some(m) ==> (forall|j: int| 0 <= j < i ==> m <= #[trigger] group@[j].spec_timestep()),
            decreases group@.len() - i,
        {
            let step = group[i].timestep_ms();
            best = match best {
                None => Some(step),
                Some(m) => Some(if m <= step { m } else { step }),
            };
            i = i + 1;
        }
        proof {
            if group@.len() > 0 {
                assert(best is Some);
            }
        }
        g = g + 1;
    }
    best
}

/// The smaller of two optional deadlines, ignoring absent ones.
pub open spec fn spec_min_due(a: Option<nat>, b: Option<nat>) -> Option<nat> {
    match (a, b) {
        (None, _) => b,
        (_, None) => a,
        (Some(x), Some(y)) => Some(if x <= y { x } else { y }),
    }
}

/// The earliest deadline across several groups of schedules.
pub open spec fn spec_earliest_groups<D>(groups: Seq<Seq<SensorSchedule<D>>>) -> Option<nat>
    decreases groups.len(),
{
    if groups.len() == 0 {
        None
    } else {
        spec_min_due(spec_earliest_groups(groups.drop_last()), spec_earliest(groups.last()))
    }
}

/// The earliest deadline across several groups of schedules; empty groups
/// contribute nothing.
pub fn earliest_groups<D>(groups: &[&[SensorSchedule<D>]]) -> (r: Option<u64>)
    ensures
        due_of(r) == spec_earliest_groups(groups@.map_values(|g: &[SensorSchedule<D>]| g@)),
{
    let ghost all = groups@.map_values(|g: &[SensorSchedule<D>]| g@);
    let mut best: Option<u64> = None;
    let mut i: usize = 0;
    while i < groups.len()
        invariant
            i <= groups@.len(),
            all == groups@.map_values(|g: &[SensorSchedule<D>]| g@),
            due_of(best) == spec_earliest_groups(all.subrange(0, i as int)),
        decreases groups@.len() - i,
    {
        let here = earliest(groups[i]);
        assert(all.subrange(0, i + 1).drop_last() =~= all.subrange(0, i as int));
        assert(all.subrange(0, i + 1).last() == groups@[i as int]@);
        best = match (best, here) {
            (None, _) => here,
            (_, None) => best,
            (Some(x), Some(y)) => Some(if x <= y { x } else { y }),
        };
        i = i + 1;
    }
    assert(all.subrange(0, i as int) =~= all);
    best
}

/// The time elapsed since `last` (never negative), after which `last` moves to
/// `now`. A zero interval is reported as `fallback_ms`, the sensor's cadence.
pub fn elapsed_millis(last: &mut u64, now_ms: u64, fallback_ms: u64) -> (r: u64)
    ensures
        *final(last) == now_ms,
        now_ms > *old(last) ==> r == now_ms - *old(last),
        now_ms <= *old(last) ==> r == fallback_ms,
{
    let elapsed = if now_ms > *last { now_ms - *last } else { 0 };
    *last = now_ms;
    if elapsed == 0 { fallback_ms } else { elapsed }
}

/// What the scheduler loop does next.
#[derive(Debug, Clone, Copy, PartialEq, Eq, Structural)]
pub enum SchedulerStep {
    /// No service has any enabled sensor left to schedule.
    NoSensors,
    /// Nothing is due yet; wait until this instant.
    SleepUntil(u64),
    /// At least one service is due now.
    Sample,
}

/// Decides the scheduler's next action from each service's next deadline.
pub fn next_scheduler_step(next_dues: &[Option<u64>], now_ms: u64) -> (r: SchedulerStep)
    ensures
        r == SchedulerStep::NoSensors <==> (forall|i: int|
            0 <= i < next_dues@.len() ==> #[trigger] next_dues@[i] is None),
        r matches SchedulerStep::SleepUntil(t) ==> t > now_ms && (exists|i: int|
            0 <= i < next_dues@.len() && next_dues@[i] == Some(t)) && (forall|i: int|
            0 <= i < next_dues@.len() && #[trigger] next_dues@[i] is Some ==> t
                <= next_dues@[i]->0),
        r == SchedulerStep::Sample <==> (exists|i: int|
            0 <= i < next_dues@.len() && #[trigger] next_dues@[i] is Some && next_dues@[i]->0
                <= now_ms),
{
    let mut best: Option<u64> = None;
    let mut i: usize = 0;
    while i < next_dues.len()
        invariant
            i <= next_dues@.len(),
            best is None <==> (forall|j: int| 0 <= j < i ==> #[trigger] next_dues@[j] is None),
            best matches Some(m) ==> (exists|j: int| 0 <= j < i && next_dues@[j] == Some(m)),
            best matches Some(m) ==> (forall|j: int|
                0 <= j < i && #[trigger] next_dues@[j] is Some ==> m <= next_dues@[j]->0),
        decreases next_dues@.len() - i,
    {
        match next_dues[i] {
            None => {},
            Some(t) => {
                best = match best {
                    None => Some(t),
                    Some(m) => Some(if m <= t { m } else { t }),
                };
            },
        }
        i = i + 1;
    }
    match best {
        None => SchedulerStep::NoSensors,
        Some(m) => {
            if m > now_ms {
                SchedulerStep::SleepUntil(m)
            } else {
                SchedulerStep::Sample
            }
        },
    }
}

/// What a historical (dataset) run does next. Such a run replays the
/// cadences on a virtual clock from the dataset's start instant, without
/// waiting, and stamps each reading with its historical instant.
#[derive(Debug, Clone, Copy, PartialEq, Eq, Structural)]
pub enum HistoricalStep {
    /// No service has any enabled sensor left to schedule.
    NoSensors,
    /// The next deadline lies after the end of the history: the run is done.
    Finished,
    /// Sample the services due at this virtual instant, stamping readings
    /// with `timestamp_ms`.
    Sample { now_ms: u64, timestamp_ms: i64 },
}

/// Decides the next step of a historical run from each service's next
/// deadline: the earliest deadline becomes the virtual now, stamped
/// `start_ms` later than the virtual origin, as long as that instant does
/// not pass `end_ms`.
pub fn next_historical_step(next_dues: &[Option<u64>], start_ms: i64, end_ms: i64) -> (r: HistoricalStep)
    ensures
        r == HistoricalStep::NoSensors <==> (forall|i: int|
            0 <= i < next_dues@.len() ==> #[trigger] next_dues@[i] is None),
        r != HistoricalStep::NoSensors ==> (exists|i: int|
            0 <= i < next_dues@.len() && #[trigger] next_dues@[i] is Some && ({
                let m = next_dues@[i]->0;
                &&& forall|j: int| 0 <= j < next_dues@.len() && #[trigger] next_dues@[j] is Some ==> m <= next_dues@[j]->0
                &&& if start_ms + m <= end_ms {
                    r == HistoricalStep::Sample { now_ms: m, timestamp_ms: (start_ms + m) as i64 }
                } else {
                    r == HistoricalStep::Finished
                }
            })),
{
    let mut best: Option<u64> = None;
    let mut i: usize = 0;
    while i < next_dues.len()
        invariant
            i <= next_dues@.len(),
            best is None <==> (forall|j: int| 0 <= j < i ==> #[trigger] next_dues@[j] is None),
            best matches Some(m) ==> (exists|j: int| 0 <= j < i && next_dues@[j] == Some(m)),
            best matches Some(m) ==> (forall|j: int|
                0 <= j < i && #[trigger] next_dues@[j] is Some ==> m <= next_dues@[j]->0),
        decreases next_dues@.len() - i,
    {
        match next_dues[i] {
            None => {},
            Some(t) => {
                best = match best {
                    None => Some(t),
                    Some(m) => Some(if m <= t { m } else { t }),
                };
            },
        }
        i = i + 1;
    }
    match best {
        None => HistoricalStep::NoSensors,
        Some(m) => {
            let ghost j = choose|j: int| 0 <= j < next_dues@.len() && next_dues@[j] == Some(m);
            assert(next_dues@[j] is Some);
            let stamp: i128 = start_ms as i128 + m as i128;
            if stamp <= end_ms as i128 {
                HistoricalStep::Sample { now_ms: m, timestamp_ms: stamp as i64 }
            } else {
                HistoricalStep::Finished
            }
        },
    }
}

} // verus!
