//! Anomaly bookkeeping that does not depend on sampled values: the log of
//! model-level activations and the timing of the batch-cooling profile.
use vstd::prelude::*;

verus! {

/// One recorded activation of a model-level anomaly.
#[derive(Debug)]
pub struct AnomalyEvent {
    pub timestamp_ms: i64,
    pub anomaly_type: String,
    pub profile: String,
    pub sensor_id: String,
    pub cycle: Option<u64>,
}

impl AnomalyEvent {
    /// A copy of this event.
    pub fn duplicate(&self) -> (r: Self)
        ensures
            r == *self,
    {
        AnomalyEvent {
            timestamp_ms: self.timestamp_ms,
            anomaly_type: self.anomaly_type.clone(),
            profile: self.profile.clone(),
            sensor_id: self.sensor_id.clone(),
            cycle: self.cycle,
        }
    }
}

/// The activations recorded during a run, in the order they happened.
#[derive(Debug)]
pub struct AnomalyEventCollector {
    events: Vec<AnomalyEvent>,
}

impl AnomalyEventCollector {
    pub closed spec fn view(&self) -> Seq<AnomalyEvent> {
        self.events@
    }

    /// A collector that has recorded nothing.
    pub fn new() -> (r: Self)
        ensures
            r@ == Seq::<AnomalyEvent>::empty(),
    {
        AnomalyEventCollector { events: Vec::new() }
    }

    /// Appends `event` to the log.
    pub fn record(&mut self, event: AnomalyEvent)
        ensures
            final(self)@ == old(self)@.push(event),
    {
        self.events.push(event);
    }

    /// A copy of every event recorded so far, oldest first.
    pub fn snapshot(&self) -> (r: Vec<AnomalyEvent>)
        ensures
            r@ == self@,
    {
        let mut out: Vec<AnomalyEvent> = Vec::new();
        let mut i: usize = 0;
        while i < self.events.len()
            invariant
                i <= self.events@.len(),
                out@ == self.events@.subrange(0, i as int),
            decreases self.events@.len() - i,
        {
            out.push(self.events[i].duplicate());
            assert(out@ =~= self.events@.subrange(0, i + 1));
            i = i + 1;
        }
        assert(out@ =~= self.events@);
        out
    }
}

impl Default for AnomalyEventCollector {
    fn default() -> (r: Self)
        ensures
            r@ == Seq::<AnomalyEvent>::empty(),
    {
        AnomalyEventCollector::new()
    }
}

/// The timing of a batch-cooling-stretch anomaly: a train of batch
/// temperature profiles, each rising and holding at its peak for fixed
/// sample counts, whose cooling phase lengthens evenly from the first batch
/// to the last.
#[derive(Debug, Clone, Copy)]
pub struct BatchCoolingTiming {
    pub rise_samples: u64,
    pub plateau_samples: u64,
    pub initial_cool_samples: u64,
    pub final_cool_samples: u64,
    pub batches: u64,
}

/// Where one sample falls inside its batch profile.
#[derive(Debug, Clone, Copy, PartialEq, Eq, Structural)]
pub enum BatchPosition {
    /// Heating: `position` samples into the rise of `rise_samples`.
    Rising { position: u64 },
    /// Holding at the peak temperature.
    Plateau,
    /// Cooling: `position` samples into a cooling phase of `cool_samples`
    /// (the position is held at the end once the phase is over).
    Cooling { position: u64, cool_samples: u64 },
}

impl BatchCoolingTiming {
    /// The constraints that configuration validation establishes, and that
    /// the timing arithmetic stays within 64 bits.
    pub open spec fn well_formed(&self) -> bool {
        &&& self.rise_samples > 0
        &&& self.plateau_samples > 0
        &&& self.initial_cool_samples > 0
        &&& self.final_cool_samples >= self.initial_cool_samples
        &&& self.batches >= 2
        &&& (self.final_cool_samples - self.initial_cool_samples) * self.batches + self.batches
            <= u64::MAX
        &&& self.rise_samples + self.plateau_samples + self.final_cool_samples <= u64::MAX
    }

    /// Cooling samples of batch `b`: the initial length plus the batch's
    /// share of the total stretch, rounded to the nearest sample.
    pub open spec fn spec_cool_samples(&self, b: nat) -> nat {
        let span = (self.final_cool_samples - self.initial_cool_samples) as nat;
        let steps = (self.batches - 1) as nat;
        (self.initial_cool_samples + (span * b + steps / 2) / steps) as nat
    }

    /// The number of samples in batch `b`.
    pub open spec fn spec_cycle(&self, b: nat) -> nat {
        (self.rise_samples + self.plateau_samples + self.spec_cool_samples(b)) as nat
    }

    /// The index of the first sample of batch `b`.
    pub open spec fn spec_batch_start(&self, b: nat) -> nat
        decreases b,
    {
        if b == 0 {
            0
        } else {
            self.spec_batch_start((b - 1) as nat) + self.spec_cycle((b - 1) as nat)
        }
    }

    /// The timing of a batch-cooling-stretch profile, when its settings are
    /// well formed; `None` otherwise.
    pub fn checked(
        rise_samples: u64,
        plateau_samples: u64,
        initial_cool_samples: u64,
        final_cool_samples: u64,
        batches: u64,
    ) -> (r: Option<Self>)
        ensures
            ({
                let t = BatchCoolingTiming {
                    rise_samples,
                    plateau_samples,
                    initial_cool_samples,
                    final_cool_samples,
                    batches,
                };
                &&& r is Some <==> t.well_formed()
                &&& r matches Some(x) ==> x == t
            }),
    {
        let t = BatchCoolingTiming { rise_samples, plateau_samples, initial_cool_samples, final_cool_samples, batches };
        if rise_samples == 0 || plateau_samples == 0 || initial_cool_samples == 0
            || final_cool_samples < initial_cool_samples || batches < 2 {
            return None;
        }
        let span = final_cool_samples - initial_cool_samples;
        match span.checked_mul(batches) {
            None => None,
            Some(stretched) => match stretched.checked_add(batches) {
                None => None,
                Some(_) => match rise_samples.checked_add(plateau_samples) {
                    None => None,
                    Some(ramp) => match ramp.checked_add(final_cool_samples) {
                        None => None,
                        Some(_) => Some(t),
                    },
                },
            },
        }
    }

    /// The number of cooling samples of batch `batch`.
    pub fn cool_samples(&self, batch: u64) -> (r: u64)
        requires
            self.well_formed(),
            batch < self.batches,
        ensures
            r == self.spec_cool_samples(batch as nat),
    {
        let span = self.final_cool_samples - self.initial_cool_samples;
        let steps = self.batches - 1;
        proof {
            lemma_mul_le(span as nat, batch as nat, self.batches as nat);
            lemma_rounded_share_le(span as nat, batch as nat, steps as nat);
        }
        self.initial_cool_samples + (span * batch + steps / 2) / steps
    }

    /// The batch that sample `sample_index` of the event belongs to and its
    /// position there. Samples past the last batch's end stay in the last
    /// batch, held at the end of its cooling phase.
    pub fn locate(&self, sample_index: u64) -> (r: (u64, BatchPosition))
        requires
            self.well_formed(),
        ensures
            r.0 < self.batches,
            self.spec_batch_start(r.0 as nat) <= sample_index,
            r.0 + 1 < self.batches ==> sample_index < self.spec_batch_start((r.0 + 1) as nat),
            ({
                let position = sample_index - self.spec_batch_start(r.0 as nat);
                let cool = self.spec_cool_samples(r.0 as nat);
                if position < self.rise_samples {
                    r.1 == BatchPosition::Rising { position: position as u64 }
                } else if position < self.rise_samples + self.plateau_samples {
                    r.1 == BatchPosition::Plateau
                } else {
                    let cooling = position - self.rise_samples - self.plateau_samples;
                    r.1 == BatchPosition::Cooling {
                        position: (if cooling < cool { cooling } else { cool as int }) as u64,
                        cool_samples: cool as u64,
                    }
                }
            }),
    {
        let mut position = sample_index;
        let mut batch: u64 = 0;
        while batch + 1 < self.batches
            invariant
                self.well_formed(),
                batch < self.batches,
                self.spec_batch_start(batch as nat) + position == sample_index,
            ensures
                batch < self.batches,
                self.spec_batch_start(batch as nat) + position == sample_index,
                batch + 1 < self.batches ==> position < self.spec_cycle(batch as nat),
            decreases self.batches - batch,
        {
            proof {
                self.lemma_cool_le_final(batch as nat);
            }
            let cycle = self.rise_samples + self.plateau_samples + self.cool_samples(batch);
            if position < cycle {
                break;
            }
            position = position - cycle;
            batch = batch + 1;
        }
        let cool_samples = self.cool_samples(batch);
        proof {
            self.lemma_cool_le_final(batch as nat);
        }
        let at = if position < self.rise_samples {
            BatchPosition::Rising { position }
        } else if position < self.rise_samples + self.plateau_samples {
            BatchPosition::Plateau
        } else {
            let cooling_position = position - self.rise_samples - self.plateau_samples;
            BatchPosition::Cooling {
                position: if cooling_position < cool_samples { cooling_position } else { cool_samples },
                cool_samples,
            }
        };
        (batch, at)
    }

    /// No batch cools for longer than the final batch.
    pub proof fn lemma_cool_le_final(&self, b: nat)
        requires
            self.well_formed(),
            b < self.batches,
        ensures
            self.initial_cool_samples <= self.spec_cool_samples(b) <= self.final_cool_samples,
    {
        let span = (self.final_cool_samples - self.initial_cool_samples) as nat;
        let steps = (self.batches - 1) as nat;
        lemma_rounded_share_le(span, b, steps);
    }

    /// The cooling phase starts at its initial length, ends at its final
    /// length and never shortens from one batch to the next.
    pub proof fn lemma_cooling_stretches_evenly(&self, b1: nat, b2: nat)
        requires
            self.well_formed(),
            b1 <= b2 < self.batches,
        ensures
            self.spec_cool_samples(0) == self.initial_cool_samples,
            self.spec_cool_samples((self.batches - 1) as nat) == self.final_cool_samples,
            self.spec_cool_samples(b1) <= self.spec_cool_samples(b2),
    {
        let span = (self.final_cool_samples - self.initial_cool_samples) as nat;
        let steps = (self.batches - 1) as nat;
        assert((span * 0 + steps / 2) / steps == 0) by (nonlinear_arith)
            requires steps >= 1;
        assert((span * steps + steps / 2) / steps == span) by (nonlinear_arith)
            requires steps >= 1;
        assert(span * b1 <= span * b2) by (nonlinear_arith)
            requires b1 <= b2;
        assert((span * b1 + steps / 2) / steps <= (span * b2 + steps / 2) / steps) by (nonlinear_arith)
            requires steps >= 1, span * b1 <= span * b2;
    }
}

proof fn lemma_mul_le(a: nat, b: nat, c: nat)
    requires
        b <= c,
    ensures
        a * b <= a * c,
{
    assert(a * b <= a * c) by (nonlinear_arith)
        requires b <= c;
}

proof fn lemma_rounded_share_le(span: nat, b: nat, steps: nat)
    requires
        steps >= 1,
        b <= steps,
    ensures
        (span * b + steps / 2) / steps <= span,
{
    assert((span * b + steps / 2) / steps <= span) by (nonlinear_arith)
        requires steps >= 1, b <= steps;
}

} // verus!
