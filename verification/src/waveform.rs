//! Where a scenario signal stands in its deterministic waveform. The signal
//! values themselves are computed from these positions by the sampler.
use vstd::prelude::*;

use crate::anomaly::BatchPosition;

verus! {

/// The sample's position within a sine period of `period_samples` samples.
pub fn sine_position(sample_index: u64, period_samples: u64) -> (r: u64)
    requires
        period_samples > 0,
    ensures
        r == sample_index % period_samples,
        r < period_samples,
{
    sample_index % period_samples
}

/// The index of the step value that a step-cycle signal holds at sample
/// `sample_index`: each value is held for `samples_per_step` samples and the
/// `value_count` values repeat in order.
pub fn step_cycle_index(sample_index: u64, samples_per_step: u64, value_count: usize) -> (r: usize)
    requires
        samples_per_step > 0,
        value_count > 0,
    ensures
        r == ((sample_index / samples_per_step) as usize) % value_count,
        r < value_count,
{
    let step = (sample_index / samples_per_step) as usize;
    step % value_count
}

/// The position of sample `sample_index` in a repeating batch temperature
/// profile: `rise_samples` heating, `plateau_samples` at the peak and
/// `cool_samples` cooling.
pub open spec fn spec_batch_profile_position(sample_index: nat, rise: nat, plateau: nat, cool: nat) -> BatchPosition {
    let position = sample_index % (rise + plateau + cool);
    if position < rise {
        BatchPosition::Rising { position: position as u64 }
    } else if position < rise + plateau {
        BatchPosition::Plateau
    } else {
        BatchPosition::Cooling { position: (position - rise - plateau) as u64, cool_samples: cool as u64 }
    }
}

/// The position of sample `sample_index` in a repeating batch temperature
/// profile.
pub fn batch_profile_position(sample_index: u64, rise_samples: u64, plateau_samples: u64, cool_samples: u64) -> (r: BatchPosition)
    requires
        rise_samples > 0,
        plateau_samples > 0,
        cool_samples > 0,
        rise_samples + plateau_samples + cool_samples <= u64::MAX,
    ensures
        r == spec_batch_profile_position(sample_index as nat, rise_samples as nat, plateau_samples as nat, cool_samples as nat),
        r matches BatchPosition::Cooling { position, .. } ==> position < cool_samples,
{
    let cycle = rise_samples + plateau_samples + cool_samples;
    let position = sample_index % cycle;
    if position < rise_samples {
        BatchPosition::Rising { position }
    } else if position < rise_samples + plateau_samples {
        BatchPosition::Plateau
    } else {
        BatchPosition::Cooling { position: position - rise_samples - plateau_samples, cool_samples }
    }
}

/// The batch temperature profile repeats with the period of one batch.
pub proof fn lemma_batch_profile_repeats(sample_index: nat, rise: nat, plateau: nat, cool: nat, k: nat)
    requires
        rise + plateau + cool > 0,
    ensures
        spec_batch_profile_position(sample_index + k * (rise + plateau + cool), rise, plateau, cool)
            == spec_batch_profile_position(sample_index, rise, plateau, cool),
{
    let cycle = rise + plateau + cool;
    vstd::arithmetic::div_mod::lemma_mod_multiples_vanish(k as int, sample_index as int, cycle as int);
    assert(k * cycle == cycle * k) by (nonlinear_arith);
}

/// Within each cycle of `rise + plateau + cool` samples, the profile rises
/// for its first `rise` samples, holds for the next `plateau` samples and
/// cools for the last `cool`, each phase counting positions from its own
/// start.
pub proof fn lemma_batch_profile_phases(sample_index: nat, rise: nat, plateau: nat, cool: nat)
    requires
        rise + plateau + cool > 0,
        cool <= u64::MAX,
        rise + plateau + cool <= u64::MAX,
    ensures
        ({
            let p = sample_index % (rise + plateau + cool);
            let r = spec_batch_profile_position(sample_index, rise, plateau, cool);
            &&& p < rise ==> r == BatchPosition::Rising { position: p as u64 }
            &&& rise <= p < rise + plateau ==> r == BatchPosition::Plateau
            &&& rise + plateau <= p ==> r == BatchPosition::Cooling {
                position: (p - rise - plateau) as u64,
                cool_samples: cool as u64,
            } && p - rise - plateau < cool
        }),
{
    let cycle = rise + plateau + cool;
    vstd::arithmetic::div_mod::lemma_mod_bound(sample_index as int, cycle as int);
}

} // verus!
