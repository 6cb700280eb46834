//! The phases of a weather station's storm transition.
use vstd::prelude::*;

verus! {

/// The current phase of a storm transition.
#[derive(Debug, Clone, Copy, PartialEq, Eq, Structural)]
pub enum StormStatus {
    Clear,
    Rising,
    Peak,
    Clearing,
}

/// The phase of a storm whose intensity moves between 0 (none) and 1 (full)
/// towards full while the storm is active and towards none otherwise.
pub open spec fn spec_storm_status(active: bool, intensity_none: bool, intensity_full: bool) -> StormStatus {
    if intensity_none {
        StormStatus::Clear
    } else if active && intensity_full {
        StormStatus::Peak
    } else if active {
        StormStatus::Rising
    } else {
        StormStatus::Clearing
    }
}

/// The phase of a storm: clear at zero intensity, at its peak while active
/// at full intensity, rising while active below it, clearing otherwise.
/// `intensity_none` and `intensity_full` say whether the intensity equals
/// 0 and 1.
pub fn storm_status(active: bool, intensity_none: bool, intensity_full: bool) -> (r: StormStatus)
    ensures
        r == spec_storm_status(active, intensity_none, intensity_full),
{
    if intensity_none {
        StormStatus::Clear
    } else if active && intensity_full {
        StormStatus::Peak
    } else if active {
        StormStatus::Rising
    } else {
        StormStatus::Clearing
    }
}

/// Each phase names one situation of the storm: clear exactly at zero
/// intensity; otherwise at its peak exactly while active at full intensity,
/// rising exactly while active below it, and clearing exactly once the
/// storm is no longer active, whatever its intensity. In particular a storm
/// that is not active is never at its peak.
pub proof fn lemma_storm_phases(active: bool, intensity_none: bool, intensity_full: bool)
    ensures
        (spec_storm_status(active, intensity_none, intensity_full) == StormStatus::Clear) <==> intensity_none,
        (spec_storm_status(active, intensity_none, intensity_full) == StormStatus::Peak) <==> (!intensity_none
            && active && intensity_full),
        (spec_storm_status(active, intensity_none, intensity_full) == StormStatus::Rising) <==> (!intensity_none
            && active && !intensity_full),
        (spec_storm_status(active, intensity_none, intensity_full) == StormStatus::Clearing) <==> (!intensity_none
            && !active),
        !active ==> spec_storm_status(active, intensity_none, intensity_full) != StormStatus::Peak,
        active ==> spec_storm_status(active, intensity_none, intensity_full) != StormStatus::Clearing,
{
}

} // verus!
