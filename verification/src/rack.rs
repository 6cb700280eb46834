//! The calendar of a simulated server rack. A rack reports every fifteen
//! simulated minutes, 96 samples a day; a week begins on Monday and repeats
//! every 672 samples. Streaming runs accelerate the week, dataset runs follow
//! the real UTC calendar of each reading's timestamp. The rack's cooling
//! fails every Sunday from 08:00 until the week ends.
use vstd::prelude::*;

use crate::time::{
    spec_utc_hour, spec_utc_minute, spec_weekday_from_monday, utc_weekday_hour_minute,
    CALENDAR_REACH_MS, MILLIS_PER_DAY,
};

verus! {

pub const MINUTES_PER_DAY: u64 = 1440;

pub const SAMPLES_PER_DAY: u64 = 96;

pub const SAMPLES_PER_WEEK: u64 = 672;

pub const MINUTES_PER_SAMPLE: u64 = 15;

/// The minute of the day (08:00) from which business hours run, and from
/// which the Sunday cooling failure lasts.
pub const BUSINESS_START_MINUTE: u64 = 480;

/// The minute of the day (18:00) at which business hours end.
pub const BUSINESS_END_MINUTE: u64 = 1080;

/// Where a sample falls in the week.
#[derive(Debug, Clone, Copy, PartialEq, Eq, Structural)]
pub struct RackCalendar {
    /// 1 = Monday, ..., 7 = Sunday.
    pub day_of_week: u64,
    /// Minutes since midnight.
    pub minute_of_day: u64,
}

/// The workload regime that a calendar position puts a rack in.
#[derive(Debug, Clone, Copy, PartialEq, Eq, Structural)]
pub enum RackRegime {
    /// Sunday from 08:00: the collective anomaly, with idle CPU and the
    /// configured anomalous temperature and humidity.
    CoolingFailure,
    /// Saturday, and Sunday before 08:00: light load with occasional spikes.
    Weekend,
    /// Weekdays from 08:00 to 18:00: heavy load.
    BusinessHours,
    /// Weekdays outside business hours: moderate load.
    OffHours,
}

/// The calendar position of accelerated sample `sample_index`.
pub open spec fn spec_accelerated_calendar(sample_index: nat) -> RackCalendar {
    let minute_of_week = (sample_index % (SAMPLES_PER_WEEK as nat)) * (MINUTES_PER_SAMPLE as nat);
    RackCalendar {
        day_of_week: (minute_of_week / (MINUTES_PER_DAY as nat) + 1) as u64,
        minute_of_day: (minute_of_week % (MINUTES_PER_DAY as nat)) as u64,
    }
}

/// The calendar position of the UTC instant `ms` milliseconds after the
/// Unix epoch.
pub open spec fn spec_real_calendar(ms: int) -> RackCalendar {
    RackCalendar {
        day_of_week: spec_weekday_from_monday(ms) as u64,
        minute_of_day: (spec_utc_hour(ms) * 60 + spec_utc_minute(ms)) as u64,
    }
}

/// The regime of a calendar position.
pub open spec fn spec_rack_regime(c: RackCalendar) -> RackRegime {
    if c.day_of_week == 7 && c.minute_of_day >= BUSINESS_START_MINUTE {
        RackRegime::CoolingFailure
    } else if c.day_of_week >= 6 {
        RackRegime::Weekend
    } else if BUSINESS_START_MINUTE <= c.minute_of_day < BUSINESS_END_MINUTE {
        RackRegime::BusinessHours
    } else {
        RackRegime::OffHours
    }
}

/// The calendar position of accelerated sample `sample_index`.
pub fn accelerated_calendar(sample_index: u64) -> (r: RackCalendar)
    ensures
        r == spec_accelerated_calendar(sample_index as nat),
{
    let minute_of_week = (sample_index % SAMPLES_PER_WEEK) * MINUTES_PER_SAMPLE;
    RackCalendar {
        day_of_week: minute_of_week / MINUTES_PER_DAY + 1,
        minute_of_day: minute_of_week % MINUTES_PER_DAY,
    }
}

/// The calendar position of a reading: of the sample index when the week is
/// accelerated, of the reading's UTC timestamp otherwise. `None` when the
/// timestamp lies outside the calendar that chrono can represent.
pub fn rack_calendar(real_calendar: bool, sample_index: u64, timestamp_ms: i64) -> (r: Option<RackCalendar>)
    ensures
        !real_calendar ==> r == Some(spec_accelerated_calendar(sample_index as nat)),
        real_calendar ==> (r matches Some(c) ==> c == spec_real_calendar(timestamp_ms as int)),
        real_calendar && -CALENDAR_REACH_MS <= timestamp_ms <= CALENDAR_REACH_MS ==> r is Some,
{
    if !real_calendar {
        return Some(accelerated_calendar(sample_index));
    }
    match utc_weekday_hour_minute(timestamp_ms) {
        None => None,
        Some((day, hour, minute)) => {
            proof {
                assert(0 <= (timestamp_ms as int) % (MILLIS_PER_DAY as int) < MILLIS_PER_DAY);
                assert(hour < 24);
                assert(0 <= (timestamp_ms as int) % 3_600_000 < 3_600_000);
                assert(minute < 60);
            }
            Some(RackCalendar {
                day_of_week: day as u64,
                minute_of_day: (hour as u64) * 60 + minute as u64,
            })
        },
    }
}

/// The regime of a calendar position.
pub fn rack_regime(c: RackCalendar) -> (r: RackRegime)
    ensures
        r == spec_rack_regime(c),
{
    if c.day_of_week == 7 && c.minute_of_day >= BUSINESS_START_MINUTE {
        RackRegime::CoolingFailure
    } else if c.day_of_week >= 6 {
        RackRegime::Weekend
    } else if BUSINESS_START_MINUTE <= c.minute_of_day && c.minute_of_day < BUSINESS_END_MINUTE {
        RackRegime::BusinessHours
    } else {
        RackRegime::OffHours
    }
}

/// The accelerated week: day `d` (1 = Monday) holds samples `96 (d - 1)` to
/// `96 d - 1` of each week, so the day changes every 96 samples, and each
/// sample advances the clock by fifteen minutes.
pub proof fn lemma_accelerated_day(sample_index: nat)
    ensures
        spec_accelerated_calendar(sample_index).day_of_week == (sample_index % 672) / 96 + 1,
        spec_accelerated_calendar(sample_index).minute_of_day == (sample_index % 96) * 15,
        1 <= spec_accelerated_calendar(sample_index).day_of_week <= 7,
        spec_accelerated_calendar(sample_index).minute_of_day < MINUTES_PER_DAY,
{
    let x = sample_index % 672;
    assert((x * 15) / 1440 == x / 96) by (nonlinear_arith)
        requires 0 <= x < 672;
    assert((x * 15) % 1440 == (x % 96) * 15) by (nonlinear_arith)
        requires 0 <= x < 672;
    assert(x % 96 == sample_index % 96) by (nonlinear_arith)
        requires x == sample_index % 672;
}

/// Every week of the accelerated calendar starts on Monday at midnight, and
/// the calendar repeats every week.
pub proof fn lemma_week_starts_monday(week: nat, offset: nat)
    ensures
        spec_accelerated_calendar(week * 672) == (RackCalendar { day_of_week: 1, minute_of_day: 0 }),
        spec_accelerated_calendar(week * 672 + offset) == spec_accelerated_calendar(offset),
{
    assert((week * 672) % 672 == 0) by (nonlinear_arith);
    assert((week * 672 + offset) % 672 == offset % 672) by (nonlinear_arith);
}

/// The cooling failure of the accelerated calendar covers exactly the last
/// 64 samples of each week: Sunday from 08:00.
pub proof fn lemma_cooling_failure_window(sample_index: nat)
    ensures
        spec_rack_regime(spec_accelerated_calendar(sample_index)) == RackRegime::CoolingFailure
            <==> sample_index % 672 >= 608,
{
    lemma_accelerated_day(sample_index);
    let x = sample_index % 672;
    assert(x % 96 == sample_index % 96) by (nonlinear_arith)
        requires x == sample_index % 672;
    assert(x / 96 == 6 && (x % 96) * 15 >= 480 <==> x >= 608) by (nonlinear_arith)
        requires 0 <= x < 672;
}

/// The position of an accelerated rack in its week.
pub struct RackClock {
    sample_index: u64,
}

impl RackClock {
    #[verifier::type_invariant]
    spec fn within_week(&self) -> bool {
        self.sample_index < SAMPLES_PER_WEEK
    }

    pub closed spec fn view(&self) -> nat {
        self.sample_index as nat
    }

    /// A clock at the first sample of a week.
    pub fn new() -> (r: Self)
        ensures
            r@ == 0,
    {
        RackClock { sample_index: 0 }
    }

    /// The index of the current sample within the week.
    pub fn sample_index(&self) -> (r: u64)
        ensures
            r == self@,
            r < SAMPLES_PER_WEEK,
    {
        proof {
            use_type_invariant(self);
        }
        self.sample_index
    }

    /// Moves to the next sample; returns whether a new week began.
    pub fn advance(&mut self) -> (new_week: bool)
        ensures
            final(self)@ == (old(self)@ + 1) % (SAMPLES_PER_WEEK as nat),
            new_week == (old(self)@ + 1 == SAMPLES_PER_WEEK),
    {
        proof {
            use_type_invariant(&*self);
        }
        let next = self.sample_index + 1;
        if next == SAMPLES_PER_WEEK {
            self.sample_index = 0;
            true
        } else {
            self.sample_index = next;
            false
        }
    }
}

/// After `n` samples from the start of a week the clock stands at sample
/// `n mod 672`: the clock model of `advance`, applied `n` times.
pub open spec fn clock_after(n: nat) -> nat
    decreases n,
{
    if n == 0 {
        0
    } else {
        (clock_after((n - 1) as nat) + 1) % 672
    }
}

/// Advancing the clock `n` times from a fresh week counts samples modulo a
/// week.
pub proof fn lemma_clock_counts_modulo_week(n: nat)
    ensures
        clock_after(n) == n % 672,
    decreases n,
{
    if n > 0 {
        lemma_clock_counts_modulo_week((n - 1) as nat);
        let m = (n - 1) as nat;
        assert(((m % 672) + 1) % 672 == n % 672) by (nonlinear_arith)
            requires n == m + 1;
    }
}

/// The regimes of a week (days 1 = Monday to 7 = Sunday): the cooling
/// failure exactly on Sunday from 08:00, the weekend on Saturday and early
/// Sunday, business hours on weekdays from 08:00 until 18:00, and off hours
/// on the rest of the weekdays.
pub proof fn lemma_rack_regimes(c: RackCalendar)
    requires
        1 <= c.day_of_week <= 7,
    ensures
        (spec_rack_regime(c) == RackRegime::CoolingFailure) <==> (c.day_of_week == 7 && c.minute_of_day >= 480),
        (spec_rack_regime(c) == RackRegime::Weekend) <==> (c.day_of_week == 6 || (c.day_of_week == 7
            && c.minute_of_day < 480)),
        (spec_rack_regime(c) == RackRegime::BusinessHours) <==> (c.day_of_week <= 5 && 480 <= c.minute_of_day
            && c.minute_of_day < 1080),
        (spec_rack_regime(c) == RackRegime::OffHours) <==> (c.day_of_week <= 5 && (c.minute_of_day < 480
            || c.minute_of_day >= 1080)),
{
}

} // verus!
