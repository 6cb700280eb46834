use iot_sim::rack::{
    accelerated_calendar, rack_calendar, rack_regime, RackCalendar, RackClock, RackRegime,
    MINUTES_PER_SAMPLE, SAMPLES_PER_DAY, SAMPLES_PER_WEEK,
};

#[test]
fn sunday_morning_is_a_collective_anomaly() {
    let sample_index = 6 * SAMPLES_PER_DAY + 8 * 60 / MINUTES_PER_SAMPLE;
    let calendar = rack_calendar(false, sample_index, 0).unwrap();
    assert_eq!(calendar.day_of_week, 7);
    assert_eq!(calendar.minute_of_day, 480);
    assert_eq!(rack_regime(calendar), RackRegime::CoolingFailure);
}

#[test]
fn accelerated_schedule_contains_exactly_96_samples_per_day() {
    let mut clock = RackClock::new();
    for _ in 0..SAMPLES_PER_DAY {
        assert!(!clock.advance());
    }
    assert_eq!(clock.sample_index(), SAMPLES_PER_DAY);
    assert_eq!(accelerated_calendar(clock.sample_index()).day_of_week, 2);
}

#[test]
fn day_of_week_changes_every_96_samples() {
    assert_eq!(accelerated_calendar(SAMPLES_PER_DAY - 1).day_of_week, 1);
    assert_eq!(accelerated_calendar(SAMPLES_PER_DAY).day_of_week, 2);
}

#[test]
fn the_week_wraps_back_to_monday() {
    let mut clock = RackClock::new();
    for _ in 0..SAMPLES_PER_WEEK - 1 {
        clock.advance();
    }
    assert_eq!(clock.sample_index(), 671);
    assert!(clock.advance());
    assert_eq!(clock.sample_index(), 0);
    assert_eq!(accelerated_calendar(SAMPLES_PER_WEEK), RackCalendar { day_of_week: 1, minute_of_day: 0 });
    assert_eq!(accelerated_calendar(671), RackCalendar { day_of_week: 7, minute_of_day: 1425 });
}

#[test]
fn regimes_follow_the_working_week() {
    let at = |day: u64, minute: u64| rack_regime(RackCalendar { day_of_week: day, minute_of_day: minute });
    assert_eq!(at(1, 479), RackRegime::OffHours);
    assert_eq!(at(1, 480), RackRegime::BusinessHours);
    assert_eq!(at(5, 1079), RackRegime::BusinessHours);
    assert_eq!(at(5, 1080), RackRegime::OffHours);
    assert_eq!(at(6, 600), RackRegime::Weekend);
    assert_eq!(at(7, 479), RackRegime::Weekend);
    assert_eq!(at(7, 480), RackRegime::CoolingFailure);
    assert_eq!(rack_regime(accelerated_calendar(607)), RackRegime::Weekend);
    assert_eq!(rack_regime(accelerated_calendar(608)), RackRegime::CoolingFailure);
}

#[test]
fn dataset_runs_follow_the_real_utc_calendar() {
    // 2026-08-01T00:00:00Z is a Saturday.
    let saturday = rack_calendar(true, 0, 1_785_542_400_000).unwrap();
    assert_eq!(saturday, RackCalendar { day_of_week: 6, minute_of_day: 0 });
    // 2026-08-02T09:15:00Z is a Sunday morning.
    let sunday = rack_calendar(true, 0, 1_785_542_400_000 + 86_400_000 + 9 * 3_600_000 + 15 * 60_000).unwrap();
    assert_eq!(sunday, RackCalendar { day_of_week: 7, minute_of_day: 555 });
    assert_eq!(rack_regime(sunday), RackRegime::CoolingFailure);
    // The epoch fell on a Thursday.
    assert_eq!(rack_calendar(true, 0, 0).unwrap().day_of_week, 4);
    assert_eq!(rack_calendar(true, 0, -1).unwrap(), RackCalendar { day_of_week: 3, minute_of_day: 1439 });
    assert_eq!(rack_calendar(true, 0, i64::MAX), None);
}
