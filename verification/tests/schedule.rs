use iot_sim::schedule::{
    next_historical_step, HistoricalStep, any_due, earliest, earliest_groups, elapsed_millis, emit_due, next_scheduler_step, SchedulerStep,
    SensorSchedule,
};

#[test]
fn schedule_emits_only_at_its_configured_timestep() {
    let start = 0;
    let mut schedule = SensorSchedule::new("sensor-1", 250, start);
    assert!(schedule.is_due(start));
    let first = schedule.emit(start);
    assert_eq!(first, 1);
    assert!(!schedule.is_due(start + 249));
    assert!(schedule.is_due(start + 250));
}

#[test]
fn schedule_catches_up_without_emitting_a_burst() {
    let start = 1_000;
    let mut schedule = SensorSchedule::new("sensor-1", 100, start);
    let delayed = start + 450;
    schedule.emit(delayed);
    assert!(!schedule.is_due(delayed));
    assert_eq!(schedule.next_due(), start + 500);
    assert_eq!(schedule.sequence(), 1);
}

#[test]
fn early_emission_keeps_the_deadline() {
    let mut schedule = SensorSchedule::new(7u8, 100, 500);
    assert_eq!(schedule.emit(200), 1);
    assert_eq!(schedule.next_due(), 500);
    assert_eq!(*schedule.definition(), 7);
    assert_eq!(schedule.timestep_ms(), 100);
}

#[test]
fn earliest_deadline_across_schedules_and_groups() {
    let a = vec![SensorSchedule::new(0u8, 10, 30), SensorSchedule::new(1u8, 10, 20)];
    let b: Vec<SensorSchedule<u8>> = vec![];
    let c = vec![SensorSchedule::new(2u8, 10, 25)];
    assert_eq!(earliest(&a), Some(20));
    assert_eq!(earliest(&b), None);
    assert_eq!(earliest_groups(&[&a[..], &b[..], &c[..]]), Some(20));
    assert_eq!(earliest_groups::<u8>(&[&b[..]]), None);
    assert!(any_due(&a, 20));
    assert!(!any_due(&a, 19));
}

#[test]
fn elapsed_time_falls_back_to_the_cadence_when_no_time_passed() {
    let mut last = 1_000;
    assert_eq!(elapsed_millis(&mut last, 1_250, 100), 250);
    assert_eq!(last, 1_250);
    assert_eq!(elapsed_millis(&mut last, 1_250, 100), 100);
    assert_eq!(elapsed_millis(&mut last, 1_200, 100), 100);
    assert_eq!(last, 1_200);
}

#[test]
fn scheduler_sleeps_until_the_earliest_deadline() {
    assert_eq!(next_scheduler_step(&[None, None], 5), SchedulerStep::NoSensors);
    assert_eq!(next_scheduler_step(&[], 5), SchedulerStep::NoSensors);
    assert_eq!(next_scheduler_step(&[Some(30), None, Some(20)], 5), SchedulerStep::SleepUntil(20));
    assert_eq!(next_scheduler_step(&[Some(30), Some(5)], 5), SchedulerStep::Sample);
}

#[test]
fn shared_models_fall_back_to_the_shortest_cadence() {
    let a = vec![SensorSchedule::new(0u8, 500, 0), SensorSchedule::new(1u8, 250, 0)];
    let b = vec![SensorSchedule::new(2u8, 300, 0)];
    let empty: Vec<SensorSchedule<u8>> = vec![];
    assert_eq!(iot_sim::schedule::shortest_timestep(&[&a[..], &b[..]]), Some(250));
    assert_eq!(iot_sim::schedule::shortest_timestep(&[&empty[..]]), None);
}

#[test]
fn historical_runs_replay_cadences_until_the_end_of_history() {
    let start = 1_785_542_400_000;
    assert_eq!(next_historical_step(&[None], start, start + 1_000), HistoricalStep::NoSensors);
    assert_eq!(
        next_historical_step(&[Some(500), None, Some(250)], start, start + 1_000),
        HistoricalStep::Sample { now_ms: 250, timestamp_ms: start + 250 }
    );
    assert_eq!(
        next_historical_step(&[Some(1_000)], start, start + 1_000),
        HistoricalStep::Sample { now_ms: 1_000, timestamp_ms: start + 1_000 }
    );
    assert_eq!(next_historical_step(&[Some(1_001)], start, start + 1_000), HistoricalStep::Finished);
    assert_eq!(next_historical_step(&[Some(u64::MAX)], i64::MAX, i64::MAX), HistoricalStep::Finished);
}

#[test]
fn a_tick_emits_once_from_each_due_schedule_only() {
    let mut group = vec![
        SensorSchedule::new("fast", 100, 0),
        SensorSchedule::new("slow", 1_000, 500),
        SensorSchedule::new("late", 100, 0),
    ];
    group[2].emit(0);
    // At 250 the first is due (deadline 0), the second is not (500), the
    // third is due (deadline 100) with its second reading.
    assert_eq!(emit_due(&mut group, 250), vec![(0, 1), (2, 2)]);
    assert_eq!(group[0].next_due(), 300);
    assert_eq!(group[1].next_due(), 500);
    assert_eq!(group[1].sequence(), 0);
    assert_eq!(group[2].next_due(), 300);
    assert!(emit_due(&mut group, 299).is_empty());
    assert_eq!(emit_due(&mut group, 500), vec![(0, 2), (1, 1), (2, 3)]);
    assert_eq!(group[1].next_due(), 1_500);
}
