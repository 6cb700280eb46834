use iot_sim::airlock::AirLockController;
use iot_sim::anomaly::{AnomalyEvent, AnomalyEventCollector, BatchCoolingTiming, BatchPosition};
use iot_sim::injection::{duration_samples, injector_profiles};
use iot_sim::lifecycle::{InjectionLifecycle, LifecycleStep};
use iot_sim::config::AnomalyTargetConfig;
use iot_sim::validation::{AnomaliesConfig, AnomalyProfileConfig, AnomalyStrategyConfig, AnomalyTriggerConfig};

/// One target emission for a profile whose trigger always fires (threshold
/// 0): the lifecycle step that the sample receives.
fn step(lifecycle: &mut InjectionLifecycle, duration: u64) -> LifecycleStep {
    match lifecycle.observe() {
        LifecycleStep::Eligible => lifecycle.activate(duration),
        other => other,
    }
}

fn test_lifecycle() -> InjectionLifecycle {
    // cooldown_samples: 1, start_after_samples: 0
    InjectionLifecycle::new(0, 1)
}

#[test]
fn spike_changes_exactly_one_target_sample() {
    let spike = AnomalyStrategyConfig::Spike { offset_finite: true, multiplier_finite: true };
    let duration = duration_samples(&spike).unwrap();
    assert_eq!(duration, 1);
    let (offset, multiplier) = (20.0, 2.0);
    let mut lifecycle = test_lifecycle();
    let mut inject = |value: f64| match step(&mut lifecycle, duration) {
        LifecycleStep::Inject(_) => value * multiplier + offset,
        _ => value,
    };
    assert_eq!(inject(10.0), 40.0);
    assert_eq!(inject(10.0), 10.0);
}

#[test]
fn spike_drop_emits_impulse_then_collapse() {
    let strategy = AnomalyStrategyConfig::SpikeDrop { spike_value_finite: true, drop_value_finite: true };
    let duration = duration_samples(&strategy).unwrap();
    assert_eq!(duration, 2);
    let mut lifecycle = test_lifecycle();
    let mut inject = |value: f64| match step(&mut lifecycle, duration) {
        LifecycleStep::Inject(0) => 180.0,
        LifecycleStep::Inject(_) => 35.0,
        _ => value,
    };
    assert_eq!(inject(60.0), 180.0);
    assert_eq!(inject(60.0), 35.0);
    assert_eq!(inject(60.0), 60.0);
}

#[test]
fn batch_cooling_profile_reaches_sixty_samples_by_batch_fifteen() {
    let timing = BatchCoolingTiming::checked(15, 45, 45, 60, 15).unwrap();
    assert_eq!(timing.cool_samples(0), 45);
    assert_eq!(timing.cool_samples(14), 60);
    assert_eq!((0..15).map(|batch| 60 + timing.cool_samples(batch)).sum::<u64>(), 1688);
}

#[test]
fn batch_cooling_positions_walk_through_each_batch() {
    let timing = BatchCoolingTiming::checked(15, 45, 45, 60, 15).unwrap();
    assert_eq!(timing.locate(0), (0, BatchPosition::Rising { position: 0 }));
    assert_eq!(timing.locate(15), (0, BatchPosition::Plateau));
    assert_eq!(timing.locate(60), (0, BatchPosition::Cooling { position: 0, cool_samples: 45 }));
    assert_eq!(timing.locate(105), (1, BatchPosition::Rising { position: 0 }));
    assert_eq!(timing.locate(1687), (14, BatchPosition::Cooling { position: 59, cool_samples: 60 }));
    assert_eq!(timing.locate(5000), (14, BatchPosition::Cooling { position: 60, cool_samples: 60 }));
    assert!(BatchCoolingTiming::checked(15, 45, 60, 45, 15).is_none());
    assert!(BatchCoolingTiming::checked(15, 45, 45, 60, 1).is_none());
    assert!(BatchCoolingTiming::checked(u64::MAX, 1, 1, 1, 2).is_none());
}

#[test]
fn stuck_at_repeats_the_last_valid_value() {
    let strategy = AnomalyStrategyConfig::StuckAt { duration_samples: 3, value_finite: true };
    let duration = duration_samples(&strategy).unwrap();
    let mut lifecycle = test_lifecycle();
    let mut frozen = 0.0;
    let mut inject = |value: f64| match step(&mut lifecycle, duration) {
        LifecycleStep::Inject(0) => {
            // No earlier value of the target was seen: freeze the baseline.
            frozen = value;
            frozen
        },
        LifecycleStep::Inject(_) => frozen,
        _ => value,
    };
    assert_eq!(inject(10.0), 10.0);
    assert_eq!(inject(11.0), 10.0);
    assert_eq!(inject(12.0), 10.0);
    assert_eq!(inject(13.0), 13.0);
}

#[test]
fn drift_ramps_across_the_configured_window() {
    let strategy = AnomalyStrategyConfig::Drift { duration_samples: 3, total_offset_finite: true };
    let duration = duration_samples(&strategy).unwrap();
    let total_offset = 6.0;
    let mut lifecycle = test_lifecycle();
    let mut inject = |value: f64| match step(&mut lifecycle, duration) {
        LifecycleStep::Inject(k) => value + total_offset * (k as f64 / (duration - 1) as f64),
        _ => value,
    };
    assert_eq!(inject(10.0), 10.0);
    assert_eq!(inject(10.0), 13.0);
    assert_eq!(inject(10.0), 16.0);
    assert_eq!(inject(10.0), 10.0);
}

#[test]
fn warm_up_and_cooldown_delay_activation() {
    let mut lifecycle = InjectionLifecycle::new(2, 2);
    assert_eq!(lifecycle.observe(), LifecycleStep::Warmup);
    assert_eq!(lifecycle.observe(), LifecycleStep::Warmup);
    assert_eq!(lifecycle.observe(), LifecycleStep::Eligible);
    assert_eq!(lifecycle.activate(1), LifecycleStep::Inject(0));
    assert!(!lifecycle.is_active());
    assert_eq!(lifecycle.observe(), LifecycleStep::Cooldown);
    assert_eq!(lifecycle.observe(), LifecycleStep::Cooldown);
    assert_eq!(lifecycle.observe(), LifecycleStep::Eligible);
    assert_eq!(lifecycle.activate(3), LifecycleStep::Inject(0));
    assert!(lifecycle.is_active());
    assert_eq!(lifecycle.observe(), LifecycleStep::Inject(1));
    assert_eq!(lifecycle.observe(), LifecycleStep::Inject(2));
    assert_eq!(lifecycle.observe(), LifecycleStep::Cooldown);
}

fn profile(name: &str, enabled: bool, strategy: AnomalyStrategyConfig) -> AnomalyProfileConfig {
    AnomalyProfileConfig {
        name: name.into(),
        enabled,
        target: AnomalyTargetConfig { sensor_id: "target-01".into(), metric: "value".into() },
        trigger: AnomalyTriggerConfig::default(),
        strategy,
    }
}

#[test]
fn injector_runs_enabled_sample_level_profiles_only() {
    let config = AnomaliesConfig {
        enabled: true,
        seed: Some(7),
        profiles: vec![
            profile("spike", true, AnomalyStrategyConfig::Spike { offset_finite: true, multiplier_finite: true }),
            profile("off", false, AnomalyStrategyConfig::Drift { duration_samples: 3, total_offset_finite: true }),
            profile("seal", true, AnomalyStrategyConfig::RoboticAirLockSealFailure {
                faulted_cycles_before_maintenance: 3,
                maintenance_cycles: 1,
            }),
            profile("noise", true, AnomalyStrategyConfig::Noise { duration_samples: 2, sigma_valid: true }),
        ],
    };
    assert_eq!(injector_profiles(&config), vec![0, 3]);
    let disabled = AnomaliesConfig { enabled: false, ..config };
    assert!(injector_profiles(&disabled).is_empty());
    assert_eq!(
        duration_samples(&AnomalyStrategyConfig::RoboticAirLockWetPayload { duration_cycles: 1 }),
        None
    );
}

#[test]
fn collector_keeps_events_in_recording_order() {
    let mut collector = AnomalyEventCollector::new();
    assert!(collector.snapshot().is_empty());
    for cycle in [3, 9] {
        collector.record(AnomalyEvent {
            timestamp_ms: 1_000 * cycle as i64,
            anomaly_type: "robotic_air_lock_seal_failure".into(),
            profile: "seal_failure".into(),
            sensor_id: "mal-01".into(),
            cycle: Some(cycle),
        });
    }
    let events = collector.snapshot();
    assert_eq!(events.len(), 2);
    assert_eq!(events[0].cycle, Some(3));
    assert_eq!(events[1].timestamp_ms, 9_000);
    assert_eq!(collector.snapshot().len(), 2);
}

#[test]
fn enabled_profiles_split_between_injector_and_air_lock_controller() {
    let config = AnomaliesConfig {
        enabled: true,
        seed: None,
        profiles: vec![
            profile("spike", true, AnomalyStrategyConfig::Spike { offset_finite: true, multiplier_finite: true }),
            profile("seal", true, AnomalyStrategyConfig::RoboticAirLockSealFailure {
                faulted_cycles_before_maintenance: 2,
                maintenance_cycles: 1,
            }),
            profile("wet", true, AnomalyStrategyConfig::RoboticAirLockWetPayload { duration_cycles: 1 }),
            profile("off", false, AnomalyStrategyConfig::RoboticAirLockWetPayload { duration_cycles: 1 }),
        ],
    };
    let controller = AirLockController::from_config(&config);
    assert_eq!(controller.active_profile_count(), 2);
    assert_eq!(injector_profiles(&config).len(), 1);
    assert_eq!(controller.active_profile_count() + injector_profiles(&config).len(), 3);
    let omitted = AnomaliesConfig::default();
    assert!(!omitted.enabled);
    assert_eq!(omitted.seed, None);
    assert!(omitted.profiles.is_empty());
    assert_eq!(AirLockController::from_config(&omitted).active_profile_count(), 0);
    assert!(injector_profiles(&omitted).is_empty());
}
