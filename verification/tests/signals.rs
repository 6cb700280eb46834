use iot_sim::anomaly::BatchPosition;
use iot_sim::waveform::{batch_profile_position, sine_position, step_cycle_index};
use iot_sim::weather::{storm_status, StormStatus};

/// The temperature of a batch profile from 30 to 85 degrees at a position.
fn batch_value(position: BatchPosition, low: f64, peak: f64, rise: u64) -> f64 {
    match position {
        BatchPosition::Rising { position } => low + (peak - low) * position as f64 / rise as f64,
        BatchPosition::Plateau => peak,
        BatchPosition::Cooling { position, cool_samples } => {
            peak - (peak - low) * position as f64 / cool_samples as f64
        },
    }
}

#[test]
fn batch_profile_rises_plateaus_and_cools() {
    let value = |i: u64| batch_value(batch_profile_position(i, 2, 2, 2), 30.0, 85.0, 2);
    assert_eq!(value(0), 30.0);
    assert_eq!(value(2), 85.0);
    assert_eq!(value(4), 85.0);
    assert_eq!(value(5), 57.5);
}

#[test]
fn batch_profile_repeats_every_cycle() {
    assert_eq!(batch_profile_position(6, 2, 2, 2), BatchPosition::Rising { position: 0 });
    assert_eq!(batch_profile_position(1, 2, 2, 2), BatchPosition::Rising { position: 1 });
    assert_eq!(batch_profile_position(11, 2, 2, 2), BatchPosition::Cooling { position: 1, cool_samples: 2 });
}

#[test]
fn step_cycles_hold_each_value_then_repeat() {
    let steps: Vec<usize> = (0..8).map(|i| step_cycle_index(i, 2, 3)).collect();
    assert_eq!(steps, vec![0, 0, 1, 1, 2, 2, 0, 0]);
    assert_eq!(sine_position(25, 10), 5);
}

#[test]
fn storm_rises_and_clears_smoothly() {
    // A storm with transition rate 0.3 per hour stepped hourly: the
    // intensity climbs 0.3, 0.6, 0.9, 1.0 and then falls to 0.7.
    let mut intensity: f64 = 0.0;
    let mut active = true;
    let mut next = |active: bool| {
        intensity = if active { (intensity + 0.3).min(1.0) } else { (intensity - 0.3).max(0.0) };
        storm_status(active, intensity == 0.0, intensity == 1.0)
    };
    assert_eq!(next(active), StormStatus::Rising);
    for _ in 0..2 {
        next(active);
    }
    assert_eq!(next(active), StormStatus::Peak);
    active = false;
    assert_eq!(next(active), StormStatus::Clearing);
    assert_eq!(storm_status(false, true, false), StormStatus::Clear);
}

#[test]
fn over_current_trip_latches_until_reset() {
    let mut relay = iot_sim::electrical::SafetyRelay::new();
    assert!(!relay.observe(false));
    assert!(relay.observe(true));
    assert!(relay.observe(false));
    assert!(relay.is_tripped());
    relay.reset();
    assert!(!relay.is_tripped());
    assert!(!relay.observe(false));
}
