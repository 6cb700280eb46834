use iot_sim::airlock::{
    equipment_state, is_model_level_strategy, AirLockAnomalyState, AirLockController, CycleStatus, EquipmentState,
};
use iot_sim::anomaly::AnomalyEventCollector;
use iot_sim::config::AnomalyTargetConfig;
use iot_sim::validation::{AnomaliesConfig, AnomalyProfileConfig, AnomalyStrategyConfig, AnomalyTriggerConfig};

fn air_lock_config() -> AnomaliesConfig {
    AnomaliesConfig {
        enabled: true,
        seed: Some(42),
        profiles: vec![
            AnomalyProfileConfig {
                name: "seal_failure".into(),
                enabled: true,
                target: AnomalyTargetConfig {
                    sensor_id: "mal-01".into(),
                    metric: "equipment_state_code".into(),
                },
                trigger: AnomalyTriggerConfig { start_after_cycles: 1, ..Default::default() },
                strategy: AnomalyStrategyConfig::RoboticAirLockSealFailure {
                    faulted_cycles_before_maintenance: 3,
                    maintenance_cycles: 1,
                },
            },
            AnomalyProfileConfig {
                name: "wet_payload".into(),
                enabled: true,
                target: AnomalyTargetConfig { sensor_id: "mal-01".into(), metric: "dew_point_c".into() },
                trigger: AnomalyTriggerConfig { start_after_cycles: 6, ..Default::default() },
                strategy: AnomalyStrategyConfig::RoboticAirLockWetPayload { duration_cycles: 1 },
            },
        ],
    }
}

/// Resolves a cycle whose triggers have threshold 0: every claimed draw fires.
fn state(controller: &mut AirLockController, log: &mut AnomalyEventCollector, cycle: u64) -> AirLockAnomalyState {
    let fired = controller.claim_trigger_draws("mal-01", cycle);
    controller.resolve_cycle("mal-01", cycle, 0, &fired, log)
}

#[test]
fn model_level_air_lock_profiles_control_complete_cycle_states() {
    let mut controller = AirLockController::from_config(&air_lock_config());
    let mut log = AnomalyEventCollector::new();
    assert_eq!(
        state(&mut controller, &mut log, 1),
        AirLockAnomalyState { seal_faulted: false, maintenance_offline: false, wet_payload_profile: None }
    );
    assert!(state(&mut controller, &mut log, 2).seal_faulted);
    assert!(state(&mut controller, &mut log, 4).seal_faulted);
    assert!(state(&mut controller, &mut log, 5).maintenance_offline);
    // The wet-payload profile is configured second; its multiplier (3.0)
    // is looked up by its configured position.
    assert_eq!(state(&mut controller, &mut log, 7).wet_payload_profile, Some(1));
}

#[test]
fn activations_are_logged_once_per_event() {
    let mut controller = AirLockController::from_config(&air_lock_config());
    assert_eq!(controller.active_profile_count(), 2);
    assert_eq!(controller.config_index(1), 1);
    let mut log = AnomalyEventCollector::new();
    for cycle in 1..=7 {
        state(&mut controller, &mut log, cycle);
    }
    let events = log.snapshot();
    assert_eq!(events.len(), 3);
    assert_eq!(events[0].anomaly_type, "robotic_air_lock_seal_failure");
    assert_eq!(events[0].profile, "seal_failure");
    assert_eq!(events[0].sensor_id, "mal-01");
    assert_eq!(events[0].cycle, Some(2));
    // The seal event ends at cycle 6 and fires again in the next cycle.
    assert_eq!(events[1].cycle, Some(7));
    assert_eq!(events[2].anomaly_type, "robotic_air_lock_wet_payload");
    assert_eq!(events[2].cycle, Some(7));
}

#[test]
fn a_trigger_is_drawn_at_most_once_per_cycle() {
    let mut controller = AirLockController::from_config(&air_lock_config());
    assert_eq!(controller.claim_trigger_draws("mal-01", 2), vec![true, false]);
    assert_eq!(controller.claim_trigger_draws("mal-01", 2), vec![false, false]);
    assert_eq!(controller.claim_trigger_draws("mal-02", 3), vec![false, false]);
    let mut log = AnomalyEventCollector::new();
    let quiet = controller.resolve_cycle("mal-01", 3, 0, &vec![false, false], &mut log);
    assert_eq!(quiet, AirLockAnomalyState { seal_faulted: false, maintenance_offline: false, wet_payload_profile: None });
    assert!(log.snapshot().is_empty());
}

#[test]
fn other_air_locks_and_disabled_profiles_are_unaffected() {
    let mut config = air_lock_config();
    config.profiles[1].enabled = false;
    let mut controller = AirLockController::from_config(&config);
    assert_eq!(controller.active_profile_count(), 1);
    let mut log = AnomalyEventCollector::new();
    let fired = controller.claim_trigger_draws("mal-02", 2);
    let other = controller.resolve_cycle("mal-02", 2, 0, &fired, &mut log);
    assert!(!other.seal_faulted);
    config.enabled = false;
    assert_eq!(AirLockController::from_config(&config).active_profile_count(), 0);
}

#[test]
fn maintenance_outranks_a_seal_fault_and_hides_wet_payloads() {
    let both = AirLockAnomalyState { seal_faulted: true, maintenance_offline: true, wet_payload_profile: Some(1) };
    assert_eq!(equipment_state(both), (EquipmentState::MaintenanceOffline, None));
    let seal = AirLockAnomalyState { seal_faulted: true, maintenance_offline: false, wet_payload_profile: Some(1) };
    assert_eq!(equipment_state(seal), (EquipmentState::FaultedSealActive, None));
    let wet = AirLockAnomalyState { seal_faulted: false, maintenance_offline: false, wet_payload_profile: Some(1) };
    assert_eq!(equipment_state(wet), (EquipmentState::Nominal, Some(1)));
    assert_eq!(EquipmentState::MaintenanceOffline.code(), 2);
    assert_eq!(CycleStatus::Maintenance.code(), 5);
    assert_eq!(CycleStatus::Ingress.code(), 0);
    assert!(is_model_level_strategy(&AnomalyStrategyConfig::RoboticAirLockWetPayload { duration_cycles: 1 }));
    assert!(!is_model_level_strategy(&AnomalyStrategyConfig::Spike { offset_finite: true, multiplier_finite: true }));
}

#[test]
fn outcomes_without_a_granted_draw_start_nothing() {
    let mut controller = AirLockController::from_config(&air_lock_config());
    let mut log = AnomalyEventCollector::new();
    // Cycle 1 is still inside the seal profile's warm-up: no claim is granted.
    assert_eq!(controller.claim_trigger_draws("mal-01", 1), vec![false, false]);
    let warm_up = controller.resolve_cycle("mal-01", 1, 0, &vec![true, true], &mut log);
    assert!(!warm_up.seal_faulted);
    // No claim at all for cycle 2: a fired outcome is ignored.
    let unclaimed = controller.resolve_cycle("mal-01", 2, 0, &vec![true, true], &mut log);
    assert!(!unclaimed.seal_faulted);
    assert!(log.snapshot().is_empty());
    // Claiming and resolving cycle 2 starts the seal event once; a repeated
    // claim for the same cycle is refused and its outcome ignored.
    assert!(state(&mut controller, &mut log, 2).seal_faulted);
    assert_eq!(controller.claim_trigger_draws("mal-01", 2), vec![false, false]);
    controller.resolve_cycle("mal-01", 2, 0, &vec![true, true], &mut log);
    assert_eq!(log.snapshot().len(), 1);
}

#[test]
fn an_event_ends_at_its_last_cycle_and_restarts_only_later() {
    let mut controller = AirLockController::from_config(&air_lock_config());
    let mut log = AnomalyEventCollector::new();
    // Seal event: started in cycle 2, faulted 2..=4, maintenance in 5.
    for cycle in 1..=5 {
        state(&mut controller, &mut log, cycle);
    }
    // Cycle 6 reaches the event's end: nothing is reported, nothing starts.
    let end = state(&mut controller, &mut log, 6);
    assert_eq!(end, AirLockAnomalyState { seal_faulted: false, maintenance_offline: false, wet_payload_profile: None });
    assert_eq!(log.snapshot().len(), 1);
    assert_eq!(controller.claim_trigger_draws("mal-01", 6), vec![false, false]);
    // A later cycle may start it again.
    assert!(state(&mut controller, &mut log, 8).seal_faulted);
    assert_eq!(log.snapshot()[1].cycle, Some(8));
}
