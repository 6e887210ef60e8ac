use analog_spectral::thermostat::decide;
use analog_spectral::{Action, DeadbandController, ThermostatState};

/// Where a reading falls relative to a setpoint and deadband, as the
/// thermostat classifies it.
fn classify(setpoint: f64, deadband: f64, cr: f64) -> (bool, bool) {
    let deviation = cr - setpoint;
    (deviation.abs() <= deadband, deviation < 0.0)
}

fn measure(c: &mut DeadbandController, setpoint: f64, deadband: f64, cr: f64) -> Action {
    let (within, below) = classify(setpoint, deadband, cr);
    c.record_reading(within, below)
}

#[test]
fn decide_within_deadband_does_nothing() {
    assert_eq!(decide(true, true), Action::DoNothing);
    assert_eq!(decide(true, false), Action::DoNothing);
}

#[test]
fn decide_below_increases() {
    assert_eq!(decide(false, true), Action::IncreaseCR);
}

#[test]
fn decide_above_decreases() {
    assert_eq!(decide(false, false), Action::DecreaseCR);
}

#[test]
fn new_controller_is_stable_and_empty() {
    let c = DeadbandController::new();
    assert_eq!(*c.state(), ThermostatState::Stable);
    assert_eq!(c.stability_duration(), 0);
    assert_eq!(c.measurement_count(), 0);
    assert_eq!(c.action_count(), 0);
    assert!(c.action_history().is_empty());
}

#[test]
fn tutorial_sequence() {
    let mut c = DeadbandController::new();
    let readings = [0.42, 0.48, 0.51, 0.55, 0.50, 0.49, 0.50];
    let actions: Vec<Action> = readings.iter().map(|&cr| measure(&mut c, 0.5, 0.05, cr)).collect();
    assert_eq!(
        actions,
        vec![
            Action::IncreaseCR,
            Action::DoNothing,
            Action::DoNothing,
            Action::DecreaseCR,
            Action::DoNothing,
            Action::DoNothing,
            Action::DoNothing,
        ]
    );
    assert_eq!(c.action_history(), &actions);
    assert_eq!(c.stability_duration(), 3);
    assert_eq!(c.action_count(), 2);
    assert_eq!(c.measurement_count(), 7);
    assert_eq!(*c.state(), ThermostatState::Stable);
}

#[test]
fn state_follows_last_action() {
    let mut c = DeadbandController::new();
    assert_eq!(measure(&mut c, 0.5, 0.05, 0.30), Action::IncreaseCR);
    assert_eq!(*c.state(), ThermostatState::Heating);
    assert_eq!(measure(&mut c, 0.5, 0.05, 0.70), Action::DecreaseCR);
    assert_eq!(*c.state(), ThermostatState::Cooling);
    assert_eq!(measure(&mut c, 0.5, 0.05, 0.52), Action::DoNothing);
    assert_eq!(*c.state(), ThermostatState::Stable);
}

#[test]
fn action_resets_stability_duration() {
    let mut c = DeadbandController::new();
    for _ in 0..4 {
        measure(&mut c, 0.5, 0.05, 0.5);
    }
    assert_eq!(c.stability_duration(), 4);
    measure(&mut c, 0.5, 0.05, 0.9);
    assert_eq!(c.stability_duration(), 0);
    measure(&mut c, 0.5, 0.05, 0.5);
    assert_eq!(c.stability_duration(), 1);
}

#[test]
fn hysteresis_counts_stay_within_measurements() {
    let mut c = DeadbandController::new();
    let readings = [0.30, 0.35, 0.42, 0.48, 0.49, 0.50, 0.51, 0.53, 0.56, 0.52, 0.50, 0.49];
    for &cr in &readings {
        measure(&mut c, 0.5, 0.05, cr);
    }
    // 0.30, 0.35, 0.42 are below the deadband and 0.56 above it.
    assert_eq!(c.action_count(), 4);
    assert_eq!(c.measurement_count(), 12);
    assert!(c.action_count() <= c.measurement_count());
    assert_eq!(c.stability_duration(), 3);
}
