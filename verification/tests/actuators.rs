use mqtt_building_simulator::actuators::{
    apply_command, power_percent_when_on, rated_watts, state_value, step_door, ActuatorBank,
    ActuatorState,
};

#[test]
fn rated_power_table() {
    assert_eq!(rated_watts("heating"), 2000);
    assert_eq!(rated_watts("ventilation"), 800);
    assert_eq!(rated_watts("lights"), 250);
    assert_eq!(rated_watts("garage_door"), 700);
    assert_eq!(rated_watts("door_lock"), 100);
    assert_eq!(rated_watts("fan"), 200);
    assert_eq!(power_percent_when_on("heating"), 70);
    assert_eq!(power_percent_when_on("ventilation"), 55);
    assert_eq!(power_percent_when_on("lights"), 35);
    assert_eq!(power_percent_when_on("door_lock"), 50);
}

#[test]
fn plain_actuators_follow_commands() {
    let mut s = ActuatorState::new();
    assert_eq!(s.mode, "automatic");
    apply_command(&mut s, "heating", true, "blueprint".to_string());
    assert!(s.enabled);
    assert_eq!(s.power_percent, 70);
    assert_eq!(s.mode, "blueprint");
    apply_command(&mut s, "heating", false, "manual".to_string());
    assert!(!s.enabled);
    assert_eq!(s.power_percent, 0);
    let r = state_value("heating", &s);
    assert!(!r.enabled);
    assert_eq!(r.locked, None);
    assert_eq!(r.position_percent, None);
    assert_eq!(r.mode, "manual");
}

#[test]
fn door_lock_draws_ten_percent_when_locked() {
    let mut s = ActuatorState::new();
    apply_command(&mut s, "door_lock", true, "game".to_string());
    assert_eq!(s.power_percent, 10);
    let r = state_value("door_lock", &s);
    assert_eq!(r.locked, Some(true));
    assert!(r.enabled);
}

#[test]
fn garage_door_travels_in_ten_steps() {
    let mut s = ActuatorState::new();
    apply_command(&mut s, "garage_door", true, "game".to_string());
    assert!(s.moving);
    assert_eq!(s.power_percent, 100);
    let mut ticks = 0;
    while s.moving {
        step_door(&mut s);
        ticks += 1;
    }
    assert_eq!(ticks, 10);
    assert_eq!(s.position, 100);
    assert_eq!(s.power_percent, 0);
    let r = state_value("garage_door", &s);
    assert!(r.enabled);
    assert_eq!(r.position_percent, Some(100));
    assert_eq!(r.moving, Some(false));

    apply_command(&mut s, "garage_door", true, "game".to_string());
    assert!(!s.moving);
    assert_eq!(s.power_percent, 0);
}

#[test]
fn bank_keeps_one_state_per_actuator() {
    let mut bank = ActuatorBank::new();
    assert!(bank.tick().is_none());
    let r = bank.handle_command("lights", true, "blueprint".to_string());
    assert!(r.enabled);
    assert_eq!(r.power_percent, 35);
    let g = bank.handle_command("garage_door", true, "game".to_string());
    assert_eq!(g.moving, Some(true));
    assert_eq!(g.position_percent, Some(0));
    assert!(!g.enabled);
    let t = bank.tick().unwrap();
    assert_eq!(t.position_percent, Some(10));
    assert!(t.enabled);
    let back = bank.handle_command("garage_door", false, "game".to_string());
    assert_eq!(back.position_percent, Some(10));
    assert_eq!(back.moving, Some(true));
    let closed = bank.tick().unwrap();
    assert_eq!(closed.position_percent, Some(0));
    assert_eq!(closed.moving, Some(false));
    assert!(bank.tick().is_none());
    let l = bank.handle_command("lights", false, "automatic".to_string());
    assert_eq!(l.power_percent, 0);
}

#[test]
fn garage_door_draws_power_only_while_moving() {
    let mut s = ActuatorState::default();
    apply_command(&mut s, "garage_door", true, "game".to_string());
    while s.moving {
        assert_eq!(s.power_percent, 100);
        step_door(&mut s);
    }
    assert_eq!(s.power_percent, 0);
    apply_command(&mut s, "garage_door", false, "game".to_string());
    step_door(&mut s);
    assert_eq!(s.position, 90);
    assert!(s.moving);
    assert_eq!(s.power_percent, 100);
}

#[test]
fn repeated_commands_change_nothing() {
    for actuator in ["heating", "door_lock", "garage_door"] {
        let mut once = ActuatorState::new();
        apply_command(&mut once, actuator, true, "automatic".to_string());
        let mut twice = ActuatorState::new();
        apply_command(&mut twice, actuator, true, "automatic".to_string());
        apply_command(&mut twice, actuator, true, "automatic".to_string());
        assert_eq!(once.enabled, twice.enabled);
        assert_eq!(once.power_percent, twice.power_percent);
        assert_eq!(once.position, twice.position);
        assert_eq!(once.moving, twice.moving);
        assert_eq!(once.mode, twice.mode);
    }
}

#[test]
fn an_arrived_door_reports_its_target() {
    let mut bank = ActuatorBank::new();
    bank.handle_command("garage_door", true, "game".to_string());
    let mut last = None;
    for _ in 0..10 {
        let report = bank.tick().unwrap();
        assert_eq!(report.power_percent, if report.moving == Some(true) { 100 } else { 0 });
        last = Some(report);
    }
    let last = last.unwrap();
    assert_eq!(last.position_percent, Some(100));
    assert_eq!(last.moving, Some(false));
    assert_eq!(last.power_percent, 0);
    assert!(last.enabled);
    assert!(bank.tick().is_none());
}
