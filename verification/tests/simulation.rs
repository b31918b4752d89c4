use mqtt_building_simulator::controller::{
    ControllerMessage, ControllerState, CO2_ALARM_BITS, CO2_LIMIT_BITS,
};
use mqtt_building_simulator::errors::ApiError;
use mqtt_building_simulator::observer::{observer_route, record_event, EVENT_LOG_CAPACITY};
use mqtt_building_simulator::sensors::{
    energy_report_due, occupancy_readings, room_seed, simulated_sensors,
};

const NONE: ControllerMessage = ControllerMessage {
    occupied: None,
    energy_saving: None,
    manual_mode: None,
    blueprint_mode: None,
};

#[test]
fn controller_waits_while_blueprints_decide() {
    let mut c = ControllerState::new();
    let step = c.handle_message("building/main/floor/floor-1/room/room-101/sensor/temperature", &NONE);
    assert!(step.read_temperature);
    assert!(!step.decide);
    let config = ControllerMessage { blueprint_mode: Some(false), energy_saving: Some(true), ..NONE };
    let step = c.handle_message("building/main/floor/floor-1/room/room-101/config", &config);
    assert!(step.read_target);
    assert!(step.decide);
    assert!(c.energy_saving);
    let occupied = ControllerMessage { occupied: Some(true), ..NONE };
    let step = c.handle_message("building/main/floor/floor-1/room/room-101/sensor/occupancy", &occupied);
    assert!(step.decide);
    assert!(c.occupied);
    let manual = ControllerMessage { manual_mode: Some(true), ..NONE };
    let step = c.handle_message("building/main/floor/floor-1/room/room-101/config", &manual);
    assert!(!step.decide);
    let other = c.handle_message("building/main/floor/floor-1/room/room-101/event", &occupied);
    assert!(!other.decide && !other.read_co2 && !other.read_temperature);
}

#[test]
fn controller_decisions() {
    let c = ControllerState { occupied: true, energy_saving: true, manual_mode: false, blueprint_mode: false };
    let d = c.decide(true, 1100.0f64.to_bits());
    assert_eq!(d.heating.actuator, "heating");
    assert!(d.heating.enabled);
    assert_eq!(d.heating.mode, "eco");
    assert_eq!(d.heating.reason, "temperature_below_target");
    assert!(d.ventilation.enabled);
    assert_eq!(d.ventilation.reason, "co2_above_1000ppm");
    assert!(d.lights.enabled);
    assert_eq!(d.lights.reason, "occupancy_detected");
    assert!(!d.co2_alert);
    let empty = ControllerState { occupied: false, ..c };
    let d = empty.decide(true, 1000.0f64.to_bits());
    assert!(!d.heating.enabled);
    assert_eq!(d.heating.reason, "target_reached_or_room_unoccupied");
    assert_eq!(d.ventilation.reason, "co2_normal");
    assert_eq!(d.lights.reason, "room_unoccupied");
    assert!(!d.co2_alert);
    let alarm = empty.decide(false, 1200.5f64.to_bits());
    assert!(alarm.ventilation.enabled && alarm.co2_alert);
    assert!(!empty.decide(false, 1200.0f64.to_bits()).co2_alert);
    assert!(!empty.decide(false, f64::NAN.to_bits()).ventilation.enabled);
    assert!(!empty.decide(false, (-5000.0f64).to_bits()).ventilation.enabled);
}

#[test]
fn co2_limits_are_the_documented_numbers() {
    assert_eq!(CO2_LIMIT_BITS, 1000.0f64.to_bits());
    assert_eq!(CO2_ALARM_BITS, 1200.0f64.to_bits());
}

#[test]
fn seeds_and_occupancy_schedule() {
    let seed = room_seed("room-101");
    assert_eq!(seed, "room-101".bytes().map(u32::from).sum::<u32>());
    assert_eq!(seed, 636);
    assert_eq!(occupancy_readings(seed, 0, false), (true, true));
    assert_eq!(occupancy_readings(seed, 10, false), (true, true));
    assert_eq!(occupancy_readings(seed, 11, false), (false, false));
    assert_eq!(occupancy_readings(seed, 11, true), (true, true));
    assert_eq!(occupancy_readings(seed, 22, false), (false, false));
    assert_eq!(occupancy_readings(seed, 23, false), (true, true));
}

#[test]
fn event_log_keeps_the_latest_hundred() {
    let mut log: Vec<u32> = Vec::new();
    for i in 0..150u32 {
        record_event(&mut log, i);
    }
    assert_eq!(log.len(), EVENT_LOG_CAPACITY);
    assert_eq!(log[0], 50);
    assert_eq!(log[99], 149);
}

#[test]
fn observer_routing() {
    let r = observer_route("building/main/floor/floor-1/room/room-101/sensor/co2");
    assert!(r.run_blueprints && !r.log_event);
    let r = observer_route("building/main/floor/floor-1/room/room-101/event");
    assert!(!r.run_blueprints && r.log_event);
    let r = observer_route("building/main/device/sensor-room-101/availability");
    assert!(r.log_event);
}

#[test]
fn error_answers() {
    assert_eq!(ApiError::EmptyName.status(), 400);
    assert_eq!(ApiError::EmptyName.message(), "Name must not be empty");
    assert_eq!(ApiError::NameTooLong.message(), "Name must be 60 characters or fewer");
    assert_eq!(ApiError::RoomNotFound.status(), 404);
    assert_eq!(ApiError::UnknownActuator("fan".to_string()).message(), "Unknown actuator: fan");
    assert_eq!(ApiError::UnknownRoom("r".to_string()).message(), "Unknown room: r");
    assert_eq!(ApiError::BlueprintIdMismatch.status(), 400);
    assert_eq!(ApiError::DeviceNotFound.status(), 404);
}

#[test]
fn sensor_messages_cannot_leave_blueprint_mode() {
    let mut c = ControllerState::new();
    let sneaky = ControllerMessage { blueprint_mode: Some(false), manual_mode: Some(false), ..NONE };
    let step = c.handle_message("building/main/floor/floor-1/room/room-101/sensor/co2", &sneaky);
    assert!(step.read_co2);
    assert!(!step.decide);
    assert!(c.blueprint_mode);
    let step = c.handle_message("building/main/floor/floor-1/room/room-101/config", &sneaky);
    assert!(step.decide);
    assert!(!c.blueprint_mode);
}

#[test]
fn players_always_count_as_occupancy() {
    let seed = room_seed("room-101");
    for sequence in [0u64, 11, 12, 23, u64::MAX - 1] {
        assert_eq!(occupancy_readings(seed, sequence, true), (true, true));
    }
    assert_eq!(occupancy_readings(0, u64::MAX - 4, false), (true, true));
    assert_eq!(occupancy_readings(0, 12, false), (false, false));
}

#[test]
fn six_sensors_per_tick_and_energy_every_second() {
    assert_eq!(
        simulated_sensors(),
        vec!["temperature", "humidity", "co2", "occupancy", "motion", "illuminance"]
    );
    assert!(!energy_report_due(1));
    assert!(energy_report_due(2));
    assert!(energy_report_due(0));
}
