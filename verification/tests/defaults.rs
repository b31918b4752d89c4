use mqtt_building_simulator::blueprints::{BlueprintStore, Device, DeviceKind, PinValue};
use mqtt_building_simulator::defaults::{
    ensure_builtin_scripts, ensure_default_content, ensure_room_devices, migrate_store, AT_140,
    AT_220, AT_360, AT_640, AT_80, CO2_THRESHOLD_BITS, HEATING_THRESHOLD_BITS,
};
use mqtt_building_simulator::building::{Room, RoomKind};
use mqtt_building_simulator::runtime::{execute_blueprints, number_ordinal};

fn num(x: f64) -> PinValue {
    PinValue::Number(number_ordinal(x.to_bits()))
}

fn fresh_store() -> BlueprintStore {
    let mut store = BlueprintStore::new();
    ensure_default_content(&mut store);
    store
}

fn topic(room: &str, sensor: &str) -> String {
    format!("building/main/floor/floor-1/room/{room}/sensor/{sensor}")
}

#[test]
fn constants_are_the_documented_numbers() {
    assert_eq!(AT_80, 80.0f64.to_bits());
    assert_eq!(AT_140, 140.0f64.to_bits());
    assert_eq!(AT_220, 220.0f64.to_bits());
    assert_eq!(AT_360, 360.0f64.to_bits());
    assert_eq!(AT_640, 640.0f64.to_bits());
    assert_eq!(HEATING_THRESHOLD_BITS, 21.5f64.to_bits());
    assert_eq!(CO2_THRESHOLD_BITS, 1000.0f64.to_bits());
}

#[test]
fn a_fresh_building_has_floor_one_with_two_offices() {
    let store = fresh_store();
    assert_eq!(store.building.floors.len(), 1);
    let floor = &store.building.floors[0];
    assert_eq!(floor.id, "floor-1");
    assert_eq!(floor.name, "Floor 1");
    let ids: Vec<&str> = floor.rooms.iter().map(|r| r.id.as_str()).collect();
    assert_eq!(ids, vec!["room-101", "room-102"]);
    assert!(floor.rooms.iter().all(|r| r.kind == RoomKind::Office));
}

#[test]
fn every_office_gets_its_default_devices() {
    let store = fresh_store();
    assert_eq!(store.devices.len(), 22);
    let d = store.devices.iter().find(|d| d.id == "room-101-sensor-temperature").unwrap();
    assert_eq!(d.mqtt_topic, topic("room-101", "temperature"));
    assert_eq!(d.kind, DeviceKind::Sensor);
    assert_eq!(d.name, "Room 101 temperature");
    let lock = store.devices.iter().find(|d| d.id == "room-102-actuator-door_lock").unwrap();
    assert_eq!(lock.mqtt_topic, "building/main/floor/floor-1/room/room-102/actuator/door_lock/command");
    for sensor in ["temperature", "humidity", "co2", "occupancy", "motion", "illuminance", "energy"] {
        assert!(store.devices.iter().any(|d| d.id == format!("room-101-sensor-{sensor}")));
    }
    for actuator in ["heating", "ventilation", "lights", "door_lock"] {
        assert!(store.devices.iter().any(|d| d.id == format!("room-101-actuator-{actuator}")));
    }
    assert!(!store.devices.iter().any(|d| d.device_type == "garage_door"));
}

#[test]
fn every_room_gets_the_built_in_scripts() {
    let store = fresh_store();
    assert_eq!(store.blueprints.len(), 6);
    let lights = store
        .blueprints
        .iter()
        .find(|b| b.id == "builtin-occupancy-lights-room-101")
        .unwrap();
    assert_eq!(lights.name, "room-101: Turn lights on when occupied");
    assert!(lights.enabled);
    assert_eq!(lights.nodes[0].data_json, "{\"device_id\":\"room-101-sensor-occupancy\"}");
    assert!(store.blueprints.iter().any(|b| b.id == "builtin-temperature-heating-room-102"));
    assert!(store.blueprints.iter().any(|b| b.id == "builtin-co2-ventilation-room-102"));
}

#[test]
fn default_content_is_added_once() {
    let mut store = fresh_store();
    ensure_default_content(&mut store);
    assert_eq!(store.building.floors.len(), 1);
    assert_eq!(store.devices.len(), 22);
    assert_eq!(store.blueprints.len(), 6);
    let room = store.building.floors[0].rooms[0].copy();
    ensure_room_devices(&mut store, "floor-1", &room);
    ensure_builtin_scripts(&mut store, "room-101");
    assert_eq!(store.devices.len(), 22);
    assert_eq!(store.blueprints.len(), 6);
}

fn commands_for(store: &BlueprintStore, room: &str, sensor: &str, field: &str, value: PinValue) -> Vec<(String, bool)> {
    let fields = vec![(field.to_string(), value)];
    execute_blueprints(store, &topic(room, sensor), &fields)
        .into_iter()
        .map(|c| (c.topic, c.enabled))
        .collect()
}

#[test]
fn temperature_controls_heating() {
    let store = fresh_store();
    let heat = "building/main/floor/floor-1/room/room-101/actuator/heating/command".to_string();
    assert_eq!(commands_for(&store, "room-101", "temperature", "temperature_c", num(21.4)), vec![(heat.clone(), true)]);
    assert_eq!(commands_for(&store, "room-101", "temperature", "temperature_c", num(21.5)), vec![(heat.clone(), false)]);
    assert_eq!(commands_for(&store, "room-101", "temperature", "temperature_c", num(23.0)), vec![(heat, false)]);
}

#[test]
fn occupancy_controls_lights() {
    let store = fresh_store();
    let lights = "building/main/floor/floor-1/room/room-102/actuator/lights/command".to_string();
    assert_eq!(
        commands_for(&store, "room-102", "occupancy", "occupied", PinValue::Bool(true)),
        vec![(lights.clone(), true)]
    );
    assert_eq!(
        commands_for(&store, "room-102", "occupancy", "occupied", PinValue::Bool(false)),
        vec![(lights, false)]
    );
    let fields = vec![("occupied".to_string(), PinValue::Bool(true))];
    let c = execute_blueprints(&store, &topic("room-102", "occupancy"), &fields);
    assert_eq!(c[0].blueprint_id, "builtin-occupancy-lights-room-102");
    assert_eq!(c[0].blueprint_name, "room-102: Turn lights on when occupied");
    assert_eq!(c[0].room_id, "room-102");
}

#[test]
fn co2_controls_ventilation() {
    let store = fresh_store();
    let vent = "building/main/floor/floor-1/room/room-101/actuator/ventilation/command".to_string();
    assert_eq!(commands_for(&store, "room-101", "co2", "co2_ppm", num(1000.5)), vec![(vent.clone(), true)]);
    assert_eq!(commands_for(&store, "room-101", "co2", "co2_ppm", num(1000.0)), vec![(vent, false)]);
    // Other sensors of the room drive no script.
    assert!(commands_for(&store, "room-101", "humidity", "humidity_percent", num(50.0)).is_empty());
}

#[test]
fn migration_moves_device_topics_under_their_floor() {
    let mut store = BlueprintStore::new();
    store.devices.push(Device::new(
        "room-101".to_string(),
        "Old".to_string(),
        DeviceKind::Actuator,
        "heating".to_string(),
    ));
    store.devices.push(Device::new(
        "room-gone".to_string(),
        "Orphan".to_string(),
        DeviceKind::Sensor,
        "co2".to_string(),
    ));
    migrate_store(&mut store);
    assert_eq!(store.building.floors[0].id, "floor-1");
    assert_eq!(
        store.devices[0].mqtt_topic,
        "building/main/floor/floor-1/room/room-101/actuator/heating/command"
    );
    assert_eq!(store.devices[1].mqtt_topic, "building/main/room/room-gone/sensor/co2");
    assert!(store.blueprints.is_empty());
}

#[test]
fn a_garage_gets_a_garage_door() {
    let mut store = fresh_store();
    let garage = Room::new("garage-1".to_string(), "Garage".to_string(), RoomKind::Garage);
    ensure_room_devices(&mut store, "floor-1", &garage);
    assert_eq!(store.devices.len(), 34);
    assert!(store.devices.iter().any(|d| d.id == "garage-1-actuator-garage_door"));
}

#[test]
fn migrating_twice_is_migrating_once() {
    let mut store = BlueprintStore::new();
    store.devices.push(Device::new("room-102".to_string(), "Old".to_string(), DeviceKind::Sensor, "co2".to_string()));
    migrate_store(&mut store);
    let first: Vec<String> = store.devices.iter().map(|d| d.mqtt_topic.clone()).collect();
    migrate_store(&mut store);
    let second: Vec<String> = store.devices.iter().map(|d| d.mqtt_topic.clone()).collect();
    assert_eq!(first, second);
    assert_eq!(first[0], "building/main/floor/floor-1/room/room-102/sensor/co2");
    assert_eq!(store.building.floors.len(), 1);
}
