use mqtt_building_simulator::blueprints::{Blueprint, BlueprintStore, Device, DeviceKind};
use mqtt_building_simulator::building::{Room, RoomKind};
use mqtt_building_simulator::errors::ApiError;
use mqtt_building_simulator::store::{NewRoom, RoomPatch};

fn store_with_room() -> BlueprintStore {
    let mut store = BlueprintStore::new();
    let f = store.building.create_floor("Floor 1").unwrap();
    store
        .building
        .add_room(&f.id, Room::new("room-101".to_string(), "Room 101".to_string(), RoomKind::Office))
        .unwrap();
    store
}

fn new_room(name: &str) -> NewRoom {
    NewRoom { name: name.to_string(), kind: None, color: None, width_bits: None, depth_bits: None, height_bits: None }
}

fn no_change() -> RoomPatch {
    RoomPatch { name: None, color: None, width_bits: None, depth_bits: None, height_bits: None, kind: None }
}

#[test]
fn devices_get_random_ids_and_their_topics() {
    let d = Device::new("room-101".to_string(), "Temp".to_string(), DeviceKind::Sensor, "temperature".to_string());
    assert!(d.id.starts_with("device-"));
    assert_eq!(d.id.len(), 43);
    assert_eq!(&d.id[15..16], "-");
    assert_eq!(d.mqtt_topic, "building/main/room/room-101/sensor/temperature");
    assert!(d.enabled);
    let a = Device::new("room-101".to_string(), "Heat".to_string(), DeviceKind::Actuator, "heating".to_string());
    assert_eq!(a.mqtt_topic, "building/main/room/room-101/actuator/heating/command");
    assert_ne!(a.id, d.id);
}

#[test]
fn devices_are_created_and_deleted() {
    let mut store = store_with_room();
    let d = store
        .create_device("room-101", "Lamp".to_string(), DeviceKind::Actuator, "lights".to_string())
        .unwrap();
    assert_eq!(d.mqtt_topic, "building/main/floor/floor-1/room/room-101/actuator/lights/command");
    assert_eq!(store.devices.len(), 1);
    match store.create_device("room-7", "X".to_string(), DeviceKind::Sensor, "co2".to_string()) {
        Err(ApiError::UnknownRoom(r)) => assert_eq!(r, "room-7"),
        other => panic!("unexpected {:?}", other),
    }
    assert!(matches!(store.delete_device("nope"), Err(ApiError::DeviceNotFound)));
    assert_eq!(store.devices.len(), 1);
    store.delete_device(&d.id).unwrap();
    assert!(store.devices.is_empty());
}

#[test]
fn room_devices_are_removed_with_their_rooms() {
    let mut store = BlueprintStore::new();
    for room in ["room-1", "room-2", "room-3"] {
        store.devices.push(Device::new(room.to_string(), "n".to_string(), DeviceKind::Sensor, "co2".to_string()));
    }
    store.remove_room_devices("room-2");
    assert_eq!(store.devices.len(), 2);
    store.remove_devices_of_rooms(&vec!["room-1".to_string(), "room-9".to_string()]);
    assert_eq!(store.devices.len(), 1);
    assert_eq!(store.devices[0].room_id, "room-3");
}

#[test]
fn blueprints_are_created_saved_and_deleted() {
    let mut store = BlueprintStore::new();
    let b = store.create_blueprint("My script".to_string());
    assert!(b.id.starts_with("script-"));
    assert!(b.enabled);
    assert!(b.nodes.is_empty());
    let mut edited = Blueprint::empty("Other".to_string());
    assert!(matches!(store.save_blueprint(&b.id, edited.copy()), Err(ApiError::BlueprintIdMismatch)));
    edited.id = "script-unknown".to_string();
    assert!(matches!(store.save_blueprint("script-unknown", edited.copy()), Err(ApiError::BlueprintNotFound)));
    edited.id = b.id.clone();
    edited.enabled = false;
    store.save_blueprint(&b.id, edited).unwrap();
    assert_eq!(store.blueprints[0].name, "Other");
    assert!(!store.blueprints[0].enabled);
    assert!(matches!(store.delete_blueprint("script-unknown"), Err(ApiError::BlueprintNotFound)));
    assert_eq!(store.blueprints.len(), 1);
    store.delete_blueprint(&b.id).unwrap();
    assert!(store.blueprints.is_empty());
}

#[test]
fn a_garage_room_gets_its_devices() {
    let mut store = store_with_room();
    let input = NewRoom {
        name: " Garage East ".to_string(),
        kind: Some(RoomKind::Garage),
        color: Some("#a85f5f".to_string()),
        width_bits: None,
        depth_bits: Some(8.5f64.to_bits()),
        height_bits: None,
    };
    let room = store.create_room("floor-1", input).unwrap();
    assert!(room.id.starts_with("room-"));
    assert_eq!(room.name, "Garage East");
    assert_eq!(room.color, "#a85f5f");
    assert_eq!(f64::from_bits(room.width_bits), 6.0);
    assert_eq!(f64::from_bits(room.depth_bits), 8.5);
    assert_eq!(store.building.floor_id_for_room(&room.id).as_deref(), Some("floor-1"));
    assert_eq!(store.devices.len(), 12);
    let door = format!("{}-actuator-garage_door", room.id);
    let d = store.devices.iter().find(|d| d.id == door).unwrap();
    assert_eq!(
        d.mqtt_topic,
        format!("building/main/floor/floor-1/room/{}/actuator/garage_door/command", room.id)
    );
    assert_eq!(d.name, "Garage East garage_door");
    let temp = store.devices.iter().find(|d| d.id == format!("{}-sensor-temperature", room.id)).unwrap();
    assert_eq!(temp.kind, DeviceKind::Sensor);
}

#[test]
fn bad_room_requests_are_refused_in_order() {
    let mut store = store_with_room();
    assert!(matches!(store.create_room("floor-1", new_room("  ")), Err(ApiError::EmptyName)));
    let mut tall = new_room("Tall");
    tall.height_bits = Some(12.0f64.to_bits());
    assert!(matches!(store.create_room("floor-9", tall), Err(ApiError::HeightOutOfRange)));
    assert!(matches!(store.create_room("floor-9", new_room("Fine")), Err(ApiError::FloorNotFound)));
    assert_eq!(store.building.floors[0].rooms.len(), 1);
    assert!(store.devices.is_empty());
    assert_eq!(ApiError::FloorNotFound.status(), 404);
    assert_eq!(ApiError::FloorNotFound.message(), "Floor not found");
}

#[test]
fn rooms_are_customised() {
    let mut store = store_with_room();
    let patch = RoomPatch {
        name: Some("Blue Lab".to_string()),
        color: Some("   ".to_string()),
        width_bits: Some(8.5f64.to_bits()),
        depth_bits: None,
        height_bits: Some(3.4f64.to_bits()),
        kind: Some(RoomKind::Garage),
    };
    let room = store.update_room("room-101", patch).unwrap();
    assert_eq!(room.name, "Blue Lab");
    assert_eq!(room.color, "#8fb3d9");
    assert_eq!(f64::from_bits(room.width_bits), 8.5);
    assert_eq!(f64::from_bits(room.depth_bits), 5.0);
    assert_eq!(f64::from_bits(room.height_bits), 3.4);
    assert_eq!(room.kind, RoomKind::Garage);
    assert_eq!(store.building.floors[0].rooms[0].name, "Blue Lab");
    // The kind change brought the garage's default devices.
    assert_eq!(store.devices.len(), 12);
    let again = store.update_room("room-101", no_change()).unwrap();
    assert_eq!(again.name, "Blue Lab");
    assert_eq!(store.devices.len(), 12);
    assert!(matches!(store.update_room("room-9", no_change()), Err(ApiError::RoomNotFound)));
}

#[test]
fn a_refused_size_keeps_the_new_name() {
    let mut store = store_with_room();
    let patch = RoomPatch {
        name: Some("Renamed".to_string()),
        color: Some(" #123456 ".to_string()),
        width_bits: Some(70.0f64.to_bits()),
        depth_bits: None,
        height_bits: None,
        kind: Some(RoomKind::Garage),
    };
    assert!(matches!(store.update_room("room-101", patch), Err(ApiError::SizeOutOfRange)));
    let room = &store.building.floors[0].rooms[0];
    assert_eq!(room.name, "Renamed");
    assert_eq!(room.color, "#123456");
    assert_eq!(f64::from_bits(room.width_bits), 6.0);
    assert_eq!(room.kind, RoomKind::Office);
    assert!(store.devices.is_empty());
    let bad_name = RoomPatch { name: Some(" ".to_string()), ..no_change() };
    assert!(matches!(store.update_room("room-101", bad_name), Err(ApiError::EmptyName)));
    assert_eq!(store.building.floors[0].rooms[0].name, "Renamed");
}

#[test]
fn rooms_and_floors_are_deleted_with_their_devices() {
    let mut store = store_with_room();
    let other = store.create_room("floor-1", new_room("Other")).unwrap();
    assert_eq!(store.devices.len(), 11);
    store.create_device("room-101", "Lamp".to_string(), DeviceKind::Actuator, "lights".to_string()).unwrap();
    store.delete_room("room-101").unwrap();
    assert_eq!(store.devices.len(), 11);
    assert!(store.devices.iter().all(|d| d.room_id == other.id));
    assert!(matches!(store.delete_room("room-101"), Err(ApiError::RoomNotFound)));
    assert!(matches!(store.delete_floor("floor-9"), Err(ApiError::FloorNotFound)));
    let ids = store.delete_floor("floor-1").unwrap();
    assert_eq!(ids, vec![other.id.clone()]);
    assert!(store.building.floors.is_empty());
    assert!(store.devices.is_empty());
}

#[test]
fn manual_commands_need_a_known_actuator() {
    let mut store = store_with_room();
    store.create_device("room-101", "Door".to_string(), DeviceKind::Actuator, "door_lock".to_string()).unwrap();
    assert_eq!(
        store.control_actuator_topic("room-101", "door_lock").unwrap(),
        "building/main/floor/floor-1/room/room-101/actuator/door_lock/command"
    );
    match store.control_actuator_topic("room-101", "garage_door") {
        Err(ApiError::UnknownActuator(a)) => assert_eq!(a, "garage_door"),
        other => panic!("unexpected {:?}", other),
    }
    assert!(matches!(store.control_actuator_topic("room-999", "door_lock"), Err(ApiError::RoomNotFound)));
}

#[test]
fn room_configuration_goes_to_the_room_topic() {
    let store = store_with_room();
    assert_eq!(
        store.room_config_target("room-101").unwrap(),
        "building/main/floor/floor-1/room/room-101/config"
    );
    match store.room_config_target("room-5") {
        Err(e) => {
            assert_eq!(e.status(), 404);
            assert_eq!(e.message(), "Unknown room: room-5");
        }
        Ok(t) => panic!("unexpected {}", t),
    }
}
