use mqtt_building_simulator::building::{Building, Room, RoomKind};
use mqtt_building_simulator::observer::{
    is_stale, keeps_topic_after_room_deletion, legacy_retained_topics, simulator_device_id,
    Dashboard, EVENT_LOG_CAPACITY,
};

fn two_rooms() -> Building {
    let mut b = Building::new();
    let f = b.create_floor("Floor 1").unwrap();
    for id in ["room-101", "room-102"] {
        b.add_room(&f.id, Room::new(id.to_string(), id.to_string(), RoomKind::Office)).unwrap();
    }
    b
}

#[test]
fn stale_messages() {
    let b = two_rooms();
    let fresh = "building/main/floor/floor-1/room/room-101/sensor/temperature";
    assert!(!is_stale(&b, fresh, &Some("room-101".to_string()), "sensor-room-101"));
    let legacy = "building/main/room/room-101/actuator/heating/state";
    assert!(is_stale(&b, legacy, &Some("room-101".to_string()), "actuator-room-101"));
    let deleted = "building/main/floor/floor-1/room/room-555/sensor/co2";
    assert!(is_stale(&b, deleted, &Some("room-555".to_string()), "sensor-room-555"));
    let lwt = "building/main/device/energy-meter-room-555/availability";
    assert!(is_stale(&b, lwt, &None, "energy-meter-room-555"));
    let live = "building/main/device/controller-room-102/availability";
    assert!(!is_stale(&b, live, &None, "controller-room-102"));
    assert!(!is_stale(&b, "building/main/device/dashboard/availability", &None, "dashboard"));
}

#[test]
fn deleted_room_topics_leave_the_cache() {
    assert!(!keeps_topic_after_room_deletion(
        "building/main/floor/floor-1/room/room-101/sensor/co2",
        "room-101"
    ));
    assert!(!keeps_topic_after_room_deletion(
        "building/main/device/actuator-room-101/availability",
        "room-101"
    ));
    assert!(keeps_topic_after_room_deletion(
        "building/main/floor/floor-1/room/room-1010/sensor/co2",
        "room-101"
    ));
    assert!(keeps_topic_after_room_deletion(
        "building/main/device/dashboard-service/availability",
        "room-101"
    ));
}

#[test]
fn legacy_topics_are_listed_per_room() {
    let topics = legacy_retained_topics(&two_rooms());
    assert_eq!(topics.len(), 10);
    assert_eq!(topics[0], "building/main/room/room-101/actuator/heating/state");
    assert_eq!(topics[4], "building/main/room/room-101/actuator/garage_door/state");
    assert_eq!(topics[9], "building/main/room/room-102/actuator/garage_door/state");
}

#[test]
fn simulator_devices_are_named_after_their_room() {
    assert_eq!(simulator_device_id("energy-meter", "room-101"), "energy-meter-room-101");
    assert_eq!(simulator_device_id("sensor", "room-7"), "sensor-room-7");
}

#[test]
fn dashboard_keeps_the_latest_fresh_messages() {
    let b = two_rooms();
    let mut d: Dashboard<u32> = Dashboard::new();
    let temp = "building/main/floor/floor-1/room/room-101/sensor/temperature";
    let room = Some("room-101".to_string());
    let r = d.receive(&b, temp, &room, "sensor-room-101", 1, 1).unwrap();
    assert!(r.run_blueprints && !r.log_event);
    d.receive(&b, temp, &room, "sensor-room-101", 2, 2).unwrap();
    assert_eq!(d.topics().len(), 1);
    assert_eq!(d.topics()[0], (temp.to_string(), 2));
    assert!(d.events().is_empty());
    // A leftover of a deleted room is dropped.
    let gone = "building/main/floor/floor-1/room/room-9/event";
    assert!(d.receive(&b, gone, &Some("room-9".to_string()), "controller", 3, 3).is_none());
    assert_eq!(d.topics().len(), 1);
    assert!(d.events().is_empty());
    let event = "building/main/floor/floor-1/room/room-101/event";
    let r = d.receive(&b, event, &room, "controller", 4, 4).unwrap();
    assert!(r.log_event);
    assert_eq!(d.events(), &vec![4]);
    d.forget_room("room-101");
    assert!(d.topics().is_empty());
    assert_eq!(d.events().len(), 1);
}

#[test]
fn dashboard_log_keeps_the_newest_hundred() {
    let b = two_rooms();
    let mut d: Dashboard<u32> = Dashboard::new();
    let lwt = "building/main/device/dashboard-service/availability";
    for i in 0..250u32 {
        d.receive(&b, lwt, &None, "dashboard-service", i, i).unwrap();
    }
    assert_eq!(d.events().len(), EVENT_LOG_CAPACITY);
    assert_eq!(d.events()[0], 150);
    assert_eq!(d.events()[99], 249);
    assert_eq!(d.topics().len(), 1);
    assert_eq!(d.topics()[0].1, 249);
}
