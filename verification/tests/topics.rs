use mqtt_building_simulator::topics::{
    actuator_command, actuator_command_filter, actuator_from_topic, actuator_state,
    actuator_state_filter, building, building_filter, device_availability, floor,
    legacy_actuator_state, room, room_config, room_event, room_filter, sensor,
};

#[test]
fn topic_hierarchy_matches_the_documented_layout() {
    assert_eq!(building(), "building/main");
    assert_eq!(floor("floor-1"), "building/main/floor/floor-1");
    assert_eq!(room("floor-1", "room-101"), "building/main/floor/floor-1/room/room-101");
    assert_eq!(
        sensor("floor-1", "room-101", "temperature"),
        "building/main/floor/floor-1/room/room-101/sensor/temperature"
    );
    assert_eq!(
        actuator_command("floor-1", "room-101", "heating"),
        "building/main/floor/floor-1/room/room-101/actuator/heating/command"
    );
    assert_eq!(
        actuator_state("floor-1", "room-101", "door_lock"),
        "building/main/floor/floor-1/room/room-101/actuator/door_lock/state"
    );
    assert_eq!(
        actuator_command_filter("floor-1", "room-101"),
        "building/main/floor/floor-1/room/room-101/actuator/+/command"
    );
    assert_eq!(
        actuator_state_filter("floor-1", "room-101"),
        "building/main/floor/floor-1/room/room-101/actuator/+/state"
    );
    assert_eq!(room_event("floor-1", "room-101"), "building/main/floor/floor-1/room/room-101/event");
    assert_eq!(room_config("floor-1", "room-101"), "building/main/floor/floor-1/room/room-101/config");
    assert_eq!(room_filter("floor-1", "room-101"), "building/main/floor/floor-1/room/room-101/#");
    assert_eq!(
        device_availability("sensor-room-101"),
        "building/main/device/sensor-room-101/availability"
    );
    assert_eq!(building_filter(), "building/main/#");
    assert_eq!(
        legacy_actuator_state("room-101", "heating"),
        "building/main/room/room-101/actuator/heating/state"
    );
}

#[test]
fn actuator_is_read_from_command_and_state_topics() {
    assert_eq!(
        actuator_from_topic("building/main/floor/floor-1/room/room-101/actuator/heating/command"),
        Some("heating".to_string())
    );
    assert_eq!(
        actuator_from_topic(&actuator_state("floor-2", "room-7", "garage_door")),
        Some("garage_door".to_string())
    );
}

#[test]
fn non_actuator_topics_name_no_actuator() {
    assert_eq!(actuator_from_topic(&sensor("floor-1", "room-101", "co2")), None);
    assert_eq!(actuator_from_topic("building/main/room/room-101/actuator/heating/state"), None);
    assert_eq!(actuator_from_topic(""), None);
    assert_eq!(actuator_from_topic("a/b/c/d/e/f/actuatorx/g/h"), None);
    assert_eq!(actuator_from_topic("a/b/c/d/e/f/actuator//h"), Some(String::new()));
}

/// MQTT filter matching, level by level: `+` takes one level, a final `#`
/// takes the rest.
fn filter_matches(filter: &str, topic: &str) -> bool {
    let f: Vec<&str> = filter.split('/').collect();
    let t: Vec<&str> = topic.split('/').collect();
    let mut i = 0;
    while i < f.len() {
        if f[i] == "#" && i + 1 == f.len() {
            return true;
        }
        if i >= t.len() || (f[i] != "+" && f[i] != t[i]) {
            return false;
        }
        i += 1;
    }
    i == t.len()
}

#[test]
fn subscription_filters_match_their_topics() {
    let (f, r) = ("floor-1", "room-101");
    for a in ["heating", "ventilation", "lights", "door_lock"] {
        assert!(filter_matches(&actuator_command_filter(f, r), &actuator_command(f, r, a)));
        assert!(!filter_matches(&actuator_command_filter(f, r), &actuator_state(f, r, a)));
        assert!(filter_matches(&actuator_state_filter(f, r), &actuator_state(f, r, a)));
        assert!(!filter_matches(&actuator_state_filter(f, r), &actuator_command(f, r, a)));
        assert!(filter_matches(&room_filter(f, r), &actuator_command(f, r, a)));
        assert!(filter_matches(&room_filter(f, r), &actuator_state(f, r, a)));
    }
    assert!(filter_matches(&room_filter(f, r), &sensor(f, r, "temperature")));
    assert!(filter_matches(&room_filter(f, r), &room_event(f, r)));
    assert!(filter_matches(&room_filter(f, r), &room_config(f, r)));
    assert!(!filter_matches(&room_filter(f, r), &sensor(f, "room-102", "temperature")));
}
