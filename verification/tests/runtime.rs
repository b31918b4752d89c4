use mqtt_building_simulator::blueprints::{
    Blueprint, BlueprintEdge, BlueprintNode, BlueprintStore, Device, DeviceKind, NodePosition,
    PinValue,
};
use mqtt_building_simulator::building::Building;
use mqtt_building_simulator::runtime::{execute_blueprint, execute_blueprints, extract_sensor_value, number_ordinal};

fn num(x: f64) -> PinValue {
    PinValue::Number(number_ordinal(x.to_bits()))
}

fn node(id: &str, node_type: &str, device_id: Option<&str>, value: PinValue) -> BlueprintNode {
    BlueprintNode {
        id: id.to_string(),
        node_type: node_type.to_string(),
        position: NodePosition { x_bits: 0, y_bits: 0 },
        data_json: "{}".to_string(),
        device_id: device_id.map(|d| d.to_string()),
        value,
    }
}

fn edge(id: &str, source: &str, source_handle: &str, target: &str, target_handle: &str) -> BlueprintEdge {
    BlueprintEdge {
        id: id.to_string(),
        source: source.to_string(),
        source_handle: source_handle.to_string(),
        target: target.to_string(),
        target_handle: target_handle.to_string(),
    }
}

fn device(id: &str, kind: DeviceKind, device_type: &str, topic: &str, enabled: bool) -> Device {
    Device {
        id: id.to_string(),
        room_id: "room-101".to_string(),
        name: id.to_string(),
        kind,
        device_type: device_type.to_string(),
        mqtt_topic: topic.to_string(),
        enabled,
    }
}

const TEMP_TOPIC: &str = "building/main/floor/floor-1/room/room-101/sensor/temperature";
const HEAT_TOPIC: &str = "building/main/floor/floor-1/room/room-101/actuator/heating/command";

fn heating_store(enabled_script: bool, enabled_device: bool) -> BlueprintStore {
    let devices = vec![
        device("temp", DeviceKind::Sensor, "temperature", TEMP_TOPIC, true),
        device("heat", DeviceKind::Actuator, "heating", HEAT_TOPIC, enabled_device),
    ];
    let blueprint = Blueprint {
        id: "builtin-heating".to_string(),
        name: "Temperature controls heating".to_string(),
        enabled: enabled_script,
        nodes: vec![
            node("s", "sensor", Some("temp"), PinValue::Other),
            node("c", "constant_number", None, num(21.5)),
            node("lt", "compare_less", None, PinValue::Other),
            node("h", "actuator", Some("heat"), PinValue::Other),
        ],
        edges: vec![
            edge("e1", "s", "value", "lt", "a"),
            edge("e2", "c", "value", "lt", "b"),
            edge("e3", "lt", "result", "h", "enabled"),
        ],
    };
    BlueprintStore { building: Building::new(), devices, blueprints: vec![blueprint] }
}

fn temperature(x: f64) -> Vec<(String, PinValue)> {
    vec![("temperature_c".to_string(), num(x))]
}

#[test]
fn cold_room_turns_heating_on() {
    let store = heating_store(true, true);
    let commands = execute_blueprints(&store, TEMP_TOPIC, &temperature(20.9));
    assert_eq!(commands.len(), 1);
    assert_eq!(commands[0].topic, HEAT_TOPIC);
    assert_eq!(commands[0].room_id, "room-101");
    assert_eq!(commands[0].blueprint_id, "builtin-heating");
    assert_eq!(commands[0].blueprint_name, "Temperature controls heating");
    assert_eq!(commands[0].reason, "blueprint_graph_evaluation");
    assert!(commands[0].enabled);
}

#[test]
fn warm_room_turns_heating_off() {
    let store = heating_store(true, true);
    let at_target = execute_blueprints(&store, TEMP_TOPIC, &temperature(21.5));
    assert_eq!(at_target.len(), 1);
    assert!(!at_target[0].enabled);
    let warm = execute_blueprint(&store, &store.blueprints[0], TEMP_TOPIC, &temperature(23.0));
    assert_eq!(warm.len(), 1);
    assert!(!warm[0].enabled);
}

#[test]
fn negative_temperatures_compare_correctly() {
    let store = heating_store(true, true);
    let commands = execute_blueprints(&store, TEMP_TOPIC, &temperature(-3.0));
    assert!(commands[0].enabled);
}

#[test]
fn reading_on_another_topic_sends_nothing() {
    let store = heating_store(true, true);
    let commands = execute_blueprints(
        &store,
        "building/main/floor/floor-1/room/room-102/sensor/temperature",
        &temperature(10.0),
    );
    assert!(commands.is_empty());
}

#[test]
fn disabled_blueprints_and_devices_send_nothing() {
    let off_script = heating_store(false, true);
    assert!(execute_blueprints(&off_script, TEMP_TOPIC, &temperature(10.0)).is_empty());
    let off_device = heating_store(true, false);
    assert!(execute_blueprints(&off_device, TEMP_TOPIC, &temperature(10.0)).is_empty());
}

#[test]
fn occupancy_drives_lights_and_co2_drives_ventilation() {
    let occ_topic = "building/main/floor/floor-1/room/room-101/sensor/occupancy";
    let co2_topic = "building/main/floor/floor-1/room/room-101/sensor/co2";
    let lights_topic = "building/main/floor/floor-1/room/room-101/actuator/lights/command";
    let vent_topic = "building/main/floor/floor-1/room/room-101/actuator/ventilation/command";
    let store = BlueprintStore {
        building: Building::new(),
        devices: vec![
            device("occ", DeviceKind::Sensor, "occupancy", occ_topic, true),
            device("co2", DeviceKind::Sensor, "co2", co2_topic, true),
            device("lights", DeviceKind::Actuator, "lights", lights_topic, true),
            device("vent", DeviceKind::Actuator, "ventilation", vent_topic, true),
        ],
        blueprints: vec![
            Blueprint {
                id: "lights".to_string(),
                name: "Occupancy controls lights".to_string(),
                enabled: true,
                nodes: vec![
                    node("o", "sensor", Some("occ"), PinValue::Other),
                    node("l", "actuator", Some("lights"), PinValue::Other),
                ],
                edges: vec![edge("e", "o", "value", "l", "enabled")],
            },
            Blueprint {
                id: "vent".to_string(),
                name: "CO2 controls ventilation".to_string(),
                enabled: true,
                nodes: vec![
                    node("c", "sensor", Some("co2"), PinValue::Other),
                    node("k", "constant_number", None, num(1000.0)),
                    node("gt", "compare_greater", None, PinValue::Other),
                    node("v", "actuator", Some("vent"), PinValue::Other),
                ],
                edges: vec![
                    edge("e1", "c", "value", "gt", "a"),
                    edge("e2", "k", "value", "gt", "b"),
                    edge("e3", "gt", "result", "v", "enabled"),
                ],
            },
        ],
    };
    let occupied = vec![("occupied".to_string(), PinValue::Bool(true))];
    let c = execute_blueprints(&store, occ_topic, &occupied);
    assert_eq!(c.len(), 1);
    assert_eq!(c[0].topic, lights_topic);
    assert!(c[0].enabled);

    let empty = vec![("occupied".to_string(), PinValue::Bool(false))];
    let c = execute_blueprints(&store, occ_topic, &empty);
    assert_eq!(c.len(), 1);
    assert!(!c[0].enabled);

    let stale_air = vec![("co2_ppm".to_string(), num(1200.0))];
    let c = execute_blueprints(&store, co2_topic, &stale_air);
    assert_eq!(c.len(), 1);
    assert_eq!(c[0].topic, vent_topic);
    assert!(c[0].enabled);

    let fresh_air = vec![("co2_ppm".to_string(), num(1000.0))];
    let c = execute_blueprints(&store, co2_topic, &fresh_air);
    assert_eq!(c.len(), 1);
    assert!(!c[0].enabled);
}

#[test]
fn boolean_gates_and_chains_settle() {
    let a_topic = "t/a";
    let store = BlueprintStore {
        building: Building::new(),
        devices: vec![
            device("sa", DeviceKind::Sensor, "occupancy", a_topic, true),
            device("out", DeviceKind::Actuator, "lights", "t/out", true),
            device("out2", DeviceKind::Actuator, "heating", "t/out2", true),
        ],
        blueprints: vec![Blueprint {
            id: "gates".to_string(),
            name: "gates".to_string(),
            enabled: true,
            // Listed in reverse order of the data flow, so several rounds are needed.
            nodes: vec![
                node("act", "actuator", Some("out"), PinValue::Other),
                node("act2", "actuator", Some("out2"), PinValue::Other),
                node("or", "boolean_or", None, PinValue::Other),
                node("and", "boolean_and", None, PinValue::Other),
                node("f", "constant_boolean", None, PinValue::Bool(false)),
                node("s", "sensor", Some("sa"), PinValue::Other),
            ],
            edges: vec![
                edge("1", "s", "value", "and", "a"),
                edge("2", "f", "value", "and", "b"),
                edge("3", "and", "result", "or", "a"),
                edge("4", "s", "value", "or", "b"),
                edge("5", "or", "result", "act", "enabled"),
                edge("6", "and", "result", "act2", "enabled"),
            ],
        }],
    };
    let on = vec![("occupied".to_string(), PinValue::Bool(true))];
    let c = execute_blueprints(&store, a_topic, &on);
    assert_eq!(c.len(), 2);
    assert_eq!(c[0].topic, "t/out");
    assert!(c[0].enabled);
    assert_eq!(c[1].topic, "t/out2");
    assert!(!c[1].enabled);
}

#[test]
fn unconnected_or_mistyped_inputs_send_nothing() {
    let store = BlueprintStore {
        building: Building::new(),
        devices: vec![device("out", DeviceKind::Actuator, "lights", "t/out", true)],
        blueprints: vec![Blueprint {
            id: "b".to_string(),
            name: "b".to_string(),
            enabled: true,
            nodes: vec![
                node("n", "constant_number", None, num(3.0)),
                node("act", "actuator", Some("out"), PinValue::Other),
                node("act2", "actuator", Some("missing"), PinValue::Other),
            ],
            edges: vec![edge("1", "n", "value", "act", "enabled")],
        }],
    };
    assert!(execute_blueprints(&store, "t/x", &vec![]).is_empty());
}

#[test]
fn sensor_reading_takes_the_first_known_field() {
    assert_eq!(
        extract_sensor_value(&vec![
            ("occupied".to_string(), PinValue::Bool(true)),
            ("co2_ppm".to_string(), num(800.0)),
        ]),
        num(800.0)
    );
    assert_eq!(extract_sensor_value(&vec![("motion_detected".to_string(), PinValue::Bool(true))]), PinValue::Other);
    assert_eq!(extract_sensor_value(&vec![]), PinValue::Other);
}

#[test]
fn ordinals_follow_number_order() {
    let xs = [-1000.5f64, -2.0, -0.5, -0.0, 0.0, 0.25, 1.0, 21.5, 1000.0, 1e300];
    for w in xs.windows(2) {
        let a = number_ordinal(w[0].to_bits());
        let b = number_ordinal(w[1].to_bits());
        if w[0] < w[1] {
            assert!(a < b, "{} {}", w[0], w[1]);
        } else {
            assert_eq!(a, b);
        }
    }
    assert_eq!(number_ordinal(0.0f64.to_bits()), 0x8000_0000_0000_0000);
}

#[test]
fn sensors_elsewhere_send_nothing_through_gates() {
    let store = BlueprintStore {
        building: Building::new(),
        devices: vec![
            device("sa", DeviceKind::Sensor, "occupancy", "t/a", true),
            device("out", DeviceKind::Actuator, "lights", "t/out", true),
        ],
        blueprints: vec![Blueprint {
            id: "gates".to_string(),
            name: "gates".to_string(),
            enabled: true,
            nodes: vec![
                node("s", "sensor", Some("sa"), PinValue::Other),
                node("t", "constant_boolean", None, PinValue::Bool(true)),
                node("and", "boolean_and", None, PinValue::Other),
                node("or", "boolean_or", None, PinValue::Other),
                node("act", "actuator", Some("out"), PinValue::Other),
            ],
            edges: vec![
                edge("1", "s", "value", "and", "a"),
                edge("2", "t", "value", "and", "b"),
                edge("3", "and", "result", "or", "a"),
                edge("4", "t", "value", "or", "b"),
                edge("5", "or", "result", "act", "enabled"),
            ],
        }],
    };
    let on = vec![("occupied".to_string(), PinValue::Bool(true))];
    assert!(execute_blueprints(&store, "t/elsewhere", &on).is_empty());
    let c = execute_blueprints(&store, "t/a", &on);
    assert_eq!(c.len(), 1);
    assert!(c[0].enabled);
}
