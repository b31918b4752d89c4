//! Devices, blueprint scripts and the store that holds both.

use vstd::prelude::*;
use vstd::string::*;
use crate::building::Building;
use crate::ids::{hyphenated_text, new_v4_bits, uuid_hyphenated_text};
use crate::topics::{actuator_command, actuator_command_topic, sensor, sensor_topic};

verus! {

/// Whether a device measures or acts.
#[derive(Debug, Clone, Copy, PartialEq, Eq, Structural)]
pub enum DeviceKind {
    Sensor,
    Actuator,
}

/// A registered device of a room.
#[derive(Debug)]
pub struct Device {
    pub id: String,
    pub room_id: String,
    pub name: String,
    pub kind: DeviceKind,
    /// Examples: temperature, co2, humidity, occupancy, heating, lights.
    pub device_type: String,
    /// Used to create a unique MQTT topic.
    pub mqtt_topic: String,
    pub enabled: bool,
}

/// A device as a mathematical value.
pub struct DeviceView {
    pub id: Seq<char>,
    pub room_id: Seq<char>,
    pub name: Seq<char>,
    pub kind: DeviceKind,
    pub device_type: Seq<char>,
    pub mqtt_topic: Seq<char>,
    pub enabled: bool,
}

impl View for Device {
    type V = DeviceView;

    open spec fn view(&self) -> DeviceView {
        DeviceView {
            id: self.id@,
            room_id: self.room_id@,
            name: self.name@,
            kind: self.kind,
            device_type: self.device_type@,
            mqtt_topic: self.mqtt_topic@,
            enabled: self.enabled,
        }
    }
}

/// The views of a sequence of devices.
pub open spec fn device_views(devices: Seq<Device>) -> Seq<DeviceView> {
    devices.map_values(|d: Device| d@)
}

/// The topic that `Device::new` gives a device: the room-level scheme
/// without a floor (`building/main/room/{room}/...`).
pub open spec fn legacy_device_topic(kind: DeviceKind, room_id: Seq<char>, device_type: Seq<char>) -> Seq<char> {
    match kind {
        DeviceKind::Sensor => "building/main/room/"@ + room_id + "/sensor/"@ + device_type,
        DeviceKind::Actuator => "building/main/room/"@ + room_id + "/actuator/"@ + device_type
            + "/command"@,
    }
}

/// The topic of a device of a room on a floor: its sensor topic, or the
/// command topic of its actuator.
pub open spec fn room_device_topic(
    kind: DeviceKind,
    floor_id: Seq<char>,
    room_id: Seq<char>,
    device_type: Seq<char>,
) -> Seq<char> {
    match kind {
        DeviceKind::Sensor => sensor_topic(floor_id, room_id, device_type),
        DeviceKind::Actuator => actuator_command_topic(floor_id, room_id, device_type),
    }
}

/// Whether `id` is a device id made of `device-` and a random UUID.
pub open spec fn is_random_device_id(id: Seq<char>) -> bool {
    exists|u: u128| id == "device-"@ + uuid_hyphenated_text(u)
}

impl Device {
    /// A new enabled device with a random id and the room-level topic of
    /// its kind.
    pub fn new(room_id: String, name: String, kind: DeviceKind, device_type: String) -> (d: Self)
        ensures
            is_random_device_id(d.id@),
            d.id@.len() == 43,
            d.room_id == room_id,
            d.name == name,
            d.kind == kind,
            d.device_type == device_type,
            d.mqtt_topic@ == legacy_device_topic(kind, room_id@, device_type@),
            d.enabled,
    {
        let bits = new_v4_bits();
        let mut id = String::from_str("device-");
        let text = hyphenated_text(bits);
        id.append(text.as_str());
        proof {
            reveal_strlit("device-");
        }
        let mut mqtt_topic = String::from_str("building/main/room/");
        mqtt_topic.append(room_id.as_str());
        match kind {
            DeviceKind::Sensor => {
                mqtt_topic.append("/sensor/");
                mqtt_topic.append(device_type.as_str());
            },
            DeviceKind::Actuator => {
                mqtt_topic.append("/actuator/");
                mqtt_topic.append(device_type.as_str());
                mqtt_topic.append("/command");
            },
        }
        Device { id, room_id, name, kind, device_type, mqtt_topic, enabled: true }
    }

    /// A new enabled device of a room on a floor, with a random id and the
    /// floor-level topic of its kind.
    pub fn for_room(
        floor_id: &str,
        room_id: &str,
        name: String,
        kind: DeviceKind,
        device_type: String,
    ) -> (d: Self)
        ensures
            is_random_device_id(d.id@),
            d.room_id@ == room_id@,
            d.name == name,
            d.kind == kind,
            d.device_type == device_type,
            d.mqtt_topic@ == room_device_topic(kind, floor_id@, room_id@, device_type@),
            d.enabled,
    {
        let bits = new_v4_bits();
        let mut id = String::from_str("device-");
        let text = hyphenated_text(bits);
        id.append(text.as_str());
        let mqtt_topic = match kind {
            DeviceKind::Sensor => sensor(floor_id, room_id, device_type.as_str()),
            DeviceKind::Actuator => actuator_command(floor_id, room_id, device_type.as_str()),
        };
        Device { id, room_id: String::from_str(room_id), name, kind, device_type, mqtt_topic, enabled: true }
    }

    /// A field-by-field copy.
    pub fn copy(&self) -> (d: Self)
        ensures
            d == *self,
    {
        Device {
            id: self.id.clone(),
            room_id: self.room_id.clone(),
            name: self.name.clone(),
            kind: self.kind,
            device_type: self.device_type.clone(),
            mqtt_topic: self.mqtt_topic.clone(),
            enabled: self.enabled,
        }
    }
}

/// A value on a pin or in a node's settings, as far as blueprints read it.
/// A JSON number is held by its ordinal (see
/// `crate::runtime::number_ordinal`): numbers compare as their ordinals do.
#[derive(Debug, Clone, Copy, PartialEq, Eq, Structural)]
pub enum PinValue {
    Number(u64),
    Bool(bool),
    /// Null, a string, an array or an object: neither a number nor a boolean.
    Other,
}

/// Where a node is drawn, each coordinate held by the bits of its `f64`.
#[derive(Debug, Clone, Copy, PartialEq, Eq, Structural)]
pub struct NodePosition {
    pub x_bits: u64,
    pub y_bits: u64,
}

/// A node of a blueprint graph.
#[derive(Debug)]
pub struct BlueprintNode {
    pub id: String,
    /// sensor, actuator, compare_greater, compare_less,
    /// boolean_and, boolean_or, constant_number, constant_boolean
    pub node_type: String,
    pub position: NodePosition,
    /// Node-specific settings as JSON text, kept as they came.
    pub data_json: String,
    /// The settings' `device_id` entry, where it is a string.
    pub device_id: Option<String>,
    /// The settings' `value` entry (`Other` where it is missing).
    pub value: PinValue,
}

/// A connection from an output pin to an input pin.
#[derive(Debug)]
pub struct BlueprintEdge {
    pub id: String,
    pub source: String,
    pub source_handle: String,
    pub target: String,
    pub target_handle: String,
}

/// A visual automation script.
#[derive(Debug)]
pub struct Blueprint {
    pub id: String,
    pub name: String,
    pub enabled: bool,
    pub nodes: Vec<BlueprintNode>,
    pub edges: Vec<BlueprintEdge>,
}

/// Whether `id` is a script id made of `script-` and a random UUID.
pub open spec fn is_random_script_id(id: Seq<char>) -> bool {
    exists|u: u128| id == "script-"@ + uuid_hyphenated_text(u)
}

impl BlueprintNode {
    /// A field-by-field copy.
    pub fn copy(&self) -> (n: Self)
        ensures
            n == *self,
    {
        BlueprintNode {
            id: self.id.clone(),
            node_type: self.node_type.clone(),
            position: self.position,
            data_json: self.data_json.clone(),
            device_id: match &self.device_id {
                Some(d) => Some(d.clone()),
                None => None,
            },
            value: self.value,
        }
    }
}

impl BlueprintEdge {
    /// A field-by-field copy.
    pub fn copy(&self) -> (e: Self)
        ensures
            e == *self,
    {
        BlueprintEdge {
            id: self.id.clone(),
            source: self.source.clone(),
            source_handle: self.source_handle.clone(),
            target: self.target.clone(),
            target_handle: self.target_handle.clone(),
        }
    }
}

impl Blueprint {
    /// A new, enabled, empty script with a random id.
    pub fn empty(name: String) -> (b: Self)
        ensures
            is_random_script_id(b.id@),
            b.name == name,
            b.enabled,
            b.nodes@.len() == 0,
            b.edges@.len() == 0,
    {
        let bits = new_v4_bits();
        let mut id = String::from_str("script-");
        let text = hyphenated_text(bits);
        id.append(text.as_str());
        Blueprint { id, name, enabled: true, nodes: Vec::new(), edges: Vec::new() }
    }

    /// A field-by-field copy.
    pub fn copy(&self) -> (b: Self)
        ensures
            b.id == self.id,
            b.name == self.name,
            b.enabled == self.enabled,
            b.nodes@ == self.nodes@,
            b.edges@ == self.edges@,
    {
        let mut nodes: Vec<BlueprintNode> = Vec::new();
        let mut i: usize = 0;
        while i < self.nodes.len()
            invariant
                i <= self.nodes@.len(),
                nodes@ == self.nodes@.take(i as int),
            decreases self.nodes@.len() - i,
        {
            nodes.push(self.nodes[i].copy());
            assert(self.nodes@.take(i + 1) == self.nodes@.take(i as int).push(self.nodes@[i as int]));
            i = i + 1;
        }
        let mut edges: Vec<BlueprintEdge> = Vec::new();
        let mut j: usize = 0;
        while j < self.edges.len()
            invariant
                j <= self.edges@.len(),
                edges@ == self.edges@.take(j as int),
            decreases self.edges@.len() - j,
        {
            edges.push(self.edges[j].copy());
            assert(self.edges@.take(j + 1) == self.edges@.take(j as int).push(self.edges@[j as int]));
            j = j + 1;
        }
        assert(nodes@ =~= self.nodes@);
        assert(edges@ =~= self.edges@);
        Blueprint { id: self.id.clone(), name: self.name.clone(), enabled: self.enabled, nodes, edges }
    }
}

/// A node as a mathematical value.
pub struct NodeView {
    pub id: Seq<char>,
    pub node_type: Seq<char>,
    pub position: NodePosition,
    pub data_json: Seq<char>,
    pub device_id: Option<Seq<char>>,
    pub value: PinValue,
}

impl View for BlueprintNode {
    type V = NodeView;

    open spec fn view(&self) -> NodeView {
        NodeView {
            id: self.id@,
            node_type: self.node_type@,
            position: self.position,
            data_json: self.data_json@,
            device_id: match self.device_id {
                Some(d) => Some(d@),
                None => None,
            },
            value: self.value,
        }
    }
}

/// An edge as a mathematical value.
pub struct EdgeView {
    pub id: Seq<char>,
    pub source: Seq<char>,
    pub source_handle: Seq<char>,
    pub target: Seq<char>,
    pub target_handle: Seq<char>,
}

impl View for BlueprintEdge {
    type V = EdgeView;

    open spec fn view(&self) -> EdgeView {
        EdgeView {
            id: self.id@,
            source: self.source@,
            source_handle: self.source_handle@,
            target: self.target@,
            target_handle: self.target_handle@,
        }
    }
}

/// A blueprint as a mathematical value.
pub struct BlueprintView {
    pub id: Seq<char>,
    pub name: Seq<char>,
    pub enabled: bool,
    pub nodes: Seq<NodeView>,
    pub edges: Seq<EdgeView>,
}

impl View for Blueprint {
    type V = BlueprintView;

    open spec fn view(&self) -> BlueprintView {
        BlueprintView {
            id: self.id@,
            name: self.name@,
            enabled: self.enabled,
            nodes: self.nodes@.map_values(|n: BlueprintNode| n@),
            edges: self.edges@.map_values(|e: BlueprintEdge| e@),
        }
    }
}

/// The views of a sequence of blueprints.
pub open spec fn blueprint_views(blueprints: Seq<Blueprint>) -> Seq<BlueprintView> {
    blueprints.map_values(|b: Blueprint| b@)
}

/// The building, the registered devices and the blueprint scripts.
#[derive(Debug)]
pub struct BlueprintStore {
    pub building: Building,
    pub devices: Vec<Device>,
    pub blueprints: Vec<Blueprint>,
}

} // verus!
