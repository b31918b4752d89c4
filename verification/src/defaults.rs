//! The content every building has: the default devices of each room, the
//! default floor and the built-in blueprint scripts, and the migration that
//! rebuilds device topics from the building tree.

use vstd::prelude::*;
use vstd::string::*;
use crate::blueprints::{
    blueprint_views, device_views, room_device_topic, Blueprint, BlueprintEdge, BlueprintNode,
    BlueprintStore, BlueprintView, Device, DeviceKind, DeviceView, EdgeView, NodePosition, NodeView,
    PinValue,
};
use crate::building::{
    all_rooms, default_room_color, floor_of_room, placed_views, Building, Floor, FloorView, Room,
    RoomKind, RoomView, DEFAULT_DEPTH_BITS, DEFAULT_HEIGHT_BITS, DEFAULT_WIDTH_BITS,
};
use crate::runtime::{
    blueprint_commands, command_of, commands_of, device_with_id, edge_into, evaluated, input_bool,
    input_number, input_value, lookup, number_ordinal, ordinal_of_bits, pass, rounds, seeded,
    seeded_by, settled_values, value_key, CommandView,
};
use crate::store::lemma_filter_step;
use crate::text::str_eq;
use crate::topics::{actuator_command, sensor};

verus! {

/// The word for a device kind in device ids.
pub open spec fn kind_word(kind: DeviceKind) -> Seq<char> {
    match kind {
        DeviceKind::Sensor => "sensor"@,
        DeviceKind::Actuator => "actuator"@,
    }
}

/// The kinds and types of the default devices of a room: seven sensors
/// and four actuators, and a garage door in a garage.
pub open spec fn default_device_types(kind: RoomKind) -> Seq<(DeviceKind, Seq<char>)> {
    let common = seq![
        (DeviceKind::Sensor, "temperature"@),
        (DeviceKind::Sensor, "humidity"@),
        (DeviceKind::Sensor, "co2"@),
        (DeviceKind::Sensor, "occupancy"@),
        (DeviceKind::Sensor, "motion"@),
        (DeviceKind::Sensor, "illuminance"@),
        (DeviceKind::Sensor, "energy"@),
        (DeviceKind::Actuator, "heating"@),
        (DeviceKind::Actuator, "ventilation"@),
        (DeviceKind::Actuator, "lights"@),
        (DeviceKind::Actuator, "door_lock"@),
    ];
    match kind {
        RoomKind::Office => common,
        RoomKind::Garage => common.push((DeviceKind::Actuator, "garage_door"@)),
    }
}

/// The id of a default device: `{room}-{kind}-{type}`.
pub open spec fn default_device_id(room_id: Seq<char>, kind: DeviceKind, device_type: Seq<char>) -> Seq<char> {
    room_id + "-"@ + kind_word(kind) + "-"@ + device_type
}

/// A default device of `room` on floor `floor_id`: enabled, named after the
/// room and its type, on the floor-level topic of its kind.
pub open spec fn default_device(
    floor_id: Seq<char>,
    room: RoomView,
    kind: DeviceKind,
    device_type: Seq<char>,
) -> DeviceView {
    DeviceView {
        id: default_device_id(room.id, kind, device_type),
        room_id: room.id,
        name: room.name + " "@ + device_type,
        kind,
        device_type,
        mqtt_topic: room_device_topic(kind, floor_id, room.id, device_type),
        enabled: true,
    }
}

/// The default devices of `room` on floor `floor_id`, in order.
pub open spec fn default_devices(floor_id: Seq<char>, room: RoomView) -> Seq<DeviceView> {
    default_device_types(room.kind).map_values(
        |p: (DeviceKind, Seq<char>)| default_device(floor_id, room, p.0, p.1),
    )
}

/// Whether some device has the id `id`.
pub open spec fn has_device_id(devices: Seq<DeviceView>, id: Seq<char>) -> bool {
    exists|i: int| 0 <= i < devices.len() && devices[i].id == id
}

/// Default devices whose id none of `devices` has.
pub open spec fn is_missing_from(devices: Seq<DeviceView>) -> spec_fn(DeviceView) -> bool {
    |d: DeviceView| !has_device_id(devices, d.id)
}

/// The default devices of `room` that `devices` lacks, in order.
pub open spec fn missing_devices(devices: Seq<DeviceView>, floor_id: Seq<char>, room: RoomView) -> Seq<DeviceView> {
    default_devices(floor_id, room).filter(is_missing_from(devices))
}

/// The default device kinds and types of a room of kind `kind`.
fn default_types(kind: RoomKind) -> (r: Vec<(DeviceKind, &'static str)>)
    ensures
        r@.map_values(|p: (DeviceKind, &str)| (p.0, p.1@)) == default_device_types(kind),
{
    let mut v: Vec<(DeviceKind, &'static str)> = vec![
        (DeviceKind::Sensor, "temperature"),
        (DeviceKind::Sensor, "humidity"),
        (DeviceKind::Sensor, "co2"),
        (DeviceKind::Sensor, "occupancy"),
        (DeviceKind::Sensor, "motion"),
        (DeviceKind::Sensor, "illuminance"),
        (DeviceKind::Sensor, "energy"),
        (DeviceKind::Actuator, "heating"),
        (DeviceKind::Actuator, "ventilation"),
        (DeviceKind::Actuator, "lights"),
        (DeviceKind::Actuator, "door_lock"),
    ];
    if kind == RoomKind::Garage {
        v.push((DeviceKind::Actuator, "garage_door"));
    }
    assert(v@.map_values(|p: (DeviceKind, &str)| (p.0, p.1@)) =~= default_device_types(kind));
    v
}

/// Whether one of the first `n` devices has the id `id`.
fn has_id_among(devices: &Vec<Device>, n: usize, id: &str) -> (r: bool)
    requires
        n <= devices@.len(),
    ensures
        r == has_device_id(device_views(devices@.take(n as int)), id@),
{
    let ghost views = device_views(devices@.take(n as int));
    let mut j: usize = 0;
    while j < n
        invariant
            n <= devices@.len(),
            views == device_views(devices@.take(n as int)),
            j <= n,
            forall|i: int| 0 <= i < j ==> views[i].id != id@,
        decreases n - j,
    {
        if str_eq(devices[j].id.as_str(), id) {
            assert(views[j as int].id == id@);
            return true;
        }
        j = j + 1;
    }
    false
}

/// Registers the default devices of `room` on floor `floor_id` that are
/// missing: those whose id `{room}-{kind}-{type}` no device has yet.
pub fn ensure_room_devices(store: &mut BlueprintStore, floor_id: &str, room: &Room)
    ensures
        final(store).building == old(store).building,
        final(store).blueprints@ == old(store).blueprints@,
        device_views(final(store).devices@) == device_views(old(store).devices@) + missing_devices(
            device_views(old(store).devices@),
            floor_id@,
            room@,
        ),
{
    let n: usize = store.devices.len();
    let ghost before = store.devices@;
    let ghost old_views = device_views(before);
    let ghost defaults = default_devices(floor_id@, room@);
    let ghost pred = is_missing_from(old_views);
    let types = default_types(room.kind);
    let mut t: usize = 0;
    assert(before.take(n as int) =~= before);
    assert(device_views(store.devices@) =~= old_views + defaults.take(0).filter(pred)) by {
        reveal(Seq::filter);
        assert(defaults.take(0) =~= Seq::<DeviceView>::empty());
    }
    while t < types.len()
        invariant
            n == before.len(),
            old_views == device_views(before),
            defaults == default_devices(floor_id@, room@),
            pred == is_missing_from(old_views),
            types@.map_values(|p: (DeviceKind, &str)| (p.0, p.1@)) == default_device_types(room.kind),
            defaults.len() == types@.len(),
            t <= types@.len(),
            store.devices@.len() >= n,
            store.devices@.take(n as int) == before,
            device_views(store.devices@) == old_views + defaults.take(t as int).filter(pred),
            store.building == old(store).building,
            store.blueprints@ == old(store).blueprints@,
        decreases types@.len() - t,
    {
        let (kind, device_type) = types[t];
        assert((kind, device_type@) == default_device_types(room.kind)[t as int]);
        let mut id = String::from_str(room.id.as_str());
        id.append("-");
        match kind {
            DeviceKind::Sensor => id.append("sensor"),
            DeviceKind::Actuator => id.append("actuator"),
        }
        id.append("-");
        id.append(device_type);
        let ghost expected = defaults[t as int];
        assert(id@ == expected.id);
        proof {
            lemma_filter_step(defaults, t as int, pred);
        }
        let missing = !has_id_among(&store.devices, n, id.as_str());
        if missing {
            let mut name = String::from_str(room.name.as_str());
            name.append(" ");
            name.append(device_type);
            let topic = match kind {
                DeviceKind::Sensor => sensor(floor_id, room.id.as_str(), device_type),
                DeviceKind::Actuator => actuator_command(floor_id, room.id.as_str(), device_type),
            };
            let device = Device {
                id,
                room_id: room.id.clone(),
                name,
                kind,
                device_type: String::from_str(device_type),
                mqtt_topic: topic,
                enabled: true,
            };
            assert(device@ == expected);
            let ghost prev = store.devices@;
            store.devices.push(device);
            proof {
                assert(store.devices@.take(n as int) =~= prev.take(n as int));
                assert(device_views(store.devices@) =~= device_views(prev).push(expected));
            }
        }
        t = t + 1;
    }
    assert(defaults.take(types@.len() as int) =~= defaults);
}


/// A device with its topic rebuilt from the building: the floor-level topic
/// of its kind, when some floor holds its room.
pub open spec fn rebuilt_device(floors: Seq<FloorView>, d: DeviceView) -> DeviceView {
    match floor_of_room(floors, d.room_id) {
        Some(f) => DeviceView { mqtt_topic: room_device_topic(d.kind, f, d.room_id, d.device_type), ..d },
        None => d,
    }
}

/// The room of the default floor with id `id` and name `name`.
pub open spec fn default_room(id: Seq<char>, name: Seq<char>) -> RoomView {
    RoomView {
        id,
        name,
        kind: RoomKind::Office,
        color: default_room_color(),
        width_bits: DEFAULT_WIDTH_BITS,
        depth_bits: DEFAULT_DEPTH_BITS,
        height_bits: DEFAULT_HEIGHT_BITS,
    }
}

/// The building of a fresh installation: `Floor 1` with the offices
/// `room-101` and `room-102`.
pub open spec fn default_building() -> Seq<FloorView> {
    seq![
        FloorView {
            id: "floor-1"@,
            name: "Floor 1"@,
            rooms: seq![default_room("room-101"@, "Room 101"@), default_room("room-102"@, "Room 102"@)],
        },
    ]
}

/// The building, or the default one when it has no floor.
pub open spec fn building_or_default(floors: Seq<FloorView>) -> Seq<FloorView> {
    if floors.len() == 0 {
        default_building()
    } else {
        floors
    }
}

/// Gives a building without floors the default floor.
fn ensure_default_floor(building: &mut Building)
    ensures
        final(building)@ == building_or_default(old(building)@),
{
    if building.floors.len() > 0 {
        return;
    }
    let mut rooms: Vec<Room> = Vec::new();
    rooms.push(Room::new(String::from_str("room-101"), String::from_str("Room 101"), RoomKind::Office));
    rooms.push(Room::new(String::from_str("room-102"), String::from_str("Room 102"), RoomKind::Office));
    let floor = Floor { id: String::from_str("floor-1"), name: String::from_str("Floor 1"), rooms };
    building.floors.push(floor);
    assert(building@ =~= default_building()) by {
        assert(building@[0].rooms =~= default_building()[0].rooms);
    }
}

/// Brings a store up to date: a store without floors gains the
/// default floor, and every device whose room some floor holds gets the
/// floor-level topic of its kind.
pub fn migrate_store(store: &mut BlueprintStore)
    ensures
        final(store).building@ == building_or_default(old(store).building@),
        device_views(final(store).devices@) == device_views(old(store).devices@).map_values(
            |d: DeviceView| rebuilt_device(final(store).building@, d),
        ),
        final(store).blueprints@ == old(store).blueprints@,
{
    ensure_default_floor(&mut store.building);
    let ghost before = store.devices@;
    let ghost floors = store.building@;
    let mut rest: Vec<Device> = Vec::new();
    std::mem::swap(&mut rest, &mut store.devices);
    let mut done: Vec<Device> = Vec::new();
    let ghost mut j: int = 0;
    assert(before.skip(0) =~= before);
    while rest.len() > 0
        invariant
            floors == store.building@,
            0 <= j <= before.len(),
            rest@ == before.skip(j),
            device_views(done@) == device_views(before.take(j)).map_values(
                |d: DeviceView| rebuilt_device(floors, d),
            ),
        decreases rest@.len(),
    {
        let ghost prev = done@;
        let mut device = rest.remove(0);
        proof {
            assert(before.skip(j).drop_first() =~= before.skip(j + 1));
            assert(device == before[j]);
        }
        let ghost original = device@;
        match store.building.floor_id_for_room(device.room_id.as_str()) {
            Some(f) => {
                let topic = match device.kind {
                    DeviceKind::Sensor => sensor(
                        f.as_str(),
                        device.room_id.as_str(),
                        device.device_type.as_str(),
                    ),
                    DeviceKind::Actuator => actuator_command(
                        f.as_str(),
                        device.room_id.as_str(),
                        device.device_type.as_str(),
                    ),
                };
                device.mqtt_topic = topic;
            },
            None => {},
        }
        assert(device@ == rebuilt_device(floors, original));
        done.push(device);
        proof {
            assert(device_views(done@) =~= device_views(prev).push(rebuilt_device(floors, original)));
            assert(device_views(before.take(j + 1)) =~= device_views(before.take(j)).push(original));
            j = j + 1;
        }
    }
    assert(before.take(j) =~= before);
    store.devices = done;
}


/// Where the nodes of the built-in scripts are drawn: the bits of the
/// `f64` coordinates 80, 140, 220, 360 and 640.
pub const AT_80: u64 = 0x4054_0000_0000_0000u64;
pub const AT_140: u64 = 0x4061_8000_0000_0000u64;
pub const AT_220: u64 = 0x406b_8000_0000_0000u64;
pub const AT_360: u64 = 0x4076_8000_0000_0000u64;
pub const AT_640: u64 = 0x4084_0000_0000_0000u64;

/// The bits of the `f64` values 21.5 and 1000: the heating and ventilation
/// thresholds of the built-in scripts.
pub const HEATING_THRESHOLD_BITS: u64 = 0x4035_8000_0000_0000u64;
pub const CO2_THRESHOLD_BITS: u64 = 0x408f_4000_0000_0000u64;

/// A sensor or actuator node reading or driving the device `device_id`.
pub open spec fn device_node(id: Seq<char>, node_type: Seq<char>, device_id: Seq<char>, x: u64, y: u64) -> NodeView {
    NodeView {
        id,
        node_type,
        position: NodePosition { x_bits: x, y_bits: y },
        data_json: "{\"device_id\":\""@ + device_id + "\"}"@,
        device_id: Some(device_id),
        value: PinValue::Other,
    }
}

/// A comparison or boolean node, without settings.
pub open spec fn logic_node(id: Seq<char>, node_type: Seq<char>, x: u64, y: u64) -> NodeView {
    NodeView {
        id,
        node_type,
        position: NodePosition { x_bits: x, y_bits: y },
        data_json: "{}"@,
        device_id: None,
        value: PinValue::Other,
    }
}

/// A number constant with settings `data_json` whose `value` has the `f64`
/// bits `bits`.
pub open spec fn number_node(id: Seq<char>, data_json: Seq<char>, bits: u64, x: u64, y: u64) -> NodeView {
    NodeView {
        id,
        node_type: "constant_number"@,
        position: NodePosition { x_bits: x, y_bits: y },
        data_json,
        device_id: None,
        value: PinValue::Number(ordinal_of_bits(bits)),
    }
}

/// An edge from pin `source_handle` of `source` to pin `target_handle` of
/// `target`.
pub open spec fn link(
    id: Seq<char>,
    source: Seq<char>,
    source_handle: Seq<char>,
    target: Seq<char>,
    target_handle: Seq<char>,
) -> EdgeView {
    EdgeView { id, source, source_handle, target, target_handle }
}

/// The built-in script of a room that heats while the temperature is below
/// 21.5 degrees.
pub open spec fn heating_script(room_id: Seq<char>) -> BlueprintView {
    BlueprintView {
        id: "builtin-temperature-heating-"@ + room_id,
        name: room_id + ": Turn heating on below 21.5 degrees"@,
        enabled: true,
        nodes: seq![
            device_node("temperature"@, "sensor"@, default_device_id(room_id, DeviceKind::Sensor, "temperature"@), AT_80, AT_80),
            number_node("threshold"@, "{\"value\":21.5}"@, HEATING_THRESHOLD_BITS, AT_80, AT_220),
            logic_node("compare"@, "compare_less"@, AT_360, AT_140),
            device_node("heating"@, "actuator"@, default_device_id(room_id, DeviceKind::Actuator, "heating"@), AT_640, AT_140),
        ],
        edges: seq![
            link("temperature-compare"@, "temperature"@, "value"@, "compare"@, "a"@),
            link("threshold-compare"@, "threshold"@, "value"@, "compare"@, "b"@),
            link("compare-heating"@, "compare"@, "result"@, "heating"@, "enabled"@),
        ],
    }
}

/// The built-in script of a room that turns the lights on while it is
/// occupied.
pub open spec fn lights_script(room_id: Seq<char>) -> BlueprintView {
    BlueprintView {
        id: "builtin-occupancy-lights-"@ + room_id,
        name: room_id + ": Turn lights on when occupied"@,
        enabled: true,
        nodes: seq![
            device_node("occupancy"@, "sensor"@, default_device_id(room_id, DeviceKind::Sensor, "occupancy"@), AT_80, AT_140),
            device_node("lights"@, "actuator"@, default_device_id(room_id, DeviceKind::Actuator, "lights"@), AT_360, AT_140),
        ],
        edges: seq![link("occupancy-lights"@, "occupancy"@, "value"@, "lights"@, "enabled"@)],
    }
}

/// The built-in script of a room that ventilates while CO2 is above 1000
/// ppm.
pub open spec fn ventilation_script(room_id: Seq<char>) -> BlueprintView {
    BlueprintView {
        id: "builtin-co2-ventilation-"@ + room_id,
        name: room_id + ": Ventilate when CO2 is above 1000 ppm"@,
        enabled: true,
        nodes: seq![
            device_node("co2"@, "sensor"@, default_device_id(room_id, DeviceKind::Sensor, "co2"@), AT_80, AT_80),
            number_node("threshold"@, "{\"value\":1000}"@, CO2_THRESHOLD_BITS, AT_80, AT_220),
            logic_node("compare"@, "compare_greater"@, AT_360, AT_140),
            device_node("ventilation"@, "actuator"@, default_device_id(room_id, DeviceKind::Actuator, "ventilation"@), AT_640, AT_140),
        ],
        edges: seq![
            link("co2-compare"@, "co2"@, "value"@, "compare"@, "a"@),
            link("threshold-compare"@, "threshold"@, "value"@, "compare"@, "b"@),
            link("compare-ventilation"@, "compare"@, "result"@, "ventilation"@, "enabled"@),
        ],
    }
}

/// The built-in scripts of a room, in order.
pub open spec fn builtin_scripts(room_id: Seq<char>) -> Seq<BlueprintView> {
    seq![heating_script(room_id), lights_script(room_id), ventilation_script(room_id)]
}

/// Whether some blueprint has the id `id`.
pub open spec fn has_blueprint_id(blueprints: Seq<BlueprintView>, id: Seq<char>) -> bool {
    exists|i: int| 0 <= i < blueprints.len() && blueprints[i].id == id
}

/// Built-in scripts whose id none of `blueprints` has.
pub open spec fn is_script_missing_from(blueprints: Seq<BlueprintView>) -> spec_fn(BlueprintView) -> bool {
    |b: BlueprintView| !has_blueprint_id(blueprints, b.id)
}

/// The built-in scripts of room `room_id` that `blueprints` lacks, in order.
pub open spec fn missing_scripts(blueprints: Seq<BlueprintView>, room_id: Seq<char>) -> Seq<BlueprintView> {
    builtin_scripts(room_id).filter(is_script_missing_from(blueprints))
}

/// The devices once the missing default devices of each placed room were
/// added, room by room.
pub open spec fn devices_with_defaults(
    devices: Seq<DeviceView>,
    placed: Seq<(Seq<char>, RoomView)>,
) -> Seq<DeviceView>
    decreases placed.len(),
{
    if placed.len() == 0 {
        devices
    } else {
        let prev = devices_with_defaults(devices, placed.drop_last());
        prev + missing_devices(prev, placed.last().0, placed.last().1)
    }
}

/// The blueprints once the missing built-in scripts of each placed room
/// were added, room by room.
pub open spec fn scripts_with_builtins(
    blueprints: Seq<BlueprintView>,
    placed: Seq<(Seq<char>, RoomView)>,
) -> Seq<BlueprintView>
    decreases placed.len(),
{
    if placed.len() == 0 {
        blueprints
    } else {
        let prev = scripts_with_builtins(blueprints, placed.drop_last());
        prev + missing_scripts(prev, placed.last().1.id)
    }
}

/// `a` + `b` + `c`.
fn join3(a: &str, b: &str, c: &str) -> (s: String)
    ensures
        s@ == a@ + b@ + c@,
{
    let mut s = String::from_str(a);
    s.append(b);
    s.append(c);
    s
}

fn make_device_node(id: &str, node_type: &str, device_id: String, x: u64, y: u64) -> (n: BlueprintNode)
    ensures
        n@ == device_node(id@, node_type@, device_id@, x, y),
{
    let data_json = join3("{\"device_id\":\"", device_id.as_str(), "\"}");
    BlueprintNode {
        id: String::from_str(id),
        node_type: String::from_str(node_type),
        position: NodePosition { x_bits: x, y_bits: y },
        data_json,
        device_id: Some(device_id),
        value: PinValue::Other,
    }
}

fn make_logic_node(id: &str, node_type: &str, x: u64, y: u64) -> (n: BlueprintNode)
    ensures
        n@ == logic_node(id@, node_type@, x, y),
{
    BlueprintNode {
        id: String::from_str(id),
        node_type: String::from_str(node_type),
        position: NodePosition { x_bits: x, y_bits: y },
        data_json: String::from_str("{}"),
        device_id: None,
        value: PinValue::Other,
    }
}

fn make_number_node(id: &str, data_json: &str, bits: u64, x: u64, y: u64) -> (n: BlueprintNode)
    ensures
        n@ == number_node(id@, data_json@, bits, x, y),
{
    BlueprintNode {
        id: String::from_str(id),
        node_type: String::from_str("constant_number"),
        position: NodePosition { x_bits: x, y_bits: y },
        data_json: String::from_str(data_json),
        device_id: None,
        value: PinValue::Number(number_ordinal(bits)),
    }
}

fn make_link(id: &str, source: &str, source_handle: &str, target: &str, target_handle: &str) -> (e: BlueprintEdge)
    ensures
        e@ == link(id@, source@, source_handle@, target@, target_handle@),
{
    BlueprintEdge {
        id: String::from_str(id),
        source: String::from_str(source),
        source_handle: String::from_str(source_handle),
        target: String::from_str(target),
        target_handle: String::from_str(target_handle),
    }
}

/// The id of default device `{room}-{kind}-{type}`.
fn make_device_id(room_id: &str, kind: DeviceKind, device_type: &str) -> (s: String)
    ensures
        s@ == default_device_id(room_id@, kind, device_type@),
{
    let mut s = String::from_str(room_id);
    s.append("-");
    match kind {
        DeviceKind::Sensor => s.append("sensor"),
        DeviceKind::Actuator => s.append("actuator"),
    }
    s.append("-");
    s.append(device_type);
    s
}

fn make_heating_script(room_id: &str) -> (b: Blueprint)
    ensures
        b@ == heating_script(room_id@),
{
    let nodes = vec![
        make_device_node("temperature", "sensor", make_device_id(room_id, DeviceKind::Sensor, "temperature"), AT_80, AT_80),
        make_number_node("threshold", "{\"value\":21.5}", HEATING_THRESHOLD_BITS, AT_80, AT_220),
        make_logic_node("compare", "compare_less", AT_360, AT_140),
        make_device_node("heating", "actuator", make_device_id(room_id, DeviceKind::Actuator, "heating"), AT_640, AT_140),
    ];
    let edges = vec![
        make_link("temperature-compare", "temperature", "value", "compare", "a"),
        make_link("threshold-compare", "threshold", "value", "compare", "b"),
        make_link("compare-heating", "compare", "result", "heating", "enabled"),
    ];
    let b = Blueprint {
        id: join3("builtin-temperature-heating-", room_id, ""),
        name: join3(room_id, ": Turn heating on below 21.5 degrees", ""),
        enabled: true,
        nodes,
        edges,
    };
    proof {
        reveal_strlit("");
        assert(b@.nodes =~= heating_script(room_id@).nodes);
        assert(b@.edges =~= heating_script(room_id@).edges);
        assert(b@.id =~= heating_script(room_id@).id);
        assert(b@.name =~= heating_script(room_id@).name);
    }
    b
}

fn make_lights_script(room_id: &str) -> (b: Blueprint)
    ensures
        b@ == lights_script(room_id@),
{
    let nodes = vec![
        make_device_node("occupancy", "sensor", make_device_id(room_id, DeviceKind::Sensor, "occupancy"), AT_80, AT_140),
        make_device_node("lights", "actuator", make_device_id(room_id, DeviceKind::Actuator, "lights"), AT_360, AT_140),
    ];
    let edges = vec![make_link("occupancy-lights", "occupancy", "value", "lights", "enabled")];
    let b = Blueprint {
        id: join3("builtin-occupancy-lights-", room_id, ""),
        name: join3(room_id, ": Turn lights on when occupied", ""),
        enabled: true,
        nodes,
        edges,
    };
    proof {
        reveal_strlit("");
        assert(b@.nodes =~= lights_script(room_id@).nodes);
        assert(b@.edges =~= lights_script(room_id@).edges);
        assert(b@.id =~= lights_script(room_id@).id);
        assert(b@.name =~= lights_script(room_id@).name);
    }
    b
}

fn make_ventilation_script(room_id: &str) -> (b: Blueprint)
    ensures
        b@ == ventilation_script(room_id@),
{
    let nodes = vec![
        make_device_node("co2", "sensor", make_device_id(room_id, DeviceKind::Sensor, "co2"), AT_80, AT_80),
        make_number_node("threshold", "{\"value\":1000}", CO2_THRESHOLD_BITS, AT_80, AT_220),
        make_logic_node("compare", "compare_greater", AT_360, AT_140),
        make_device_node("ventilation", "actuator", make_device_id(room_id, DeviceKind::Actuator, "ventilation"), AT_640, AT_140),
    ];
    let edges = vec![
        make_link("co2-compare", "co2", "value", "compare", "a"),
        make_link("threshold-compare", "threshold", "value", "compare", "b"),
        make_link("compare-ventilation", "compare", "result", "ventilation", "enabled"),
    ];
    let b = Blueprint {
        id: join3("builtin-co2-ventilation-", room_id, ""),
        name: join3(room_id, ": Ventilate when CO2 is above 1000 ppm", ""),
        enabled: true,
        nodes,
        edges,
    };
    proof {
        reveal_strlit("");
        assert(b@.nodes =~= ventilation_script(room_id@).nodes);
        assert(b@.edges =~= ventilation_script(room_id@).edges);
        assert(b@.id =~= ventilation_script(room_id@).id);
        assert(b@.name =~= ventilation_script(room_id@).name);
    }
    b
}


/// Whether one of the first `n` blueprints has the id `id`.
fn has_script_among(blueprints: &Vec<Blueprint>, n: usize, id: &str) -> (r: bool)
    requires
        n <= blueprints@.len(),
    ensures
        r == has_blueprint_id(blueprint_views(blueprints@.take(n as int)), id@),
{
    let ghost views = blueprint_views(blueprints@.take(n as int));
    let mut j: usize = 0;
    while j < n
        invariant
            n <= blueprints@.len(),
            views == blueprint_views(blueprints@.take(n as int)),
            j <= n,
            forall|i: int| 0 <= i < j ==> views[i].id != id@,
        decreases n - j,
    {
        if str_eq(blueprints[j].id.as_str(), id) {
            assert(views[j as int].id == id@);
            return true;
        }
        j = j + 1;
    }
    false
}

/// Adds the built-in scripts of room `room_id` that are missing: those
/// whose id no blueprint has yet.
pub fn ensure_builtin_scripts(store: &mut BlueprintStore, room_id: &str)
    ensures
        final(store).building == old(store).building,
        final(store).devices@ == old(store).devices@,
        blueprint_views(final(store).blueprints@) == blueprint_views(old(store).blueprints@)
            + missing_scripts(blueprint_views(old(store).blueprints@), room_id@),
{
    let n: usize = store.blueprints.len();
    let ghost before = store.blueprints@;
    let ghost old_views = blueprint_views(before);
    let ghost scripts = builtin_scripts(room_id@);
    let ghost pred = is_script_missing_from(old_views);
    let mut pending: Vec<Blueprint> = Vec::new();
    pending.push(make_heating_script(room_id));
    pending.push(make_lights_script(room_id));
    pending.push(make_ventilation_script(room_id));
    assert(blueprint_views(pending@) =~= scripts);
    let ghost mut t: int = 0;
    assert(before.take(n as int) =~= before);
    assert(blueprint_views(store.blueprints@) =~= old_views + scripts.take(0).filter(pred)) by {
        reveal(Seq::filter);
        assert(scripts.take(0) =~= Seq::<BlueprintView>::empty());
    }
    assert(blueprint_views(pending@) =~= scripts.skip(0));
    while pending.len() > 0
        invariant
            n == before.len(),
            old_views == blueprint_views(before),
            scripts == builtin_scripts(room_id@),
            pred == is_script_missing_from(old_views),
            0 <= t <= 3,
            blueprint_views(pending@) == scripts.skip(t),
            store.blueprints@.len() >= n,
            store.blueprints@.take(n as int) == before,
            blueprint_views(store.blueprints@) == old_views + scripts.take(t).filter(pred),
            store.building == old(store).building,
            store.devices@ == old(store).devices@,
        decreases pending@.len(),
    {
        let ghost waiting = pending@;
        let script = pending.remove(0);
        proof {
            assert(scripts.skip(t).len() == 3 - t);
            assert(script == waiting[0]);
            assert(blueprint_views(waiting)[0] == waiting[0]@);
            assert(scripts.skip(t)[0] == scripts[t]);
            assert(script@ == scripts[t]);
            assert(pending@ =~= waiting.drop_first());
            assert(blueprint_views(pending@) =~= blueprint_views(waiting).drop_first());
            assert(scripts.skip(t).drop_first() =~= scripts.skip(t + 1));
            assert(blueprint_views(pending@) =~= scripts.skip(t + 1));
            lemma_filter_step(scripts, t, pred);
        }
        let missing = !has_script_among(&store.blueprints, n, script.id.as_str());
        if missing {
            let ghost prev = store.blueprints@;
            let ghost view = script@;
            store.blueprints.push(script);
            proof {
                assert(store.blueprints@.take(n as int) =~= prev.take(n as int));
                assert(blueprint_views(store.blueprints@) =~= blueprint_views(prev).push(view));
            }
        }
        proof {
            t = t + 1;
        }
    }
    assert(scripts.take(t) =~= scripts);
}

/// Gives the store its default content where it is missing: the default
/// floor when there is none, then for every room, floor by floor, its
/// default devices and its built-in scripts.
pub fn ensure_default_content(store: &mut BlueprintStore)
    ensures
        final(store).building@ == building_or_default(old(store).building@),
        device_views(final(store).devices@) == devices_with_defaults(
            device_views(old(store).devices@),
            all_rooms(final(store).building@),
        ),
        blueprint_views(final(store).blueprints@) == scripts_with_builtins(
            blueprint_views(old(store).blueprints@),
            all_rooms(final(store).building@),
        ),
{
    ensure_default_floor(&mut store.building);
    let placed = store.building.rooms();
    let ghost rooms = placed_views(placed@);
    let ghost devices0 = device_views(store.devices@);
    let ghost scripts0 = blueprint_views(store.blueprints@);
    let ghost building = store.building;
    let mut p: usize = 0;
    assert(rooms.take(0) =~= Seq::<(Seq<char>, RoomView)>::empty());
    while p < placed.len()
        invariant
            rooms == placed_views(placed@),
            rooms == all_rooms(building@),
            store.building == building,
            p <= placed@.len(),
            device_views(store.devices@) == devices_with_defaults(devices0, rooms.take(p as int)),
            blueprint_views(store.blueprints@) == scripts0,
        decreases placed@.len() - p,
    {
        ensure_room_devices(store, placed[p].0.as_str(), &placed[p].1);
        proof {
            assert(rooms.take(p + 1).drop_last() =~= rooms.take(p as int));
            assert(rooms[p as int] == (placed@[p as int].0@, placed@[p as int].1@));
        }
        p = p + 1;
    }
    assert(rooms.take(placed@.len() as int) =~= rooms);
    let mut q: usize = 0;
    assert(rooms.take(0) =~= Seq::<(Seq<char>, RoomView)>::empty());
    while q < placed.len()
        invariant
            rooms == placed_views(placed@),
            rooms == all_rooms(building@),
            store.building == building,
            q <= placed@.len(),
            device_views(store.devices@) == devices_with_defaults(devices0, rooms),
            blueprint_views(store.blueprints@) == scripts_with_builtins(scripts0, rooms.take(q as int)),
        decreases placed@.len() - q,
    {
        ensure_builtin_scripts(store, placed[q].1.id.as_str());
        proof {
            assert(rooms.take(q + 1).drop_last() =~= rooms.take(q as int));
            assert(rooms[q as int].1.id == placed@[q as int].1.id@);
        }
        q = q + 1;
    }
    assert(rooms.take(placed@.len() as int) =~= rooms);
}


/// A filter that nothing passes leaves nothing.
proof fn lemma_filter_none<T>(s: Seq<T>, pred: spec_fn(T) -> bool)
    requires
        forall|i: int| 0 <= i < s.len() ==> !pred(s[i]),
    ensures
        s.filter(pred) == Seq::<T>::empty(),
    decreases s.len(),
{
    reveal(Seq::filter);
    if s.len() > 0 {
        lemma_filter_none(s.drop_last(), pred);
    }
}

/// After the missing defaults of a room were added, each of its default
/// device ids is present.
proof fn lemma_defaults_present(devices: Seq<DeviceView>, floor_id: Seq<char>, room: RoomView)
    ensures
        forall|i: int|
            0 <= i < default_devices(floor_id, room).len() ==> has_device_id(
                devices + missing_devices(devices, floor_id, room),
                #[trigger] default_devices(floor_id, room)[i].id,
            ),
{
    let all = devices + missing_devices(devices, floor_id, room);
    let defaults = default_devices(floor_id, room);
    let pred = is_missing_from(devices);
    assert forall|i: int| 0 <= i < defaults.len() implies has_device_id(
        all,
        #[trigger] defaults[i].id,
    ) by {
        let d = defaults[i];
        if has_device_id(devices, d.id) {
            let j = choose|j: int| 0 <= j < devices.len() && devices[j].id == d.id;
            assert(all[j] == devices[j]);
        } else {
            assert(pred(d));
            defaults.lemma_filter_contains(pred, i);
            assert(defaults.filter(pred).contains(d));
            let k = choose|k: int| 0 <= k < defaults.filter(pred).len() && defaults.filter(pred)[k] == d;
            assert(all[devices.len() + k] == d);
        }
    }
}

proof fn lemma_scripts_present(blueprints: Seq<BlueprintView>, room_id: Seq<char>)
    ensures
        forall|i: int|
            0 <= i < builtin_scripts(room_id).len() ==> has_blueprint_id(
                blueprints + missing_scripts(blueprints, room_id),
                #[trigger] builtin_scripts(room_id)[i].id,
            ),
{
    let all = blueprints + missing_scripts(blueprints, room_id);
    let scripts = builtin_scripts(room_id);
    let pred = is_script_missing_from(blueprints);
    assert forall|i: int| 0 <= i < scripts.len() implies has_blueprint_id(
        all,
        #[trigger] scripts[i].id,
    ) by {
        let b = scripts[i];
        if has_blueprint_id(blueprints, b.id) {
            let j = choose|j: int| 0 <= j < blueprints.len() && blueprints[j].id == b.id;
            assert(all[j] == blueprints[j]);
        } else {
            assert(pred(b));
            scripts.lemma_filter_contains(pred, i);
            assert(scripts.filter(pred).contains(b));
            let k = choose|k: int| 0 <= k < scripts.filter(pred).len() && scripts.filter(pred)[k] == b;
            assert(all[blueprints.len() + k] == b);
        }
    }
}

/// Adding defaults only appends: what was there stays a prefix.
proof fn lemma_defaults_grow(devices: Seq<DeviceView>, placed: Seq<(Seq<char>, RoomView)>, j: int)
    requires
        0 <= j <= placed.len(),
    ensures
        devices_with_defaults(devices, placed.take(j)).len() <= devices_with_defaults(devices, placed).len(),
        devices_with_defaults(devices, placed).take(devices_with_defaults(devices, placed.take(j)).len() as int)
            == devices_with_defaults(devices, placed.take(j)),
    decreases placed.len() - j,
{
    if j < placed.len() {
        lemma_defaults_grow(devices, placed, j + 1);
        assert(placed.take(j + 1).drop_last() =~= placed.take(j));
        let a = devices_with_defaults(devices, placed.take(j));
        let b = devices_with_defaults(devices, placed.take(j + 1));
        let c = devices_with_defaults(devices, placed);
        assert(c.take(a.len() as int) =~= c.take(b.len() as int).take(a.len() as int));
        assert(b.take(a.len() as int) =~= a);
    } else {
        assert(placed.take(j) =~= placed);
    }
}

proof fn lemma_scripts_grow(blueprints: Seq<BlueprintView>, placed: Seq<(Seq<char>, RoomView)>, j: int)
    requires
        0 <= j <= placed.len(),
    ensures
        scripts_with_builtins(blueprints, placed.take(j)).len() <= scripts_with_builtins(blueprints, placed).len(),
        scripts_with_builtins(blueprints, placed).take(scripts_with_builtins(blueprints, placed.take(j)).len() as int)
            == scripts_with_builtins(blueprints, placed.take(j)),
    decreases placed.len() - j,
{
    if j < placed.len() {
        lemma_scripts_grow(blueprints, placed, j + 1);
        assert(placed.take(j + 1).drop_last() =~= placed.take(j));
        let a = scripts_with_builtins(blueprints, placed.take(j));
        let b = scripts_with_builtins(blueprints, placed.take(j + 1));
        let c = scripts_with_builtins(blueprints, placed);
        assert(c.take(a.len() as int) =~= c.take(b.len() as int).take(a.len() as int));
        assert(b.take(a.len() as int) =~= a);
    } else {
        assert(placed.take(j) =~= placed);
    }
}

/// The second pass over the first `j` rooms adds nothing.
proof fn lemma_second_pass(
    devices: Seq<DeviceView>,
    blueprints: Seq<BlueprintView>,
    placed: Seq<(Seq<char>, RoomView)>,
    j: int,
)
    requires
        0 <= j <= placed.len(),
    ensures
        devices_with_defaults(devices_with_defaults(devices, placed), placed.take(j))
            == devices_with_defaults(devices, placed),
        scripts_with_builtins(scripts_with_builtins(blueprints, placed), placed.take(j))
            == scripts_with_builtins(blueprints, placed),
    decreases j,
{
    let d1 = devices_with_defaults(devices, placed);
    let s1 = scripts_with_builtins(blueprints, placed);
    if j == 0 {
        assert(placed.take(0) =~= Seq::<(Seq<char>, RoomView)>::empty());
    } else {
        let i = j - 1;
        lemma_second_pass(devices, blueprints, placed, i);
        assert(placed.take(j).drop_last() =~= placed.take(i));
        assert(placed.take(j).last() == placed[i]);
        let (f, r) = placed[i];
        let before = devices_with_defaults(devices, placed.take(i));
        let after = devices_with_defaults(devices, placed.take(j));
        assert(after == before + missing_devices(before, f, r));
        lemma_defaults_present(before, f, r);
        lemma_defaults_grow(devices, placed, j);
        let defaults = default_devices(f, r);
        assert forall|k: int| 0 <= k < defaults.len() implies !is_missing_from(d1)(
            #[trigger] defaults[k],
        ) by {
            assert(has_device_id(after, defaults[k].id));
            let m = choose|m: int| 0 <= m < after.len() && after[m].id == defaults[k].id;
            assert(d1.take(after.len() as int)[m] == d1[m]);
        }
        lemma_filter_none(defaults, is_missing_from(d1));
        assert(d1 + Seq::<DeviceView>::empty() =~= d1);
        let sb = scripts_with_builtins(blueprints, placed.take(i));
        let sa = scripts_with_builtins(blueprints, placed.take(j));
        assert(sa == sb + missing_scripts(sb, r.id));
        lemma_scripts_present(sb, r.id);
        lemma_scripts_grow(blueprints, placed, j);
        let scripts = builtin_scripts(r.id);
        assert forall|k: int| 0 <= k < scripts.len() implies !is_script_missing_from(s1)(
            #[trigger] scripts[k],
        ) by {
            assert(has_blueprint_id(sa, scripts[k].id));
            let m = choose|m: int| 0 <= m < sa.len() && sa[m].id == scripts[k].id;
            assert(s1.take(sa.len() as int)[m] == s1[m]);
        }
        lemma_filter_none(scripts, is_script_missing_from(s1));
        assert(s1 + Seq::<BlueprintView>::empty() =~= s1);
    }
}

/// Default content is added once: adding the missing default devices and
/// built-in scripts of the same rooms again adds nothing, and a building
/// that has floors keeps them.
pub proof fn default_content_is_idempotent(
    devices: Seq<DeviceView>,
    blueprints: Seq<BlueprintView>,
    placed: Seq<(Seq<char>, RoomView)>,
    floors: Seq<FloorView>,
)
    ensures
        devices_with_defaults(devices_with_defaults(devices, placed), placed) == devices_with_defaults(
            devices,
            placed,
        ),
        scripts_with_builtins(scripts_with_builtins(blueprints, placed), placed) == scripts_with_builtins(
            blueprints,
            placed,
        ),
        building_or_default(building_or_default(floors)) == building_or_default(floors),
{
    lemma_second_pass(devices, blueprints, placed, placed.len() as int);
    assert(placed.take(placed.len() as int) =~= placed);
}

/// Rebuilding device topics twice gives what rebuilding once gives.
pub proof fn migration_is_idempotent(floors: Seq<FloorView>, d: DeviceView)
    ensures
        rebuilt_device(floors, rebuilt_device(floors, d)) == rebuilt_device(floors, d),
{
}


/// The command a built-in script sends to the actuator device `device`.
pub open spec fn script_command(device: Device, script: BlueprintView, enabled: bool) -> CommandView {
    CommandView {
        topic: device.mqtt_topic@,
        room_id: device.room_id@,
        blueprint_id: script.id,
        blueprint_name: script.name,
        enabled,
        reason: "blueprint_graph_evaluation"@,
    }
}

proof fn lemma_node_types_differ()
    ensures
        "sensor"@ != "actuator"@,
        "sensor"@ != "constant_number"@,
        "sensor"@ != "constant_boolean"@,
        "sensor"@ != "compare_greater"@,
        "sensor"@ != "compare_less"@,
        "sensor"@ != "boolean_and"@,
        "sensor"@ != "boolean_or"@,
        "actuator"@ != "constant_number"@,
        "actuator"@ != "constant_boolean"@,
        "actuator"@ != "compare_greater"@,
        "actuator"@ != "compare_less"@,
        "actuator"@ != "boolean_and"@,
        "actuator"@ != "boolean_or"@,
        "constant_number"@ != "compare_greater"@,
        "constant_number"@ != "compare_less"@,
        "constant_number"@ != "boolean_and"@,
        "constant_number"@ != "boolean_or"@,
        "constant_number"@ != "actuator"@,
        "compare_less"@ != "compare_greater"@,
        "compare_less"@ != "actuator"@,
        "compare_greater"@ != "actuator"@,
        "compare_less"@ != "constant_number"@,
        "compare_less"@ != "constant_boolean"@,
        "compare_greater"@ != "constant_number"@,
        "compare_greater"@ != "constant_boolean"@,
        "compare_less"@ != "sensor"@,
        "compare_greater"@ != "sensor"@,
{
    reveal_strlit("sensor");
    reveal_strlit("actuator");
    reveal_strlit("constant_number");
    reveal_strlit("constant_boolean");
    reveal_strlit("compare_greater");
    reveal_strlit("compare_less");
    reveal_strlit("boolean_and");
    reveal_strlit("boolean_or");
    assert("sensor"@.len() == 6 && "actuator"@.len() == 8 && "constant_number"@.len() == 15);
    assert("constant_boolean"@.len() == 16 && "compare_greater"@.len() == 15);
    assert("compare_less"@.len() == 12 && "boolean_and"@.len() == 11 && "boolean_or"@.len() == 10);
    assert("constant_number"@[2] != "compare_greater"@[2]);
}

/// The built-in lights script follows occupancy: when the room's occupancy
/// sensor reports `occupied`, it commands the room's lights (if that device
/// is registered and enabled) to be on exactly when occupied.
pub proof fn lights_follow_occupancy(
    script: Blueprint,
    room_id: Seq<char>,
    devices: Seq<Device>,
    changed_topic: Seq<char>,
    occupied: bool,
    sensor: Device,
    lights: Device,
)
    requires
        script@ == lights_script(room_id),
        device_with_id(devices, default_device_id(room_id, DeviceKind::Sensor, "occupancy"@))
            == Some(sensor),
        sensor.mqtt_topic@ == changed_topic,
        device_with_id(devices, default_device_id(room_id, DeviceKind::Actuator, "lights"@))
            == Some(lights),
        lights.enabled,
    ensures
        blueprint_commands(script, devices, changed_topic, PinValue::Bool(occupied)) == seq![
            script_command(lights, lights_script(room_id), occupied),
        ],
{
    lemma_node_types_differ();
    reveal_strlit("occupancy");
    reveal_strlit("lights");
    reveal_strlit("enabled");
    reveal_strlit("value");
    let nodes = script.nodes@;
    let edges = script.edges@;
    let view = lights_script(room_id);
    assert(script@.nodes == view.nodes && script@.edges == view.edges);
    assert(view.nodes.len() == 2 && view.edges.len() == 1);
    assert(script@.nodes.len() == nodes.len() && script@.edges.len() == edges.len());
    assert(nodes.len() == 2 && edges.len() == 1);
    assert(nodes[0]@ == view.nodes[0]);
    assert(nodes[1]@ == view.nodes[1]);
    assert(edges[0]@ == view.edges[0]);
    let n0 = nodes[0];
    let n1 = nodes[1];
    assert(n0.node_type@ == "sensor"@ && n0.id@ == "occupancy"@);
    assert(n0.device_id is Some);
    assert(n0.device_id.unwrap()@ == default_device_id(room_id, DeviceKind::Sensor, "occupancy"@));
    assert(n1.node_type@ == "actuator"@ && n1.id@ == "lights"@);
    assert(n1.device_id is Some);
    assert(n1.device_id.unwrap()@ == default_device_id(room_id, DeviceKind::Actuator, "lights"@));
    let reading = PinValue::Bool(occupied);
    let key = value_key("occupancy"@, "value"@);
    assert(nodes.drop_last().drop_last() =~= Seq::<BlueprintNode>::empty());
    assert(nodes.drop_last().last() == n0);
    assert(seeded(nodes.drop_last().drop_last(), devices, changed_topic, reading)
        == Map::<Seq<char>, PinValue>::empty());
    assert(device_with_id(devices, n0.device_id.unwrap()@) == Some(sensor));
    let s0 = seeded(nodes.drop_last(), devices, changed_topic, reading);
    assert(s0 == Map::<Seq<char>, PinValue>::empty().insert(key, reading));
    let seeds = seeded(nodes, devices, changed_topic, reading);
    assert(seeds == s0);
    assert(pass(nodes, edges, seeds) == seeds) by {
        assert(pass(nodes.drop_last().drop_last(), edges, seeds) == seeds);
        assert(evaluated(n0, edges, seeds) == seeds);
        assert(pass(nodes.drop_last(), edges, seeds) == seeds);
        assert(evaluated(n1, edges, seeds) == seeds);
    }
    assert(rounds(nodes, edges, seeds, 0) == seeds);
    assert(rounds(nodes, edges, seeds, 1) == seeds);
    assert(rounds(nodes, edges, seeds, 2) == seeds);
    let values = settled_values(script, devices, changed_topic, reading);
    assert(values == seeds);
    assert(edge_into(edges, "lights"@, "enabled"@) == Some(edges[0])) by {
        assert(edges[0].target@ == "lights"@ && edges[0].target_handle@ == "enabled"@);
    }
    assert(input_bool(edges, values, "lights"@, "enabled"@) == Some(occupied));
    let c = command_of(n1, edges, values, devices, script.id@, script.name@);
    assert(c == Some(script_command(lights, view, occupied)));
    assert(command_of(n0, edges, values, devices, script.id@, script.name@) is None);
    assert(commands_of(nodes.drop_last().drop_last(), edges, values, devices, script.id@, script.name@)
        =~= Seq::<CommandView>::empty());
    assert(commands_of(nodes.drop_last(), edges, values, devices, script.id@, script.name@)
        =~= Seq::<CommandView>::empty());
    assert(commands_of(nodes, edges, values, devices, script.id@, script.name@) =~= seq![
        script_command(lights, view, occupied),
    ]);
}


proof fn lemma_keys_differ(x: Seq<char>, y: Seq<char>)
    ensures
        x != y ==> value_key(x, "value"@) != value_key(y, "value"@),
        value_key(x, "result"@) != value_key(y, "value"@),
{
    reveal_strlit("value");
    reveal_strlit("result");
    reveal_strlit(":");
    let a = value_key(x, "result"@);
    let b = value_key(y, "value"@);
    assert(a.last() == 't' && b.last() == 'e');
    if value_key(x, "value"@) == value_key(y, "value"@) {
        assert(value_key(x, "value"@).take(x.len() as int) =~= x);
        assert(value_key(y, "value"@).take(y.len() as int) =~= y);
    }
}

/// The outcome of a threshold comparison on ordinals.
pub open spec fn compared(less: bool, x: u64, t: u64) -> bool {
    if less {
        x < t
    } else {
        x > t
    }
}

/// A four-node script: a sensor `sid` compared (`a`) with a constant
/// `threshold` (`b`) by `compare`, whose result drives actuator `aid`.
proof fn lemma_threshold_script(
    script: Blueprint,
    devices: Seq<Device>,
    changed_topic: Seq<char>,
    x: u64,
    t: u64,
    less: bool,
    sid: Seq<char>,
    aid: Seq<char>,
    sensor: Device,
    actuator: Device,
)
    requires
        script.nodes@.len() == 4,
        script.edges@.len() == 3,
        script.nodes@[0].node_type@ == "sensor"@,
        script.nodes@[0].id@ == sid,
        script.nodes@[0].device_id is Some,
        device_with_id(devices, script.nodes@[0].device_id.unwrap()@) == Some(sensor),
        sensor.mqtt_topic@ == changed_topic,
        script.nodes@[1].node_type@ == "constant_number"@,
        script.nodes@[1].id@ == "threshold"@,
        script.nodes@[1].value == PinValue::Number(t),
        script.nodes@[2].node_type@ == if less {
            "compare_less"@
        } else {
            "compare_greater"@
        },
        script.nodes@[2].id@ == "compare"@,
        script.nodes@[3].node_type@ == "actuator"@,
        script.nodes@[3].id@ == aid,
        script.nodes@[3].device_id is Some,
        device_with_id(devices, script.nodes@[3].device_id.unwrap()@) == Some(actuator),
        actuator.enabled,
        script.edges@[0].source@ == sid && script.edges@[0].source_handle@ == "value"@,
        script.edges@[0].target@ == "compare"@ && script.edges@[0].target_handle@ == "a"@,
        script.edges@[1].source@ == "threshold"@ && script.edges@[1].source_handle@ == "value"@,
        script.edges@[1].target@ == "compare"@ && script.edges@[1].target_handle@ == "b"@,
        script.edges@[2].source@ == "compare"@ && script.edges@[2].source_handle@ == "result"@,
        script.edges@[2].target@ == aid && script.edges@[2].target_handle@ == "enabled"@,
        sid != "threshold"@,
        aid != "compare"@,
    ensures
        blueprint_commands(script, devices, changed_topic, PinValue::Number(x)) == seq![
            CommandView {
                topic: actuator.mqtt_topic@,
                room_id: actuator.room_id@,
                blueprint_id: script.id@,
                blueprint_name: script.name@,
                enabled: compared(less, x, t),
                reason: "blueprint_graph_evaluation"@,
            },
        ],
{
    lemma_node_types_differ();
    reveal_strlit("a");
    reveal_strlit("b");
    reveal_strlit("compare");
    reveal_strlit("threshold");
    let nodes = script.nodes@;
    let edges = script.edges@;
    let reading = PinValue::Number(x);
    let ks = value_key(sid, "value"@);
    let kt = value_key("threshold"@, "value"@);
    let kc = value_key("compare"@, "result"@);
    lemma_keys_differ(sid, "threshold"@);
    lemma_keys_differ("compare"@, sid);
    lemma_keys_differ("compare"@, "threshold"@);
    let result = PinValue::Bool(compared(less, x, t));
    // Seeding.
    assert(nodes.take(0) =~= Seq::<BlueprintNode>::empty());
    assert(nodes.take(1).drop_last() =~= nodes.take(0) && nodes.take(1).last() == nodes[0]);
    assert(nodes.take(2).drop_last() =~= nodes.take(1) && nodes.take(2).last() == nodes[1]);
    assert(nodes.take(3).drop_last() =~= nodes.take(2) && nodes.take(3).last() == nodes[2]);
    assert(nodes.take(4).drop_last() =~= nodes.take(3) && nodes.take(4).last() == nodes[3]);
    assert(nodes.take(4) =~= nodes);
    let s1 = seeded(nodes.take(1), devices, changed_topic, reading);
    assert(seeded(nodes.take(0), devices, changed_topic, reading) == Map::<Seq<char>, PinValue>::empty());
    assert(s1 == Map::<Seq<char>, PinValue>::empty().insert(ks, reading));
    let s2 = seeded(nodes.take(2), devices, changed_topic, reading);
    assert(s2 == s1.insert(kt, PinValue::Number(t)));
    let s3 = seeded(nodes.take(3), devices, changed_topic, reading);
    assert(s3 == s2);
    let seeds = seeded(nodes, devices, changed_topic, reading);
    assert(seeded(nodes.take(4), devices, changed_topic, reading) == s3);
    assert(seeds == s2);
    // Evaluation.
    assert(edge_into(edges, "compare"@, "a"@) == Some(edges[0]));
    assert(edges.drop_first()[0] == edges[1]);
    assert(edge_into(edges.drop_first(), "compare"@, "b"@) == Some(edges[1]));
    assert("a"@[0] == 'a' && "b"@[0] == 'b');
    assert("a"@ != "b"@);
    assert(edge_into(edges, "compare"@, "b"@) == Some(edges[1]));
    assert forall|v: Map<Seq<char>, PinValue>|
        v.contains_key(ks) && v[ks] == reading && v.contains_key(kt) && v[kt] == PinValue::Number(t)
        implies #[trigger] pass(nodes, edges, v) == v.insert(kc, result) by {
        assert(input_number(edges, v, "compare"@, "a"@) == Some(x));
        assert(input_number(edges, v, "compare"@, "b"@) == Some(t));
        assert(pass(nodes.take(0), edges, v) == v);
        assert(pass(nodes.take(1), edges, v) == v);
        assert(pass(nodes.take(2), edges, v) == v);
        assert(pass(nodes.take(3), edges, v) == v.insert(kc, result));
        assert(pass(nodes.take(4), edges, v) == v.insert(kc, result));
    }
    let settled = seeds.insert(kc, result);
    assert(pass(nodes, edges, seeds) == settled);
    assert(settled.insert(kc, result) =~= settled);
    assert(pass(nodes, edges, settled) == settled);
    assert(rounds(nodes, edges, seeds, 0) == seeds);
    assert(rounds(nodes, edges, seeds, 1) == settled);
    assert(rounds(nodes, edges, seeds, 2) == settled);
    assert(rounds(nodes, edges, seeds, 3) == settled);
    assert(rounds(nodes, edges, seeds, 4) == settled);
    assert(settled_values(script, devices, changed_topic, reading) == settled);
    // Commands.
    let e2 = edges.drop_first().drop_first();
    assert(e2[0] == edges[2]);
    assert(edge_into(e2, aid, "enabled"@) == Some(edges[2]));
    assert(edge_into(edges.drop_first(), aid, "enabled"@) == Some(edges[2]));
    assert(edge_into(edges, aid, "enabled"@) == Some(edges[2]));
    assert(input_bool(edges, settled, aid, "enabled"@) == Some(compared(less, x, t)));
    let bid = script.id@;
    let bname = script.name@;
    assert(commands_of(nodes.take(0), edges, settled, devices, bid, bname) =~= Seq::<CommandView>::empty());
    assert(commands_of(nodes.take(1), edges, settled, devices, bid, bname) =~= Seq::<CommandView>::empty());
    assert(commands_of(nodes.take(2), edges, settled, devices, bid, bname) =~= Seq::<CommandView>::empty());
    assert(commands_of(nodes.take(3), edges, settled, devices, bid, bname) =~= Seq::<CommandView>::empty());
    assert(commands_of(nodes.take(4), edges, settled, devices, bid, bname) =~= seq![
        CommandView {
            topic: actuator.mqtt_topic@,
            room_id: actuator.room_id@,
            blueprint_id: bid,
            blueprint_name: bname,
            enabled: compared(less, x, t),
            reason: "blueprint_graph_evaluation"@,
        },
    ]);
}


/// The built-in heating script heats a cold room: when the room's temperature sensor reports the number
/// `x` (by its ordinal), it commands the room's heating (if that device is
/// registered and enabled) to be on exactly when `x` is below the
/// threshold 21.5 (ordinals order numbers as `f64` does).
pub proof fn heating_runs_below_threshold(
    script: Blueprint,
    room_id: Seq<char>,
    devices: Seq<Device>,
    changed_topic: Seq<char>,
    x: u64,
    sensor: Device,
    actuator: Device,
)
    requires
        script@ == heating_script(room_id),
        device_with_id(devices, default_device_id(room_id, DeviceKind::Sensor, "temperature"@))
            == Some(sensor),
        sensor.mqtt_topic@ == changed_topic,
        device_with_id(devices, default_device_id(room_id, DeviceKind::Actuator, "heating"@))
            == Some(actuator),
        actuator.enabled,
    ensures
        blueprint_commands(script, devices, changed_topic, PinValue::Number(x)) == seq![
            script_command(actuator, heating_script(room_id), x < ordinal_of_bits(HEATING_THRESHOLD_BITS)),
        ],
{
    reveal_strlit("temperature");
    reveal_strlit("heating");
    reveal_strlit("threshold");
    reveal_strlit("compare");
    let nodes = script.nodes@;
    let edges = script.edges@;
    let view = heating_script(room_id);
    assert(script@.nodes == view.nodes && script@.edges == view.edges);
    assert(script@.nodes.len() == nodes.len() && script@.edges.len() == edges.len());
    assert(nodes.len() == 4 && edges.len() == 3);
    assert(nodes[0]@ == view.nodes[0]);
    assert(nodes[1]@ == view.nodes[1]);
    assert(nodes[2]@ == view.nodes[2]);
    assert(nodes[3]@ == view.nodes[3]);
    assert(edges[0]@ == view.edges[0]);
    assert(edges[1]@ == view.edges[1]);
    assert(edges[2]@ == view.edges[2]);
    assert(nodes[0].device_id is Some && nodes[3].device_id is Some);
    assert("heating"@[0] != "compare"@[0]);
    assert("temperature"@.len() != "threshold"@.len());
    lemma_threshold_script(
        script,
        devices,
        changed_topic,
        x,
        ordinal_of_bits(HEATING_THRESHOLD_BITS),
        true,
        "temperature"@,
        "heating"@,
        sensor,
        actuator,
    );
}

/// The built-in ventilation script airs a stuffy room: when the room's co2 sensor reports the number
/// `x` (by its ordinal), it commands the room's ventilation (if that device is
/// registered and enabled) to be on exactly when `x` is above the
/// threshold 1000 ppm (ordinals order numbers as `f64` does).
pub proof fn ventilation_runs_above_threshold(
    script: Blueprint,
    room_id: Seq<char>,
    devices: Seq<Device>,
    changed_topic: Seq<char>,
    x: u64,
    sensor: Device,
    actuator: Device,
)
    requires
        script@ == ventilation_script(room_id),
        device_with_id(devices, default_device_id(room_id, DeviceKind::Sensor, "co2"@))
            == Some(sensor),
        sensor.mqtt_topic@ == changed_topic,
        device_with_id(devices, default_device_id(room_id, DeviceKind::Actuator, "ventilation"@))
            == Some(actuator),
        actuator.enabled,
    ensures
        blueprint_commands(script, devices, changed_topic, PinValue::Number(x)) == seq![
            script_command(actuator, ventilation_script(room_id), x > ordinal_of_bits(CO2_THRESHOLD_BITS)),
        ],
{
    reveal_strlit("co2");
    reveal_strlit("ventilation");
    reveal_strlit("threshold");
    reveal_strlit("compare");
    let nodes = script.nodes@;
    let edges = script.edges@;
    let view = ventilation_script(room_id);
    assert(script@.nodes == view.nodes && script@.edges == view.edges);
    assert(script@.nodes.len() == nodes.len() && script@.edges.len() == edges.len());
    assert(nodes.len() == 4 && edges.len() == 3);
    assert(nodes[0]@ == view.nodes[0]);
    assert(nodes[1]@ == view.nodes[1]);
    assert(nodes[2]@ == view.nodes[2]);
    assert(nodes[3]@ == view.nodes[3]);
    assert(edges[0]@ == view.edges[0]);
    assert(edges[1]@ == view.edges[1]);
    assert(edges[2]@ == view.edges[2]);
    assert(nodes[0].device_id is Some && nodes[3].device_id is Some);
    assert("ventilation"@[0] != "compare"@[0]);
    assert("co2"@.len() != "threshold"@.len());
    lemma_threshold_script(
        script,
        devices,
        changed_topic,
        x,
        ordinal_of_bits(CO2_THRESHOLD_BITS),
        false,
        "co2"@,
        "ventilation"@,
        sensor,
        actuator,
    );
}

} // verus!
