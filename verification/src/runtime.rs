//! Blueprint evaluation: which actuator commands the enabled scripts send
//! when a sensor reading arrives.
//!
//! Values live in a table keyed by `{node}:{pin}`. Sensor and constant
//! nodes seed it; then every node is evaluated once per round, for as many
//! rounds as the script has nodes, so chains of comparisons and boolean
//! gates settle; finally each actuator node with a boolean on its `enabled`
//! pin commands its device.

use vstd::prelude::*;
use vstd::string::*;
use crate::blueprints::{Blueprint, BlueprintEdge, BlueprintNode, BlueprintStore, Device, PinValue};
use crate::text::str_eq;

verus! {

/// The table key of pin `handle` of node `id`: `{id}:{handle}`.
pub open spec fn value_key(id: Seq<char>, handle: Seq<char>) -> Seq<char> {
    id + ":"@ + handle
}

/// What a map holds under `k`, if anything.
pub open spec fn lookup(m: Map<Seq<char>, PinValue>, k: Seq<char>) -> Option<PinValue> {
    if m.contains_key(k) {
        Some(m[k])
    } else {
        None
    }
}

/// The ordinal of a finite `f64` given by its bits: numbers compare as
/// their ordinals do, and both zeros have the same ordinal.
pub open spec fn ordinal_of_bits(bits: u64) -> u64 {
    if bits == 0x8000_0000_0000_0000u64 {
        0x8000_0000_0000_0000u64
    } else if bits > 0x8000_0000_0000_0000u64 {
        (0xffff_ffff_ffff_ffffu64 - bits) as u64
    } else {
        (bits + 0x8000_0000_0000_0000u64) as u64
    }
}

/// The ordinal of a JSON number, from the bits of its `f64` value.
pub fn number_ordinal(bits: u64) -> (r: u64)
    ensures
        r == ordinal_of_bits(bits),
{
    if bits == 0x8000_0000_0000_0000u64 {
        0x8000_0000_0000_0000u64
    } else if bits > 0x8000_0000_0000_0000u64 {
        0xffff_ffff_ffff_ffffu64 - bits
    } else {
        bits + 0x8000_0000_0000_0000u64
    }
}

/// Whether the `f64` with bits `bits` is a NaN: all exponent bits set and
/// a nonzero fraction.
pub open spec fn is_nan_bits(bits: u64) -> bool {
    (bits & 0x7ff0_0000_0000_0000u64) == 0x7ff0_0000_0000_0000u64 && (bits
        & 0x000f_ffff_ffff_ffffu64) != 0
}

/// Whether the `f64` with bits `bits` is greater than the finite `f64` with
/// bits `limit_bits`, as `>` on `f64` answers: never for a NaN, otherwise
/// as their ordinals compare.
pub open spec fn exceeds(bits: u64, limit_bits: u64) -> bool {
    !is_nan_bits(bits) && ordinal_of_bits(bits) > ordinal_of_bits(limit_bits)
}

/// Whether the `f64` with bits `bits` is greater than the finite `f64` with
/// bits `limit_bits`.
pub fn number_exceeds(bits: u64, limit_bits: u64) -> (r: bool)
    ensures
        r == exceeds(bits, limit_bits),
{
    let nan = (bits & 0x7ff0_0000_0000_0000u64) == 0x7ff0_0000_0000_0000u64 && (bits
        & 0x000f_ffff_ffff_ffffu64) != 0;
    !nan && number_ordinal(bits) > number_ordinal(limit_bits)
}

/// The first device with id `id`.
pub open spec fn device_with_id(devices: Seq<Device>, id: Seq<char>) -> Option<Device>
    decreases devices.len(),
{
    if devices.len() == 0 {
        None
    } else if devices[0].id@ == id {
        Some(devices[0])
    } else {
        device_with_id(devices.drop_first(), id)
    }
}

/// The first edge into pin `handle` of node `node_id`.
pub open spec fn edge_into(edges: Seq<BlueprintEdge>, node_id: Seq<char>, handle: Seq<char>) -> Option<BlueprintEdge>
    decreases edges.len(),
{
    if edges.len() == 0 {
        None
    } else if edges[0].target@ == node_id && edges[0].target_handle@ == handle {
        Some(edges[0])
    } else {
        edge_into(edges.drop_first(), node_id, handle)
    }
}

/// The value that reaches pin `handle` of node `node_id`: the value of the
/// source pin of the first edge into it.
pub open spec fn input_value(
    edges: Seq<BlueprintEdge>,
    values: Map<Seq<char>, PinValue>,
    node_id: Seq<char>,
    handle: Seq<char>,
) -> Option<PinValue> {
    match edge_into(edges, node_id, handle) {
        Some(e) => lookup(values, value_key(e.source@, e.source_handle@)),
        None => None,
    }
}

/// The number on an input pin, if a number is there.
pub open spec fn input_number(
    edges: Seq<BlueprintEdge>,
    values: Map<Seq<char>, PinValue>,
    node_id: Seq<char>,
    handle: Seq<char>,
) -> Option<u64> {
    match input_value(edges, values, node_id, handle) {
        Some(PinValue::Number(n)) => Some(n),
        _ => None,
    }
}

/// The boolean on an input pin, if a boolean is there.
pub open spec fn input_bool(
    edges: Seq<BlueprintEdge>,
    values: Map<Seq<char>, PinValue>,
    node_id: Seq<char>,
    handle: Seq<char>,
) -> Option<bool> {
    match input_value(edges, values, node_id, handle) {
        Some(PinValue::Bool(b)) => Some(b),
        _ => None,
    }
}

/// The table after one evaluation of `node`: a comparison or boolean gate
/// whose two inputs `a` and `b` are present writes its `result` pin.
pub open spec fn evaluated(
    node: BlueprintNode,
    edges: Seq<BlueprintEdge>,
    values: Map<Seq<char>, PinValue>,
) -> Map<Seq<char>, PinValue> {
    let t = node.node_type@;
    let id = node.id@;
    let key = value_key(id, "result"@);
    if t == "compare_greater"@ {
        match (input_number(edges, values, id, "a"@), input_number(edges, values, id, "b"@)) {
            (Some(l), Some(r)) => values.insert(key, PinValue::Bool(l > r)),
            _ => values,
        }
    } else if t == "compare_less"@ {
        match (input_number(edges, values, id, "a"@), input_number(edges, values, id, "b"@)) {
            (Some(l), Some(r)) => values.insert(key, PinValue::Bool(l < r)),
            _ => values,
        }
    } else if t == "boolean_and"@ {
        match (input_bool(edges, values, id, "a"@), input_bool(edges, values, id, "b"@)) {
            (Some(a), Some(b)) => values.insert(key, PinValue::Bool(a && b)),
            _ => values,
        }
    } else if t == "boolean_or"@ {
        match (input_bool(edges, values, id, "a"@), input_bool(edges, values, id, "b"@)) {
            (Some(a), Some(b)) => values.insert(key, PinValue::Bool(a || b)),
            _ => values,
        }
    } else {
        values
    }
}

/// Each gate computes its operation: when both input pins of a node hold
/// values of the right kind, its `result` pin holds `a > b` for
/// `compare_greater`, `a < b` for `compare_less`, `a && b` for
/// `boolean_and` and `a || b` for `boolean_or` (numbers compared as their
/// ordinals, that is as numbers). No other pin changes.
pub proof fn gates_compute_their_operation(
    node: BlueprintNode,
    edges: Seq<BlueprintEdge>,
    values: Map<Seq<char>, PinValue>,
    a: bool,
    b: bool,
    l: u64,
    r: u64,
)
    ensures
        node.node_type@ == "boolean_or"@ && input_bool(edges, values, node.id@, "a"@) == Some(a)
            && input_bool(edges, values, node.id@, "b"@) == Some(b) ==> lookup(
            evaluated(node, edges, values),
            value_key(node.id@, "result"@),
        ) == Some(PinValue::Bool(a || b)),
        node.node_type@ == "boolean_and"@ && input_bool(edges, values, node.id@, "a"@) == Some(a)
            && input_bool(edges, values, node.id@, "b"@) == Some(b) ==> lookup(
            evaluated(node, edges, values),
            value_key(node.id@, "result"@),
        ) == Some(PinValue::Bool(a && b)),
        node.node_type@ == "compare_greater"@ && input_number(edges, values, node.id@, "a"@)
            == Some(l) && input_number(edges, values, node.id@, "b"@) == Some(r) ==> lookup(
            evaluated(node, edges, values),
            value_key(node.id@, "result"@),
        ) == Some(PinValue::Bool(l > r)),
        node.node_type@ == "compare_less"@ && input_number(edges, values, node.id@, "a"@)
            == Some(l) && input_number(edges, values, node.id@, "b"@) == Some(r) ==> lookup(
            evaluated(node, edges, values),
            value_key(node.id@, "result"@),
        ) == Some(PinValue::Bool(l < r)),
        forall|k: Seq<char>|
            k != value_key(node.id@, "result"@) ==> #[trigger] lookup(
                evaluated(node, edges, values),
                k,
            ) == lookup(values, k),
{
    reveal_strlit("boolean_or");
    reveal_strlit("boolean_and");
    reveal_strlit("compare_greater");
    reveal_strlit("compare_less");
    let t = node.node_type@;
    let key = value_key(node.id@, "result"@);
    assert("boolean_or"@.len() == 10 && "boolean_and"@.len() == 11);
    assert("compare_less"@.len() == 12 && "compare_greater"@.len() == 15);
    assert(t == "boolean_or"@ ==> t != "compare_greater"@ && t != "compare_less"@ && t
        != "boolean_and"@);
    assert(t == "boolean_and"@ ==> t != "compare_greater"@ && t != "compare_less"@);
    assert(t == "compare_less"@ ==> t != "compare_greater"@);
    if t == "boolean_or"@ && input_bool(edges, values, node.id@, "a"@) == Some(a) && input_bool(
        edges,
        values,
        node.id@,
        "b"@,
    ) == Some(b) {
        assert(evaluated(node, edges, values) == values.insert(key, PinValue::Bool(a || b)));
    }
    if t == "boolean_and"@ && input_bool(edges, values, node.id@, "a"@) == Some(a) && input_bool(
        edges,
        values,
        node.id@,
        "b"@,
    ) == Some(b) {
        assert(evaluated(node, edges, values) == values.insert(key, PinValue::Bool(a && b)));
    }
}

/// The table after evaluating `nodes` once, in order.
pub open spec fn pass(
    nodes: Seq<BlueprintNode>,
    edges: Seq<BlueprintEdge>,
    values: Map<Seq<char>, PinValue>,
) -> Map<Seq<char>, PinValue>
    decreases nodes.len(),
{
    if nodes.len() == 0 {
        values
    } else {
        evaluated(nodes.last(), edges, pass(nodes.drop_last(), edges, values))
    }
}

/// The table after `k` passes.
pub open spec fn rounds(
    nodes: Seq<BlueprintNode>,
    edges: Seq<BlueprintEdge>,
    values: Map<Seq<char>, PinValue>,
    k: nat,
) -> Map<Seq<char>, PinValue>
    decreases k,
{
    if k == 0 {
        values
    } else {
        pass(nodes, edges, rounds(nodes, edges, values, (k - 1) as nat))
    }
}

/// The table after `node` seeds it: a sensor node whose device publishes on
/// the changed topic takes the reading; a constant node takes its value.
pub open spec fn seeded_by(
    node: BlueprintNode,
    devices: Seq<Device>,
    changed_topic: Seq<char>,
    reading: PinValue,
    values: Map<Seq<char>, PinValue>,
) -> Map<Seq<char>, PinValue> {
    let t = node.node_type@;
    let key = value_key(node.id@, "value"@);
    if t == "sensor"@ {
        match node.device_id {
            Some(d) => match device_with_id(devices, d@) {
                Some(dev) => if dev.mqtt_topic@ == changed_topic {
                    values.insert(key, reading)
                } else {
                    values
                },
                None => values,
            },
            None => values,
        }
    } else if t == "constant_number"@ || t == "constant_boolean"@ {
        values.insert(key, node.value)
    } else {
        values
    }
}

/// The table seeded by `nodes`, in order, starting empty.
pub open spec fn seeded(
    nodes: Seq<BlueprintNode>,
    devices: Seq<Device>,
    changed_topic: Seq<char>,
    reading: PinValue,
) -> Map<Seq<char>, PinValue>
    decreases nodes.len(),
{
    if nodes.len() == 0 {
        Map::empty()
    } else {
        seeded_by(
            nodes.last(),
            devices,
            changed_topic,
            reading,
            seeded(nodes.drop_last(), devices, changed_topic, reading),
        )
    }
}

/// A command that a blueprint sends to an actuator device.
pub struct CommandView {
    /// The device's topic.
    pub topic: Seq<char>,
    /// The device's room.
    pub room_id: Seq<char>,
    pub blueprint_id: Seq<char>,
    pub blueprint_name: Seq<char>,
    pub enabled: bool,
    /// Why the command is sent: always `blueprint_graph_evaluation`.
    pub reason: Seq<char>,
}

/// An actuator command to publish, computed by a blueprint.
#[derive(Debug)]
pub struct BlueprintCommand {
    /// The topic of the actuator device.
    pub topic: String,
    /// The room of the actuator device.
    pub room_id: String,
    pub blueprint_id: String,
    pub blueprint_name: String,
    pub enabled: bool,
    /// Why the command is sent: always `blueprint_graph_evaluation`.
    pub reason: String,
}

impl View for BlueprintCommand {
    type V = CommandView;

    open spec fn view(&self) -> CommandView {
        CommandView {
            topic: self.topic@,
            room_id: self.room_id@,
            blueprint_id: self.blueprint_id@,
            blueprint_name: self.blueprint_name@,
            enabled: self.enabled,
            reason: self.reason@,
        }
    }
}

/// The command of one node: an actuator node with a boolean on `enabled`
/// whose device exists and is enabled.
pub open spec fn command_of(
    node: BlueprintNode,
    edges: Seq<BlueprintEdge>,
    values: Map<Seq<char>, PinValue>,
    devices: Seq<Device>,
    blueprint_id: Seq<char>,
    blueprint_name: Seq<char>,
) -> Option<CommandView> {
    if node.node_type@ != "actuator"@ {
        None
    } else {
        match input_bool(edges, values, node.id@, "enabled"@) {
            None => None,
            Some(enabled) => match node.device_id {
                None => None,
                Some(d) => match device_with_id(devices, d@) {
                    None => None,
                    Some(dev) => if !dev.enabled {
                        None
                    } else {
                        Some(
                            CommandView {
                                topic: dev.mqtt_topic@,
                                room_id: dev.room_id@,
                                blueprint_id,
                                blueprint_name,
                                enabled,
                                reason: "blueprint_graph_evaluation"@,
                            },
                        )
                    },
                },
            },
        }
    }
}

/// The commands of `nodes`, in order.
pub open spec fn commands_of(
    nodes: Seq<BlueprintNode>,
    edges: Seq<BlueprintEdge>,
    values: Map<Seq<char>, PinValue>,
    devices: Seq<Device>,
    blueprint_id: Seq<char>,
    blueprint_name: Seq<char>,
) -> Seq<CommandView>
    decreases nodes.len(),
{
    if nodes.len() == 0 {
        Seq::empty()
    } else {
        let prev = commands_of(nodes.drop_last(), edges, values, devices, blueprint_id, blueprint_name);
        match command_of(nodes.last(), edges, values, devices, blueprint_id, blueprint_name) {
            Some(c) => prev.push(c),
            None => prev,
        }
    }
}

/// The table of a blueprint once a reading arrived on `changed_topic`:
/// seeded, then evaluated for as many rounds as it has nodes.
pub open spec fn settled_values(
    blueprint: Blueprint,
    devices: Seq<Device>,
    changed_topic: Seq<char>,
    reading: PinValue,
) -> Map<Seq<char>, PinValue> {
    rounds(
        blueprint.nodes@,
        blueprint.edges@,
        seeded(blueprint.nodes@, devices, changed_topic, reading),
        blueprint.nodes@.len(),
    )
}

/// The commands a blueprint sends once a reading arrived on `changed_topic`.
pub open spec fn blueprint_commands(
    blueprint: Blueprint,
    devices: Seq<Device>,
    changed_topic: Seq<char>,
    reading: PinValue,
) -> Seq<CommandView> {
    commands_of(
        blueprint.nodes@,
        blueprint.edges@,
        settled_values(blueprint, devices, changed_topic, reading),
        devices,
        blueprint.id@,
        blueprint.name@,
    )
}

/// The commands of the enabled blueprints among `blueprints`, in order.
pub open spec fn all_commands(
    blueprints: Seq<Blueprint>,
    devices: Seq<Device>,
    changed_topic: Seq<char>,
    reading: PinValue,
) -> Seq<CommandView>
    decreases blueprints.len(),
{
    if blueprints.len() == 0 {
        Seq::empty()
    } else {
        let prev = all_commands(blueprints.drop_last(), devices, changed_topic, reading);
        if blueprints.last().enabled {
            prev + blueprint_commands(blueprints.last(), devices, changed_topic, reading)
        } else {
            prev
        }
    }
}

/// The first entry named `name` in the fields of a message value.
pub open spec fn field_value(fields: Seq<(String, PinValue)>, name: Seq<char>) -> Option<PinValue>
    decreases fields.len(),
{
    if fields.len() == 0 {
        None
    } else if fields[0].0@ == name {
        Some(fields[0].1)
    } else {
        field_value(fields.drop_first(), name)
    }
}

/// The reading of a sensor message: the first of `temperature_c`,
/// `humidity_percent`, `co2_ppm` and `occupied` that its value has, else
/// null.
pub open spec fn sensor_reading(fields: Seq<(String, PinValue)>) -> PinValue {
    if field_value(fields, "temperature_c"@) is Some {
        field_value(fields, "temperature_c"@).unwrap()
    } else if field_value(fields, "humidity_percent"@) is Some {
        field_value(fields, "humidity_percent"@).unwrap()
    } else if field_value(fields, "co2_ppm"@) is Some {
        field_value(fields, "co2_ppm"@).unwrap()
    } else if field_value(fields, "occupied"@) is Some {
        field_value(fields, "occupied"@).unwrap()
    } else {
        PinValue::Other
    }
}

/// The values computed so far; the newest entry for a key wins.
struct ValueTable {
    entries: Vec<(String, PinValue)>,
}

spec fn table_view(entries: Seq<(String, PinValue)>) -> Map<Seq<char>, PinValue>
    decreases entries.len(),
{
    if entries.len() == 0 {
        Map::empty()
    } else {
        table_view(entries.drop_last()).insert(entries.last().0@, entries.last().1)
    }
}

impl View for ValueTable {
    type V = Map<Seq<char>, PinValue>;

    closed spec fn view(&self) -> Map<Seq<char>, PinValue> {
        table_view(self.entries@)
    }
}

impl ValueTable {
    fn new() -> (t: Self)
        ensures
            t@ == Map::<Seq<char>, PinValue>::empty(),
    {
        ValueTable { entries: Vec::new() }
    }

    fn insert(&mut self, key: String, value: PinValue)
        ensures
            final(self)@ == old(self)@.insert(key@, value),
    {
        let ghost before = self.entries@;
        self.entries.push((key, value));
        assert(self.entries@.drop_last() =~= before);
    }

    fn get(&self, key: &String) -> (r: Option<PinValue>)
        ensures
            r == lookup(self@, key@),
    {
        let mut j: usize = self.entries.len();
        assert(self.entries@.take(j as int) =~= self.entries@);
        while j > 0
            invariant
                j <= self.entries@.len(),
                lookup(self@, key@) == lookup(table_view(self.entries@.take(j as int)), key@),
            decreases j,
        {
            let ghost pre = self.entries@.take(j as int);
            assert(pre.drop_last() =~= self.entries@.take(j - 1));
            if self.entries[j - 1].0 == *key {
                return Some(self.entries[j - 1].1);
            }
            j = j - 1;
        }
        None
    }
}

/// `{id}:{handle}`
fn make_key(id: &str, handle: &str) -> (k: String)
    ensures
        k@ == value_key(id@, handle@),
{
    let mut k = String::from_str(id);
    k.append(":");
    k.append(handle);
    k
}

/// The index of the first device with id `id`.
fn find_device(devices: &Vec<Device>, id: &String) -> (r: Option<usize>)
    ensures
        match r {
            Some(i) => i < devices@.len() && device_with_id(devices@, id@) == Some(devices@[i as int]),
            None => device_with_id(devices@, id@) is None,
        },
{
    let mut i: usize = 0;
    assert(devices@.skip(0) =~= devices@);
    while i < devices.len()
        invariant
            i <= devices@.len(),
            device_with_id(devices@, id@) == device_with_id(devices@.skip(i as int), id@),
        decreases devices@.len() - i,
    {
        assert(devices@.skip(i as int).drop_first() =~= devices@.skip(i + 1));
        if devices[i].id == *id {
            return Some(i);
        }
        i = i + 1;
    }
    None
}

/// The index of the first edge into pin `handle` of node `node_id`.
fn find_edge_into(edges: &Vec<BlueprintEdge>, node_id: &String, handle: &str) -> (r: Option<usize>)
    ensures
        match r {
            Some(i) => i < edges@.len() && edge_into(edges@, node_id@, handle@) == Some(
                edges@[i as int],
            ),
            None => edge_into(edges@, node_id@, handle@) is None,
        },
{
    let mut i: usize = 0;
    assert(edges@.skip(0) =~= edges@);
    while i < edges.len()
        invariant
            i <= edges@.len(),
            edge_into(edges@, node_id@, handle@) == edge_into(edges@.skip(i as int), node_id@, handle@),
        decreases edges@.len() - i,
    {
        assert(edges@.skip(i as int).drop_first() =~= edges@.skip(i + 1));
        if edges[i].target == *node_id && str_eq(edges[i].target_handle.as_str(), handle) {
            return Some(i);
        }
        i = i + 1;
    }
    None
}

/// The value that reaches pin `handle` of `node`.
fn get_input_value(
    node: &BlueprintNode,
    edges: &Vec<BlueprintEdge>,
    values: &ValueTable,
    handle: &str,
) -> (r: Option<PinValue>)
    ensures
        r == input_value(edges@, values@, node.id@, handle@),
{
    match find_edge_into(edges, &node.id, handle) {
        Some(i) => {
            let edge = &edges[i];
            let key = make_key(edge.source.as_str(), edge.source_handle.as_str());
            values.get(&key)
        },
        None => None,
    }
}

/// The number on pin `handle` of `node`, if a number is there.
fn get_input_number(
    node: &BlueprintNode,
    edges: &Vec<BlueprintEdge>,
    values: &ValueTable,
    handle: &str,
) -> (r: Option<u64>)
    ensures
        r == input_number(edges@, values@, node.id@, handle@),
{
    match get_input_value(node, edges, values, handle) {
        Some(PinValue::Number(n)) => Some(n),
        _ => None,
    }
}

/// The boolean on pin `handle` of `node`, if a boolean is there.
fn get_input_boolean(
    node: &BlueprintNode,
    edges: &Vec<BlueprintEdge>,
    values: &ValueTable,
    handle: &str,
) -> (r: Option<bool>)
    ensures
        r == input_bool(edges@, values@, node.id@, handle@),
{
    match get_input_value(node, edges, values, handle) {
        Some(PinValue::Bool(b)) => Some(b),
        _ => None,
    }
}

/// Evaluates one node against the table.
fn evaluate_node(node: &BlueprintNode, edges: &Vec<BlueprintEdge>, values: &mut ValueTable)
    ensures
        final(values)@ == evaluated(*node, edges@, old(values)@),
{
    let t = node.node_type.as_str();
    if str_eq(t, "compare_greater") {
        let left = get_input_number(node, edges, values, "a");
        let right = get_input_number(node, edges, values, "b");
        if let (Some(l), Some(r)) = (left, right) {
            values.insert(make_key(node.id.as_str(), "result"), PinValue::Bool(l > r));
        }
    } else if str_eq(t, "compare_less") {
        let left = get_input_number(node, edges, values, "a");
        let right = get_input_number(node, edges, values, "b");
        if let (Some(l), Some(r)) = (left, right) {
            values.insert(make_key(node.id.as_str(), "result"), PinValue::Bool(l < r));
        }
    } else if str_eq(t, "boolean_and") {
        let a = get_input_boolean(node, edges, values, "a");
        let b = get_input_boolean(node, edges, values, "b");
        if let (Some(a), Some(b)) = (a, b) {
            values.insert(make_key(node.id.as_str(), "result"), PinValue::Bool(a && b));
        }
    } else if str_eq(t, "boolean_or") {
        let a = get_input_boolean(node, edges, values, "a");
        let b = get_input_boolean(node, edges, values, "b");
        if let (Some(a), Some(b)) = (a, b) {
            values.insert(make_key(node.id.as_str(), "result"), PinValue::Bool(a || b));
        }
    }
}

/// The reading carried by a sensor message, given the entries of its JSON
/// value (none when the value is not an object).
pub fn extract_sensor_value(fields: &Vec<(String, PinValue)>) -> (r: PinValue)
    ensures
        r == sensor_reading(fields@),
{
    let t = find_field(fields, "temperature_c");
    if let Some(v) = t {
        return v;
    }
    let h = find_field(fields, "humidity_percent");
    if let Some(v) = h {
        return v;
    }
    let c = find_field(fields, "co2_ppm");
    if let Some(v) = c {
        return v;
    }
    let o = find_field(fields, "occupied");
    if let Some(v) = o {
        return v;
    }
    PinValue::Other
}

/// The first entry named `name`.
fn find_field(fields: &Vec<(String, PinValue)>, name: &str) -> (r: Option<PinValue>)
    ensures
        r == field_value(fields@, name@),
{
    let mut i: usize = 0;
    assert(fields@.skip(0) =~= fields@);
    while i < fields.len()
        invariant
            i <= fields@.len(),
            field_value(fields@, name@) == field_value(fields@.skip(i as int), name@),
        decreases fields@.len() - i,
    {
        assert(fields@.skip(i as int).drop_first() =~= fields@.skip(i + 1));
        if str_eq(fields[i].0.as_str(), name) {
            return Some(fields[i].1);
        }
        i = i + 1;
    }
    None
}

/// Whether a command goes to an enabled device of `devices`, in that
/// device's room.
pub open spec fn targets_enabled_device(c: CommandView, devices: Seq<Device>) -> bool {
    exists|j: int|
        0 <= j < devices.len() && devices[j].enabled && devices[j].mqtt_topic@ == c.topic
            && devices[j].room_id@ == c.room_id
}

proof fn lemma_device_with_id_member(devices: Seq<Device>, id: Seq<char>)
    ensures
        device_with_id(devices, id) matches Some(d) ==> exists|j: int|
            0 <= j < devices.len() && devices[j] == d,
    decreases devices.len(),
{
    if devices.len() > 0 && devices[0].id@ != id {
        lemma_device_with_id_member(devices.drop_first(), id);
        if let Some(d) = device_with_id(devices, id) {
            let j = choose|j: int| 0 <= j < devices.drop_first().len() && devices.drop_first()[j] == d;
            assert(devices[j + 1] == d);
        }
    }
}

proof fn lemma_commands_of_targets(
    nodes: Seq<BlueprintNode>,
    edges: Seq<BlueprintEdge>,
    values: Map<Seq<char>, PinValue>,
    devices: Seq<Device>,
    blueprint_id: Seq<char>,
    blueprint_name: Seq<char>,
)
    ensures
        forall|i: int|
            0 <= i < commands_of(nodes, edges, values, devices, blueprint_id, blueprint_name).len()
                ==> {
                let c = #[trigger] commands_of(
                    nodes,
                    edges,
                    values,
                    devices,
                    blueprint_id,
                    blueprint_name,
                )[i];
                &&& targets_enabled_device(c, devices)
                &&& c.blueprint_id == blueprint_id
            },
    decreases nodes.len(),
{
    if nodes.len() > 0 {
        lemma_commands_of_targets(nodes.drop_last(), edges, values, devices, blueprint_id, blueprint_name);
        let node = nodes.last();
        let prev = commands_of(nodes.drop_last(), edges, values, devices, blueprint_id, blueprint_name);
        let cur = commands_of(nodes, edges, values, devices, blueprint_id, blueprint_name);
        let one = command_of(node, edges, values, devices, blueprint_id, blueprint_name);
        if let Some(d) = node.device_id {
            lemma_device_with_id_member(devices, d@);
        }
        assert forall|i: int| 0 <= i < cur.len() implies {
            let c = #[trigger] cur[i];
            &&& targets_enabled_device(c, devices)
            &&& c.blueprint_id == blueprint_id
        } by {
            if i < prev.len() {
                assert(cur[i] == prev[i]);
            } else {
                let c = one.unwrap();
                assert(cur[i] == c);
                let d = node.device_id.unwrap();
                let dev = device_with_id(devices, d@).unwrap();
                let j = choose|j: int| 0 <= j < devices.len() && devices[j] == dev;
                assert(devices[j].enabled && devices[j].mqtt_topic@ == c.topic && devices[j].room_id@
                    == c.room_id);
            }
        }
    }
}

/// Blueprints command only enabled devices that are registered in the
/// store, each in its own room, and only on behalf of enabled blueprints.
#[verifier::spinoff_prover]
#[verifier::rlimit(40)]
pub proof fn commands_reach_enabled_devices(
    blueprints: Seq<Blueprint>,
    devices: Seq<Device>,
    changed_topic: Seq<char>,
    reading: PinValue,
)
    ensures
        forall|i: int|
            0 <= i < all_commands(blueprints, devices, changed_topic, reading).len() ==> {
                let c = #[trigger] all_commands(blueprints, devices, changed_topic, reading)[i];
                &&& targets_enabled_device(c, devices)
                &&& exists|k: int|
                    0 <= k < blueprints.len() && blueprints[k].enabled && blueprints[k].id@
                        == c.blueprint_id
            },
    decreases blueprints.len(),
{
    if blueprints.len() > 0 {
        let rest = blueprints.drop_last();
        commands_reach_enabled_devices(rest, devices, changed_topic, reading);
        let last = blueprints.last();
        let prev = all_commands(rest, devices, changed_topic, reading);
        let all = all_commands(blueprints, devices, changed_topic, reading);
        if last.enabled {
            let own = blueprint_commands(last, devices, changed_topic, reading);
            lemma_commands_of_targets(
                last.nodes@,
                last.edges@,
                settled_values(last, devices, changed_topic, reading),
                devices,
                last.id@,
                last.name@,
            );
            assert forall|i: int| 0 <= i < all.len() implies {
                let c = #[trigger] all[i];
                &&& targets_enabled_device(c, devices)
                &&& exists|k: int|
                    0 <= k < blueprints.len() && blueprints[k].enabled && blueprints[k].id@
                        == c.blueprint_id
            } by {
                if i < prev.len() {
                    assert(all[i] == prev[i]);
                    let k = choose|k: int|
                        0 <= k < rest.len() && rest[k].enabled && rest[k].id@ == prev[i].blueprint_id;
                    assert(blueprints[k] == rest[k]);
                } else {
                    assert(all[i] == own[i - prev.len()]);
                    assert(own[i - prev.len()].blueprint_id == last.id@);
                    assert(blueprints[blueprints.len() - 1] == last);
                }
            }
        } else {
            assert forall|i: int| 0 <= i < all.len() implies {
                let c = #[trigger] all[i];
                &&& targets_enabled_device(c, devices)
                &&& exists|k: int|
                    0 <= k < blueprints.len() && blueprints[k].enabled && blueprints[k].id@
                        == c.blueprint_id
            } by {
                assert(all[i] == prev[i]);
                let k = choose|k: int|
                    0 <= k < rest.len() && rest[k].enabled && rest[k].id@ == prev[i].blueprint_id;
                assert(blueprints[k] == rest[k]);
            }
        }
    }
}

/// Seeds the table from the sensor and constant nodes of a blueprint.
fn seed_values(
    blueprint: &Blueprint,
    devices: &Vec<Device>,
    changed_topic: &str,
    reading: PinValue,
) -> (values: ValueTable)
    ensures
        values@ == seeded(blueprint.nodes@, devices@, changed_topic@, reading),
{
    let nodes = &blueprint.nodes;
    let mut values = ValueTable::new();
    let mut i: usize = 0;
    while i < nodes.len()
        invariant
            i <= nodes@.len(),
            values@ == seeded(nodes@.take(i as int), devices@, changed_topic@, reading),
        decreases nodes@.len() - i,
    {
        let node = &nodes[i];
        proof {
            assert(nodes@.take(i + 1).drop_last() =~= nodes@.take(i as int));
            assert(nodes@.take(i + 1).last() == nodes@[i as int]);
        }
        let t = node.node_type.as_str();
        if str_eq(t, "sensor") {
            if let Some(device_id) = &node.device_id {
                if let Some(d) = find_device(devices, device_id) {
                    if str_eq(devices[d].mqtt_topic.as_str(), changed_topic) {
                        values.insert(make_key(node.id.as_str(), "value"), reading);
                    }
                }
            }
        } else if str_eq(t, "constant_number") || str_eq(t, "constant_boolean") {
            values.insert(make_key(node.id.as_str(), "value"), node.value);
        }
        i = i + 1;
    }
    assert(nodes@.take(nodes@.len() as int) =~= nodes@);
    values
}

/// Evaluates every node of a blueprint once per round, for as many rounds
/// as it has nodes.
fn settle(blueprint: &Blueprint, values: &mut ValueTable)
    ensures
        final(values)@ == rounds(
            blueprint.nodes@,
            blueprint.edges@,
            old(values)@,
            blueprint.nodes@.len(),
        ),
{
    let nodes = &blueprint.nodes;
    let edges = &blueprint.edges;
    let n: usize = nodes.len();
    let ghost start = values@;
    let mut round: usize = 0;
    while round < n
        invariant
            n == nodes@.len(),
            round <= n,
            values@ == rounds(nodes@, edges@, start, round as nat),
        decreases n - round,
    {
        let ghost before = values@;
        let mut i: usize = 0;
        while i < n
            invariant
                n == nodes@.len(),
                i <= n,
                values@ == pass(nodes@.take(i as int), edges@, before),
            decreases n - i,
        {
            proof {
                assert(nodes@.take(i + 1).drop_last() =~= nodes@.take(i as int));
                assert(nodes@.take(i + 1).last() == nodes@[i as int]);
            }
            evaluate_node(&nodes[i], edges, values);
            i = i + 1;
        }
        assert(nodes@.take(n as int) =~= nodes@);
        round = round + 1;
    }
}

/// Appends the commands of the actuator nodes of a blueprint.
fn collect_commands(
    blueprint: &Blueprint,
    devices: &Vec<Device>,
    values: &ValueTable,
    out: &mut Vec<BlueprintCommand>,
)
    ensures
        final(out)@.map_values(|c: BlueprintCommand| c@) == old(out)@.map_values(
            |c: BlueprintCommand| c@,
        ) + commands_of(
            blueprint.nodes@,
            blueprint.edges@,
            values@,
            devices@,
            blueprint.id@,
            blueprint.name@,
        ),
{
    let nodes = &blueprint.nodes;
    let edges = &blueprint.edges;
    let ghost start = out@.map_values(|c: BlueprintCommand| c@);
    let mut i: usize = 0;
    assert(start + Seq::<CommandView>::empty() =~= start);
    while i < nodes.len()
        invariant
            i <= nodes@.len(),
            out@.map_values(|c: BlueprintCommand| c@) == start + commands_of(
                nodes@.take(i as int),
                edges@,
                values@,
                devices@,
                blueprint.id@,
                blueprint.name@,
            ),
        decreases nodes@.len() - i,
    {
        let node = &nodes[i];
        let ghost prev = commands_of(
            nodes@.take(i as int),
            edges@,
            values@,
            devices@,
            blueprint.id@,
            blueprint.name@,
        );
        proof {
            assert(nodes@.take(i + 1).drop_last() =~= nodes@.take(i as int));
            assert(nodes@.take(i + 1).last() == nodes@[i as int]);
        }
        let mut command: Option<BlueprintCommand> = None;
        if str_eq(node.node_type.as_str(), "actuator") {
            if let Some(enabled) = get_input_boolean(node, edges, values, "enabled") {
                if let Some(device_id) = &node.device_id {
                    if let Some(d) = find_device(devices, device_id) {
                        let device = &devices[d];
                        if device.enabled {
                            command = Some(
                                BlueprintCommand {
                                    topic: device.mqtt_topic.clone(),
                                    room_id: device.room_id.clone(),
                                    blueprint_id: blueprint.id.clone(),
                                    blueprint_name: blueprint.name.clone(),
                                    enabled,
                                    reason: String::from_str("blueprint_graph_evaluation"),
                                },
                            );
                        }
                    }
                }
            }
        }
        let ghost expected = command_of(
            nodes@[i as int],
            edges@,
            values@,
            devices@,
            blueprint.id@,
            blueprint.name@,
        );
        assert(command matches Some(c) ==> expected == Some(c@));
        assert(command is None ==> expected is None);
        match command {
            Some(c) => {
                let ghost before = out@;
                out.push(c);
                proof {
                    assert(out@.map_values(|c: BlueprintCommand| c@) =~= before.map_values(
                        |c: BlueprintCommand| c@,
                    ).push(c@));
                    assert((start + prev).push(c@) =~= start + prev.push(c@));
                }
            },
            None => {},
        }
        i = i + 1;
    }
    assert(nodes@.take(nodes@.len() as int) =~= nodes@);
}

/// The commands one blueprint sends when a sensor message with value
/// entries `fields` arrived on `changed_topic`.
pub fn execute_blueprint(
    store: &BlueprintStore,
    blueprint: &Blueprint,
    changed_topic: &str,
    fields: &Vec<(String, PinValue)>,
) -> (r: Vec<BlueprintCommand>)
    ensures
        r@.map_values(|c: BlueprintCommand| c@) == blueprint_commands(
            *blueprint,
            store.devices@,
            changed_topic@,
            sensor_reading(fields@),
        ),
{
    let reading = extract_sensor_value(fields);
    let mut values = seed_values(blueprint, &store.devices, changed_topic, reading);
    settle(blueprint, &mut values);
    let mut out: Vec<BlueprintCommand> = Vec::new();
    collect_commands(blueprint, &store.devices, &values, &mut out);
    assert(out@.map_values(|c: BlueprintCommand| c@) =~= Seq::<CommandView>::empty() + blueprint_commands(
        *blueprint,
        store.devices@,
        changed_topic@,
        reading,
    ));
    out
}

/// The commands all enabled blueprints send, in store order, when a sensor
/// message with value entries `fields` arrived on `topic`.
pub fn execute_blueprints(
    store: &BlueprintStore,
    topic: &str,
    fields: &Vec<(String, PinValue)>,
) -> (r: Vec<BlueprintCommand>)
    ensures
        r@.map_values(|c: BlueprintCommand| c@) == all_commands(
            store.blueprints@,
            store.devices@,
            topic@,
            sensor_reading(fields@),
        ),
{
    let blueprints = &store.blueprints;
    let mut out: Vec<BlueprintCommand> = Vec::new();
    let mut b: usize = 0;
    assert(out@.map_values(|c: BlueprintCommand| c@) =~= Seq::<CommandView>::empty());
    while b < blueprints.len()
        invariant
            b <= blueprints@.len(),
            out@.map_values(|c: BlueprintCommand| c@) == all_commands(
                blueprints@.take(b as int),
                store.devices@,
                topic@,
                sensor_reading(fields@),
            ),
        decreases blueprints@.len() - b,
    {
        proof {
            assert(blueprints@.take(b + 1).drop_last() =~= blueprints@.take(b as int));
            assert(blueprints@.take(b + 1).last() == blueprints@[b as int]);
        }
        let blueprint = &blueprints[b];
        if blueprint.enabled {
            let reading = extract_sensor_value(fields);
            let mut values = seed_values(blueprint, &store.devices, topic, reading);
            settle(blueprint, &mut values);
            collect_commands(blueprint, &store.devices, &values, &mut out);
        }
        b = b + 1;
    }
    assert(blueprints@.take(blueprints@.len() as int) =~= blueprints@);
    out
}


/// Whether `picks` names, in increasing order, the nodes whose commands are
/// `commands`: one distinct actuator node per command.
pub open spec fn picked_from_nodes(
    commands: Seq<CommandView>,
    picks: Seq<int>,
    nodes: Seq<BlueprintNode>,
    edges: Seq<BlueprintEdge>,
    values: Map<Seq<char>, PinValue>,
    devices: Seq<Device>,
    blueprint_id: Seq<char>,
    blueprint_name: Seq<char>,
) -> bool {
    &&& picks.len() == commands.len()
    &&& forall|i: int|
        0 <= i < picks.len() ==> {
            &&& 0 <= #[trigger] picks[i] < nodes.len()
            &&& nodes[picks[i]].node_type@ == "actuator"@
            &&& command_of(nodes[picks[i]], edges, values, devices, blueprint_id, blueprint_name)
                == Some(commands[i])
        }
    &&& forall|i: int, j: int| 0 <= i < j < picks.len() ==> picks[i] < picks[j]
}

/// Each command comes from its own actuator node, in node order: a node
/// sends at most one command, and only an actuator node sends one.
pub proof fn one_command_per_actuator_node(
    nodes: Seq<BlueprintNode>,
    edges: Seq<BlueprintEdge>,
    values: Map<Seq<char>, PinValue>,
    devices: Seq<Device>,
    blueprint_id: Seq<char>,
    blueprint_name: Seq<char>,
) -> (picks: Seq<int>)
    ensures
        picked_from_nodes(
            commands_of(nodes, edges, values, devices, blueprint_id, blueprint_name),
            picks,
            nodes,
            edges,
            values,
            devices,
            blueprint_id,
            blueprint_name,
        ),
    decreases nodes.len(),
{
    if nodes.len() == 0 {
        Seq::empty()
    } else {
        let prev = one_command_per_actuator_node(
            nodes.drop_last(),
            edges,
            values,
            devices,
            blueprint_id,
            blueprint_name,
        );
        let last = nodes.len() - 1;
        assert forall|i: int| 0 <= i < prev.len() implies nodes[#[trigger] prev[i]] == nodes.drop_last()[prev[i]] by {}
        match command_of(nodes.last(), edges, values, devices, blueprint_id, blueprint_name) {
            Some(c) => {
                let picks = prev.push(last);
                assert forall|i: int| 0 <= i < picks.len() implies {
                    &&& 0 <= #[trigger] picks[i] < nodes.len()
                    &&& nodes[picks[i]].node_type@ == "actuator"@
                    &&& command_of(nodes[picks[i]], edges, values, devices, blueprint_id, blueprint_name)
                        == Some(commands_of(nodes, edges, values, devices, blueprint_id, blueprint_name)[i])
                } by {
                    if i < prev.len() {
                        assert(picks[i] == prev[i]);
                    }
                }
                picks
            },
            None => prev,
        }
    }
}

/// Whether the pin `value` of node `id` receives nothing from `changed_topic`:
/// every node with that id is a sensor whose device is missing or
/// publishes on another topic.
pub open spec fn sensor_elsewhere(
    nodes: Seq<BlueprintNode>,
    devices: Seq<Device>,
    changed_topic: Seq<char>,
    id: Seq<char>,
) -> bool {
    forall|i: int|
        0 <= i < nodes.len() && #[trigger] nodes[i].id@ == id ==> {
            &&& nodes[i].node_type@ == "sensor"@
            &&& match nodes[i].device_id {
                Some(d) => match device_with_id(devices, d@) {
                    Some(dev) => dev.mqtt_topic@ != changed_topic,
                    None => true,
                },
                None => true,
            }
        }
}

proof fn lemma_value_keys(x: Seq<char>, y: Seq<char>)
    ensures
        value_key(x, "value"@) == value_key(y, "value"@) ==> x == y,
        value_key(x, "result"@) != value_key(y, "value"@),
{
    reveal_strlit("value");
    reveal_strlit("result");
    reveal_strlit(":");
    let a = value_key(x, "result"@);
    let b = value_key(y, "value"@);
    assert(a.last() == 't' && b.last() == 'e');
    if value_key(x, "value"@) == value_key(y, "value"@) {
        assert(value_key(x, "value"@).take(x.len() as int) =~= x);
        assert(value_key(y, "value"@).take(y.len() as int) =~= y);
    }
}

proof fn lemma_not_seeded(
    nodes: Seq<BlueprintNode>,
    devices: Seq<Device>,
    changed_topic: Seq<char>,
    reading: PinValue,
    id: Seq<char>,
)
    requires
        sensor_elsewhere(nodes, devices, changed_topic, id),
    ensures
        !seeded(nodes, devices, changed_topic, reading).contains_key(value_key(id, "value"@)),
    decreases nodes.len(),
{
    reveal_strlit("sensor");
    reveal_strlit("constant_number");
    reveal_strlit("constant_boolean");
    if nodes.len() > 0 {
        let rest = nodes.drop_last();
        assert forall|i: int| 0 <= i < rest.len() && #[trigger] rest[i].id@ == id implies {
            &&& rest[i].node_type@ == "sensor"@
            &&& match rest[i].device_id {
                Some(d) => match device_with_id(devices, d@) {
                    Some(dev) => dev.mqtt_topic@ != changed_topic,
                    None => true,
                },
                None => true,
            }
        } by {
            assert(rest[i] == nodes[i]);
        }
        lemma_not_seeded(rest, devices, changed_topic, reading, id);
        let last = nodes.last();
        lemma_value_keys(last.id@, id);
        if last.id@ == id {
            assert(nodes[nodes.len() - 1].id@ == id);
        }
    }
}

proof fn lemma_pass_keeps_out(
    nodes: Seq<BlueprintNode>,
    edges: Seq<BlueprintEdge>,
    values: Map<Seq<char>, PinValue>,
    id: Seq<char>,
)
    requires
        !values.contains_key(value_key(id, "value"@)),
    ensures
        !pass(nodes, edges, values).contains_key(value_key(id, "value"@)),
    decreases nodes.len(),
{
    if nodes.len() > 0 {
        lemma_pass_keeps_out(nodes.drop_last(), edges, values, id);
        lemma_value_keys(nodes.last().id@, id);
    }
}

proof fn lemma_rounds_keep_out(
    nodes: Seq<BlueprintNode>,
    edges: Seq<BlueprintEdge>,
    values: Map<Seq<char>, PinValue>,
    id: Seq<char>,
    k: nat,
)
    requires
        !values.contains_key(value_key(id, "value"@)),
    ensures
        !rounds(nodes, edges, values, k).contains_key(value_key(id, "value"@)),
    decreases k,
{
    if k > 0 {
        lemma_rounds_keep_out(nodes, edges, values, id, (k - 1) as nat);
        lemma_pass_keeps_out(nodes, edges, rounds(nodes, edges, values, (k - 1) as nat), id);
    }
}

/// An actuator fed directly by the value of a sensor whose device publishes
/// on another topic than the one that changed (or is missing) sends no
/// command: that sensor brings no reading, and nothing else fills its pin.
pub proof fn sensors_elsewhere_send_nothing(
    blueprint: Blueprint,
    devices: Seq<Device>,
    changed_topic: Seq<char>,
    reading: PinValue,
    actuator: BlueprintNode,
    sensor_id: Seq<char>,
)
    requires
        edge_into(blueprint.edges@, actuator.id@, "enabled"@) matches Some(e) && e.source@ == sensor_id
            && e.source_handle@ == "value"@,
        sensor_elsewhere(blueprint.nodes@, devices, changed_topic, sensor_id),
    ensures
        command_of(
            actuator,
            blueprint.edges@,
            settled_values(blueprint, devices, changed_topic, reading),
            devices,
            blueprint.id@,
            blueprint.name@,
        ) is None,
{
    lemma_not_seeded(blueprint.nodes@, devices, changed_topic, reading, sensor_id);
    lemma_rounds_keep_out(
        blueprint.nodes@,
        blueprint.edges@,
        seeded(blueprint.nodes@, devices, changed_topic, reading),
        sensor_id,
        blueprint.nodes@.len(),
    );
}


/// Whether `node` writes its `value` pin when seeding: a sensor whose device
/// publishes on the changed topic, or a constant.
pub open spec fn seeds_value(node: BlueprintNode, devices: Seq<Device>, changed_topic: Seq<char>) -> bool {
    let t = node.node_type@;
    if t == "sensor"@ {
        match node.device_id {
            Some(d) => match device_with_id(devices, d@) {
                Some(dev) => dev.mqtt_topic@ == changed_topic,
                None => false,
            },
            None => false,
        }
    } else {
        t == "constant_number"@ || t == "constant_boolean"@
    }
}

/// Whether a node type is a comparison or boolean gate.
pub open spec fn is_gate(node_type: Seq<char>) -> bool {
    node_type == "compare_greater"@ || node_type == "compare_less"@ || node_type == "boolean_and"@
        || node_type == "boolean_or"@
}

/// Whether input pin `pin` of node `id` can bring nothing: no edge reaches
/// it, or the edge comes from a key in `dead`.
pub open spec fn pin_dead(edges: Seq<BlueprintEdge>, id: Seq<char>, pin: Seq<char>, dead: Set<Seq<char>>) -> bool {
    match edge_into(edges, id, pin) {
        Some(e) => dead.contains(value_key(e.source@, e.source_handle@)),
        None => true,
    }
}

/// Whether the keys in `dead` can never be filled: no node seeds one, and
/// every gate whose result is one has an input pin that is itself dead.
pub open spec fn dead_keys_closed(
    nodes: Seq<BlueprintNode>,
    edges: Seq<BlueprintEdge>,
    devices: Seq<Device>,
    changed_topic: Seq<char>,
    dead: Set<Seq<char>>,
) -> bool {
    &&& forall|i: int|
        0 <= i < nodes.len() && seeds_value(#[trigger] nodes[i], devices, changed_topic)
            ==> !dead.contains(value_key(nodes[i].id@, "value"@))
    &&& forall|i: int|
        0 <= i < nodes.len() && is_gate(#[trigger] nodes[i].node_type@) && dead.contains(
            value_key(nodes[i].id@, "result"@),
        ) ==> pin_dead(edges, nodes[i].id@, "a"@, dead) || pin_dead(edges, nodes[i].id@, "b"@, dead)
}

/// Whether a table holds none of the keys in `dead`.
pub open spec fn holds_none(values: Map<Seq<char>, PinValue>, dead: Set<Seq<char>>) -> bool {
    forall|k: Seq<char>| dead.contains(k) ==> !values.contains_key(k)
}

proof fn lemma_node_kinds()
    ensures
        !is_gate("sensor"@),
        !is_gate("constant_number"@),
        !is_gate("constant_boolean"@),
{
    reveal_strlit("sensor");
    reveal_strlit("constant_number");
    reveal_strlit("constant_boolean");
    reveal_strlit("compare_greater");
    reveal_strlit("compare_less");
    reveal_strlit("boolean_and");
    reveal_strlit("boolean_or");
    assert("sensor"@.len() == 6 && "constant_number"@.len() == 15);
    assert("constant_boolean"@.len() == 16 && "compare_greater"@.len() == 15);
    assert("compare_less"@.len() == 12 && "boolean_and"@.len() == 11 && "boolean_or"@.len() == 10);
    assert("constant_number"@[2] != "compare_greater"@[2]);
}

proof fn lemma_seeding_skips_dead(
    nodes: Seq<BlueprintNode>,
    edges: Seq<BlueprintEdge>,
    devices: Seq<Device>,
    changed_topic: Seq<char>,
    reading: PinValue,
    dead: Set<Seq<char>>,
)
    requires
        dead_keys_closed(nodes, edges, devices, changed_topic, dead),
    ensures
        holds_none(seeded(nodes, devices, changed_topic, reading), dead),
    decreases nodes.len(),
{
    if nodes.len() > 0 {
        let rest = nodes.drop_last();
        assert forall|i: int|
            0 <= i < rest.len() && seeds_value(#[trigger] rest[i], devices, changed_topic) implies !dead.contains(
            value_key(rest[i].id@, "value"@),
        ) by {
            assert(rest[i] == nodes[i]);
        }
        assert forall|i: int|
            0 <= i < rest.len() && is_gate(#[trigger] rest[i].node_type@) && dead.contains(
                value_key(rest[i].id@, "result"@),
            ) implies pin_dead(edges, rest[i].id@, "a"@, dead) || pin_dead(edges, rest[i].id@, "b"@, dead) by {
            assert(rest[i] == nodes[i]);
        }
        lemma_seeding_skips_dead(rest, edges, devices, changed_topic, reading, dead);
        let last = nodes.last();
        assert(nodes[nodes.len() - 1] == last);
        if seeds_value(last, devices, changed_topic) {
            assert(!dead.contains(value_key(last.id@, "value"@)));
        }
    }
}

proof fn lemma_evaluation_skips_dead(
    nodes: Seq<BlueprintNode>,
    edges: Seq<BlueprintEdge>,
    devices: Seq<Device>,
    changed_topic: Seq<char>,
    values: Map<Seq<char>, PinValue>,
    dead: Set<Seq<char>>,
    i: int,
)
    requires
        dead_keys_closed(nodes, edges, devices, changed_topic, dead),
        holds_none(values, dead),
        0 <= i < nodes.len(),
    ensures
        holds_none(evaluated(nodes[i], edges, values), dead),
{
    let node = nodes[i];
    let key = value_key(node.id@, "result"@);
    if is_gate(node.node_type@) && dead.contains(key) {
        assert(pin_dead(edges, node.id@, "a"@, dead) || pin_dead(edges, node.id@, "b"@, dead));
        assert(input_value(edges, values, node.id@, "a"@) is None || input_value(
            edges,
            values,
            node.id@,
            "b"@,
        ) is None);
        assert(evaluated(node, edges, values) == values);
    }
}

proof fn lemma_pass_skips_dead(
    nodes: Seq<BlueprintNode>,
    all: Seq<BlueprintNode>,
    edges: Seq<BlueprintEdge>,
    devices: Seq<Device>,
    changed_topic: Seq<char>,
    values: Map<Seq<char>, PinValue>,
    dead: Set<Seq<char>>,
)
    requires
        dead_keys_closed(all, edges, devices, changed_topic, dead),
        holds_none(values, dead),
        nodes.len() <= all.len(),
        nodes == all.take(nodes.len() as int),
    ensures
        holds_none(pass(nodes, edges, values), dead),
    decreases nodes.len(),
{
    if nodes.len() > 0 {
        let rest = nodes.drop_last();
        assert(rest =~= all.take(rest.len() as int));
        lemma_pass_skips_dead(rest, all, edges, devices, changed_topic, values, dead);
        assert(nodes.last() == all[nodes.len() - 1]);
        lemma_evaluation_skips_dead(
            all,
            edges,
            devices,
            changed_topic,
            pass(rest, edges, values),
            dead,
            nodes.len() - 1,
        );
    }
}

proof fn lemma_rounds_skip_dead(
    nodes: Seq<BlueprintNode>,
    edges: Seq<BlueprintEdge>,
    devices: Seq<Device>,
    changed_topic: Seq<char>,
    values: Map<Seq<char>, PinValue>,
    dead: Set<Seq<char>>,
    k: nat,
)
    requires
        dead_keys_closed(nodes, edges, devices, changed_topic, dead),
        holds_none(values, dead),
    ensures
        holds_none(rounds(nodes, edges, values, k), dead),
    decreases k,
{
    if k > 0 {
        lemma_rounds_skip_dead(nodes, edges, devices, changed_topic, values, dead, (k - 1) as nat);
        assert(nodes =~= nodes.take(nodes.len() as int));
        lemma_pass_skips_dead(
            nodes,
            nodes,
            edges,
            devices,
            changed_topic,
            rounds(nodes, edges, values, (k - 1) as nat),
            dead,
        );
    }
}

/// Keys that nothing can fill stay empty, however the script is wired: a
/// set of keys that no node seeds, and whose gate results each need a pin
/// that is itself dead, holds no value once the script has settled. So an
/// actuator whose `enabled` pin is dead (for instance fed, directly or
/// through any chain of comparisons and gates, by sensors whose devices
/// publish on other topics) sends no command.
pub proof fn dead_inputs_send_nothing(
    blueprint: Blueprint,
    devices: Seq<Device>,
    changed_topic: Seq<char>,
    reading: PinValue,
    dead: Set<Seq<char>>,
    actuator: BlueprintNode,
)
    requires
        dead_keys_closed(blueprint.nodes@, blueprint.edges@, devices, changed_topic, dead),
    ensures
        holds_none(settled_values(blueprint, devices, changed_topic, reading), dead),
        pin_dead(blueprint.edges@, actuator.id@, "enabled"@, dead) ==> command_of(
            actuator,
            blueprint.edges@,
            settled_values(blueprint, devices, changed_topic, reading),
            devices,
            blueprint.id@,
            blueprint.name@,
        ) is None,
{
    lemma_node_kinds();
    lemma_seeding_skips_dead(blueprint.nodes@, blueprint.edges@, devices, changed_topic, reading, dead);
    lemma_rounds_skip_dead(
        blueprint.nodes@,
        blueprint.edges@,
        devices,
        changed_topic,
        seeded(blueprint.nodes@, devices, changed_topic, reading),
        dead,
        blueprint.nodes@.len(),
    );
}

/// A sensor whose device publishes elsewhere, seen through one gate: when
/// node `gate` takes input `a` or `b` from that sensor's value, every node
/// with the id `gate` is a comparison or boolean gate or writes nothing, and
/// the actuator's `enabled` pin is wired to the output of `gate`, then the
/// actuator sends no command.
pub proof fn sensors_elsewhere_send_nothing_through_a_gate(
    blueprint: Blueprint,
    devices: Seq<Device>,
    changed_topic: Seq<char>,
    reading: PinValue,
    actuator: BlueprintNode,
    sensor_id: Seq<char>,
    gate: Seq<char>,
    pin: Seq<char>,
)
    requires
        pin == "a"@ || pin == "b"@,
        edge_into(blueprint.edges@, gate, pin) matches Some(e) && e.source@ == sensor_id
            && e.source_handle@ == "value"@,
        sensor_elsewhere(blueprint.nodes@, devices, changed_topic, sensor_id),
        edge_into(blueprint.edges@, actuator.id@, "enabled"@) matches Some(e) && e.source@ == gate
            && e.source_handle@ == "result"@,
    ensures
        command_of(
            actuator,
            blueprint.edges@,
            settled_values(blueprint, devices, changed_topic, reading),
            devices,
            blueprint.id@,
            blueprint.name@,
        ) is None,
{
    let nodes = blueprint.nodes@;
    let edges = blueprint.edges@;
    let ks = value_key(sensor_id, "value"@);
    let kg = value_key(gate, "result"@);
    let dead = Set::empty().insert(ks).insert(kg);
    lemma_node_kinds();
    reveal_strlit("sensor");
    assert forall|i: int|
        0 <= i < nodes.len() && seeds_value(#[trigger] nodes[i], devices, changed_topic) implies !dead.contains(
        value_key(nodes[i].id@, "value"@),
    ) by {
        lemma_value_keys(nodes[i].id@, sensor_id);
        lemma_value_keys(gate, nodes[i].id@);
    }
    assert forall|i: int|
        0 <= i < nodes.len() && is_gate(#[trigger] nodes[i].node_type@) && dead.contains(
            value_key(nodes[i].id@, "result"@),
        ) implies pin_dead(edges, nodes[i].id@, "a"@, dead) || pin_dead(edges, nodes[i].id@, "b"@, dead) by {
        lemma_value_keys(nodes[i].id@, sensor_id);
        lemma_result_keys(nodes[i].id@, gate);
        assert(nodes[i].id@ == gate);
    }
    dead_inputs_send_nothing(blueprint, devices, changed_topic, reading, dead, actuator);
}

proof fn lemma_result_keys(x: Seq<char>, y: Seq<char>)
    ensures
        value_key(x, "result"@) == value_key(y, "result"@) ==> x == y,
{
    reveal_strlit("result");
    reveal_strlit(":");
    if value_key(x, "result"@) == value_key(y, "result"@) {
        assert(value_key(x, "result"@).len() == x.len() + 7);
        assert(value_key(y, "result"@).len() == y.len() + 7);
        assert(x.len() == y.len());
        assert(value_key(x, "result"@).take(x.len() as int) =~= x);
        assert(value_key(y, "result"@).take(y.len() as int) =~= y);
    }
}

} // verus!
