//! The bookkeeping behind the HTTP API: rooms, floors, devices and
//! blueprints of the store.

use vstd::prelude::*;
use vstd::string::*;
use crate::blueprints::{
    device_views, is_random_device_id, is_random_script_id, room_device_topic, Blueprint,
    BlueprintStore, Device, DeviceKind,
};
use crate::building::{
    clean_color, clean_name, default_room_color, floor_id_is_not, floor_index, floor_of_room,
    is_random_room_id, name_refusal, new_room_id, opt_string_view, or_default, renamed_room,
    resized_room, room_floor_index, room_id_is_not, room_index, rooms_of_floor, size_refusal,
    valid_name, valid_size, validate_size, Building, FloorView, Room, RoomKind, RoomView,
    DEFAULT_DEPTH_BITS,
    DEFAULT_HEIGHT_BITS, DEFAULT_WIDTH_BITS,
};
use crate::defaults::{ensure_room_devices, missing_devices};
use crate::errors::ApiError;
use crate::text::{str_eq, trim_seq};
use crate::topics::{actuator_command, actuator_command_topic, room_config, room_config_topic};

verus! {

/// Devices whose id is not `id`.
pub open spec fn device_id_is_not(id: Seq<char>) -> spec_fn(Device) -> bool {
    |d: Device| d.id@ != id
}

/// Devices that are not in room `room_id`.
pub open spec fn device_room_is_not(room_id: Seq<char>) -> spec_fn(Device) -> bool {
    |d: Device| d.room_id@ != room_id
}

/// Devices that are in none of `room_ids`.
pub open spec fn device_room_not_in(room_ids: Seq<Seq<char>>) -> spec_fn(Device) -> bool {
    |d: Device| !room_ids.contains(d.room_id@)
}

/// Blueprints whose id is not `id`.
pub open spec fn blueprint_id_is_not(id: Seq<char>) -> spec_fn(Blueprint) -> bool {
    |b: Blueprint| b.id@ != id
}

/// The index of the first blueprint with id `id`.
pub open spec fn blueprint_index(blueprints: Seq<Blueprint>, id: Seq<char>) -> Option<int>
    decreases blueprints.len(),
{
    if blueprints.len() == 0 {
        None
    } else if blueprints.last().id@ == id && blueprint_index(blueprints.drop_last(), id) is None {
        Some(blueprints.len() - 1)
    } else {
        blueprint_index(blueprints.drop_last(), id)
    }
}

pub(crate) proof fn lemma_filter_step<T>(s: Seq<T>, i: int, pred: spec_fn(T) -> bool)
    requires
        0 <= i < s.len(),
    ensures
        s.take(i + 1).filter(pred) == if pred(s[i]) {
            s.take(i).filter(pred).push(s[i])
        } else {
            s.take(i).filter(pred)
        },
{
    reveal(Seq::filter);
    assert(s.take(i + 1).drop_last() =~= s.take(i));
    assert(s.take(i + 1).last() == s[i]);
}

proof fn lemma_filter_all<T>(s: Seq<T>, pred: spec_fn(T) -> bool)
    requires
        forall|i: int| 0 <= i < s.len() ==> pred(s[i]),
    ensures
        s.filter(pred) == s,
    decreases s.len(),
{
    reveal(Seq::filter);
    if s.len() > 0 {
        lemma_filter_all(s.drop_last(), pred);
        assert(s.drop_last().push(s.last()) =~= s);
    }
}

proof fn lemma_blueprint_index_step(s: Seq<Blueprint>, i: int, id: Seq<char>)
    requires
        0 <= i < s.len(),
        forall|j: int| 0 <= j < i ==> s[j].id@ != id,
    ensures
        s[i].id@ == id ==> blueprint_index(s.take(i + 1), id) == Some(i),
        blueprint_index(s.take(i), id) is None,
    decreases i,
{
    assert(s.take(i + 1).drop_last() =~= s.take(i));
    if i > 0 {
        lemma_blueprint_index_step(s, i - 1, id);
        assert(s.take(i).drop_last() =~= s.take(i - 1));
    }
}

proof fn lemma_blueprint_index_extends(s: Seq<Blueprint>, k: int, id: Seq<char>)
    requires
        0 <= k <= s.len(),
        blueprint_index(s.take(k), id) is Some,
    ensures
        blueprint_index(s, id) == blueprint_index(s.take(k), id),
    decreases s.len() - k,
{
    if k < s.len() {
        assert(s.take(k + 1).drop_last() =~= s.take(k));
        lemma_blueprint_index_extends(s, k + 1, id);
    } else {
        assert(s.take(k) =~= s);
    }
}

proof fn lemma_blueprint_index_none(s: Seq<Blueprint>, id: Seq<char>)
    requires
        forall|j: int| 0 <= j < s.len() ==> s[j].id@ != id,
    ensures
        blueprint_index(s, id) is None,
    decreases s.len(),
{
    if s.len() > 0 {
        lemma_blueprint_index_none(s.drop_last(), id);
    }
}

/// Deleting a device that was just registered, under an id no other
/// device had, gives back the devices as they were.
pub proof fn delete_undoes_create(devices: Seq<Device>, created: Device)
    requires
        forall|i: int| 0 <= i < devices.len() ==> devices[i].id@ != created.id@,
    ensures
        devices.push(created).filter(device_id_is_not(created.id@)) == devices,
{
    let pred = device_id_is_not(created.id@);
    let grown = devices.push(created);
    reveal(Seq::filter);
    assert(grown.drop_last() =~= devices);
    lemma_filter_all(devices, pred);
}

/// Deleting a blueprint that was just created, under an id no other
/// blueprint had, gives back the blueprints as they were.
pub proof fn delete_undoes_create_blueprint(blueprints: Seq<Blueprint>, created: Blueprint)
    requires
        forall|i: int| 0 <= i < blueprints.len() ==> blueprints[i].id@ != created.id@,
    ensures
        blueprints.push(created).filter(blueprint_id_is_not(created.id@)) == blueprints,
{
    let pred = blueprint_id_is_not(created.id@);
    let grown = blueprints.push(created);
    reveal(Seq::filter);
    assert(grown.drop_last() =~= blueprints);
    lemma_filter_all(blueprints, pred);
}

/// After a deletion no device (blueprint) with that id is left, and every
/// other one is kept.
pub proof fn deleted_ids_are_gone(devices: Seq<Device>, id: Seq<char>, blueprints: Seq<Blueprint>)
    ensures
        forall|i: int|
            0 <= i < devices.filter(device_id_is_not(id)).len() ==> (#[trigger] devices.filter(
                device_id_is_not(id),
            )[i]).id@ != id,
        forall|i: int|
            0 <= i < devices.len() && devices[i].id@ != id ==> devices.filter(
                device_id_is_not(id),
            ).contains(#[trigger] devices[i]),
        forall|i: int|
            0 <= i < blueprints.filter(blueprint_id_is_not(id)).len() ==> (
            #[trigger] blueprints.filter(blueprint_id_is_not(id))[i]).id@ != id,
        forall|i: int|
            0 <= i < blueprints.len() && blueprints[i].id@ != id ==> blueprints.filter(
                blueprint_id_is_not(id),
            ).contains(#[trigger] blueprints[i]),
{
    broadcast use vstd::seq_lib::group_filter_ensures;

}

impl Default for BlueprintStore {
    /// An empty store: no floors, devices or blueprints.
    fn default() -> (s: Self)
        ensures
            s.building@.len() == 0,
            s.devices@.len() == 0,
            s.blueprints@.len() == 0,
    {
        BlueprintStore::new()
    }
}

impl BlueprintStore {
    /// An empty store: no floors, devices or blueprints.
    pub fn new() -> (s: Self)
        ensures
            s.building@.len() == 0,
            s.devices@.len() == 0,
            s.blueprints@.len() == 0,
    {
        BlueprintStore { building: Building::new(), devices: Vec::new(), blueprints: Vec::new() }
    }

    /// Registers a new device in a room that some floor holds, and returns
    /// it; an unknown room is refused and nothing changes.
    pub fn create_device(
        &mut self,
        room_id: &str,
        name: String,
        kind: DeviceKind,
        device_type: String,
    ) -> (r: Result<Device, ApiError>)
        ensures
            final(self).building == old(self).building,
            final(self).blueprints@ == old(self).blueprints@,
            match r {
                Ok(d) => {
                    &&& floor_of_room(old(self).building@, room_id@) matches Some(f)
                    &&& final(self).devices@ == old(self).devices@.push(d)
                    &&& is_random_device_id(d.id@)
                    &&& d.room_id@ == room_id@
                    &&& d.name == name
                    &&& d.kind == kind
                    &&& d.device_type == device_type
                    &&& d.mqtt_topic@ == room_device_topic(kind, f, room_id@, device_type@)
                    &&& d.enabled
                },
                Err(e) => {
                    &&& e matches ApiError::UnknownRoom(x) && x@ == room_id@
                    &&& floor_of_room(old(self).building@, room_id@) is None
                    &&& final(self).devices@ == old(self).devices@
                },
            },
    {
        let floor_id = match self.building.floor_id_for_room(room_id) {
            Some(f) => f,
            None => {
                return Err(ApiError::UnknownRoom(String::from_str(room_id)));
            },
        };
        let device = Device::for_room(floor_id.as_str(), room_id, name, kind, device_type);
        let answer = device.copy();
        self.devices.push(device);
        Ok(answer)
    }

    /// Removes every device with id `id`; refused, with nothing changed,
    /// when there is none.
    pub fn delete_device(&mut self, id: &str) -> (r: Result<(), ApiError>)
        ensures
            final(self).building == old(self).building,
            final(self).blueprints@ == old(self).blueprints@,
            final(self).devices@ == old(self).devices@.filter(device_id_is_not(id@)),
            r is Ok <==> exists|i: int|
                0 <= i < old(self).devices@.len() && old(self).devices@[i].id@ == id@,
            r matches Err(e) ==> e is DeviceNotFound,
    {
        let ghost before = self.devices@;
        let ghost pred = device_id_is_not(id@);
        let mut kept: Vec<Device> = Vec::new();
        let mut found = false;
        let mut i: usize = 0;
        while i < self.devices.len()
            invariant
                self.devices@ == before,
                pred == device_id_is_not(id@),
                i <= before.len(),
                kept@ == before.take(i as int).filter(pred),
                found <==> exists|j: int| 0 <= j < i && before[j].id@ == id@,
            decreases before.len() - i,
        {
            proof {
                lemma_filter_step(before, i as int, pred);
            }
            if str_eq(self.devices[i].id.as_str(), id) {
                found = true;
    
            } else {
                kept.push(self.devices[i].copy());

            }
            i = i + 1;
        }
        assert(before.take(before.len() as int) =~= before);
        if !found {
            proof {
                lemma_filter_all(before, pred);
            }
            return Err(ApiError::DeviceNotFound);
        }
        self.devices = kept;
        Ok(())
    }

    /// Removes the devices of room `room_id`.
    pub fn remove_room_devices(&mut self, room_id: &str)
        ensures
            final(self).building == old(self).building,
            final(self).blueprints@ == old(self).blueprints@,
            final(self).devices@ == old(self).devices@.filter(device_room_is_not(room_id@)),
    {
        let ghost before = self.devices@;
        let ghost pred = device_room_is_not(room_id@);
        let mut kept: Vec<Device> = Vec::new();
        let mut i: usize = 0;
        while i < self.devices.len()
            invariant
                self.devices@ == before,
                pred == device_room_is_not(room_id@),
                i <= before.len(),
                kept@ == before.take(i as int).filter(pred),
            decreases before.len() - i,
        {
            proof {
                lemma_filter_step(before, i as int, pred);
            }
            if !str_eq(self.devices[i].room_id.as_str(), room_id) {
                kept.push(self.devices[i].copy());
            }
            i = i + 1;
        }
        assert(before.take(before.len() as int) =~= before);
        self.devices = kept;
    }

    /// Removes the devices of the rooms `room_ids` (those of a deleted floor).
    pub fn remove_devices_of_rooms(&mut self, room_ids: &Vec<String>)
        ensures
            final(self).building == old(self).building,
            final(self).blueprints@ == old(self).blueprints@,
            final(self).devices@ == old(self).devices@.filter(
                device_room_not_in(room_ids@.map_values(|r: String| r@)),
            ),
    {
        let ghost before = self.devices@;
        let ghost ids = room_ids@.map_values(|r: String| r@);
        let ghost pred = device_room_not_in(ids);
        let mut kept: Vec<Device> = Vec::new();
        let mut i: usize = 0;
        while i < self.devices.len()
            invariant
                self.devices@ == before,
                i <= before.len(),
                ids == room_ids@.map_values(|r: String| r@),
                pred == device_room_not_in(ids),
                kept@ == before.take(i as int).filter(pred),
            decreases before.len() - i,
        {
            proof {
                lemma_filter_step(before, i as int, pred);
            }
            let room = self.devices[i].room_id.as_str();
            let mut listed = false;
            let mut k: usize = 0;
            while k < room_ids.len()
                invariant
                    k <= room_ids@.len(),
                    ids == room_ids@.map_values(|r: String| r@),
                    i < before.len(),
                    room@ == before[i as int].room_id@,
                    listed <==> exists|j: int| 0 <= j < k && ids[j] == room@,
                decreases room_ids@.len() - k,
            {
                assert(ids[k as int] == room_ids@[k as int]@);
                if str_eq(room_ids[k].as_str(), room) {
                    listed = true;
                }
                k = k + 1;
            }
            assert(listed <==> ids.contains(room@));
            if !listed {
                kept.push(self.devices[i].copy());
            }
            i = i + 1;
        }
        assert(before.take(before.len() as int) =~= before);
        self.devices = kept;
    }

    /// Adds a new, empty, enabled blueprint named `name` and returns a copy
    /// of it.
    pub fn create_blueprint(&mut self, name: String) -> (r: Blueprint)
        ensures
            final(self).building == old(self).building,
            final(self).devices@ == old(self).devices@,
            final(self).blueprints@.len() == old(self).blueprints@.len() + 1,
            final(self).blueprints@.drop_last() == old(self).blueprints@,
            final(self).blueprints@.last().id == r.id,
            final(self).blueprints@.last().name == r.name,
            final(self).blueprints@.last().enabled,
            final(self).blueprints@.last().nodes@.len() == 0,
            final(self).blueprints@.last().edges@.len() == 0,
            is_random_script_id(r.id@),
            r.name == name,
            r.enabled,
            r.nodes@.len() == 0,
            r.edges@.len() == 0,
    {
        let blueprint = Blueprint::empty(name);
        let answer = blueprint.copy();
        self.blueprints.push(blueprint);
        assert(self.blueprints@.drop_last() =~= old(self).blueprints@);
        answer
    }

    /// Replaces the first blueprint with id `id` by `blueprint`; refused, with
    /// nothing changed, when the body's id differs from `id` or no
    /// blueprint has it.
    pub fn save_blueprint(&mut self, id: &str, blueprint: Blueprint) -> (r: Result<(), ApiError>)
        ensures
            final(self).building == old(self).building,
            final(self).devices@ == old(self).devices@,
            match r {
                Ok(()) => {
                    &&& blueprint.id@ == id@
                    &&& blueprint_index(old(self).blueprints@, id@) matches Some(i)
                    &&& final(self).blueprints@ == old(self).blueprints@.update(i, blueprint)
                },
                Err(e) => final(self).blueprints@ == old(self).blueprints@ && ((e is BlueprintIdMismatch
                    && blueprint.id@ != id@) || (e is BlueprintNotFound && blueprint.id@ == id@
                    && blueprint_index(old(self).blueprints@, id@) is None)),
            },
    {
        if !str_eq(id, blueprint.id.as_str()) {
            return Err(ApiError::BlueprintIdMismatch);
        }
        let mut i: usize = 0;
        while i < self.blueprints.len()
            invariant
                self.blueprints@ == old(self).blueprints@,
                self.devices@ == old(self).devices@,
                self.building == old(self).building,
                blueprint.id@ == id@,
                i <= self.blueprints@.len(),
                forall|j: int| 0 <= j < i ==> self.blueprints@[j].id@ != id@,
            decreases self.blueprints@.len() - i,
        {
            if str_eq(self.blueprints[i].id.as_str(), id) {
                proof {
                    lemma_blueprint_index_step(self.blueprints@, i as int, id@);
                    lemma_blueprint_index_extends(self.blueprints@, i + 1, id@);
                }
                self.blueprints.set(i, blueprint);
                return Ok(());
            }
            i = i + 1;
        }
        proof {
            lemma_blueprint_index_none(self.blueprints@, id@);
        }
        Err(ApiError::BlueprintNotFound)
    }

    /// Removes every blueprint with id `id`; refused, with nothing changed,
    /// when there is none.
    pub fn delete_blueprint(&mut self, id: &str) -> (r: Result<(), ApiError>)
        ensures
            final(self).building == old(self).building,
            final(self).devices@ == old(self).devices@,
            final(self).blueprints@ == old(self).blueprints@.filter(blueprint_id_is_not(id@)),
            r is Ok <==> exists|i: int|
                0 <= i < old(self).blueprints@.len() && old(self).blueprints@[i].id@ == id@,
            r matches Err(e) ==> e is BlueprintNotFound,
    {
        let ghost before = self.blueprints@;
        let ghost pred = blueprint_id_is_not(id@);
        let mut rest: Vec<Blueprint> = Vec::new();
        std::mem::swap(&mut rest, &mut self.blueprints);
        let mut kept: Vec<Blueprint> = Vec::new();
        let mut found = false;
        let ghost mut j: int = 0;
        assert(before.skip(0) =~= before);
        while rest.len() > 0
            invariant
                pred == blueprint_id_is_not(id@),
                0 <= j <= before.len(),
                rest@ == before.skip(j),
                kept@ == before.take(j).filter(pred),
                found <==> exists|k: int| 0 <= k < j && before[k].id@ == id@,
                self.devices@ == old(self).devices@,
            decreases rest@.len(),
        {
            proof {
                lemma_filter_step(before, j, pred);
                assert(before.skip(j).drop_first() =~= before.skip(j + 1));
            }
            let blueprint = rest.remove(0);
            if str_eq(blueprint.id.as_str(), id) {
                found = true;
            } else {
                kept.push(blueprint);
            }
            proof {
                j = j + 1;
            }
        }
        assert(before.take(j) =~= before);
        if !found {
            proof {
                lemma_filter_all(before, pred);
            }
            self.blueprints = kept;
            return Err(ApiError::BlueprintNotFound);
        }
        self.blueprints = kept;
        Ok(())
    }
}


/// A request for a new room: its name and, optionally, kind, colour and
/// measurements (by the bits of their `f64` values).
#[derive(Debug)]
pub struct NewRoom {
    pub name: String,
    pub kind: Option<RoomKind>,
    pub color: Option<String>,
    pub width_bits: Option<u64>,
    pub depth_bits: Option<u64>,
    pub height_bits: Option<u64>,
}

/// The changes a room update asks for; absent ones keep the room as it is.
#[derive(Debug)]
pub struct RoomPatch {
    pub name: Option<String>,
    pub color: Option<String>,
    pub width_bits: Option<u64>,
    pub depth_bits: Option<u64>,
    pub height_bits: Option<u64>,
    pub kind: Option<RoomKind>,
}

/// The room that `NewRoom` asks for, with id `id`: kind office, the default
/// colour and 6 x 5 x 3 metres unless given.
pub open spec fn requested_room(id: Seq<char>, input: NewRoom) -> RoomView {
    RoomView {
        id,
        name: trim_seq(input.name@),
        kind: or_default(input.kind, RoomKind::Office),
        color: or_default(opt_string_view(input.color), default_room_color()),
        width_bits: or_default(input.width_bits, DEFAULT_WIDTH_BITS),
        depth_bits: or_default(input.depth_bits, DEFAULT_DEPTH_BITS),
        height_bits: or_default(input.height_bits, DEFAULT_HEIGHT_BITS),
    }
}

/// A new room has what it was asked for: the trimmed name, the given kind
/// (an office if none), and the given width, depth and height, taking
/// 6 x 5 x 3 metres only for those not given.
pub proof fn new_rooms_take_what_was_asked(id: Seq<char>, input: NewRoom, w: u64, d: u64, h: u64)
    ensures
        requested_room(id, input).id == id,
        requested_room(id, input).name == trim_seq(input.name@),
        input.kind matches Some(k) ==> requested_room(id, input).kind == k,
        input.kind is None ==> requested_room(id, input).kind == RoomKind::Office,
        input.width_bits == Some(w) ==> requested_room(id, input).width_bits == w,
        input.depth_bits == Some(d) ==> requested_room(id, input).depth_bits == d,
        input.height_bits == Some(h) ==> requested_room(id, input).height_bits == h,
        input.width_bits is None ==> requested_room(id, input).width_bits == DEFAULT_WIDTH_BITS,
        input.depth_bits is None ==> requested_room(id, input).depth_bits == DEFAULT_DEPTH_BITS,
        input.height_bits is None ==> requested_room(id, input).height_bits == DEFAULT_HEIGHT_BITS,
{
}

/// The measurements that `NewRoom` asks for are accepted.
pub open spec fn requested_size_valid(input: NewRoom) -> bool {
    valid_size(
        or_default(input.width_bits, DEFAULT_WIDTH_BITS),
        or_default(input.depth_bits, DEFAULT_DEPTH_BITS),
        or_default(input.height_bits, DEFAULT_HEIGHT_BITS),
    )
}

/// The room that a patch renames, recolours, resizes and re-kinds.
pub open spec fn patched_room(room: RoomView, patch: RoomPatch) -> RoomView {
    resized_room(
        renamed_room(room, opt_string_view(patch.name), opt_string_view(patch.color)),
        patch.width_bits,
        patch.depth_bits,
        patch.height_bits,
        patch.kind,
    )
}

/// Whether the patched measurements of `room` are accepted.
pub open spec fn patched_size_valid(room: RoomView, patch: RoomPatch) -> bool {
    valid_size(
        or_default(patch.width_bits, room.width_bits),
        or_default(patch.depth_bits, room.depth_bits),
        or_default(patch.height_bits, room.height_bits),
    )
}

/// The building with room `k` of floor `i` replaced by `room`.
pub open spec fn with_room(floors: Seq<FloorView>, i: int, k: int, room: RoomView) -> Seq<FloorView> {
    floors.update(i, FloorView { rooms: floors[i].rooms.update(k, room), ..floors[i] })
}

impl BlueprintStore {
    /// Adds a room to floor `floor_id` and registers its default devices;
    /// the name (trimmed, 1 to 60 characters) is checked first, then the
    /// measurements, then the floor. A refused request changes nothing.
    pub fn create_room(&mut self, floor_id: &str, input: NewRoom) -> (r: Result<Room, ApiError>)
        ensures
            final(self).blueprints@ == old(self).blueprints@,
            match r {
                Ok(room) => {
                    &&& valid_name(input.name@)
                    &&& requested_size_valid(input)
                    &&& is_random_room_id(room.id@)
                    &&& room@ == requested_room(room.id@, input)
                    &&& (input.width_bits matches Some(w) ==> room.width_bits == w)
                    &&& (input.depth_bits matches Some(d) ==> room.depth_bits == d)
                    &&& (input.height_bits matches Some(h) ==> room.height_bits == h)
                    &&& (input.width_bits is None ==> room.width_bits == DEFAULT_WIDTH_BITS)
                    &&& (input.depth_bits is None ==> room.depth_bits == DEFAULT_DEPTH_BITS)
                    &&& (input.height_bits is None ==> room.height_bits == DEFAULT_HEIGHT_BITS)
                    &&& floor_index(old(self).building@, floor_id@) matches Some(i)
                    &&& final(self).building@ == old(self).building@.update(
                        i,
                        FloorView {
                            rooms: old(self).building@[i].rooms.push(room@),
                            ..old(self).building@[i]
                        },
                    )
                    &&& device_views(final(self).devices@) == device_views(old(self).devices@)
                        + missing_devices(device_views(old(self).devices@), floor_id@, room@)
                },
                Err(e) => {
                    &&& final(self).building == old(self).building
                    &&& final(self).devices@ == old(self).devices@
                    &&& {
                        ||| name_refusal(e, input.name@)
                        ||| (valid_name(input.name@) && size_refusal(
                            e,
                            or_default(input.width_bits, DEFAULT_WIDTH_BITS),
                            or_default(input.depth_bits, DEFAULT_DEPTH_BITS),
                            or_default(input.height_bits, DEFAULT_HEIGHT_BITS),
                        ))
                        ||| (valid_name(input.name@) && requested_size_valid(input)
                            && e is FloorNotFound && floor_index(old(self).building@, floor_id@) is None)
                    }
                },
            },
    {
        let name = match clean_name(input.name.as_str()) {
            Ok(n) => n,
            Err(e) => {
                return Err(e);
            },
        };
        let width = match input.width_bits {
            Some(w) => w,
            None => DEFAULT_WIDTH_BITS,
        };
        let depth = match input.depth_bits {
            Some(d) => d,
            None => DEFAULT_DEPTH_BITS,
        };
        let height = match input.height_bits {
            Some(h) => h,
            None => DEFAULT_HEIGHT_BITS,
        };
        match validate_size(width, depth, height) {
            Ok(()) => {},
            Err(e) => {
                return Err(e);
            },
        }
        let kind = match input.kind {
            Some(k) => k,
            None => RoomKind::Office,
        };
        let ghost requested_color = or_default(opt_string_view(input.color), default_room_color());
        let mut room = Room::new(new_room_id(), name, kind);
        room.width_bits = width;
        room.depth_bits = depth;
        room.height_bits = height;
        match input.color {
            Some(c) => {
                room.color = c;
            },
            None => {},
        }
        assert(room@ == requested_room(room.id@, input));
        let answer = room.copy();
        match self.building.add_room(floor_id, room) {
            Ok(()) => {},
            Err(e) => {
                return Err(e);
            },
        }
        ensure_room_devices(self, floor_id, &answer);
        Ok(answer)
    }

    /// Updates room `room_id`: renames it (the trimmed name must have 1 to 60
    /// characters), recolours it (a trimmed colour of 1 to 32 characters;
    /// others are ignored), resizes it and changes its kind, then registers
    /// its missing default devices. As the checks come in that order, a
    /// refused size leaves the new name and colour in place.
    pub fn update_room(&mut self, room_id: &str, patch: RoomPatch) -> (r: Result<Room, ApiError>)
        ensures
            final(self).blueprints@ == old(self).blueprints@,
            match room_floor_index(old(self).building@, room_id@) {
                None => r matches Err(e) && e is RoomNotFound && final(self).building
                    == old(self).building && final(self).devices@ == old(self).devices@,
                Some(i) => {
                    let floor = old(self).building@[i];
                    let k = room_index(floor.rooms, room_id@).unwrap();
                    let room = floor.rooms[k];
                    let renamed = renamed_room(
                        room,
                        opt_string_view(patch.name),
                        opt_string_view(patch.color),
                    );
                    if patch.name is Some && !valid_name(patch.name.unwrap()@) {
                        r matches Err(e) && name_refusal(e, patch.name.unwrap()@) && final(self).building
                            == old(self).building && final(self).devices@ == old(self).devices@
                    } else if !patched_size_valid(renamed, patch) {
                        &&& r matches Err(e) && size_refusal(
                            e,
                            or_default(patch.width_bits, renamed.width_bits),
                            or_default(patch.depth_bits, renamed.depth_bits),
                            or_default(patch.height_bits, renamed.height_bits),
                        )
                        &&& final(self).building@ == with_room(old(self).building@, i, k, renamed)
                        &&& final(self).devices@ == old(self).devices@
                    } else {
                        &&& r matches Ok(updated)
                        &&& updated@ == patched_room(room, patch)
                        &&& final(self).building@ == with_room(old(self).building@, i, k, updated@)
                        &&& device_views(final(self).devices@) == device_views(old(self).devices@)
                            + missing_devices(device_views(old(self).devices@), floor.id, updated@)
                    }
                },
            },
    {
        let (i, k) = match self.building.locate_room(room_id) {
            Some(loc) => loc,
            None => {
                return Err(ApiError::RoomNotFound);
            },
        };
        let floor_id = self.building.floors[i].id.clone();
        let mut room = self.building.floors[i].rooms[k].copy();
        let ghost original = room@;
        match patch.name {
            Some(n) => {
                match clean_name(n.as_str()) {
                    Ok(cleaned) => {
                        room.name = cleaned;
                    },
                    Err(e) => {
                        return Err(e);
                    },
                }
            },
            None => {},
        }
        match patch.color {
            Some(c) => {
                match clean_color(c.as_str()) {
                    Some(cleaned) => {
                        room.color = cleaned;
                    },
                    None => {},
                }
            },
            None => {},
        }
        let ghost renamed = room@;
        assert(renamed == renamed_room(original, opt_string_view(patch.name), opt_string_view(patch.color)));
        let width = match patch.width_bits {
            Some(w) => w,
            None => room.width_bits,
        };
        let depth = match patch.depth_bits {
            Some(d) => d,
            None => room.depth_bits,
        };
        let height = match patch.height_bits {
            Some(h) => h,
            None => room.height_bits,
        };
        match validate_size(width, depth, height) {
            Ok(()) => {},
            Err(e) => {
                self.building.replace_room(i, k, room);
                return Err(e);
            },
        }
        room.width_bits = width;
        room.depth_bits = depth;
        room.height_bits = height;
        match patch.kind {
            Some(kind) => {
                room.kind = kind;
            },
            None => {},
        }
        assert(room@ == patched_room(original, patch));
        let answer = room.copy();
        self.building.replace_room(i, k, room);
        ensure_room_devices(self, floor_id.as_str(), &answer);
        Ok(answer)
    }

    /// Deletes room `room_id` and its devices (see `Building::remove_room`);
    /// refused, with nothing changed, when no floor holds the room.
    pub fn delete_room(&mut self, room_id: &str) -> (r: Result<(), ApiError>)
        ensures
            final(self).blueprints@ == old(self).blueprints@,
            match r {
                Ok(()) => floor_of_room(old(self).building@, room_id@) matches Some(f) && floor_index(
                    old(self).building@,
                    f,
                ) matches Some(i) && final(self).building@ == old(self).building@.update(
                    i,
                    FloorView {
                        rooms: old(self).building@[i].rooms.filter(room_id_is_not(room_id@)),
                        ..old(self).building@[i]
                    },
                ) && final(self).devices@ == old(self).devices@.filter(device_room_is_not(room_id@)),
                Err(e) => e is RoomNotFound && floor_of_room(old(self).building@, room_id@) is None
                    && final(self).building == old(self).building && final(self).devices@
                    == old(self).devices@,
            },
    {
        match self.building.remove_room(room_id) {
            Ok(()) => {},
            Err(e) => {
                return Err(e);
            },
        }
        self.remove_room_devices(room_id);
        Ok(())
    }

    /// Deletes floor `floor_id` (every floor with that id) and the devices of
    /// the rooms of the first such floor, whose ids it returns; refused, with
    /// nothing changed, when there is no such floor.
    pub fn delete_floor(&mut self, floor_id: &str) -> (r: Result<Vec<String>, ApiError>)
        ensures
            final(self).blueprints@ == old(self).blueprints@,
            match r {
                Ok(ids) => rooms_of_floor(old(self).building@, floor_id@) == Some(
                    ids@.map_values(|s: String| s@),
                ) && final(self).building@ == old(self).building@.filter(floor_id_is_not(floor_id@))
                    && final(self).devices@ == old(self).devices@.filter(
                    device_room_not_in(ids@.map_values(|s: String| s@)),
                ),
                Err(e) => e is FloorNotFound && rooms_of_floor(old(self).building@, floor_id@) is None
                    && final(self).building == old(self).building && final(self).devices@
                    == old(self).devices@,
            },
    {
        let ids = match self.building.floor_room_ids(floor_id) {
            Some(ids) => ids,
            None => {
                return Err(ApiError::FloorNotFound);
            },
        };
        self.building.remove_floor(floor_id);
        self.remove_devices_of_rooms(&ids);
        Ok(ids)
    }

    /// Checks a manual (game) actuator command and gives the topic it is
    /// published on: the room must be on some floor and have a registered
    /// actuator device of that type.
    pub fn control_actuator_topic(&self, room_id: &str, actuator: &str) -> (r: Result<String, ApiError>)
        ensures
            match r {
                Ok(t) => floor_of_room(self.building@, room_id@) matches Some(f) && t@
                    == actuator_command_topic(f, room_id@, actuator@) && exists|i: int|
                    0 <= i < self.devices@.len() && self.devices@[i].room_id@ == room_id@
                        && self.devices@[i].kind == DeviceKind::Actuator
                        && self.devices@[i].device_type@ == actuator@,
                Err(e) => {
                    ||| (e is RoomNotFound && floor_of_room(self.building@, room_id@) is None)
                    ||| (e matches ApiError::UnknownActuator(a) && a@ == actuator@ && floor_of_room(
                        self.building@,
                        room_id@,
                    ) is Some && !exists|i: int|
                        0 <= i < self.devices@.len() && self.devices@[i].room_id@ == room_id@
                            && self.devices@[i].kind == DeviceKind::Actuator
                            && self.devices@[i].device_type@ == actuator@)
                },
            },
    {
        let floor_id = match self.building.floor_id_for_room(room_id) {
            Some(f) => f,
            None => {
                return Err(ApiError::RoomNotFound);
            },
        };
        let devices = &self.devices;
        let mut i: usize = 0;
        while i < devices.len()
            invariant
                devices == &self.devices,
                floor_of_room(self.building@, room_id@) == Some(floor_id@),
                i <= devices@.len(),
                forall|j: int|
                    0 <= j < i ==> !(devices@[j].room_id@ == room_id@ && devices@[j].kind
                        == DeviceKind::Actuator && devices@[j].device_type@ == actuator@),
            decreases devices@.len() - i,
        {
            let d = &devices[i];
            if str_eq(d.room_id.as_str(), room_id) && d.kind == DeviceKind::Actuator && str_eq(
                d.device_type.as_str(),
                actuator,
            ) {
                assert(devices@[i as int].room_id@ == room_id@ && devices@[i as int].kind
                    == DeviceKind::Actuator && devices@[i as int].device_type@ == actuator@);
                return Ok(actuator_command(floor_id.as_str(), room_id, actuator));
            }
            i = i + 1;
        }
        Err(ApiError::UnknownActuator(String::from_str(actuator)))
    }

    /// The topic a room configuration is published on; refused for a room
    /// that no floor holds.
    pub fn room_config_target(&self, room_id: &str) -> (r: Result<String, ApiError>)
        ensures
            match r {
                Ok(t) => floor_of_room(self.building@, room_id@) matches Some(f) && t@
                    == room_config_topic(f, room_id@),
                Err(e) => e matches ApiError::UnknownRoom(x) && x@ == room_id@ && floor_of_room(
                    self.building@,
                    room_id@,
                ) is None,
            },
    {
        match self.building.floor_id_for_room(room_id) {
            Some(f) => Ok(room_config(f.as_str(), room_id)),
            None => Err(ApiError::UnknownRoom(String::from_str(room_id))),
        }
    }
}

} // verus!
