//! The dashboard observer's bookkeeping: which messages run the blueprints,
//! which enter the event log, and how long the log grows.

use vstd::prelude::*;
use vstd::string::*;
use crate::building::{all_rooms, floor_of_room, placed_views, Building, FloorView, RoomView};
use crate::text::{
    contains, ends_with, occurs_at, seq_contains, seq_ends_with, seq_starts_with, starts_with,
    str_eq,
};
use crate::topics::{
    actuator_command_topic, actuator_state_topic, device_availability_topic, floor_topic,
    legacy_actuator_state, legacy_actuator_state_topic, room,
    room_config_topic, room_event_topic, room_topic, sensor_topic,
};

verus! {

/// The most events the log keeps.
pub const EVENT_LOG_CAPACITY: usize = 100;

/// The log after appending `event`: when it then holds more than the
/// capacity, its oldest entry is dropped.
pub open spec fn log_after<T>(log: Seq<T>, event: T) -> Seq<T> {
    let grown = log.push(event);
    if grown.len() > EVENT_LOG_CAPACITY {
        grown.drop_first()
    } else {
        grown
    }
}

/// Appends an event to the log, dropping the oldest one beyond the
/// capacity.
pub fn record_event<T>(log: &mut Vec<T>, event: T)
    ensures
        final(log)@ == log_after(old(log)@, event),
{
    log.push(event);
    if log.len() > EVENT_LOG_CAPACITY {
        let _ = log.remove(0);
        assert(log@ =~= old(log)@.push(event).drop_first());
    }
}

/// A log that never held more than the capacity keeps holding at most
/// that many events, and always ends with the newest.
pub proof fn event_log_is_bounded<T>(log: Seq<T>, event: T)
    requires
        log.len() <= EVENT_LOG_CAPACITY,
    ensures
        log_after(log, event).len() <= EVENT_LOG_CAPACITY,
        log_after(log, event).last() == event,
        log_after(log, event).len() == if log.len() < EVENT_LOG_CAPACITY {
            log.len() + 1
        } else {
            log.len()
        },
{
}

/// What the observer does with a message on `topic`.
#[derive(Debug, Clone, Copy, PartialEq, Eq, Structural)]
pub struct ObserverRoute {
    /// A sensor message: run the blueprints.
    pub run_blueprints: bool,
    /// An event or availability message: log it.
    pub log_event: bool,
}

/// Routes a (fresh, not stale) message by its topic.
pub fn observer_route(topic: &str) -> (r: ObserverRoute)
    ensures
        r.run_blueprints == seq_contains(topic@, "/sensor/"@),
        r.log_event == (seq_ends_with(topic@, "/event"@) || seq_ends_with(topic@, "/availability"@)),
{
    let run_blueprints = contains(topic, "/sensor/");
    let log_event = ends_with(topic, "/event") || ends_with(topic, "/availability");
    ObserverRoute { run_blueprints, log_event }
}

/// The room in the id of a simulator device (`sensor-{room}`,
/// `actuator-{room}`, `controller-{room}` or `energy-meter-{room}`; the
/// first prefix that matches).
pub open spec fn simulator_room(device_id: Seq<char>) -> Option<Seq<char>> {
    if seq_starts_with(device_id, "sensor-"@) {
        Some(device_id.skip("sensor-"@.len() as int))
    } else if seq_starts_with(device_id, "actuator-"@) {
        Some(device_id.skip("actuator-"@.len() as int))
    } else if seq_starts_with(device_id, "controller-"@) {
        Some(device_id.skip("controller-"@.len() as int))
    } else if seq_starts_with(device_id, "energy-meter-"@) {
        Some(device_id.skip("energy-meter-"@.len() as int))
    } else {
        None
    }
}

/// The room a message is about: its own room id, else the room in the id
/// of the simulator device that sent it.
pub open spec fn message_room(room_id: Option<Seq<char>>, device_id: Seq<char>) -> Option<Seq<char>> {
    match room_id {
        Some(r) => Some(r),
        None => simulator_room(device_id),
    }
}

/// Whether a cached message is a leftover: its room was deleted, or its
/// topic is a room topic outside the current floor-level scheme of that room.
pub open spec fn stale_message(
    floors: Seq<FloorView>,
    topic: Seq<char>,
    room_id: Option<Seq<char>>,
    device_id: Seq<char>,
) -> bool {
    match message_room(room_id, device_id) {
        None => false,
        Some(r) => match floor_of_room(floors, r) {
            None => true,
            Some(f) => seq_contains(topic, "/room/"@) && !seq_starts_with(
                topic,
                room_topic(f, r) + "/"@,
            ),
        },
    }
}

/// `s` without its first `k` characters.
fn skip_chars(s: &str, k: usize) -> (r: String)
    requires
        k <= s@.len(),
    ensures
        r@ == s@.skip(k as int),
{
    let n: usize = s.unicode_len();
    let piece = s.substring_char(k, n);
    String::from_str(piece)
}

/// The text after `prefix`, if `s` begins with it.
fn strip_prefix(s: &str, prefix: &str) -> (r: Option<String>)
    ensures
        match r {
            Some(t) => seq_starts_with(s@, prefix@) && t@ == s@.skip(prefix@.len() as int),
            None => !seq_starts_with(s@, prefix@),
        },
{
    if starts_with(s, prefix) {
        let k: usize = prefix.unicode_len();
        Some(skip_chars(s, k))
    } else {
        None
    }
}

/// Whether a retained message must stay out of the dashboard state: its
/// room (its own, or the one in its simulator device id) no longer exists,
/// or its room topic is not under that room's current floor.
pub fn is_stale(
    layout: &Building,
    topic: &str,
    room_id: &Option<String>,
    device_id: &str,
) -> (r: bool)
    ensures
        r == stale_message(
            layout@,
            topic@,
            match room_id {
                Some(x) => Some(x@),
                None => None,
            },
            device_id@,
        ),
{
    let about: String = match room_id {
        Some(x) => x.clone(),
        None => {
            let from_device = match strip_prefix(device_id, "sensor-") {
                Some(t) => Some(t),
                None => match strip_prefix(device_id, "actuator-") {
                    Some(t) => Some(t),
                    None => match strip_prefix(device_id, "controller-") {
                        Some(t) => Some(t),
                        None => strip_prefix(device_id, "energy-meter-"),
                    },
                },
            };
            match from_device {
                Some(t) => t,
                None => {
                    return false;
                },
            }
        },
    };
    let floor_id = match layout.floor_id_for_room(about.as_str()) {
        Some(f) => f,
        None => {
            return true;
        },
    };
    if !contains(topic, "/room/") {
        return false;
    }
    let mut prefix = room(floor_id.as_str(), about.as_str());
    prefix.append("/");
    !starts_with(topic, prefix.as_str())
}

proof fn lemma_slash_follows(a: Seq<char>, b: Seq<char>, c: Seq<char>)
    requires
        b.len() > 0,
        b[0] == '/',
    ensures
        seq_starts_with(a + b + c, a + "/"@),
{
    reveal_strlit("/");
    let t = a + b + c;
    assert(t[a.len() as int] == '/');
    assert(t.subrange(0, a.len() + 1int) =~= a + "/"@);
}

proof fn lemma_marker_inside(f: Seq<char>, x: Seq<char>, r: Seq<char>, b: Seq<char>, c: Seq<char>)
    requires
        b.len() > 0,
        b[0] == '/',
    ensures
        occurs_at(f + x + r + b + c, x + r + "/"@, f.len() as int),
        seq_contains(f + x + r + b + c, x + r + "/"@),
{
    reveal_strlit("/");
    let t = f + x + r + b + c;
    let m = x + r + "/"@;
    assert(t.subrange(f.len() as int, f.len() + m.len() as int) =~= m);
}

/// Messages on the current topics of an existing room are never stale,
/// and messages about a room that no floor holds always are.
pub proof fn stale_means_outdated(
    floors: Seq<FloorView>,
    floor_id: Seq<char>,
    room_id: Seq<char>,
    name: Seq<char>,
    device_id: Seq<char>,
)
    ensures
        floor_of_room(floors, room_id) == Some(floor_id) ==> !stale_message(
            floors,
            sensor_topic(floor_id, room_id, name),
            Some(room_id),
            device_id,
        ),
        floor_of_room(floors, room_id) == Some(floor_id) ==> !stale_message(
            floors,
            actuator_state_topic(floor_id, room_id, name),
            Some(room_id),
            device_id,
        ),
        floor_of_room(floors, room_id) is None ==> stale_message(
            floors,
            sensor_topic(floor_id, room_id, name),
            Some(room_id),
            device_id,
        ),
{
    reveal_strlit("/sensor/");
    reveal_strlit("/actuator/");
    let base = room_topic(floor_id, room_id);
    lemma_slash_follows(base, "/sensor/"@, name);
    lemma_slash_follows(base, "/actuator/"@, name + "/state"@);
    assert(base + "/actuator/"@ + (name + "/state"@) =~= actuator_state_topic(
        floor_id,
        room_id,
        name,
    ));
}

/// The room named in a simulator device's id is what a message without a
/// room id is judged by: from the sensor, actuator, controller or energy
/// meter simulator of a room that no floor holds, such a message is stale;
/// from one of a room that a floor holds, on a topic that is not a room
/// topic (such as its availability topic), it is kept.
pub proof fn simulator_messages_follow_their_room(
    floors: Seq<FloorView>,
    topic: Seq<char>,
    kind: Seq<char>,
    room_id: Seq<char>,
)
    requires
        kind == "sensor"@ || kind == "actuator"@ || kind == "controller"@ || kind
            == "energy-meter"@,
    ensures
        floor_of_room(floors, room_id) is None ==> stale_message(
            floors,
            topic,
            None,
            kind + "-"@ + room_id,
        ),
        floor_of_room(floors, room_id) is Some && !seq_contains(topic, "/room/"@)
            ==> !stale_message(floors, topic, None, kind + "-"@ + room_id),
{
    reveal_strlit("sensor");
    reveal_strlit("actuator");
    reveal_strlit("controller");
    reveal_strlit("energy-meter");
    reveal_strlit("sensor-");
    reveal_strlit("actuator-");
    reveal_strlit("controller-");
    reveal_strlit("energy-meter-");
    reveal_strlit("-");
    let d = kind + "-"@ + room_id;
    let p = kind + "-"@;
    assert(d.subrange(0, p.len() as int) =~= p);
    assert(d.skip(p.len() as int) =~= room_id);
    assert(d[0] == kind[0]);
    if kind == "sensor"@ {
        assert(p =~= "sensor-"@);
    } else if kind == "actuator"@ {
        assert(p =~= "actuator-"@);
        assert(!seq_starts_with(d, "sensor-"@)) by {
            assert(d.subrange(0, 7)[0] != "sensor-"@[0]);
        }
    } else if kind == "controller"@ {
        assert(p =~= "controller-"@);
        assert(!seq_starts_with(d, "sensor-"@)) by {
            assert(d.subrange(0, 7)[0] != "sensor-"@[0]);
        }
        assert(!seq_starts_with(d, "actuator-"@)) by {
            assert(d.subrange(0, 9)[0] != "actuator-"@[0]);
        }
    } else {
        assert(p =~= "energy-meter-"@);
        assert(!seq_starts_with(d, "sensor-"@)) by {
            assert(d.subrange(0, 7)[0] != "sensor-"@[0]);
        }
        assert(!seq_starts_with(d, "actuator-"@)) by {
            assert(d.subrange(0, 9)[0] != "actuator-"@[0]);
        }
        assert(!seq_starts_with(d, "controller-"@)) by {
            assert(d.subrange(0, 11)[0] != "controller-"@[0]);
        }
    }
    assert(simulator_room(d) == Some(room_id));
}

/// The topics of a deleted room, and the availability topics of its four
/// simulator devices, leave the dashboard cache.
pub proof fn deleted_room_topics_are_dropped(floor_id: Seq<char>, room_id: Seq<char>, name: Seq<char>)
    ensures
        !survives_room_deletion(sensor_topic(floor_id, room_id, name), room_id),
        !survives_room_deletion(actuator_state_topic(floor_id, room_id, name), room_id),
        !survives_room_deletion(actuator_command_topic(floor_id, room_id, name), room_id),
        !survives_room_deletion(room_event_topic(floor_id, room_id), room_id),
        !survives_room_deletion(room_config_topic(floor_id, room_id), room_id),
        !survives_room_deletion(
            device_availability_topic(simulator_device("sensor"@, room_id)),
            room_id,
        ),
        !survives_room_deletion(
            device_availability_topic(simulator_device("actuator"@, room_id)),
            room_id,
        ),
        !survives_room_deletion(
            device_availability_topic(simulator_device("controller"@, room_id)),
            room_id,
        ),
        !survives_room_deletion(
            device_availability_topic(simulator_device("energy-meter"@, room_id)),
            room_id,
        ),
{
    reveal_strlit("/sensor/");
    reveal_strlit("/actuator/");
    reveal_strlit("/event");
    reveal_strlit("/config");
    let f = floor_topic(floor_id);
    let x = "/room/"@;
    let empty = Seq::<char>::empty();
    lemma_marker_inside(f, x, room_id, "/sensor/"@, name);
    lemma_marker_inside(f, x, room_id, "/actuator/"@, name + "/state"@);
    assert(f + x + room_id + "/actuator/"@ + (name + "/state"@) =~= actuator_state_topic(
        floor_id,
        room_id,
        name,
    ));
    lemma_marker_inside(f, x, room_id, "/actuator/"@, name + "/command"@);
    assert(f + x + room_id + "/actuator/"@ + (name + "/command"@) =~= actuator_command_topic(
        floor_id,
        room_id,
        name,
    ));
    lemma_marker_inside(f, x, room_id, "/event"@, empty);
    assert(f + x + room_id + "/event"@ + empty =~= room_event_topic(floor_id, room_id));
    lemma_marker_inside(f, x, room_id, "/config"@, empty);
    assert(f + x + room_id + "/config"@ + empty =~= room_config_topic(floor_id, room_id));
    assert forall|kind: Seq<char>| #![trigger simulator_device(kind, room_id)]
        is_availability_of(
            device_availability_topic(simulator_device(kind, room_id)),
            simulator_device(kind, room_id),
        ) by {
        let d = simulator_device(kind, room_id);
        let t = device_availability_topic(d);
        let suffix = "/device/"@ + d + "/availability"@;
        assert(t.subrange(t.len() - suffix.len(), t.len() as int) =~= suffix);
    }
}

/// The id of a simulator device of a room: `{kind}-{room}`.
pub open spec fn simulator_device(kind: Seq<char>, room_id: Seq<char>) -> Seq<char> {
    kind + "-"@ + room_id
}

/// Whether `topic` is the availability topic of a device named `device`.
pub open spec fn is_availability_of(topic: Seq<char>, device: Seq<char>) -> bool {
    seq_ends_with(topic, "/device/"@ + device + "/availability"@)
}

/// Whether a cached topic survives the deletion of `room_id`: it is not a
/// topic of that room and not the availability topic of one of the room's
/// four simulator devices.
pub open spec fn survives_room_deletion(topic: Seq<char>, room_id: Seq<char>) -> bool {
    &&& !seq_contains(topic, "/room/"@ + room_id + "/"@)
    &&& !is_availability_of(topic, simulator_device("sensor"@, room_id))
    &&& !is_availability_of(topic, simulator_device("actuator"@, room_id))
    &&& !is_availability_of(topic, simulator_device("controller"@, room_id))
    &&& !is_availability_of(topic, simulator_device("energy-meter"@, room_id))
}

/// Whether `topic` ends with the availability topic of `{kind}-{room}`.
fn ends_with_availability(topic: &str, kind: &str, room_id: &str) -> (r: bool)
    ensures
        r == is_availability_of(topic@, simulator_device(kind@, room_id@)),
{
    let mut suffix = String::from_str("/device/");
    suffix.append(kind);
    suffix.append("-");
    suffix.append(room_id);
    suffix.append("/availability");
    assert(suffix@ =~= "/device/"@ + simulator_device(kind@, room_id@) + "/availability"@);
    ends_with(topic, suffix.as_str())
}

/// Whether the dashboard keeps a cached topic once `room_id` is deleted.
pub fn keeps_topic_after_room_deletion(topic: &str, room_id: &str) -> (r: bool)
    ensures
        r == survives_room_deletion(topic@, room_id@),
{
    let mut marker = String::from_str("/room/");
    marker.append(room_id);
    marker.append("/");
    if contains(topic, marker.as_str()) {
        return false;
    }
    !ends_with_availability(topic, "sensor", room_id) && !ends_with_availability(
        topic,
        "actuator",
        room_id,
    ) && !ends_with_availability(topic, "controller", room_id) && !ends_with_availability(
        topic,
        "energy-meter",
        room_id,
    )
}


/// The id of a simulator device of a room: `{kind}-{room}` (kinds `sensor`,
/// `actuator`, `controller` and `energy-meter`).
pub fn simulator_device_id(kind: &str, room_id: &str) -> (r: String)
    ensures
        r@ == simulator_device(kind@, room_id@),
{
    let mut s = String::from_str(kind);
    s.append("-");
    s.append(room_id);
    s
}

/// The actuators whose states may be retained under the room-level topic
/// scheme without floors.
pub open spec fn legacy_actuators() -> Seq<Seq<char>> {
    seq!["heating"@, "ventilation"@, "lights"@, "door_lock"@, "garage_door"@]
}

/// The legacy retained state topics of the placed rooms: for each room, in
/// order, those of the legacy actuators.
pub open spec fn legacy_topics_of(placed: Seq<(Seq<char>, RoomView)>) -> Seq<Seq<char>>
    decreases placed.len(),
{
    if placed.len() == 0 {
        Seq::empty()
    } else {
        legacy_topics_of(placed.drop_last()) + legacy_actuators().map_values(
            |a: Seq<char>| legacy_actuator_state_topic(placed.last().1.id, a),
        )
    }
}

/// The retained state topics of the scheme without floors that the
/// dashboard clears at start-up: five per room of the building.
pub fn legacy_retained_topics(building: &Building) -> (r: Vec<String>)
    ensures
        r@.map_values(|t: String| t@) == legacy_topics_of(all_rooms(building@)),
{
    let placed = building.rooms();
    let ghost rooms = placed_views(placed@);
    let names: Vec<&str> = vec!["heating", "ventilation", "lights", "door_lock", "garage_door"];
    assert(names@.map_values(|n: &str| n@) =~= legacy_actuators());
    let mut out: Vec<String> = Vec::new();
    let mut p: usize = 0;
    assert(rooms.take(0) =~= Seq::<(Seq<char>, RoomView)>::empty());
    while p < placed.len()
        invariant
            rooms == placed_views(placed@),
            rooms == all_rooms(building@),
            names@.map_values(|n: &str| n@) == legacy_actuators(),
            p <= placed@.len(),
            out@.map_values(|t: String| t@) == legacy_topics_of(rooms.take(p as int)),
        decreases placed@.len() - p,
    {
        let room_id = placed[p].1.id.as_str();
        let ghost start = out@.map_values(|t: String| t@);
        let ghost per_room = legacy_actuators().map_values(
            |a: Seq<char>| legacy_actuator_state_topic(room_id@, a),
        );
        let mut a: usize = 0;
        while a < names.len()
            invariant
                names@.map_values(|n: &str| n@) == legacy_actuators(),
                per_room == legacy_actuators().map_values(
                    |x: Seq<char>| legacy_actuator_state_topic(room_id@, x),
                ),
                a <= names@.len(),
                out@.map_values(|t: String| t@) == start + per_room.take(a as int),
            decreases names@.len() - a,
        {
            let ghost prev = out@;
            out.push(legacy_actuator_state(room_id, names[a]));
            proof {
                assert(names@[a as int]@ == legacy_actuators()[a as int]);
                assert(out@.map_values(|t: String| t@) =~= prev.map_values(|t: String| t@).push(
                    per_room[a as int],
                ));
                assert(per_room.take(a + 1) =~= per_room.take(a as int).push(per_room[a as int]));
            }
            a = a + 1;
        }
        proof {
            assert(per_room.take(5) =~= per_room);
            assert(rooms.take(p + 1).drop_last() =~= rooms.take(p as int));
            assert(rooms[p as int].1.id == room_id@);
        }
        p = p + 1;
    }
    assert(rooms.take(placed@.len() as int) =~= rooms);
    out
}


/// The log after appending `events`, one by one, to `log`.
pub open spec fn log_after_all<T>(log: Seq<T>, events: Seq<T>) -> Seq<T>
    decreases events.len(),
{
    if events.len() == 0 {
        log
    } else {
        log_after(log_after_all(log, events.drop_last()), events.last())
    }
}

/// How many of the oldest entries of `s` a log of the capacity lacks.
pub open spec fn overflow<T>(s: Seq<T>) -> int {
    if s.len() > EVENT_LOG_CAPACITY {
        s.len() - EVENT_LOG_CAPACITY
    } else {
        0
    }
}

/// However many events arrive, a log that started within the capacity
/// holds exactly the newest ones: the last (at most) hundred of everything
/// it was given, in order.
pub proof fn event_log_keeps_the_newest<T>(log: Seq<T>, events: Seq<T>)
    requires
        log.len() <= EVENT_LOG_CAPACITY,
    ensures
        log_after_all(log, events) == (log + events).skip(overflow(log + events)),
        log_after_all(log, events).len() <= EVENT_LOG_CAPACITY,
    decreases events.len(),
{
    if events.len() == 0 {
        assert(log + events =~= log);
        assert(log.skip(0) =~= log);
    } else {
        let rest = events.drop_last();
        event_log_keeps_the_newest(log, rest);
        let before = log + rest;
        let all = log + events;
        assert(all =~= before.push(events.last()));
        let prev = log_after_all(log, rest);
        assert(prev.push(events.last()) =~= all.skip(overflow(before)));
        if prev.len() + 1 > EVENT_LOG_CAPACITY {
            assert(prev.push(events.last()).drop_first() =~= all.skip(overflow(all)));
        } else {
            assert(overflow(all) == overflow(before));
        }
    }
}

/// The index of the first entry for `topic`.
pub open spec fn topic_index<T>(entries: Seq<(Seq<char>, T)>, topic: Seq<char>) -> Option<int>
    decreases entries.len(),
{
    if entries.len() == 0 {
        None
    } else if entries[0].0 == topic {
        Some(0)
    } else {
        match topic_index(entries.drop_first(), topic) {
            Some(i) => Some(i + 1),
            None => None,
        }
    }
}

/// The cache after keeping `message` as the latest on `topic`: it replaces
/// the entry for that topic, or joins the cache at its end.
pub open spec fn cache_put<T>(entries: Seq<(Seq<char>, T)>, topic: Seq<char>, message: T) -> Seq<(Seq<char>, T)> {
    match topic_index(entries, topic) {
        Some(i) => entries.update(i, (topic, message)),
        None => entries.push((topic, message)),
    }
}

/// The latest message cached on `topic`.
pub open spec fn cached<T>(entries: Seq<(Seq<char>, T)>, topic: Seq<char>) -> Option<T> {
    match topic_index(entries, topic) {
        Some(i) => Some(entries[i].1),
        None => None,
    }
}

pub proof fn lemma_topic_index<T>(entries: Seq<(Seq<char>, T)>, topic: Seq<char>)
    ensures
        match topic_index(entries, topic) {
            Some(i) => 0 <= i < entries.len() && entries[i].0 == topic && forall|j: int|
                0 <= j < i ==> entries[j].0 != topic,
            None => forall|j: int| 0 <= j < entries.len() ==> entries[j].0 != topic,
        },
    decreases entries.len(),
{
    if entries.len() > 0 && entries[0].0 != topic {
        lemma_topic_index(entries.drop_first(), topic);
        assert forall|j: int| 1 <= j < entries.len() implies entries[j] == entries.drop_first()[j - 1] by {}
    }
}

proof fn lemma_topic_index_at<T>(entries: Seq<(Seq<char>, T)>, topic: Seq<char>, i: int)
    requires
        0 <= i < entries.len(),
        entries[i].0 == topic,
        forall|j: int| 0 <= j < i ==> entries[j].0 != topic,
    ensures
        topic_index(entries, topic) == Some(i),
{
    lemma_topic_index(entries, topic);
}

/// The cache keeps the latest message of each topic: after a message is
/// cached on `topic`, `topic` gives that message and every other topic
/// gives what it gave before.
pub proof fn cache_keeps_the_latest<T>(entries: Seq<(Seq<char>, T)>, topic: Seq<char>, message: T, other: Seq<char>)
    ensures
        cached(cache_put(entries, topic, message), topic) == Some(message),
        other != topic ==> cached(cache_put(entries, topic, message), other) == cached(entries, other),
{
    let put = cache_put(entries, topic, message);
    lemma_topic_index(entries, topic);
    lemma_topic_index(entries, other);
    lemma_topic_index(put, other);
    let i: int = match topic_index(entries, topic) {
        Some(i) => i,
        None => entries.len() as int,
    };
    assert(put.len() == entries.len() || put.len() == entries.len() + 1);
    assert(0 <= i < put.len() && put[i] == (topic, message));
    assert forall|j: int| 0 <= j < put.len() && j != i implies #[trigger] put[j] == entries[j] by {}
    lemma_topic_index_at(put, topic, i);
    if other != topic {
        match topic_index(entries, other) {
            Some(k) => {
                assert(k != i);
                assert forall|j: int| 0 <= j < k implies put[j].0 != other by {
                    if j != i {
                        assert(put[j] == entries[j]);
                    }
                }
                lemma_topic_index_at(put, other, k);
            },
            None => {
                assert forall|j: int| 0 <= j < put.len() implies put[j].0 != other by {
                    if j != i {
                        assert(put[j] == entries[j]);
                    }
                }
            },
        }
    }
}

/// The dashboard's memory of the building: the latest accepted message on
/// each topic and the log of events, newest last.
pub struct Dashboard<T> {
    topics: Vec<(String, T)>,
    events: Vec<T>,
}

/// The dashboard as a mathematical value.
pub struct DashboardView<T> {
    pub topics: Seq<(Seq<char>, T)>,
    pub events: Seq<T>,
}

/// The views of topic entries.
pub open spec fn entry_views<T>(entries: Seq<(String, T)>) -> Seq<(Seq<char>, T)> {
    entries.map_values(|e: (String, T)| (e.0@, e.1))
}

impl<T> View for Dashboard<T> {
    type V = DashboardView<T>;

    closed spec fn view(&self) -> DashboardView<T> {
        DashboardView { topics: entry_views(self.topics@), events: self.events@ }
    }
}

/// Topic entries that survive the deletion of `room_id`.
pub open spec fn entry_survives<T>(room_id: Seq<char>) -> spec_fn((Seq<char>, T)) -> bool {
    |e: (Seq<char>, T)| survives_room_deletion(e.0, room_id)
}

/// Held topic entries that survive the deletion of `room_id`.
pub open spec fn held_entry_survives<T>(room_id: Seq<char>) -> spec_fn((String, T)) -> bool {
    |e: (String, T)| survives_room_deletion(e.0@, room_id)
}

impl<T> Dashboard<T> {
    #[verifier::type_invariant]
    spec fn log_within_capacity(&self) -> bool {
        self.events@.len() <= EVENT_LOG_CAPACITY
    }

    /// Nothing cached, nothing logged.
    pub fn new() -> (d: Self)
        ensures
            d@.topics.len() == 0,
            d@.events.len() == 0,
    {
        Dashboard { topics: Vec::new(), events: Vec::new() }
    }

    /// Takes a message that arrived on `topic` (two copies of it: one to
    /// cache, one to log). A stale message is dropped and changes nothing.
    /// Otherwise it becomes the latest on its topic, an event or
    /// availability message joins the log (dropping the oldest beyond a
    /// hundred), and the answer routes it.
    pub fn receive(
        &mut self,
        building: &Building,
        topic: &str,
        room_id: &Option<String>,
        device_id: &str,
        to_cache: T,
        to_log: T,
    ) -> (r: Option<ObserverRoute>)
        ensures
            final(self)@.events.len() <= EVENT_LOG_CAPACITY,
            if stale_message(
                building@,
                topic@,
                match room_id {
                    Some(x) => Some(x@),
                    None => None,
                },
                device_id@,
            ) {
                r is None && final(self)@ == old(self)@
            } else {
                &&& r matches Some(route)
                &&& route.run_blueprints == seq_contains(topic@, "/sensor/"@)
                &&& route.log_event == (seq_ends_with(topic@, "/event"@) || seq_ends_with(
                    topic@,
                    "/availability"@,
                ))
                &&& final(self)@.topics == cache_put(old(self)@.topics, topic@, to_cache)
                &&& final(self)@.events == if route.log_event {
                    log_after(old(self)@.events, to_log)
                } else {
                    old(self)@.events
                }
            },
    {
        proof {
            use_type_invariant(&*self);
        }
        if is_stale(building, topic, room_id, device_id) {
            return None;
        }
        let route = observer_route(topic);
        let ghost old_topics = entry_views(self.topics@);
        proof {
            lemma_topic_index(old_topics, topic@);
        }
        let mut entries: Vec<(String, T)> = Vec::new();
        std::mem::swap(&mut entries, &mut self.topics);
        let mut i: usize = 0;
        while i < entries.len() && !str_eq(entries[i].0.as_str(), topic)
            invariant
                old_topics == entry_views(entries@),
                i <= entries@.len(),
                forall|j: int| 0 <= j < i ==> old_topics[j].0 != topic@,
            decreases entries@.len() - i,
        {
            i = i + 1;
        }
        let found: Option<usize> = if i < entries.len() {
            Some(i)
        } else {
            None
        };
        match found {
            Some(k) => {
                proof {
                    lemma_topic_index_at(old_topics, topic@, k as int);
                }
                let ghost before = entries@;
                entries.set(k, (String::from_str(topic), to_cache));
                proof {
                    assert(entry_views(entries@) =~= old_topics.update(k as int, (topic@, to_cache)));
                }
            },
            None => {
                let ghost before = entries@;
                entries.push((String::from_str(topic), to_cache));
                proof {
                    assert(entry_views(entries@) =~= old_topics.push((topic@, to_cache)));
                }
            },
        }
        self.topics = entries;
        if route.log_event {
            let mut log: Vec<T> = Vec::new();
            std::mem::swap(&mut log, &mut self.events);
            proof {
                event_log_is_bounded(log@, to_log);
            }
            record_event(&mut log, to_log);
            self.events = log;
        }
        r_some(route)
    }

    /// Forgets the cached topics of a deleted room: its own topics and the
    /// availability topics of its four simulator devices.
    pub fn forget_room(&mut self, room_id: &str)
        ensures
            final(self)@.topics == old(self)@.topics.filter(entry_survives::<T>(room_id@)),
            final(self)@.events == old(self)@.events,
    {
        proof {
            use_type_invariant(&*self);
        }
        let ghost before = self.topics@;
        let ghost pred = held_entry_survives::<T>(room_id@);
        let mut rest: Vec<(String, T)> = Vec::new();
        std::mem::swap(&mut rest, &mut self.topics);
        let mut kept: Vec<(String, T)> = Vec::new();
        let ghost mut j: int = 0;
        assert(before.skip(0) =~= before);
        while rest.len() > 0
            invariant
                pred == held_entry_survives::<T>(room_id@),
                0 <= j <= before.len(),
                rest@ == before.skip(j),
                kept@ == before.take(j).filter(pred),
            decreases rest@.len(),
        {
            proof {
                crate::store::lemma_filter_step(before, j, pred);
                assert(before.skip(j).drop_first() =~= before.skip(j + 1));
            }
            let entry = rest.remove(0);
            if keeps_topic_after_room_deletion(entry.0.as_str(), room_id) {
                kept.push(entry);
            }
            proof {
                j = j + 1;
            }
        }
        proof {
            assert(before.take(j) =~= before);
            crate::building::lemma_map_filter(
                before,
                |e: (String, T)| (e.0@, e.1),
                entry_survives::<T>(room_id@),
            );
            assert(pred =~= |a: (String, T)| entry_survives::<T>(room_id@)((|e: (String, T)| (e.0@, e.1))(a)));
        }
        self.topics = kept;
    }

    /// The cached topics with their latest messages.
    pub fn topics(&self) -> (r: &Vec<(String, T)>)
        ensures
            entry_views(r@) == self@.topics,
    {
        &self.topics
    }

    /// The logged events, oldest first.
    pub fn events(&self) -> (r: &Vec<T>)
        ensures
            r@ == self@.events,
            r@.len() <= EVENT_LOG_CAPACITY,
    {
        proof {
            use_type_invariant(self);
        }
        &self.events
    }
}

fn r_some(route: ObserverRoute) -> (r: Option<ObserverRoute>)
    ensures
        r == Some(route),
{
    Some(route)
}

} // verus!
