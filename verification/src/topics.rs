//! Central MQTT topic builder.
//!
//! Every topic follows the Building -> Floor -> Room hierarchy, so the
//! layout is described once here, both as executable builders and as the
//! spec functions their contracts are stated over.

use vstd::prelude::*;
use vstd::string::*;
use crate::text::{chars_of, matches_at};

verus! {

/// `building/{building}`
pub open spec fn building_topic() -> Seq<char> {
    "building/main"@
}

/// `building/{building}/floor/{floor}`
pub open spec fn floor_topic(floor_id: Seq<char>) -> Seq<char> {
    building_topic() + "/floor/"@ + floor_id
}

/// `building/{building}/floor/{floor}/room/{room}`
pub open spec fn room_topic(floor_id: Seq<char>, room_id: Seq<char>) -> Seq<char> {
    floor_topic(floor_id) + "/room/"@ + room_id
}

/// `.../room/{room}/sensor/{sensor_type}`
pub open spec fn sensor_topic(floor_id: Seq<char>, room_id: Seq<char>, sensor_type: Seq<char>) -> Seq<char> {
    room_topic(floor_id, room_id) + "/sensor/"@ + sensor_type
}

/// `.../room/{room}/actuator/{actuator}/command`
pub open spec fn actuator_command_topic(floor_id: Seq<char>, room_id: Seq<char>, actuator: Seq<char>) -> Seq<char> {
    room_topic(floor_id, room_id) + "/actuator/"@ + actuator + "/command"@
}

/// `.../room/{room}/actuator/{actuator}/state`
pub open spec fn actuator_state_topic(floor_id: Seq<char>, room_id: Seq<char>, actuator: Seq<char>) -> Seq<char> {
    room_topic(floor_id, room_id) + "/actuator/"@ + actuator + "/state"@
}

/// `.../room/{room}/actuator/+/command`
pub open spec fn actuator_command_filter_topic(floor_id: Seq<char>, room_id: Seq<char>) -> Seq<char> {
    room_topic(floor_id, room_id) + "/actuator/+/command"@
}

/// `.../room/{room}/actuator/+/state`
pub open spec fn actuator_state_filter_topic(floor_id: Seq<char>, room_id: Seq<char>) -> Seq<char> {
    room_topic(floor_id, room_id) + "/actuator/+/state"@
}

/// `.../room/{room}/event`
pub open spec fn room_event_topic(floor_id: Seq<char>, room_id: Seq<char>) -> Seq<char> {
    room_topic(floor_id, room_id) + "/event"@
}

/// `.../room/{room}/config`
pub open spec fn room_config_topic(floor_id: Seq<char>, room_id: Seq<char>) -> Seq<char> {
    room_topic(floor_id, room_id) + "/config"@
}

/// `.../room/{room}/#`
pub open spec fn room_filter_topic(floor_id: Seq<char>, room_id: Seq<char>) -> Seq<char> {
    room_topic(floor_id, room_id) + "/#"@
}

/// `building/{building}/device/{device_id}/availability`
pub open spec fn device_availability_topic(device_id: Seq<char>) -> Seq<char> {
    building_topic() + "/device/"@ + device_id + "/availability"@
}

/// `building/{building}/#`
pub open spec fn building_filter_topic() -> Seq<char> {
    building_topic() + "/#"@
}

/// The `/`-separated levels of a topic, empty levels included, as
/// `str::split('/')` yields them.
pub open spec fn topic_levels(s: Seq<char>) -> Seq<Seq<char>>
    decreases s.len(),
{
    if s.len() == 0 {
        seq![Seq::<char>::empty()]
    } else {
        let prev = topic_levels(s.drop_last());
        if s.last() == '/' {
            prev.push(Seq::<char>::empty())
        } else {
            prev.update(prev.len() - 1, prev.last().push(s.last()))
        }
    }
}

/// The actuator named by a command or state topic: the eighth level when
/// the topic has at least nine levels and the seventh is `actuator`.
pub open spec fn actuator_of_topic(topic: Seq<char>) -> Option<Seq<char>> {
    let levels = topic_levels(topic);
    if levels.len() >= 9 && levels[6] == "actuator"@ {
        Some(levels[7])
    } else {
        None
    }
}

pub proof fn lemma_topic_levels_nonempty(s: Seq<char>)
    ensures
        topic_levels(s).len() >= 1,
    decreases s.len(),
{
    if s.len() > 0 {
        lemma_topic_levels_nonempty(s.drop_last());
    }
}

/// Whether `s` holds no `/`, so that it forms a single topic level.
pub open spec fn is_single_level(s: Seq<char>) -> bool {
    forall|i: int| 0 <= i < s.len() ==> s[i] != '/'
}

proof fn lemma_levels_extend(a: Seq<char>, b: Seq<char>)
    requires
        is_single_level(b),
    ensures
        topic_levels(a + b) == topic_levels(a).update(
            topic_levels(a).len() - 1,
            topic_levels(a).last() + b,
        ),
    decreases b.len(),
{
    lemma_topic_levels_nonempty(a);
    if b.len() == 0 {
        assert(a + b =~= a);
        assert(topic_levels(a).last() + b =~= topic_levels(a).last());
        assert(topic_levels(a).update(topic_levels(a).len() - 1, topic_levels(a).last())
            =~= topic_levels(a));
    } else {
        let b0 = b.drop_last();
        lemma_levels_extend(a, b0);
        assert((a + b).drop_last() =~= a + b0);
        assert((a + b).last() == b.last());
        let p = topic_levels(a + b0);
        assert(topic_levels(a + b) == p.update(p.len() - 1, p.last().push(b.last())));
        assert(topic_levels(a).last() + b0 + seq![b.last()] =~= topic_levels(a).last() + b);
        assert(p.last().push(b.last()) =~= topic_levels(a).last() + b);
        assert(topic_levels(a + b) =~= topic_levels(a).update(
            topic_levels(a).len() - 1,
            topic_levels(a).last() + b,
        ));
    }
}

proof fn lemma_levels_single(a: Seq<char>)
    requires
        is_single_level(a),
    ensures
        topic_levels(a) == seq![a],
{
    lemma_levels_extend(Seq::<char>::empty(), a);
    assert(Seq::<char>::empty() + a =~= a);
    assert(Seq::<char>::empty() + a =~= a);
}

proof fn lemma_levels_push(a: Seq<char>, b: Seq<char>)
    requires
        is_single_level(b),
    ensures
        topic_levels(a + seq!['/'] + b) == topic_levels(a).push(b),
{
    let a1 = a + seq!['/'];
    assert(a1.drop_last() =~= a);
    assert(topic_levels(a1) == topic_levels(a).push(Seq::<char>::empty()));
    lemma_levels_extend(a1, b);
    assert(Seq::<char>::empty() + b =~= b);
    assert(topic_levels(a1).update(topic_levels(a1).len() - 1, topic_levels(a1).last() + b)
        =~= topic_levels(a).push(b));
}

/// Round trip: the actuator named in a command or state topic built by
/// this module is read back by `actuator_from_topic`, provided the floor,
/// room and actuator names are single topic levels; a sensor topic names no
/// actuator.
pub proof fn actuator_topics_round_trip(
    floor_id: Seq<char>,
    room_id: Seq<char>,
    name: Seq<char>,
)
    requires
        is_single_level(floor_id),
        is_single_level(room_id),
        is_single_level(name),
    ensures
        actuator_of_topic(actuator_command_topic(floor_id, room_id, name)) == Some(name),
        actuator_of_topic(actuator_state_topic(floor_id, room_id, name)) == Some(name),
        actuator_of_topic(sensor_topic(floor_id, room_id, name)) is None,
{
    reveal_strlit("building/main");
    reveal_strlit("/floor/");
    reveal_strlit("/room/");
    reveal_strlit("/actuator/");
    reveal_strlit("/command");
    reveal_strlit("/state");
    reveal_strlit("/sensor/");
    reveal_strlit("actuator");
    let building_word = seq!['b', 'u', 'i', 'l', 'd', 'i', 'n', 'g'];
    let main_word = seq!['m', 'a', 'i', 'n'];
    let floor_word = seq!['f', 'l', 'o', 'o', 'r'];
    let room_word = seq!['r', 'o', 'o', 'm'];
    let actuator_word = seq!['a', 'c', 't', 'u', 'a', 't', 'o', 'r'];
    let command_word = seq!['c', 'o', 'm', 'm', 'a', 'n', 'd'];
    let state_word = seq!['s', 't', 'a', 't', 'e'];
    let sensor_word = seq!['s', 'e', 'n', 's', 'o', 'r'];
    let slash = seq!['/'];
    assert("actuator"@ =~= actuator_word);
    lemma_levels_single(building_word);
    let t1 = building_word + slash + main_word;
    lemma_levels_push(building_word, main_word);
    assert(t1 =~= building_topic());
    let t2 = t1 + slash + floor_word;
    lemma_levels_push(t1, floor_word);
    let t3 = t2 + slash + floor_id;
    lemma_levels_push(t2, floor_id);
    assert(t3 =~= floor_topic(floor_id));
    let t4 = t3 + slash + room_word;
    lemma_levels_push(t3, room_word);
    let t5 = t4 + slash + room_id;
    lemma_levels_push(t4, room_id);
    assert(t5 =~= room_topic(floor_id, room_id));
    let t6 = t5 + slash + actuator_word;
    lemma_levels_push(t5, actuator_word);
    let t7 = t6 + slash + name;
    lemma_levels_push(t6, name);
    let t8 = t7 + slash + command_word;
    lemma_levels_push(t7, command_word);
    assert(t8 =~= actuator_command_topic(floor_id, room_id, name));
    let t9 = t7 + slash + state_word;
    lemma_levels_push(t7, state_word);
    assert(t9 =~= actuator_state_topic(floor_id, room_id, name));
    let u6 = t5 + slash + sensor_word;
    lemma_levels_push(t5, sensor_word);
    let u7 = u6 + slash + name;
    lemma_levels_push(u6, name);
    assert(u7 =~= sensor_topic(floor_id, room_id, name));
    assert(topic_levels(u7).len() == 8);
}

/// `building/{building}`
pub fn building() -> (r: String)
    ensures
        r@ == building_topic(),
{
    String::from_str("building/main")
}

/// `building/{building}/floor/{floor}`
pub fn floor(floor_id: &str) -> (r: String)
    ensures
        r@ == floor_topic(floor_id@),
{
    let mut s = building();
    s.append("/floor/");
    s.append(floor_id);
    s
}

/// `building/{building}/floor/{floor}/room/{room}`
pub fn room(floor_id: &str, room_id: &str) -> (r: String)
    ensures
        r@ == room_topic(floor_id@, room_id@),
{
    let mut s = floor(floor_id);
    s.append("/room/");
    s.append(room_id);
    s
}

/// `building/{building}/floor/{floor}/room/{room}/sensor/{sensor_type}`
pub fn sensor(floor_id: &str, room_id: &str, sensor_type: &str) -> (r: String)
    ensures
        r@ == sensor_topic(floor_id@, room_id@, sensor_type@),
{
    let mut s = room(floor_id, room_id);
    s.append("/sensor/");
    s.append(sensor_type);
    s
}

/// `building/{building}/floor/{floor}/room/{room}/actuator/{actuator}/command`
pub fn actuator_command(floor_id: &str, room_id: &str, actuator: &str) -> (r: String)
    ensures
        r@ == actuator_command_topic(floor_id@, room_id@, actuator@),
{
    let mut s = room(floor_id, room_id);
    s.append("/actuator/");
    s.append(actuator);
    s.append("/command");
    s
}

/// `building/{building}/floor/{floor}/room/{room}/actuator/{actuator}/state`
pub fn actuator_state(floor_id: &str, room_id: &str, actuator: &str) -> (r: String)
    ensures
        r@ == actuator_state_topic(floor_id@, room_id@, actuator@),
{
    let mut s = room(floor_id, room_id);
    s.append("/actuator/");
    s.append(actuator);
    s.append("/state");
    s
}

/// `building/{building}/floor/{floor}/room/{room}/actuator/+/command`
pub fn actuator_command_filter(floor_id: &str, room_id: &str) -> (r: String)
    ensures
        r@ == actuator_command_filter_topic(floor_id@, room_id@),
{
    let mut s = room(floor_id, room_id);
    s.append("/actuator/+/command");
    s
}

/// `building/{building}/floor/{floor}/room/{room}/actuator/+/state`
pub fn actuator_state_filter(floor_id: &str, room_id: &str) -> (r: String)
    ensures
        r@ == actuator_state_filter_topic(floor_id@, room_id@),
{
    let mut s = room(floor_id, room_id);
    s.append("/actuator/+/state");
    s
}

/// `building/{building}/floor/{floor}/room/{room}/event`
pub fn room_event(floor_id: &str, room_id: &str) -> (r: String)
    ensures
        r@ == room_event_topic(floor_id@, room_id@),
{
    let mut s = room(floor_id, room_id);
    s.append("/event");
    s
}

/// `building/{building}/floor/{floor}/room/{room}/config`
pub fn room_config(floor_id: &str, room_id: &str) -> (r: String)
    ensures
        r@ == room_config_topic(floor_id@, room_id@),
{
    let mut s = room(floor_id, room_id);
    s.append("/config");
    s
}

/// `building/{building}/floor/{floor}/room/{room}/#`
pub fn room_filter(floor_id: &str, room_id: &str) -> (r: String)
    ensures
        r@ == room_filter_topic(floor_id@, room_id@),
{
    let mut s = room(floor_id, room_id);
    s.append("/#");
    s
}

/// `building/{building}/device/{device_id}/availability`
pub fn device_availability(device_id: &str) -> (r: String)
    ensures
        r@ == device_availability_topic(device_id@),
{
    let mut s = building();
    s.append("/device/");
    s.append(device_id);
    s.append("/availability");
    s
}

/// `building/{building}/#`
pub fn building_filter() -> (r: String)
    ensures
        r@ == building_filter_topic(),
{
    let mut s = building();
    s.append("/#");
    s
}

/// `building/{building}/room/{room}/actuator/{actuator}/state`: the state
/// topic of the room-level scheme, which has no floor level.
pub open spec fn legacy_actuator_state_topic(room_id: Seq<char>, actuator: Seq<char>) -> Seq<char> {
    building_topic() + "/room/"@ + room_id + "/actuator/"@ + actuator + "/state"@
}

/// `building/{building}/room/{room}/actuator/{actuator}/state`
pub fn legacy_actuator_state(room_id: &str, actuator: &str) -> (r: String)
    ensures
        r@ == legacy_actuator_state_topic(room_id@, actuator@),
{
    let mut s = building();
    s.append("/room/");
    s.append(room_id);
    s.append("/actuator/");
    s.append(actuator);
    s.append("/state");
    s
}

/// Extracts the actuator name from a command or state topic.
///
/// `building/main/floor/floor-1/room/room-101/actuator/heating/command`
/// returns `heating`.
pub fn actuator_from_topic(topic: &str) -> (r: Option<String>)
    ensures
        r matches Some(a) ==> actuator_of_topic(topic@) == Some(a@),
        r is None ==> actuator_of_topic(topic@) is None,
{
    let chars = chars_of(topic);
    let n: usize = chars.len();
    // Bounds of the levels closed so far; the open one starts at `start`.
    let mut bounds: Vec<(usize, usize)> = Vec::new();
    let mut start: usize = 0;
    let mut i: usize = 0;
    while i < n
        invariant
            chars@ == topic@,
            n == chars@.len(),
            i <= n,
            start <= i,
            topic_levels(topic@.take(i as int)).len() == bounds@.len() + 1,
            forall|k: int|
                #![trigger bounds@[k]]
                0 <= k < bounds@.len() ==> bounds@[k].0 <= bounds@[k].1 <= i,
            forall|k: int|
                0 <= k < bounds@.len() ==> #[trigger] topic_levels(topic@.take(i as int))[k]
                    == topic@.subrange(bounds@[k].0 as int, bounds@[k].1 as int),
            topic_levels(topic@.take(i as int))[bounds@.len() as int] == topic@.subrange(
                start as int,
                i as int,
            ),
        decreases n - i,
    {
        let ghost prev = topic_levels(topic@.take(i as int));
        let ghost old_bounds = bounds@;
        let ghost old_start = start;
        let c = chars[i];
        i = i + 1;
        let ghost next = topic_levels(topic@.take(i as int));
        proof {
            assert(topic@.take(i as int).drop_last() =~= topic@.take(i - 1));
            assert(topic@.take(i as int).last() == c);
        }
        if c == '/' {
            bounds.push((start, i - 1));
            start = i;
            proof {
                assert(next == prev.push(Seq::<char>::empty()));
                assert(topic@.subrange(start as int, i as int) =~= Seq::<char>::empty());
                assert forall|k: int| #![trigger bounds@[k]] 0 <= k < bounds@.len() implies bounds@[k].0 <= bounds@[k].1
                    <= i by {
                    if k < old_bounds.len() {
                        assert(bounds@[k] == old_bounds[k]);
                    }
                }
                assert forall|k: int| 0 <= k < bounds@.len() implies #[trigger] next[k]
                    == topic@.subrange(bounds@[k].0 as int, bounds@[k].1 as int) by {
                    if k < old_bounds.len() {
                        assert(bounds@[k] == old_bounds[k]);
                        assert(next[k] == prev[k]);
                    } else {
                        assert(k == old_bounds.len());
                        assert(next[k] == prev[k]);
                    }
                }
            }
        } else {
            proof {
                lemma_topic_levels_nonempty(topic@.take(i - 1));
                assert(next == prev.update(prev.len() - 1, prev.last().push(c)));
                assert(topic@.subrange(start as int, i as int) =~= topic@.subrange(
                    start as int,
                    i - 1,
                ).push(c));
                assert forall|k: int| 0 <= k < bounds@.len() implies #[trigger] next[k]
                    == topic@.subrange(bounds@[k].0 as int, bounds@[k].1 as int) by {
                    assert(next[k] == prev[k]);
                }
            }
        }
    }
    proof {
        assert(topic@.take(n as int) =~= topic@);
    }
    if bounds.len() < 8 {
        return None;
    }
    let (a6, b6) = bounds[6];
    let (a7, b7) = bounds[7];
    let word = chars_of("actuator");
    let is_actuator = b6 - a6 == word.len() && matches_at(&chars, a6, &word);
    proof {
        assert(topic_levels(topic@)[6] == topic@.subrange(a6 as int, b6 as int));
        if b6 - a6 == word@.len() {
            assert(topic@.subrange(a6 as int, a6 + word@.len()) =~= topic@.subrange(
                a6 as int,
                b6 as int,
            ));
        }
    }
    if is_actuator {
        let level = topic.substring_char(a7, b7);
        let r = String::from_str(level);
        proof {
            assert(topic_levels(topic@)[7] == topic@.subrange(a7 as int, b7 as int));
        }
        Some(r)
    } else {
        None
    }
}


/// Whether filter levels match topic levels under MQTT's wildcard rules:
/// `+` matches exactly one level, a final `#` matches any remaining levels
/// (none included), and any other level matches itself.
pub open spec fn levels_match(filter: Seq<Seq<char>>, topic: Seq<Seq<char>>) -> bool
    decreases filter.len(),
{
    if filter.len() == 0 {
        topic.len() == 0
    } else if filter.len() == 1 && filter[0] == seq!['#'] {
        true
    } else if topic.len() == 0 {
        false
    } else if filter[0] == seq!['+'] || filter[0] == topic[0] {
        levels_match(filter.drop_first(), topic.drop_first())
    } else {
        false
    }
}

/// Whether an MQTT subscription `filter` matches `topic`: level by level,
/// except that a topic beginning with `$` is never matched by a filter
/// beginning with a wildcard.
pub open spec fn mqtt_matches(filter: Seq<char>, topic: Seq<char>) -> bool {
    &&& !(topic.len() > 0 && topic[0] == '$' && filter.len() > 0 && (filter[0] == '+' || filter[0]
        == '#'))
    &&& levels_match(topic_levels(filter), topic_levels(topic))
}

proof fn lemma_match_prefix(p: Seq<Seq<char>>, f: Seq<Seq<char>>, t: Seq<Seq<char>>)
    requires
        f.len() >= 1,
    ensures
        levels_match(p + f, p + t) == levels_match(f, t),
    decreases p.len(),
{
    if p.len() > 0 {
        assert((p + f).drop_first() =~= p.drop_first() + f);
        assert((p + t).drop_first() =~= p.drop_first() + t);
        assert((p + f)[0] == (p + t)[0]);
        lemma_match_prefix(p.drop_first(), f, t);
    } else {
        assert(p + f =~= f);
        assert(p + t =~= t);
    }
}

spec fn word_actuator() -> Seq<char> {
    seq!['a', 'c', 't', 'u', 'a', 't', 'o', 'r']
}

spec fn word_command() -> Seq<char> {
    seq!['c', 'o', 'm', 'm', 'a', 'n', 'd']
}

spec fn word_state() -> Seq<char> {
    seq!['s', 't', 'a', 't', 'e']
}

spec fn word_sensor() -> Seq<char> {
    seq!['s', 'e', 'n', 's', 'o', 'r']
}

spec fn word_event() -> Seq<char> {
    seq!['e', 'v', 'e', 'n', 't']
}

spec fn word_config() -> Seq<char> {
    seq!['c', 'o', 'n', 'f', 'i', 'g']
}

proof fn lemma_words_single()
    ensures
        is_single_level(word_actuator()),
        is_single_level(word_command()),
        is_single_level(word_state()),
        is_single_level(word_sensor()),
        is_single_level(word_event()),
        is_single_level(word_config()),
        is_single_level(seq!['+']),
        is_single_level(seq!['#']),
{
}

/// The levels of a topic that extends `a` by two more levels.
proof fn lemma_levels_push2(a: Seq<char>, b: Seq<char>, c: Seq<char>)
    requires
        is_single_level(b),
        is_single_level(c),
    ensures
        topic_levels(a + seq!['/'] + b + seq!['/'] + c) == topic_levels(a) + seq![b, c],
{
    lemma_levels_push(a, b);
    lemma_levels_push(a + seq!['/'] + b, c);
    assert(topic_levels(a).push(b).push(c) =~= topic_levels(a) + seq![b, c]);
}

/// The levels of a topic that extends `a` by three more levels.
proof fn lemma_levels_push3(a: Seq<char>, b: Seq<char>, c: Seq<char>, d: Seq<char>)
    requires
        is_single_level(b),
        is_single_level(c),
        is_single_level(d),
    ensures
        topic_levels(a + seq!['/'] + b + seq!['/'] + c + seq!['/'] + d) == topic_levels(a) + seq![
            b,
            c,
            d,
        ],
{
    lemma_levels_push2(a, b, c);
    lemma_levels_push(a + seq!['/'] + b + seq!['/'] + c, d);
    assert((topic_levels(a) + seq![b, c]).push(d) =~= topic_levels(a) + seq![b, c, d]);
}

proof fn lemma_room_starts(floor_id: Seq<char>, room_id: Seq<char>)
    ensures
        room_topic(floor_id, room_id).len() > 0,
        room_topic(floor_id, room_id)[0] == 'b',
{
    reveal_strlit("building/main");
    assert(building_topic().len() > 0);
    assert(room_topic(floor_id, room_id)[0] == building_topic()[0]);
}

/// The levels of the actuator topics and filters of a room: the room's own
/// levels, then `actuator`, the actuator (or `+`), and `command` or `state`.
proof fn lemma_actuator_levels(floor_id: Seq<char>, room_id: Seq<char>, name: Seq<char>)
    requires
        is_single_level(name),
    ensures
        topic_levels(actuator_command_topic(floor_id, room_id, name)) == topic_levels(
            room_topic(floor_id, room_id),
        ) + seq![word_actuator(), name, word_command()],
        topic_levels(actuator_state_topic(floor_id, room_id, name)) == topic_levels(
            room_topic(floor_id, room_id),
        ) + seq![word_actuator(), name, word_state()],
        topic_levels(actuator_command_filter_topic(floor_id, room_id)) == topic_levels(
            room_topic(floor_id, room_id),
        ) + seq![word_actuator(), seq!['+'], word_command()],
        topic_levels(actuator_state_filter_topic(floor_id, room_id)) == topic_levels(
            room_topic(floor_id, room_id),
        ) + seq![word_actuator(), seq!['+'], word_state()],
{
    reveal_strlit("/actuator/");
    reveal_strlit("/command");
    reveal_strlit("/state");
    reveal_strlit("/actuator/+/command");
    reveal_strlit("/actuator/+/state");
    lemma_words_single();
    let room = room_topic(floor_id, room_id);
    let s = seq!['/'];
    lemma_levels_push3(room, word_actuator(), name, word_command());
    assert(room + s + word_actuator() + s + name + s + word_command() =~= actuator_command_topic(
        floor_id,
        room_id,
        name,
    ));
    lemma_levels_push3(room, word_actuator(), name, word_state());
    assert(room + s + word_actuator() + s + name + s + word_state() =~= actuator_state_topic(
        floor_id,
        room_id,
        name,
    ));
    lemma_levels_push3(room, word_actuator(), seq!['+'], word_command());
    assert(room + s + word_actuator() + s + seq!['+'] + s + word_command()
        =~= actuator_command_filter_topic(floor_id, room_id));
    lemma_levels_push3(room, word_actuator(), seq!['+'], word_state());
    assert(room + s + word_actuator() + s + seq!['+'] + s + word_state()
        =~= actuator_state_filter_topic(floor_id, room_id));
}

/// The levels of a room's filter and of its sensor, event and configuration
/// topics.
proof fn lemma_room_levels(floor_id: Seq<char>, room_id: Seq<char>, name: Seq<char>)
    requires
        is_single_level(name),
    ensures
        topic_levels(sensor_topic(floor_id, room_id, name)) == topic_levels(
            room_topic(floor_id, room_id),
        ) + seq![word_sensor(), name],
        topic_levels(room_event_topic(floor_id, room_id)) == topic_levels(
            room_topic(floor_id, room_id),
        ).push(word_event()),
        topic_levels(room_config_topic(floor_id, room_id)) == topic_levels(
            room_topic(floor_id, room_id),
        ).push(word_config()),
        topic_levels(room_filter_topic(floor_id, room_id)) == topic_levels(
            room_topic(floor_id, room_id),
        ).push(seq!['#']),
{
    reveal_strlit("/sensor/");
    reveal_strlit("/event");
    reveal_strlit("/config");
    reveal_strlit("/#");
    lemma_words_single();
    let room = room_topic(floor_id, room_id);
    let s = seq!['/'];
    lemma_levels_push2(room, word_sensor(), name);
    assert(room + s + word_sensor() + s + name =~= sensor_topic(floor_id, room_id, name));
    lemma_levels_push(room, word_event());
    assert(room + s + word_event() =~= room_event_topic(floor_id, room_id));
    lemma_levels_push(room, word_config());
    assert(room + s + word_config() =~= room_config_topic(floor_id, room_id));
    lemma_levels_push(room, seq!['#']);
    assert(room + s + seq!['#'] =~= room_filter_topic(floor_id, room_id));
}

/// How the last three levels of the actuator filters compare with those of
/// the actuator topics.
proof fn lemma_actuator_tails(name: Seq<char>)
    ensures
        levels_match(
            seq![word_actuator(), seq!['+'], word_command()],
            seq![word_actuator(), name, word_command()],
        ),
        levels_match(
            seq![word_actuator(), seq!['+'], word_state()],
            seq![word_actuator(), name, word_state()],
        ),
        !levels_match(
            seq![word_actuator(), seq!['+'], word_command()],
            seq![word_actuator(), name, word_state()],
        ),
        !levels_match(
            seq![word_actuator(), seq!['+'], word_state()],
            seq![word_actuator(), name, word_command()],
        ),
{
    reveal_with_fuel(levels_match, 4);
    let a = word_actuator();
    let c = word_command();
    let st = word_state();
    let p = seq!['+'];
    let h = seq!['#'];
    assert(c != h && st != h && c != st && a != h && a != p && c[0] != st[0]);
    assert(seq![a, p, c].drop_first() =~= seq![p, c]);
    assert(seq![a, p, st].drop_first() =~= seq![p, st]);
    assert(seq![a, name, c].drop_first() =~= seq![name, c]);
    assert(seq![a, name, st].drop_first() =~= seq![name, st]);
    assert(seq![p, c].drop_first() =~= seq![c]);
    assert(seq![p, st].drop_first() =~= seq![st]);
    assert(seq![name, c].drop_first() =~= seq![c]);
    assert(seq![name, st].drop_first() =~= seq![st]);
    assert(seq![c].drop_first() =~= Seq::<Seq<char>>::empty());
    assert(seq![st].drop_first() =~= Seq::<Seq<char>>::empty());
}

/// A room's actuator command filter matches the command topic of every
/// actuator of that room and none of their state topics; provided the
/// floor, room and actuator names are single levels.
pub proof fn command_filter_matches_commands(
    floor_id: Seq<char>,
    room_id: Seq<char>,
    name: Seq<char>,
)
    requires
        is_single_level(floor_id),
        is_single_level(room_id),
        is_single_level(name),
    ensures
        mqtt_matches(
            actuator_command_filter_topic(floor_id, room_id),
            actuator_command_topic(floor_id, room_id, name),
        ),
        !mqtt_matches(
            actuator_command_filter_topic(floor_id, room_id),
            actuator_state_topic(floor_id, room_id, name),
        ),
{
    lemma_words_single();
    lemma_actuator_levels(floor_id, room_id, name);
    lemma_actuator_tails(name);
    lemma_room_starts(floor_id, room_id);
    let levels = topic_levels(room_topic(floor_id, room_id));
    let f = seq![word_actuator(), seq!['+'], word_command()];
    lemma_match_prefix(levels, f, seq![word_actuator(), name, word_command()]);
    lemma_match_prefix(levels, f, seq![word_actuator(), name, word_state()]);
    assert(actuator_command_topic(floor_id, room_id, name)[0] == 'b');
}

/// A room's actuator state filter matches the state topic of every actuator
/// of that room and none of their command topics; provided the floor, room
/// and actuator names are single levels.
pub proof fn state_filter_matches_states(floor_id: Seq<char>, room_id: Seq<char>, name: Seq<char>)
    requires
        is_single_level(floor_id),
        is_single_level(room_id),
        is_single_level(name),
    ensures
        mqtt_matches(
            actuator_state_filter_topic(floor_id, room_id),
            actuator_state_topic(floor_id, room_id, name),
        ),
        !mqtt_matches(
            actuator_state_filter_topic(floor_id, room_id),
            actuator_command_topic(floor_id, room_id, name),
        ),
{
    lemma_words_single();
    lemma_actuator_levels(floor_id, room_id, name);
    lemma_actuator_tails(name);
    lemma_room_starts(floor_id, room_id);
    let levels = topic_levels(room_topic(floor_id, room_id));
    let f = seq![word_actuator(), seq!['+'], word_state()];
    lemma_match_prefix(levels, f, seq![word_actuator(), name, word_state()]);
    lemma_match_prefix(levels, f, seq![word_actuator(), name, word_command()]);
    assert(actuator_state_topic(floor_id, room_id, name)[0] == 'b');
}

/// A room's filter matches every sensor, actuator command and state, event
/// and configuration topic of that room; provided the floor, room and names
/// are single levels.
pub proof fn room_filter_matches_room_topics(
    floor_id: Seq<char>,
    room_id: Seq<char>,
    name: Seq<char>,
)
    requires
        is_single_level(floor_id),
        is_single_level(room_id),
        is_single_level(name),
    ensures
        mqtt_matches(room_filter_topic(floor_id, room_id), sensor_topic(floor_id, room_id, name)),
        mqtt_matches(
            room_filter_topic(floor_id, room_id),
            actuator_command_topic(floor_id, room_id, name),
        ),
        mqtt_matches(
            room_filter_topic(floor_id, room_id),
            actuator_state_topic(floor_id, room_id, name),
        ),
        mqtt_matches(room_filter_topic(floor_id, room_id), room_event_topic(floor_id, room_id)),
        mqtt_matches(room_filter_topic(floor_id, room_id), room_config_topic(floor_id, room_id)),
{
    lemma_words_single();
    lemma_actuator_levels(floor_id, room_id, name);
    lemma_room_levels(floor_id, room_id, name);
    lemma_room_starts(floor_id, room_id);
    let levels = topic_levels(room_topic(floor_id, room_id));
    let h = seq![seq!['#']];
    assert(levels.push(seq!['#']) =~= levels + h);
    assert(levels.push(word_event()) =~= levels + seq![word_event()]);
    assert(levels.push(word_config()) =~= levels + seq![word_config()]);
    lemma_match_prefix(levels, h, seq![word_sensor(), name]);
    lemma_match_prefix(levels, h, seq![word_actuator(), name, word_command()]);
    lemma_match_prefix(levels, h, seq![word_actuator(), name, word_state()]);
    lemma_match_prefix(levels, h, seq![word_event()]);
    lemma_match_prefix(levels, h, seq![word_config()]);
    assert(levels_match(h, seq![word_sensor(), name]));
    assert(levels_match(h, seq![word_actuator(), name, word_command()]));
    assert(levels_match(h, seq![word_actuator(), name, word_state()]));
    assert(levels_match(h, seq![word_event()]));
    assert(levels_match(h, seq![word_config()]));
    assert(sensor_topic(floor_id, room_id, name)[0] == 'b');
    assert(actuator_command_topic(floor_id, room_id, name)[0] == 'b');
    assert(actuator_state_topic(floor_id, room_id, name)[0] == 'b');
    assert(room_event_topic(floor_id, room_id)[0] == 'b');
    assert(room_config_topic(floor_id, room_id)[0] == 'b');
}

} // verus!
