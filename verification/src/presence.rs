//! Which room each walking player is in (3D walk mode).
//!
//! A player is in at most one room; a room is occupied while some player
//! is in it.

use vstd::prelude::*;
use vstd::string::*;
use crate::building::{floor_of_room, Building};
use crate::errors::ApiError;
use crate::store::lemma_filter_step;
use crate::text::{str_eq, trim, trim_seq};

verus! {

/// The players and their rooms: player id -> room id.
pub struct Presence {
    entries: Vec<(String, String)>,
}

/// Whether no player occurs twice.
pub open spec fn distinct_players(s: Seq<(String, String)>) -> bool {
    forall|i: int, j: int| 0 <= i < s.len() && 0 <= j < s.len() && i != j ==> s[i].0@ != s[j].0@
}

spec fn presence_view(s: Seq<(String, String)>) -> Map<Seq<char>, Seq<char>>
    decreases s.len(),
{
    if s.len() == 0 {
        Map::empty()
    } else {
        presence_view(s.drop_last()).insert(s.last().0@, s.last().1@)
    }
}

spec fn count_in(s: Seq<(String, String)>, room_id: Seq<char>) -> nat
    decreases s.len(),
{
    if s.len() == 0 {
        0
    } else {
        count_in(s.drop_last(), room_id) + if s.last().1@ == room_id {
            1nat
        } else {
            0nat
        }
    }
}

/// The room of `player`, if any.
pub open spec fn room_of(m: Map<Seq<char>, Seq<char>>, player: Seq<char>) -> Option<Seq<char>> {
    if m.contains_key(player) {
        Some(m[player])
    } else {
        None
    }
}

/// The players in `room_id`.
pub open spec fn players_in_room(m: Map<Seq<char>, Seq<char>>, room_id: Seq<char>) -> Set<Seq<char>> {
    m.dom().filter(|p: Seq<char>| m[p] == room_id)
}

/// The presence after `player` walked into `target` (or out of every room).
pub open spec fn presence_after(
    m: Map<Seq<char>, Seq<char>>,
    player: Seq<char>,
    target: Option<Seq<char>>,
) -> Map<Seq<char>, Seq<char>> {
    match target {
        Some(r) => m.insert(player, r),
        None => m.remove(player),
    }
}

/// The presence once `room_id` is deleted: its players are in no room.
pub open spec fn presence_without_room(m: Map<Seq<char>, Seq<char>>, room_id: Seq<char>) -> Map<
    Seq<char>,
    Seq<char>,
> {
    Map::new(|p: Seq<char>| m.contains_key(p) && m[p] != room_id, |p: Seq<char>| m[p])
}

proof fn lemma_view_dom(s: Seq<(String, String)>, k: Seq<char>)
    ensures
        presence_view(s).contains_key(k) <==> exists|i: int| 0 <= i < s.len() && s[i].0@ == k,
    decreases s.len(),
{
    if s.len() > 0 {
        lemma_view_dom(s.drop_last(), k);
        if presence_view(s.drop_last()).contains_key(k) {
            let i = choose|i: int| 0 <= i < s.drop_last().len() && s.drop_last()[i].0@ == k;
            assert(s[i].0@ == k);
        }
        if exists|i: int| 0 <= i < s.len() && s[i].0@ == k {
            let i = choose|i: int| 0 <= i < s.len() && s[i].0@ == k;
            if i < s.len() - 1 {
                assert(s.drop_last()[i].0@ == k);
            }
        }
    }
}

proof fn lemma_view_value(s: Seq<(String, String)>, i: int)
    requires
        distinct_players(s),
        0 <= i < s.len(),
    ensures
        presence_view(s).contains_key(s[i].0@),
        presence_view(s)[s[i].0@] == s[i].1@,
    decreases s.len(),
{
    if i < s.len() - 1 {
        assert(distinct_players(s.drop_last()));
        lemma_view_value(s.drop_last(), i);
        assert(s.drop_last()[i] == s[i]);
    }
}

proof fn lemma_view_finite(s: Seq<(String, String)>)
    ensures
        presence_view(s).dom().finite(),
    decreases s.len(),
{
    if s.len() > 0 {
        lemma_view_finite(s.drop_last());
    }
}

proof fn lemma_count(s: Seq<(String, String)>, room_id: Seq<char>)
    requires
        distinct_players(s),
    ensures
        players_in_room(presence_view(s), room_id).finite(),
        players_in_room(presence_view(s), room_id).len() == count_in(s, room_id),
    decreases s.len(),
{
    lemma_view_finite(s);
    let m = presence_view(s);
    let set = players_in_room(m, room_id);
    assert(set.subset_of(m.dom()));
    vstd::set_lib::lemma_len_subset(set, m.dom());
    if s.len() > 0 {
        let t = s.drop_last();
        assert(distinct_players(t));
        lemma_count(t, room_id);
        lemma_view_finite(t);
        let mt = presence_view(t);
        let k = s.last().0@;
        lemma_view_dom(t, k);
        assert(!mt.contains_key(k)) by {
            if mt.contains_key(k) {
                let i = choose|i: int| 0 <= i < t.len() && t[i].0@ == k;
                assert(s[i].0@ == s[s.len() - 1].0@);
            }
        }
        let prev = players_in_room(mt, room_id);
        if s.last().1@ == room_id {
            assert(set =~= prev.insert(k));
        } else {
            assert(set =~= prev);
        }
    }
}

/// What a presence request answers: the room now reported, its number of
/// players, and, when the player just walked into a room, that room's floor
/// (the cue to announce the player on the room's sensors and events).
#[derive(Debug)]
pub struct PresenceUpdate {
    pub room_id: Option<String>,
    pub players: usize,
    pub entered_floor: Option<String>,
}

impl View for Presence {
    type V = Map<Seq<char>, Seq<char>>;

    closed spec fn view(&self) -> Map<Seq<char>, Seq<char>> {
        presence_view(self.entries@)
    }
}

impl Presence {
    #[verifier::type_invariant]
    spec fn players_distinct(&self) -> bool {
        distinct_players(self.entries@)
    }

    /// Nobody in any room.
    pub fn new() -> (p: Self)
        ensures
            p@ == Map::<Seq<char>, Seq<char>>::empty(),
    {
        Presence { entries: Vec::new() }
    }

    /// The index of `player` in the entries.
    fn find(&self, player: &str) -> (r: Option<usize>)
        ensures
            match r {
                Some(i) => i < self.entries@.len() && self.entries@[i as int].0@ == player@,
                None => forall|i: int| 0 <= i < self.entries@.len() ==> self.entries@[i].0@ != player@,
            },
    {
        let mut i: usize = 0;
        while i < self.entries.len()
            invariant
                i <= self.entries@.len(),
                forall|j: int| 0 <= j < i ==> self.entries@[j].0@ != player@,
            decreases self.entries@.len() - i,
        {
            if str_eq(self.entries[i].0.as_str(), player) {
                return Some(i);
            }
            i = i + 1;
        }
        None
    }

    /// The room `player` is in.
    pub fn room_of_player(&self, player: &str) -> (r: Option<String>)
        ensures
            match r {
                Some(x) => room_of(self@, player@) == Some(x@),
                None => room_of(self@, player@) is None,
            },
    {
        proof {
            use_type_invariant(self);
            lemma_view_dom(self.entries@, player@);
        }
        match self.find(player) {
            Some(i) => {
                proof {
                    lemma_view_value(self.entries@, i as int);
                }
                Some(self.entries[i].1.clone())
            },
            None => None,
        }
    }

    /// The number of players in `room_id`.
    pub fn players_in(&self, room_id: &str) -> (r: usize)
        ensures
            r == players_in_room(self@, room_id@).len(),
    {
        proof {
            use_type_invariant(self);
            lemma_count(self.entries@, room_id@);
        }
        let mut count: usize = 0;
        let mut i: usize = 0;
        while i < self.entries.len()
            invariant
                i <= self.entries@.len(),
                count == count_in(self.entries@.take(i as int), room_id@),
                count <= i,
            decreases self.entries@.len() - i,
        {
            assert(self.entries@.take(i + 1).drop_last() =~= self.entries@.take(i as int));
            if str_eq(self.entries[i].1.as_str(), room_id) {
                count = count + 1;
            }
            i = i + 1;
        }
        assert(self.entries@.take(self.entries@.len() as int) =~= self.entries@);
        count
    }

    /// Whether some player is in `room_id`.
    pub fn is_occupied(&self, room_id: &str) -> (r: bool)
        ensures
            r == (players_in_room(self@, room_id@).len() > 0),
    {
        self.players_in(room_id) > 0
    }

    /// Reports that a player walks in `room_id` (or in no room): the player
    /// id is trimmed and must not be empty; the room must be on some floor.
    /// The player leaves any other room and is now in `room_id` only; the
    /// answer reports the room, its number of players, and, when the player
    /// was not in that room before, the room's floor.
    pub fn set_presence(
        &mut self,
        layout: &Building,
        player_id: &str,
        room_id: Option<&str>,
    ) -> (r: Result<PresenceUpdate, ApiError>)
        ensures
            match r {
                Err(e) => {
                    &&& final(self)@ == old(self)@
                    &&& {
                        ||| (e is EmptyPlayerId && trim_seq(player_id@).len() == 0)
                        ||| (e is RoomNotFound && trim_seq(player_id@).len() > 0 && (
                        room_id matches Some(x) && floor_of_room(layout@, x@) is None))
                    }
                },
                Ok(u) => {
                    &&& trim_seq(player_id@).len() > 0
                    &&& (room_id matches Some(x) ==> floor_of_room(layout@, x@) is Some)
                    &&& final(self)@ == presence_after(
                        old(self)@,
                        trim_seq(player_id@),
                        opt_str_view(room_id),
                    )
                    &&& opt_view(u.room_id) == opt_str_view(room_id)
                    &&& u.players == match room_id {
                        Some(x) => players_in_room(final(self)@, x@).len(),
                        None => 0,
                    }
                    &&& (u.entered_floor is Some <==> (room_id is Some && room_of(
                        old(self)@,
                        trim_seq(player_id@),
                    ) != opt_str_view(room_id)))
                    &&& (u.entered_floor matches Some(f) ==> (room_id matches Some(x)
                        && floor_of_room(layout@, x@) == Some(f@)))
                },
            },
    {
        let player = trim(player_id);
        if player.as_str().unicode_len() == 0 {
            return Err(ApiError::EmptyPlayerId);
        }
        let target: Option<(String, String)> = match room_id {
            Some(room) => match layout.floor_id_for_room(room) {
                Some(f) => Some((f, String::from_str(room))),
                None => {
                    return Err(ApiError::RoomNotFound);
                },
            },
            None => None,
        };
        proof {
            use_type_invariant(&*self);
            lemma_view_dom(self.entries@, player@);
        }
        let ghost before = self.entries@;
        let ghost m = self@;
        let ghost p = player@;
        let found = self.find(player.as_str());
        proof {
            if let Some(i) = found {
                lemma_view_value(before, i as int);
            }
        }
        let unchanged = match (&found, &target) {
            (None, None) => true,
            (Some(i), Some((_, r))) => self.entries[*i].1 == *r,
            _ => false,
        };
        if unchanged {
            proof {
                if target is Some {
                    assert(m.insert(p, target.unwrap().1@) =~= m);
                } else {
                    assert(m.remove(p) =~= m);
                }
            }
            let players: usize = match &target {
                Some((_, r)) => self.players_in(r.as_str()),
                None => 0,
            };
            let reported = match target {
                Some((_, r)) => Some(r),
                None => None,
            };
            return Ok(PresenceUpdate { room_id: reported, players, entered_floor: None });
        }
        let mut entries: Vec<(String, String)> = Vec::new();
        std::mem::swap(&mut entries, &mut self.entries);
        if let Some(i) = found {
            proof {
                lemma_view_remove(before, i as int);
            }
            entries.remove(i);
        }
        proof {
            assert(presence_view(entries@) == m.remove(p)) by {
                if found is None {
                    assert(m.remove(p) =~= m);
                }
            }
        }
        match target {
            Some((f, r)) => {
                let ghost mid = entries@;
                let entry = (player, r.clone());
                proof {
                    assert(distinct_players(mid.push(entry)));
                }
                entries.push(entry);
                proof {
                    assert(entries@.drop_last() =~= mid);
                    assert(m.remove(p).insert(p, r@) =~= m.insert(p, r@));
                }
                self.entries = entries;
                let players = self.players_in(r.as_str());
                Ok(PresenceUpdate { room_id: Some(r), players, entered_floor: Some(f) })
            },
            None => {
                self.entries = entries;
                Ok(PresenceUpdate { room_id: None, players: 0, entered_floor: None })
            },
        }
    }

    /// Forgets the players of a deleted room.
    pub fn remove_room(&mut self, room_id: &str)
        ensures
            final(self)@ == presence_without_room(old(self)@, room_id@),
    {
        proof {
            use_type_invariant(&*self);
        }
        let ghost before = self.entries@;
        let ghost pred = outside_room(room_id@);
        let mut kept: Vec<(String, String)> = Vec::new();
        let mut i: usize = 0;
        while i < self.entries.len()
            invariant
                self.entries@ == before,
                pred == outside_room(room_id@),
                i <= before.len(),
                kept@ == before.take(i as int).filter(pred),
            decreases before.len() - i,
        {
            proof {
                lemma_filter_step(before, i as int, pred);
            }
            if !str_eq(self.entries[i].1.as_str(), room_id) {
                let entry = (self.entries[i].0.clone(), self.entries[i].1.clone());
                kept.push(entry);
            }
            i = i + 1;
        }
        proof {
            assert(before.take(before.len() as int) =~= before);
            lemma_filter_view(before, room_id@);
            lemma_filter_distinct(before, room_id@);
        }
        self.entries = kept;
    }
}

proof fn lemma_view_remove(s: Seq<(String, String)>, i: int)
    requires
        distinct_players(s),
        0 <= i < s.len(),
    ensures
        distinct_players(s.remove(i)),
        presence_view(s.remove(i)) == presence_view(s).remove(s[i].0@),
        forall|j: int| 0 <= j < s.remove(i).len() ==> s.remove(i)[j].0@ != s[i].0@,
{
    let t = s.remove(i);
    let p = s[i].0@;
    assert forall|a: int, b: int| 0 <= a < t.len() && 0 <= b < t.len() && a != b implies t[a].0@
        != t[b].0@ by {
        let a1 = if a < i { a } else { a + 1 };
        let b1 = if b < i { b } else { b + 1 };
        assert(t[a] == s[a1]);
        assert(t[b] == s[b1]);
    }
    assert forall|j: int| 0 <= j < t.len() implies t[j].0@ != p by {
        let j1 = if j < i { j } else { j + 1 };
        assert(t[j] == s[j1]);
    }
    let m = presence_view(s);
    let n = presence_view(t);
    assert forall|k: Seq<char>| #[trigger] n.contains_key(k) == m.remove(p).contains_key(k) by {
        lemma_view_dom(s, k);
        lemma_view_dom(t, k);
        if n.contains_key(k) {
            let j = choose|j: int| 0 <= j < t.len() && t[j].0@ == k;
            let j1 = if j < i { j } else { j + 1 };
            assert(t[j] == s[j1]);
        }
        if m.contains_key(k) && k != p {
            let j1 = choose|j: int| 0 <= j < s.len() && s[j].0@ == k;
            let j = if j1 < i { j1 } else { j1 - 1 };
            assert(t[j] == s[j1]);
        }
    }
    assert forall|k: Seq<char>| #[trigger] n.contains_key(k) implies n[k] == m[k] by {
        lemma_view_dom(t, k);
        let j = choose|j: int| 0 <= j < t.len() && t[j].0@ == k;
        let j1 = if j < i { j } else { j + 1 };
        assert(t[j] == s[j1]);
        lemma_view_value(t, j);
        lemma_view_value(s, j1);
    }
    assert(n =~= m.remove(p));
}

/// The view of an optional string.
pub open spec fn opt_view(o: Option<String>) -> Option<Seq<char>> {
    match o {
        Some(x) => Some(x@),
        None => None,
    }
}

/// The view of an optional string slice.
pub open spec fn opt_str_view(o: Option<&str>) -> Option<Seq<char>> {
    match o {
        Some(x) => Some(x@),
        None => None,
    }
}

/// Presence reports are idempotent and local: after a report the player
/// is in the reported room (or in none), every other player is where they
/// were, and repeating the report changes nothing.
pub proof fn presence_reports_are_idempotent(
    m: Map<Seq<char>, Seq<char>>,
    player: Seq<char>,
    target: Option<Seq<char>>,
)
    ensures
        room_of(presence_after(m, player, target), player) == target,
        forall|q: Seq<char>|
            q != player ==> room_of(#[trigger] presence_after(m, player, target), q) == room_of(m, q),
        presence_after(presence_after(m, player, target), player, target) == presence_after(
            m,
            player,
            target,
        ),
{
    let a = presence_after(m, player, target);
    assert(presence_after(a, player, target) =~= a);
}

/// Entries whose room is not `room_id`.
spec fn outside_room(room_id: Seq<char>) -> spec_fn((String, String)) -> bool {
    |e: (String, String)| e.1@ != room_id
}

proof fn lemma_filter_view(s: Seq<(String, String)>, room_id: Seq<char>)
    requires
        distinct_players(s),
    ensures
        presence_view(s.filter(outside_room(room_id))) == presence_without_room(
            presence_view(s),
            room_id,
        ),
    decreases s.len(),
{
    reveal(Seq::filter);
    let pred = outside_room(room_id);
    if s.len() == 0 {
        assert(presence_without_room(presence_view(s), room_id) =~= Map::empty());
    } else {
        let t = s.drop_last();
        assert(distinct_players(t));
        lemma_filter_view(t, room_id);
        let m = presence_view(t);
        let k = s.last().0@;
        let v = s.last().1@;
        lemma_view_dom(t, k);
        assert(!m.contains_key(k)) by {
            if m.contains_key(k) {
                let i = choose|i: int| 0 <= i < t.len() && t[i].0@ == k;
                assert(s[i].0@ == s[s.len() - 1].0@);
            }
        }
        let f = t.filter(pred);
        if v != room_id {
            assert(s.filter(pred) == f.push(s.last()));
            assert(f.push(s.last()).drop_last() =~= f);
            assert(presence_without_room(m.insert(k, v), room_id) =~= presence_without_room(
                m,
                room_id,
            ).insert(k, v));
        } else {
            assert(s.filter(pred) == f);
            assert(presence_without_room(m.insert(k, v), room_id) =~= presence_without_room(
                m,
                room_id,
            ));
        }
    }
}

proof fn lemma_filter_distinct(s: Seq<(String, String)>, room_id: Seq<char>)
    requires
        distinct_players(s),
    ensures
        distinct_players(s.filter(outside_room(room_id))),
    decreases s.len(),
{
    reveal(Seq::filter);
    let pred = outside_room(room_id);
    if s.len() > 0 {
        let t = s.drop_last();
        assert(distinct_players(t));
        lemma_filter_distinct(t, room_id);
        let f = t.filter(pred);
        if pred(s.last()) {
            let g = f.push(s.last());
            assert forall|a: int, b: int| 0 <= a < g.len() && 0 <= b < g.len() && a != b implies g[a].0@ != g[b].0@ by {
                if a < f.len() && b < f.len() {
                } else if a < f.len() {
                    assert(f.contains(f[a]));
                    t.lemma_filter_contains_rev(pred, f[a]);
                    let i = choose|i: int| 0 <= i < t.len() && t[i] == f[a];
                    assert(s[i] == t[i]);
                } else {
                    assert(f.contains(f[b]));
                    t.lemma_filter_contains_rev(pred, f[b]);
                    let i = choose|i: int| 0 <= i < t.len() && t[i] == f[b];
                    assert(s[i] == t[i]);
                }
            }
        }
    }
}

} // verus!
