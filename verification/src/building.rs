//! The Building -> Floor -> Room tree, the lookups that read it and the
//! request checks of the building API.

use vstd::prelude::*;
use vstd::string::*;
use crate::errors::ApiError;
use crate::ids::{new_v4_bits, simple_text, uuid_simple_text};
use crate::runtime::{number_ordinal, ordinal_of_bits};
use crate::text::{decimal, decimal_text, lemma_decimal_value, str_eq, trim, trim_seq};

verus! {

/// What a room is used as; a garage also has a garage door.
#[derive(Debug, Clone, Copy, PartialEq, Eq, Structural)]
pub enum RoomKind {
    Office,
    Garage,
}

/// A room. Its measurements in metres are held by the bits of their `f64`
/// values.
#[derive(Debug)]
pub struct Room {
    pub id: String,
    pub name: String,
    pub kind: RoomKind,
    pub color: String,
    pub width_bits: u64,
    pub depth_bits: u64,
    pub height_bits: u64,
}

/// A room as a mathematical value.
pub struct RoomView {
    pub id: Seq<char>,
    pub name: Seq<char>,
    pub kind: RoomKind,
    pub color: Seq<char>,
    pub width_bits: u64,
    pub depth_bits: u64,
    pub height_bits: u64,
}

impl View for Room {
    type V = RoomView;

    open spec fn view(&self) -> RoomView {
        RoomView {
            id: self.id@,
            name: self.name@,
            kind: self.kind,
            color: self.color@,
            width_bits: self.width_bits,
            depth_bits: self.depth_bits,
            height_bits: self.height_bits,
        }
    }
}

/// A floor and its rooms, in order.
#[derive(Debug)]
pub struct Floor {
    pub id: String,
    pub name: String,
    pub rooms: Vec<Room>,
}

/// A floor as a mathematical value.
pub struct FloorView {
    pub id: Seq<char>,
    pub name: Seq<char>,
    pub rooms: Seq<RoomView>,
}

/// The views of a sequence of rooms.
pub open spec fn room_views(rooms: Seq<Room>) -> Seq<RoomView> {
    rooms.map_values(|r: Room| r@)
}

impl View for Floor {
    type V = FloorView;

    open spec fn view(&self) -> FloorView {
        FloorView { id: self.id@, name: self.name@, rooms: room_views(self.rooms@) }
    }
}

/// The floors of the building, in order.
#[derive(Debug)]
pub struct Building {
    pub floors: Vec<Floor>,
}

/// The views of a sequence of floors.
pub open spec fn floor_views(floors: Seq<Floor>) -> Seq<FloorView> {
    floors.map_values(|f: Floor| f@)
}

impl View for Building {
    type V = Seq<FloorView>;

    open spec fn view(&self) -> Seq<FloorView> {
        floor_views(self.floors@)
    }
}

/// The index of the first room with id `room_id`.
pub open spec fn room_index(rooms: Seq<RoomView>, room_id: Seq<char>) -> Option<int>
    decreases rooms.len(),
{
    if rooms.len() == 0 {
        None
    } else if rooms[0].id == room_id {
        Some(0)
    } else {
        match room_index(rooms.drop_first(), room_id) {
            Some(i) => Some(i + 1),
            None => None,
        }
    }
}

/// Whether a floor holds the room `room_id`.
pub open spec fn floor_has_room(floor: FloorView, room_id: Seq<char>) -> bool {
    exists|k: int| 0 <= k < floor.rooms.len() && floor.rooms[k].id == room_id
}

/// The index of the first floor that holds `room_id`.
pub open spec fn room_floor_index(floors: Seq<FloorView>, room_id: Seq<char>) -> Option<int>
    decreases floors.len(),
{
    if floors.len() == 0 {
        None
    } else if floor_has_room(floors[0], room_id) {
        Some(0)
    } else {
        match room_floor_index(floors.drop_first(), room_id) {
            Some(i) => Some(i + 1),
            None => None,
        }
    }
}

/// The id of the first floor that holds `room_id`.
pub open spec fn floor_of_room(floors: Seq<FloorView>, room_id: Seq<char>) -> Option<Seq<char>> {
    match room_floor_index(floors, room_id) {
        Some(i) => Some(floors[i].id),
        None => None,
    }
}

/// The index of the first floor with id `floor_id`.
pub open spec fn floor_index(floors: Seq<FloorView>, floor_id: Seq<char>) -> Option<int>
    decreases floors.len(),
{
    if floors.len() == 0 {
        None
    } else if floors[0].id == floor_id {
        Some(0)
    } else {
        match floor_index(floors.drop_first(), floor_id) {
            Some(i) => Some(i + 1),
            None => None,
        }
    }
}

/// The room ids of the first floor with id `floor_id`.
pub open spec fn rooms_of_floor(floors: Seq<FloorView>, floor_id: Seq<char>) -> Option<Seq<Seq<char>>> {
    match floor_index(floors, floor_id) {
        Some(i) => Some(floors[i].rooms.map_values(|r: RoomView| r.id)),
        None => None,
    }
}

pub proof fn lemma_room_index(rooms: Seq<RoomView>, room_id: Seq<char>)
    ensures
        match room_index(rooms, room_id) {
            Some(i) => 0 <= i < rooms.len() && rooms[i].id == room_id && forall|j: int|
                0 <= j < i ==> rooms[j].id != room_id,
            None => forall|j: int| 0 <= j < rooms.len() ==> rooms[j].id != room_id,
        },
    decreases rooms.len(),
{
    if rooms.len() > 0 && rooms[0].id != room_id {
        lemma_room_index(rooms.drop_first(), room_id);
        assert forall|j: int| 1 <= j < rooms.len() implies rooms[j] == rooms.drop_first()[j - 1] by {}
    }
}

pub proof fn lemma_room_floor_index(floors: Seq<FloorView>, room_id: Seq<char>)
    ensures
        match room_floor_index(floors, room_id) {
            Some(i) => 0 <= i < floors.len() && floor_has_room(floors[i], room_id) && forall|j: int|
                0 <= j < i ==> !floor_has_room(#[trigger] floors[j], room_id),
            None => forall|j: int| 0 <= j < floors.len() ==> !floor_has_room(#[trigger] floors[j], room_id),
        },
    decreases floors.len(),
{
    if floors.len() > 0 && !floor_has_room(floors[0], room_id) {
        lemma_room_floor_index(floors.drop_first(), room_id);
        assert forall|j: int| 1 <= j < floors.len() implies floors[j] == floors.drop_first()[j - 1] by {}
    }
}

pub proof fn lemma_floor_index(floors: Seq<FloorView>, floor_id: Seq<char>)
    ensures
        match floor_index(floors, floor_id) {
            Some(i) => 0 <= i < floors.len() && floors[i].id == floor_id && forall|j: int|
                0 <= j < i ==> floors[j].id != floor_id,
            None => forall|j: int| 0 <= j < floors.len() ==> floors[j].id != floor_id,
        },
    decreases floors.len(),
{
    if floors.len() > 0 && floors[0].id != floor_id {
        lemma_floor_index(floors.drop_first(), floor_id);
        assert forall|j: int| 1 <= j < floors.len() implies floors[j] == floors.drop_first()[j - 1] by {}
    }
}

/// A first index found by a scan is the one the spec names.
proof fn lemma_room_index_at(rooms: Seq<RoomView>, room_id: Seq<char>, i: int)
    requires
        0 <= i < rooms.len(),
        rooms[i].id == room_id,
        forall|j: int| 0 <= j < i ==> rooms[j].id != room_id,
    ensures
        room_index(rooms, room_id) == Some(i),
{
    lemma_room_index(rooms, room_id);
}

proof fn lemma_room_floor_index_at(floors: Seq<FloorView>, room_id: Seq<char>, i: int)
    requires
        0 <= i < floors.len(),
        floor_has_room(floors[i], room_id),
        forall|j: int| 0 <= j < i ==> !floor_has_room(#[trigger] floors[j], room_id),
    ensures
        room_floor_index(floors, room_id) == Some(i),
{
    lemma_room_floor_index(floors, room_id);
    if let Some(k) = room_floor_index(floors, room_id) {
        if k < i {
            assert(!floor_has_room(floors[k], room_id));
        }
    }
}

proof fn lemma_floor_index_at(floors: Seq<FloorView>, floor_id: Seq<char>, i: int)
    requires
        0 <= i < floors.len(),
        floors[i].id == floor_id,
        forall|j: int| 0 <= j < i ==> floors[j].id != floor_id,
    ensures
        floor_index(floors, floor_id) == Some(i),
{
    lemma_floor_index(floors, floor_id);
}

/// The index of the first room with id `room_id`.
fn find_room(rooms: &Vec<Room>, room_id: &str) -> (r: Option<usize>)
    ensures
        r matches Some(i) ==> room_index(room_views(rooms@), room_id@) == Some(i as int),
        r is None ==> room_index(room_views(rooms@), room_id@) is None,
{
    let ghost views = room_views(rooms@);
    proof {
        lemma_room_index(views, room_id@);
    }
    let mut k: usize = 0;
    while k < rooms.len()
        invariant
            views == room_views(rooms@),
            k <= rooms@.len(),
            forall|j: int| 0 <= j < k ==> views[j].id != room_id@,
        decreases rooms@.len() - k,
    {
        if str_eq(rooms[k].id.as_str(), room_id) {
            proof {
                lemma_room_index_at(views, room_id@, k as int);
            }
            return Some(k);
        }
        k = k + 1;
    }
    None
}

impl Building {
    /// A building without floors.
    pub fn new() -> (b: Self)
        ensures
            b@.len() == 0,
    {
        Building { floors: Vec::new() }
    }

    /// The index of the first floor that holds `room_id`.
    fn find_floor_with_room(&self, room_id: &str) -> (r: Option<usize>)
        ensures
            r matches Some(i) ==> i < self.floors@.len() && room_floor_index(self@, room_id@) == Some(
                i as int,
            ),
            r is None ==> room_floor_index(self@, room_id@) is None,
    {
        proof {
            lemma_room_floor_index(self@, room_id@);
        }
        let mut i: usize = 0;
        while i < self.floors.len()
            invariant
                i <= self@.len(),
                forall|j: int| 0 <= j < i ==> !floor_has_room(#[trigger] self@[j], room_id@),
            decreases self@.len() - i,
        {
            let found = find_room(&self.floors[i].rooms, room_id);
            proof {
                lemma_room_index(self@[i as int].rooms, room_id@);
            }
            if found.is_some() {
                proof {
                    lemma_room_floor_index_at(self@, room_id@, i as int);
                }
                return Some(i);
            }
            i = i + 1;
        }
        None
    }

    /// The index of the first floor with id `floor_id`.
    fn find_floor(&self, floor_id: &str) -> (r: Option<usize>)
        ensures
            r matches Some(i) ==> i < self.floors@.len() && floor_index(self@, floor_id@) == Some(
                i as int,
            ),
            r is None ==> floor_index(self@, floor_id@) is None,
    {
        proof {
            lemma_floor_index(self@, floor_id@);
        }
        let mut i: usize = 0;
        while i < self.floors.len()
            invariant
                i <= self@.len(),
                forall|j: int| 0 <= j < i ==> self@[j].id != floor_id@,
            decreases self@.len() - i,
        {
            if str_eq(self.floors[i].id.as_str(), floor_id) {
                proof {
                    lemma_floor_index_at(self@, floor_id@, i as int);
                }
                return Some(i);
            }
            i = i + 1;
        }
        None
    }

    /// The id of the floor that holds `room_id` (the first, should several).
    pub fn floor_id_for_room(&self, room_id: &str) -> (r: Option<String>)
        ensures
            r matches Some(f) ==> floor_of_room(self@, room_id@) == Some(f@),
            r is None ==> floor_of_room(self@, room_id@) is None,
    {
        match self.find_floor_with_room(room_id) {
            Some(i) => Some(self.floors[i].id.clone()),
            None => None,
        }
    }

    /// The room ids of the floor `floor_id` (the first, should several have
    /// that id).
    pub fn floor_room_ids(&self, floor_id: &str) -> (r: Option<Vec<String>>)
        ensures
            r matches Some(v) ==> rooms_of_floor(self@, floor_id@) == Some(
                v@.map_values(|s: String| s@),
            ),
            r is None ==> rooms_of_floor(self@, floor_id@) is None,
    {
        match self.find_floor(floor_id) {
            Some(i) => {
                let rooms = &self.floors[i].rooms;
                let ghost views = room_views(rooms@);
                let mut out: Vec<String> = Vec::new();
                let mut k: usize = 0;
                while k < rooms.len()
                    invariant
                        views == room_views(rooms@),
                        k <= rooms@.len(),
                        out@.map_values(|s: String| s@) == views.take(k as int).map_values(
                            |r: RoomView| r.id,
                        ),
                    decreases rooms@.len() - k,
                {
                    let ghost before = out@;
                    out.push(rooms[k].id.clone());
                    proof {
                        assert(out@ == before.push(out@.last()));
                        assert(views.take(k + 1) =~= views.take(k as int).push(views[k as int]));
                        assert(out@.map_values(|s: String| s@) =~= before.map_values(|s: String| s@).push(
                            out@.last()@,
                        ));
                        assert(views.take(k + 1).map_values(|r: RoomView| r.id) =~= views.take(
                            k as int,
                        ).map_values(|r: RoomView| r.id).push(views[k as int].id));
                    }
                    k = k + 1;
                }
                assert(views.take(rooms@.len() as int) =~= views);
                Some(out)
            },
            None => None,
        }
    }
}


/// The floor id `floor-{k}`.
pub open spec fn numbered_floor_id(k: nat) -> Seq<char> {
    "floor-"@ + decimal(k)
}

/// Whether some floor has the id `id`.
pub open spec fn floor_id_taken(floors: Seq<FloorView>, id: Seq<char>) -> bool {
    exists|i: int| 0 <= i < floors.len() && floors[i].id == id
}

/// Whether `k` numbers the next new floor: the least number above the
/// number of floors whose id `floor-{k}` no floor has yet.
pub open spec fn is_next_floor_number(floors: Seq<FloorView>, k: nat) -> bool {
    &&& floors.len() + 1 <= k
    &&& !floor_id_taken(floors, numbered_floor_id(k))
    &&& forall|j: nat|
        floors.len() + 1 <= j < k ==> floor_id_taken(floors, #[trigger] numbered_floor_id(j))
}

proof fn lemma_numbered_ids_distinct(a: nat, b: nat)
    requires
        numbered_floor_id(a) == numbered_floor_id(b),
    ensures
        a == b,
{
    let p = "floor-"@;
    assert(numbered_floor_id(a).skip(p.len() as int) =~= decimal(a));
    assert(numbered_floor_id(b).skip(p.len() as int) =~= decimal(b));
    lemma_decimal_value(a);
    lemma_decimal_value(b);
}

/// Among the numbers just above the number of floors, as many as there are
/// floors plus one, some id is free: each floor takes at most one of them.
proof fn lemma_free_floor_number(floors: Seq<FloorView>)
    ensures
        exists|k: nat|
            floors.len() + 1 <= k <= 2 * floors.len() + 1 && !floor_id_taken(
                floors,
                #[trigger] numbered_floor_id(k),
            ),
{
    let n = floors.len() as int;
    if forall|k: nat|
        n + 1 <= k <= 2 * n + 1 ==> floor_id_taken(floors, #[trigger] numbered_floor_id(k)) {
        let c = vstd::set_lib::set_int_range(n + 1, 2 * n + 2);
        let f = |k: int| choose|i: int| 0 <= i < n && floors[i].id == numbered_floor_id(k as nat);
        vstd::set_lib::lemma_int_range(n + 1, 2 * n + 2);
        vstd::set_lib::lemma_int_range(0, n);
        assert forall|k: int| c.contains(k) implies 0 <= #[trigger] f(k) < n && floors[f(k)].id
            == numbered_floor_id(k as nat) by {
            assert(floor_id_taken(floors, numbered_floor_id(k as nat)));
        }
        assert forall|a: int, b: int|
            c.contains(a) && c.contains(b) && #[trigger] f(a) == #[trigger] f(b) implies a == b by {
            assert(0 <= f(a) < n && floors[f(a)].id == numbered_floor_id(a as nat));
            assert(0 <= f(b) < n && floors[f(b)].id == numbered_floor_id(b as nat));
            lemma_numbered_ids_distinct(a as nat, b as nat);
        }
        assert(vstd::relations::injective_on(f, c));
        let img = c.map(f);
        vstd::set_lib::lemma_map_size(c, img, f);
        assert forall|i: int| img.contains(i) implies vstd::set_lib::set_int_range(0, n).contains(i) by {
            let k = choose|k: int| c.contains(k) && i == f(k);
            assert(0 <= f(k) < n);
        }
        vstd::set_lib::lemma_len_subset(img, vstd::set_lib::set_int_range(0, n));
        assert(false);
    }
}

impl Building {
    /// Whether some floor has the id `id`.
    fn has_floor(&self, id: &str) -> (r: bool)
        ensures
            r == floor_id_taken(self@, id@),
    {
        proof {
            lemma_floor_index(self@, id@);
        }
        self.find_floor(id).is_some()
    }

    /// The id of the next new floor: `floor-{k}` for the least `k` above the
    /// number of floors that no floor uses yet.
    pub fn next_floor_id(&self) -> (r: String)
        ensures
            exists|k: nat| is_next_floor_number(self@, k) && r@ == numbered_floor_id(k),
    {
        let n: u128 = self.floors.len() as u128;
        proof {
            lemma_free_floor_number(self@);
        }
        let mut k: u128 = n + 1;
        loop
            invariant
                n == self@.len(),
                n <= usize::MAX,
                n + 1 <= k <= 2 * n + 1,
                exists|m: nat|
                    k <= m <= 2 * n + 1 && !floor_id_taken(self@, #[trigger] numbered_floor_id(m)),
                forall|j: nat|
                    n + 1 <= j < k ==> floor_id_taken(self@, #[trigger] numbered_floor_id(j)),
            decreases 2 * n + 1 - k,
        {
            let mut id = String::from_str("floor-");
            let digits = decimal_text(k);
            id.append(digits.as_str());
            proof {
                reveal_strlit("floor-");
            }
            assert(id@ == numbered_floor_id(k as nat));
            if !self.has_floor(id.as_str()) {
                return id;
            }
            proof {
                let m = choose|m: nat|
                    k <= m <= 2 * n + 1 && !floor_id_taken(self@, #[trigger] numbered_floor_id(m));
                assert(m != k);
                assert forall|j: nat| n + 1 <= j < k + 1 implies floor_id_taken(
                    self@,
                    #[trigger] numbered_floor_id(j),
                ) by {
                    if j < k {
                    }
                }
            }
            k = k + 1;
        }
    }
}


/// A name with surrounding white space removed, if 1 to 60 characters
/// remain.
pub open spec fn valid_name(name: Seq<char>) -> bool {
    0 < trim_seq(name).len() <= 60
}

/// Trims a room or floor name and checks that 1 to 60 characters remain.
pub fn clean_name(name: &str) -> (r: Result<String, ApiError>)
    ensures
        match r {
            Ok(n) => n@ == trim_seq(name@) && valid_name(name@),
            Err(e) => (e is EmptyName && trim_seq(name@).len() == 0) || (e is NameTooLong
                && trim_seq(name@).len() > 60),
        },
{
    let cleaned = trim(name);
    let count: usize = cleaned.as_str().unicode_len();
    if count == 0 {
        return Err(ApiError::EmptyName);
    }
    if count > 60 {
        return Err(ApiError::NameTooLong);
    }
    Ok(cleaned)
}

/// The colour a room update keeps: the trimmed text, if 1 to 32
/// characters remain.
pub open spec fn cleaned_color(color: Seq<char>) -> Option<Seq<char>> {
    if 0 < trim_seq(color).len() <= 32 {
        Some(trim_seq(color))
    } else {
        None
    }
}

/// The colour a room update keeps: the trimmed text, if 1 to 32
/// characters remain.
pub fn clean_color(color: &str) -> (r: Option<String>)
    ensures
        opt_string_view(r) == cleaned_color(color@),
{
    let cleaned = trim(color);
    let count: usize = cleaned.as_str().unicode_len();
    if count > 0 && count <= 32 {
        Some(cleaned)
    } else {
        None
    }
}

/// The view of an optional string.
pub open spec fn opt_string_view(o: Option<String>) -> Option<Seq<char>> {
    match o {
        Some(s) => Some(s@),
        None => None,
    }
}

/// The bits of the `f64` values 2, 10 and 60.
pub const TWO_BITS: u64 = 0x4000_0000_0000_0000u64;
pub const TEN_BITS: u64 = 0x4024_0000_0000_0000u64;
pub const SIXTY_BITS: u64 = 0x404e_0000_0000_0000u64;

/// Whether the `f64` with bits `bits` lies in the closed range between the
/// `f64`s with bits `lo` and `hi`, compared by their ordinals. For finite
/// bounds this is `(lo..=hi).contains(&x)`: ordinals order numbers as `f64`
/// does and place every NaN outside any finite range.
pub open spec fn within(bits: u64, lo: u64, hi: u64) -> bool {
    ordinal_of_bits(lo) <= ordinal_of_bits(bits) <= ordinal_of_bits(hi)
}

/// Checks the measurements of a room (given by the bits of their `f64`
/// values): width and depth between 2 and 60 metres, height between 2 and 10.
pub fn validate_size(width_bits: u64, depth_bits: u64, height_bits: u64) -> (r: Result<(), ApiError>)
    ensures
        match r {
            Ok(()) => within(width_bits, TWO_BITS, SIXTY_BITS) && within(
                depth_bits,
                TWO_BITS,
                SIXTY_BITS,
            ) && within(height_bits, TWO_BITS, TEN_BITS),
            Err(e) => (e is SizeOutOfRange && !(within(width_bits, TWO_BITS, SIXTY_BITS) && within(
                depth_bits,
                TWO_BITS,
                SIXTY_BITS,
            ))) || (e is HeightOutOfRange && within(width_bits, TWO_BITS, SIXTY_BITS) && within(
                depth_bits,
                TWO_BITS,
                SIXTY_BITS,
            ) && !within(height_bits, TWO_BITS, TEN_BITS)),
        },
{
    let lo = number_ordinal(TWO_BITS);
    let wide = number_ordinal(SIXTY_BITS);
    let tall = number_ordinal(TEN_BITS);
    let w = number_ordinal(width_bits);
    let d = number_ordinal(depth_bits);
    let h = number_ordinal(height_bits);
    if !(lo <= w && w <= wide) || !(lo <= d && d <= wide) {
        return Err(ApiError::SizeOutOfRange);
    }
    if !(lo <= h && h <= tall) {
        return Err(ApiError::HeightOutOfRange);
    }
    Ok(())
}

/// Whether `id` is a room id made of `room-` and the first eight hex digits
/// of a random UUID.
pub open spec fn is_random_room_id(id: Seq<char>) -> bool {
    exists|u: u128| id == "room-"@ + uuid_simple_text(u).take(8)
}

/// A fresh room id: `room-` and the first eight hex digits of a random UUID.
pub fn new_room_id() -> (r: String)
    ensures
        is_random_room_id(r@),
        r@.len() == 13,
{
    let bits = new_v4_bits();
    let text = simple_text(bits);
    let head = text.as_str().substring_char(0, 8);
    let mut id = String::from_str("room-");
    id.append(head);
    proof {
        reveal_strlit("room-");
    }
    id
}

/// The bits of the `f64` values 6, 5 and 3: a new room's width, depth and
/// height in metres.
pub const DEFAULT_WIDTH_BITS: u64 = 0x4018_0000_0000_0000u64;
pub const DEFAULT_DEPTH_BITS: u64 = 0x4014_0000_0000_0000u64;
pub const DEFAULT_HEIGHT_BITS: u64 = 0x4008_0000_0000_0000u64;

/// The colour of a new room.
pub open spec fn default_room_color() -> Seq<char> {
    "#8fb3d9"@
}

impl Room {
    /// A room of the default size (6 x 5 x 3 metres) and colour.
    pub fn new(id: String, name: String, kind: RoomKind) -> (r: Self)
        ensures
            r.id == id,
            r.name == name,
            r.kind == kind,
            r.color@ == default_room_color(),
            r.width_bits == DEFAULT_WIDTH_BITS,
            r.depth_bits == DEFAULT_DEPTH_BITS,
            r.height_bits == DEFAULT_HEIGHT_BITS,
    {
        Room {
            id,
            name,
            kind,
            color: String::from_str("#8fb3d9"),
            width_bits: DEFAULT_WIDTH_BITS,
            depth_bits: DEFAULT_DEPTH_BITS,
            height_bits: DEFAULT_HEIGHT_BITS,
        }
    }

    /// A field-by-field copy.
    pub fn copy(&self) -> (r: Self)
        ensures
            r == *self,
    {
        Room {
            id: self.id.clone(),
            name: self.name.clone(),
            kind: self.kind,
            color: self.color.clone(),
            width_bits: self.width_bits,
            depth_bits: self.depth_bits,
            height_bits: self.height_bits,
        }
    }
}



/// `f` applied to the elements that pass `p` after `f`: filtering commutes
/// with taking views.
pub proof fn lemma_map_filter<A, B>(s: Seq<A>, f: spec_fn(A) -> B, p: spec_fn(B) -> bool)
    ensures
        s.filter(|a: A| p(f(a))).map_values(f) == s.map_values(f).filter(p),
    decreases s.len(),
{
    reveal(Seq::filter);
    if s.len() > 0 {
        lemma_map_filter(s.drop_last(), f, p);
        assert(s.map_values(f).drop_last() =~= s.drop_last().map_values(f));
        let q = |a: A| p(f(a));
        if q(s.last()) {
            assert(s.filter(q).map_values(f) =~= s.drop_last().filter(q).map_values(f).push(
                f(s.last()),
            ));
        }
    }
}

/// Floors whose id is not `id`.
pub open spec fn floor_id_is_not(id: Seq<char>) -> spec_fn(FloorView) -> bool {
    |f: FloorView| f.id != id
}

/// Floors (held ones) whose id is not `id`.
pub open spec fn held_floor_id_is_not(id: Seq<char>) -> spec_fn(Floor) -> bool {
    |f: Floor| f.id@ != id
}

/// Rooms (held ones) whose id is not `id`.
pub open spec fn held_room_id_is_not(id: Seq<char>) -> spec_fn(Room) -> bool {
    |r: Room| r.id@ != id
}

/// Rooms whose id is not `id`.
pub open spec fn room_id_is_not(id: Seq<char>) -> spec_fn(RoomView) -> bool {
    |r: RoomView| r.id != id
}

/// Every room of the building with the id of its floor, floor by floor.
pub open spec fn all_rooms(floors: Seq<FloorView>) -> Seq<(Seq<char>, RoomView)>
    decreases floors.len(),
{
    if floors.len() == 0 {
        Seq::empty()
    } else {
        let f = floors.last();
        all_rooms(floors.drop_last()) + f.rooms.map_values(|r: RoomView| (f.id, r))
    }
}

/// The views of floor-and-room pairs.
pub open spec fn placed_views(rooms: Seq<(String, Room)>) -> Seq<(Seq<char>, RoomView)> {
    rooms.map_values(|p: (String, Room)| (p.0@, p.1@))
}

impl Building {
    /// Adds a floor named `name` (trimmed; 1 to 60 characters) with the next
    /// free id and no rooms, and returns it; refused, with nothing changed,
    /// for an invalid name.
    pub fn create_floor(&mut self, name: &str) -> (r: Result<Floor, ApiError>)
        ensures
            match r {
                Ok(f) => {
                    &&& valid_name(name@)
                    &&& exists|k: nat|
                        is_next_floor_number(old(self)@, k) && f.id@ == numbered_floor_id(k)
                    &&& f.name@ == trim_seq(name@)
                    &&& f.rooms@.len() == 0
                    &&& final(self)@ == old(self)@.push(f@)
                },
                Err(e) => {
                    &&& final(self)@ == old(self)@
                    &&& (e is EmptyName && trim_seq(name@).len() == 0) || (e is NameTooLong
                        && trim_seq(name@).len() > 60)
                },
            },
    {
        let cleaned = match clean_name(name) {
            Ok(n) => n,
            Err(e) => {
                return Err(e);
            },
        };
        let id = self.next_floor_id();
        let answer = Floor { id: id.clone(), name: cleaned.clone(), rooms: Vec::new() };
        let floor = Floor { id, name: cleaned, rooms: Vec::new() };
        let ghost before = self.floors@;
        self.floors.push(floor);
        proof {
            assert(self.floors@ == before.push(self.floors@.last()));
            assert(floor_views(self.floors@) =~= floor_views(before).push(answer@));
        }
        Ok(answer)
    }

    /// Removes every floor with id `floor_id`, with its rooms.
    pub fn remove_floor(&mut self, floor_id: &str)
        ensures
            final(self)@ == old(self)@.filter(floor_id_is_not(floor_id@)),
    {
        let ghost before = self.floors@;
        let ghost pred = held_floor_id_is_not(floor_id@);
        let mut rest: Vec<Floor> = Vec::new();
        std::mem::swap(&mut rest, &mut self.floors);
        let mut kept: Vec<Floor> = Vec::new();
        let ghost mut j: int = 0;
        assert(before.skip(0) =~= before);
        while rest.len() > 0
            invariant
                pred == held_floor_id_is_not(floor_id@),
                0 <= j <= before.len(),
                rest@ == before.skip(j),
                kept@ == before.take(j).filter(pred),
            decreases rest@.len(),
        {
            proof {
                crate::store::lemma_filter_step(before, j, pred);
                assert(before.skip(j).drop_first() =~= before.skip(j + 1));
            }
            let floor = rest.remove(0);
            if !str_eq(floor.id.as_str(), floor_id) {
                kept.push(floor);
            }
            proof {
                j = j + 1;
            }
        }
        proof {
            assert(before.take(j) =~= before);
            lemma_map_filter(before, |f: Floor| f@, floor_id_is_not(floor_id@));
            assert(pred =~= |a: Floor| floor_id_is_not(floor_id@)((|f: Floor| f@)(a)));
        }
        self.floors = kept;
    }

    /// Adds `room` to the floor `floor_id` (the first with that id); refused,
    /// with nothing changed, when there is no such floor.
    pub fn add_room(&mut self, floor_id: &str, room: Room) -> (r: Result<(), ApiError>)
        ensures
            match r {
                Ok(()) => floor_index(old(self)@, floor_id@) matches Some(i) && final(self)@
                    == old(self)@.update(
                    i,
                    FloorView { rooms: old(self)@[i].rooms.push(room@), ..old(self)@[i] },
                ),
                Err(e) => e is FloorNotFound && floor_index(old(self)@, floor_id@) is None
                    && *final(self) == *old(self),
            },
    {
        let i = match self.find_floor(floor_id) {
            Some(i) => i,
            None => {
                return Err(ApiError::FloorNotFound);
            },
        };
        let ghost before = self.floors@;
        let ghost new_room = room@;
        let mut floors: Vec<Floor> = Vec::new();
        std::mem::swap(&mut floors, &mut self.floors);
        let mut floor = floors.remove(i);
        let ghost old_rooms = floor.rooms@;
        floor.rooms.push(room);
        proof {
            assert(room_views(floor.rooms@) =~= room_views(old_rooms).push(new_room));
        }
        floors.insert(i, floor);
        proof {
            assert(floors@ =~= before.update(i as int, floors@[i as int]));
            assert(floor_views(floors@) =~= floor_views(before).update(i as int, floors@[i as int]@));
        }
        self.floors = floors;
        Ok(())
    }

    /// Removes the room `room_id` from the floor that holds it: from the
    /// first floor carrying that floor's id, every room with that id;
    /// refused, with nothing changed, when no floor holds the room.
    pub fn remove_room(&mut self, room_id: &str) -> (r: Result<(), ApiError>)
        ensures
            match r {
                Ok(()) => floor_of_room(old(self)@, room_id@) matches Some(f) && floor_index(
                    old(self)@,
                    f,
                ) matches Some(i) && final(self)@ == old(self)@.update(
                    i,
                    FloorView {
                        rooms: old(self)@[i].rooms.filter(room_id_is_not(room_id@)),
                        ..old(self)@[i]
                    },
                ),
                Err(e) => e is RoomNotFound && floor_of_room(old(self)@, room_id@) is None
                    && *final(self) == *old(self),
            },
    {
        let floor_id = match self.floor_id_for_room(room_id) {
            Some(f) => f,
            None => {
                return Err(ApiError::RoomNotFound);
            },
        };
        let i = match self.find_floor(floor_id.as_str()) {
            Some(i) => i,
            None => {
                proof {
                    lemma_room_floor_index(self@, room_id@);
                    lemma_floor_index(self@, floor_id@);
                    let k = room_floor_index(self@, room_id@).unwrap();
                    assert(self@[k].id == floor_id@);
                }
                return Err(ApiError::RoomNotFound);
            },
        };
        let ghost before = self.floors@;
        let mut floors: Vec<Floor> = Vec::new();
        std::mem::swap(&mut floors, &mut self.floors);
        let mut floor = floors.remove(i);
        let ghost old_rooms = floor.rooms@;
        let ghost pred = held_room_id_is_not(room_id@);
        let mut rest: Vec<Room> = Vec::new();
        std::mem::swap(&mut rest, &mut floor.rooms);
        let mut kept: Vec<Room> = Vec::new();
        let ghost mut j: int = 0;
        assert(old_rooms.skip(0) =~= old_rooms);
        while rest.len() > 0
            invariant
                pred == held_room_id_is_not(room_id@),
                0 <= j <= old_rooms.len(),
                rest@ == old_rooms.skip(j),
                kept@ == old_rooms.take(j).filter(pred),
            decreases rest@.len(),
        {
            proof {
                crate::store::lemma_filter_step(old_rooms, j, pred);
                assert(old_rooms.skip(j).drop_first() =~= old_rooms.skip(j + 1));
            }
            let room = rest.remove(0);
            if !str_eq(room.id.as_str(), room_id) {
                kept.push(room);
            }
            proof {
                j = j + 1;
            }
        }
        proof {
            assert(old_rooms.take(j) =~= old_rooms);
            lemma_map_filter(old_rooms, |r: Room| r@, room_id_is_not(room_id@));
            assert(pred =~= |a: Room| room_id_is_not(room_id@)((|r: Room| r@)(a)));
        }
        floor.rooms = kept;
        floors.insert(i, floor);
        proof {
            assert(floors@ =~= before.update(i as int, floors@[i as int]));
            assert(floor_views(floors@) =~= floor_views(before).update(i as int, floors@[i as int]@));
        }
        self.floors = floors;
        Ok(())
    }

    /// Replaces room `k` of floor `i` by `room`.
    pub(crate) fn replace_room(&mut self, i: usize, k: usize, room: Room)
        requires
            i < old(self)@.len(),
            k < old(self)@[i as int].rooms.len(),
        ensures
            final(self)@ == old(self)@.update(
                i as int,
                FloorView {
                    rooms: old(self)@[i as int].rooms.update(k as int, room@),
                    ..old(self)@[i as int]
                },
            ),
    {
        let ghost before = self.floors@;
        let ghost new_room = room@;
        let mut floors: Vec<Floor> = Vec::new();
        std::mem::swap(&mut floors, &mut self.floors);
        let mut floor = floors.remove(i);
        let ghost old_rooms = floor.rooms@;
        floor.rooms.set(k, room);
        proof {
            assert(room_views(floor.rooms@) =~= room_views(old_rooms).update(k as int, new_room));
        }
        floors.insert(i, floor);
        proof {
            assert(floors@ =~= before.update(i as int, floors@[i as int]));
            assert(floor_views(floors@) =~= floor_views(before).update(i as int, floors@[i as int]@));
        }
        self.floors = floors;
    }

    /// Where room `room_id` is: the index of the first floor that holds it
    /// and its index among that floor's rooms (the first with that id).
    pub(crate) fn locate_room(&self, room_id: &str) -> (r: Option<(usize, usize)>)
        ensures
            match r {
                Some((i, k)) => room_floor_index(self@, room_id@) == Some(i as int) && room_index(
                    self@[i as int].rooms,
                    room_id@,
                ) == Some(k as int) && i < self@.len() && k < self@[i as int].rooms.len(),
                None => room_floor_index(self@, room_id@) is None,
            },
    {
        match self.find_floor_with_room(room_id) {
            Some(i) => {
                proof {
                    lemma_room_floor_index(self@, room_id@);
                    lemma_room_index(self@[i as int].rooms, room_id@);
                }
                match find_room(&self.floors[i].rooms, room_id) {
                    Some(k) => Some((i, k)),
                    None => None,
                }
            },
            None => None,
        }
    }

    /// Every room with the id of its floor, floor by floor.
    pub fn rooms(&self) -> (r: Vec<(String, Room)>)
        ensures
            placed_views(r@) == all_rooms(self@),
    {
        let mut out: Vec<(String, Room)> = Vec::new();
        let mut i: usize = 0;
        while i < self.floors.len()
            invariant
                i <= self@.len(),
                placed_views(out@) == all_rooms(self@.take(i as int)),
            decreases self@.len() - i,
        {
            let floor = &self.floors[i];
            let ghost fv = self@[i as int];
            let ghost start = placed_views(out@);
            let mut k: usize = 0;
            while k < floor.rooms.len()
                invariant
                    fv == floor@,
                    k <= fv.rooms.len(),
                    placed_views(out@) == start + fv.rooms.take(k as int).map_values(
                        |r: RoomView| (fv.id, r),
                    ),
                decreases fv.rooms.len() - k,
            {
                let ghost prev = out@;
                out.push((floor.id.clone(), floor.rooms[k].copy()));
                proof {
                    assert(placed_views(out@) =~= placed_views(prev).push((fv.id, fv.rooms[k as int])));
                    assert(fv.rooms.take(k + 1).map_values(|r: RoomView| (fv.id, r)) =~= fv.rooms.take(
                        k as int,
                    ).map_values(|r: RoomView| (fv.id, r)).push((fv.id, fv.rooms[k as int])));
                }
                k = k + 1;
            }
            proof {
                assert(fv.rooms.take(fv.rooms.len() as int) =~= fv.rooms);
                assert(self@.take(i + 1).drop_last() =~= self@.take(i as int));
                assert(self@.take(i + 1).last() == fv);
            }
            i = i + 1;
        }
        assert(self@.take(self@.len() as int) =~= self@);
        out
    }
}


/// Whether `e` is the refusal of the invalid name `name`.
pub open spec fn name_refusal(e: ApiError, name: Seq<char>) -> bool {
    (e is EmptyName && trim_seq(name).len() == 0) || (e is NameTooLong && trim_seq(name).len() > 60)
}

/// Whether a room of these measurements (given by `f64` bits) is accepted.
pub open spec fn valid_size(width_bits: u64, depth_bits: u64, height_bits: u64) -> bool {
    &&& within(width_bits, TWO_BITS, SIXTY_BITS)
    &&& within(depth_bits, TWO_BITS, SIXTY_BITS)
    &&& within(height_bits, TWO_BITS, TEN_BITS)
}

/// Whether `e` is the refusal of the invalid measurements.
pub open spec fn size_refusal(e: ApiError, width_bits: u64, depth_bits: u64, height_bits: u64) -> bool {
    ||| (e is SizeOutOfRange && !(within(width_bits, TWO_BITS, SIXTY_BITS) && within(
        depth_bits,
        TWO_BITS,
        SIXTY_BITS,
    )))
    ||| (e is HeightOutOfRange && within(width_bits, TWO_BITS, SIXTY_BITS) && within(
        depth_bits,
        TWO_BITS,
        SIXTY_BITS,
    ) && !within(height_bits, TWO_BITS, TEN_BITS))
}

/// `value`, or `default` when there is none.
pub open spec fn or_default<T>(value: Option<T>, default: T) -> T {
    match value {
        Some(v) => v,
        None => default,
    }
}

/// A room once a patch renamed and recoloured it: the trimmed new name, and
/// the trimmed new colour if 1 to 32 characters remain.
pub open spec fn renamed_room(room: RoomView, name: Option<Seq<char>>, color: Option<Seq<char>>) -> RoomView {
    RoomView {
        name: match name {
            Some(n) => trim_seq(n),
            None => room.name,
        },
        color: match color {
            Some(c) => or_default(cleaned_color(c), room.color),
            None => room.color,
        },
        ..room
    }
}

/// A room once a patch resized it and changed its kind.
pub open spec fn resized_room(
    room: RoomView,
    width_bits: Option<u64>,
    depth_bits: Option<u64>,
    height_bits: Option<u64>,
    kind: Option<RoomKind>,
) -> RoomView {
    RoomView {
        width_bits: or_default(width_bits, room.width_bits),
        depth_bits: or_default(depth_bits, room.depth_bits),
        height_bits: or_default(height_bits, room.height_bits),
        kind: or_default(kind, room.kind),
        ..room
    }
}


/// Whether no two floors share an id.
pub open spec fn distinct_floor_ids(floors: Seq<FloorView>) -> bool {
    forall|i: int, j: int|
        0 <= i < floors.len() && 0 <= j < floors.len() && i != j ==> floors[i].id != floors[j].id
}

/// Floor ids stay distinct as floors are created: a created floor's id is
/// taken by no existing floor.
pub proof fn created_floor_ids_stay_distinct(floors: Seq<FloorView>, k: nat, created: FloorView)
    requires
        distinct_floor_ids(floors),
        is_next_floor_number(floors, k),
        created.id == numbered_floor_id(k),
    ensures
        distinct_floor_ids(floors.push(created)),
        forall|i: int| 0 <= i < floors.len() ==> floors[i].id != created.id,
{
    let grown = floors.push(created);
    assert forall|i: int, j: int|
        0 <= i < grown.len() && 0 <= j < grown.len() && i != j implies grown[i].id != grown[j].id by {
        if i < floors.len() && j < floors.len() {
            assert(grown[i] == floors[i] && grown[j] == floors[j]);
        } else if i < floors.len() {
            assert(grown[i] == floors[i]);
        } else {
            assert(grown[j] == floors[j]);
        }
    }
}

/// Deleting a floor that was just created, under an id no other floor had,
/// gives back the building as it was.
pub proof fn delete_undoes_create_floor(floors: Seq<FloorView>, created: FloorView)
    requires
        !floor_id_taken(floors, created.id),
    ensures
        floors.push(created).filter(floor_id_is_not(created.id)) == floors,
{
    reveal(Seq::filter);
    let grown = floors.push(created);
    assert(grown.drop_last() =~= floors);
    lemma_keep_all(floors, created.id);
}

proof fn lemma_keep_all(floors: Seq<FloorView>, id: Seq<char>)
    requires
        !floor_id_taken(floors, id),
    ensures
        floors.filter(floor_id_is_not(id)) == floors,
    decreases floors.len(),
{
    reveal(Seq::filter);
    if floors.len() > 0 {
        let rest = floors.drop_last();
        assert(!floor_id_taken(rest, id)) by {
            if floor_id_taken(rest, id) {
                let i = choose|i: int| 0 <= i < rest.len() && rest[i].id == id;
                assert(floors[i].id == id);
            }
        }
        lemma_keep_all(rest, id);
        assert(floors[floors.len() - 1].id != id);
        assert(rest.push(floors.last()) =~= floors);
    }
}

} // verus!
