//! The deterministic parts of a room's sensor simulation.

use vstd::prelude::*;
use vstd::string::*;

verus! {

/// The sum of the bytes of `s`.
pub open spec fn byte_sum(s: Seq<u8>) -> int
    decreases s.len(),
{
    if s.len() == 0 {
        0
    } else {
        byte_sum(s.drop_last()) + s.last()
    }
}

/// The simulation seed of a room: the sum of the UTF-8 bytes of its id.
pub fn room_seed(room_id: &str) -> (r: u32)
    requires
        byte_sum(room_id.spec_bytes()) <= u32::MAX,
    ensures
        r == byte_sum(room_id.spec_bytes()),
{
    let bytes = room_id.as_bytes();
    let mut sum: u32 = 0;
    let mut i: usize = 0;
    while i < bytes.len()
        invariant
            bytes@ == room_id.spec_bytes(),
            byte_sum(bytes@) <= u32::MAX,
            i <= bytes@.len(),
            sum == byte_sum(bytes@.take(i as int)),
        decreases bytes@.len() - i,
    {
        proof {
            assert(bytes@.take(i + 1).drop_last() =~= bytes@.take(i as int));
            lemma_byte_sum_prefix(bytes@, i + 1);
        }
        sum = sum + bytes[i] as u32;
        i = i + 1;
    }
    assert(bytes@.take(bytes@.len() as int) =~= bytes@);
    sum
}

proof fn lemma_byte_sum_prefix(s: Seq<u8>, k: int)
    requires
        0 <= k <= s.len(),
    ensures
        byte_sum(s.take(k)) <= byte_sum(s),
    decreases s.len() - k,
{
    if k < s.len() {
        lemma_byte_sum_prefix(s, k + 1);
        assert(s.take(k + 1).drop_last() =~= s.take(k));
    } else {
        assert(s.take(k) =~= s);
    }
}

/// Whether the simulated occupancy schedule says the room is occupied at
/// tick `sequence`: twelve ticks on, twelve off, shifted by the room's seed.
pub open spec fn scheduled_occupancy(seed: u32, sequence: u64) -> bool {
    ((sequence + seed % 5) / 12) % 2 == 0
}

/// The occupancy and motion readings at tick `sequence`: the schedule's,
/// or both set while a player walks in the room.
pub fn occupancy_readings(seed: u32, sequence: u64, players_present: bool) -> (r: (bool, bool))
    requires
        sequence + seed % 5 <= u64::MAX,
    ensures
        r.0 == (scheduled_occupancy(seed, sequence) || players_present),
        r.1 == (scheduled_occupancy(seed, sequence) || players_present),
        players_present ==> r.0 && r.1,
{
    let offset: u64 = (seed % 5) as u64;
    let simulated = ((sequence + offset) / 12) % 2 == 0;
    (simulated || players_present, players_present || simulated)
}


/// The sensors a room's simulator publishes on each tick, in order; the
/// energy sensor is not among them (the energy meter owns its topic).
pub open spec fn simulated_sensor_types() -> Seq<Seq<char>> {
    seq!["temperature"@, "humidity"@, "co2"@, "occupancy"@, "motion"@, "illuminance"@]
}

/// The sensors a room's simulator publishes on each tick, in order.
pub fn simulated_sensors() -> (r: Vec<&'static str>)
    ensures
        r@.map_values(|t: &str| t@) == simulated_sensor_types(),
        forall|i: int| 0 <= i < r@.len() ==> r@[i]@ != "energy"@,
{
    let r: Vec<&'static str> = vec!["temperature", "humidity", "co2", "occupancy", "motion", "illuminance"];
    assert(r@.map_values(|t: &str| t@) =~= simulated_sensor_types());
    proof {
        reveal_strlit("energy");
        reveal_strlit("temperature");
        reveal_strlit("humidity");
        reveal_strlit("co2");
        reveal_strlit("occupancy");
        reveal_strlit("motion");
        reveal_strlit("illuminance");
        assert forall|i: int| 0 <= i < r@.len() implies r@[i]@ != "energy"@ by {
            if i != 4 {
                assert(r@[i]@.len() != "energy"@.len());
            } else {
                assert(r@[i]@[0] == 'm' && "energy"@[0] == 'e');
            }
        }
    }
    r
}

/// Whether the energy meter publishes on its `ticks`-th tick: every second
/// one.
pub fn energy_report_due(ticks: u64) -> (r: bool)
    ensures
        r == (ticks % 2 == 0),
{
    ticks % 2 == 0
}

} // verus!
