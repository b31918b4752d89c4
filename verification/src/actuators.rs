//! The simulated actuators of a room: how commands set their state, how a
//! garage door travels, and what they draw.
//!
//! A garage door's position is a whole percentage: it starts closed and
//! moves in steps of ten towards fully open or fully closed.

use vstd::prelude::*;
use vstd::string::*;
use crate::text::str_eq;

verus! {

/// Rated power of an actuator in watts.
pub open spec fn rated_watts_of(actuator: Seq<char>) -> u32 {
    if actuator == "heating"@ {
        2000
    } else if actuator == "ventilation"@ {
        800
    } else if actuator == "lights"@ {
        250
    } else if actuator == "garage_door"@ {
        700
    } else if actuator == "door_lock"@ {
        100
    } else {
        200
    }
}

/// Rated power of an actuator in watts (its draw at 100 %).
pub fn rated_watts(actuator: &str) -> (r: u32)
    ensures
        r == rated_watts_of(actuator@),
{
    if str_eq(actuator, "heating") {
        2000
    } else if str_eq(actuator, "ventilation") {
        800
    } else if str_eq(actuator, "lights") {
        250
    } else if str_eq(actuator, "garage_door") {
        700
    } else if str_eq(actuator, "door_lock") {
        100
    } else {
        200
    }
}

/// Share of rated power an enabled actuator runs at.
pub open spec fn power_when_on(actuator: Seq<char>) -> u8 {
    if actuator == "heating"@ {
        70
    } else if actuator == "ventilation"@ {
        55
    } else if actuator == "lights"@ {
        35
    } else {
        50
    }
}

/// Share of rated power an enabled actuator runs at.
pub fn power_percent_when_on(actuator: &str) -> (r: u8)
    ensures
        r == power_when_on(actuator@),
{
    if str_eq(actuator, "heating") {
        70
    } else if str_eq(actuator, "ventilation") {
        55
    } else if str_eq(actuator, "lights") {
        35
    } else {
        50
    }
}

/// The state of one actuator.
#[derive(Debug)]
pub struct ActuatorState {
    pub enabled: bool,
    pub power_percent: u8,
    pub mode: String,
    /// Garage doors: how far open, in percent.
    pub position: u8,
    /// Garage doors: whether the door is travelling.
    pub moving: bool,
}

/// Where a garage door is heading: fully open when enabled, else closed.
pub open spec fn door_target(enabled: bool) -> u8 {
    if enabled {
        100
    } else {
        0
    }
}

impl ActuatorState {
    /// The state of `actuator` is consistent: a garage door's position is a
    /// whole multiple of ten between 0 and 100, and a travelling door is not
    /// yet at its target; any other actuator stays closed and still.
    pub open spec fn well_formed(&self, actuator: Seq<char>) -> bool {
        if actuator == "garage_door"@ {
            &&& self.position <= 100
            &&& self.position % 10 == 0
            &&& self.moving ==> self.position != door_target(self.enabled)
        } else {
            self.position == 0 && !self.moving
        }
    }

    /// Off, drawing nothing, in automatic mode, closed and still.
    pub fn new() -> (s: Self)
        ensures
            !s.enabled,
            s.power_percent == 0,
            s.mode@ == "automatic"@,
            s.position == 0,
            !s.moving,
            forall|a: Seq<char>| s.well_formed(a),
    {
        ActuatorState {
            enabled: false,
            power_percent: 0,
            mode: String::from_str("automatic"),
            position: 0,
            moving: false,
        }
    }
}

impl Default for ActuatorState {
    /// Off, drawing nothing, in automatic mode, closed and still.
    fn default() -> (s: Self)
        ensures
            !s.enabled,
            s.power_percent == 0,
            s.mode@ == "automatic"@,
            s.position == 0,
            !s.moving,
    {
        ActuatorState::new()
    }
}

/// The state after a command `enabled` in mode `mode` reached `actuator`.
pub open spec fn commanded(s: ActuatorState, actuator: Seq<char>, enabled: bool, mode: String) -> ActuatorState {
    if actuator == "door_lock"@ {
        ActuatorState {
            enabled,
            power_percent: if enabled { 10 } else { 0 },
            mode,
            position: s.position,
            moving: s.moving,
        }
    } else if actuator == "garage_door"@ {
        let moving = s.position != door_target(enabled);
        ActuatorState {
            enabled,
            power_percent: if moving { 100 } else { 0 },
            mode,
            position: s.position,
            moving,
        }
    } else {
        ActuatorState {
            enabled,
            power_percent: if enabled { power_when_on(actuator) } else { 0 },
            mode,
            position: s.position,
            moving: s.moving,
        }
    }
}

/// A travelling garage door after one tick: ten percent closer to its
/// target, stopping there.
pub open spec fn stepped(s: ActuatorState) -> ActuatorState {
    let target = door_target(s.enabled);
    let position: u8 = if target > s.position {
        if s.position + 10 > 100 { 100 } else { (s.position + 10) as u8 }
    } else {
        if s.position < 10 { 0 } else { (s.position - 10) as u8 }
    };
    let moving = position != target;
    ActuatorState {
        enabled: s.enabled,
        power_percent: if moving { 100 } else { 0 },
        mode: s.mode,
        position,
        moving,
    }
}

/// A state after `k` ticks of its door (ticks stop once it is still).
pub open spec fn stepped_times(s: ActuatorState, k: nat) -> ActuatorState
    decreases k,
{
    if k == 0 || !s.moving {
        s
    } else {
        stepped_times(stepped(s), (k - 1) as nat)
    }
}

/// Applies a command to an actuator's state.
pub fn apply_command(state: &mut ActuatorState, actuator: &str, enabled: bool, mode: String)
    requires
        old(state).well_formed(actuator@),
    ensures
        *final(state) == commanded(*old(state), actuator@, enabled, mode),
        final(state).well_formed(actuator@),
{
    proof {
        reveal_strlit("garage_door");
        reveal_strlit("door_lock");
        assert("garage_door"@.len() != "door_lock"@.len());
    }
    state.mode = mode;
    if str_eq(actuator, "door_lock") {
        state.enabled = enabled;
        state.power_percent = if enabled { 10 } else { 0 };
    } else if str_eq(actuator, "garage_door") {
        state.enabled = enabled;
        let target: u8 = if enabled { 100 } else { 0 };
        state.moving = state.position != target;
        state.power_percent = if state.moving { 100 } else { 0 };
    } else {
        state.enabled = enabled;
        state.power_percent = if enabled { power_percent_when_on(actuator) } else { 0 };
    }
}

/// Moves a travelling garage door one step (ten percent) towards its target.
pub fn step_door(state: &mut ActuatorState)
    requires
        old(state).well_formed("garage_door"@),
        old(state).moving,
    ensures
        *final(state) == stepped(*old(state)),
        final(state).well_formed("garage_door"@),
{
    let target: u8 = if state.enabled { 100 } else { 0 };
    let position: u8 = if target > state.position {
        if state.position > 90 { 100 } else { state.position + 10 }
    } else {
        if state.position < 10 { 0 } else { state.position - 10 }
    };
    state.position = position;
    state.moving = position != target;
    state.power_percent = if state.moving { 100 } else { 0 };
}

/// What an actuator reports on its state topic.
#[derive(Debug)]
pub struct ActuatorReport {
    pub enabled: bool,
    /// Door locks: whether locked.
    pub locked: Option<bool>,
    /// Garage doors: how far open.
    pub position_percent: Option<u8>,
    /// Garage doors: whether travelling.
    pub moving: Option<bool>,
    pub power_percent: u8,
    pub mode: String,
}

/// The report of `actuator` in state `s`: a garage door reports itself
/// enabled while open at all, with its position and travel; a door lock adds
/// whether it is locked.
pub open spec fn report_of(s: ActuatorState, actuator: Seq<char>) -> ActuatorReport {
    if actuator == "garage_door"@ {
        ActuatorReport {
            enabled: s.position > 0,
            locked: None,
            position_percent: Some(s.position),
            moving: Some(s.moving),
            power_percent: s.power_percent,
            mode: s.mode,
        }
    } else if actuator == "door_lock"@ {
        ActuatorReport {
            enabled: s.enabled,
            locked: Some(s.enabled),
            position_percent: None,
            moving: None,
            power_percent: s.power_percent,
            mode: s.mode,
        }
    } else {
        ActuatorReport {
            enabled: s.enabled,
            locked: None,
            position_percent: None,
            moving: None,
            power_percent: s.power_percent,
            mode: s.mode,
        }
    }
}

/// A door lock reports itself locked exactly when it is enabled, and after
/// a command it reports the lock state that the command asked for; no other
/// actuator reports a lock state.
pub proof fn door_lock_reports_its_lock(s: ActuatorState, enabled: bool, mode: String, actuator: Seq<char>)
    ensures
        report_of(s, "door_lock"@).locked == Some(s.enabled),
        report_of(s, "door_lock"@).enabled == s.enabled,
        report_of(commanded(s, "door_lock"@, enabled, mode), "door_lock"@).locked == Some(enabled),
        report_of(commanded(s, "door_lock"@, enabled, mode), "door_lock"@).enabled == enabled,
        actuator != "door_lock"@ ==> report_of(s, actuator).locked is None,
{
    reveal_strlit("door_lock");
    reveal_strlit("garage_door");
    assert("door_lock"@.len() == 9 && "garage_door"@.len() == 11);
}

/// The report an actuator publishes for its state.
pub fn state_value(actuator: &str, state: &ActuatorState) -> (r: ActuatorReport)
    ensures
        r == report_of(*state, actuator@),
        actuator@ == "door_lock"@ ==> r.locked == Some(state.enabled) && r.enabled
            == state.enabled,
{
    proof {
        door_lock_reports_its_lock(*state, state.enabled, state.mode, actuator@);
    }
    let mode = state.mode.clone();
    if str_eq(actuator, "garage_door") {
        ActuatorReport {
            enabled: state.position > 0,
            locked: None,
            position_percent: Some(state.position),
            moving: Some(state.moving),
            power_percent: state.power_percent,
            mode,
        }
    } else if str_eq(actuator, "door_lock") {
        ActuatorReport {
            enabled: state.enabled,
            locked: Some(state.enabled),
            position_percent: None,
            moving: None,
            power_percent: state.power_percent,
            mode,
        }
    } else {
        ActuatorReport {
            enabled: state.enabled,
            locked: None,
            position_percent: None,
            moving: None,
            power_percent: state.power_percent,
            mode,
        }
    }
}

/// A state that has not yet received a command, but for its mode.
pub open spec fn fresh_state(mode: String) -> ActuatorState {
    ActuatorState { enabled: false, power_percent: 0, mode, position: 0, moving: false }
}

/// The actuators of a room that have received commands, by name.
pub struct ActuatorBank {
    states: Vec<(String, ActuatorState)>,
}

impl ActuatorBank {
    #[verifier::type_invariant]
    spec fn consistent(&self) -> bool {
        &&& forall|i: int, j: int|
            0 <= i < self.states@.len() && 0 <= j < self.states@.len() && i != j
                ==> self.states@[i].0@ != self.states@[j].0@
        &&& forall|i: int|
            0 <= i < self.states@.len() ==> #[trigger] self.states@[i].1.well_formed(
                self.states@[i].0@,
            )
    }

    /// The state of actuator `name`, if it has received a command.
    pub closed spec fn state_of(&self, name: Seq<char>) -> Option<ActuatorState> {
        lookup_state(self.states@, name)
    }

    /// Every actuator's state is well formed for that actuator.
    pub open spec fn all_well_formed(&self) -> bool {
        forall|n: Seq<char>|
            #[trigger] self.state_of(n) is Some ==> self.state_of(n).unwrap().well_formed(n)
    }

    proof fn lemma_all_well_formed(&self)
        requires
            self.consistent(),
        ensures
            self.all_well_formed(),
    {
        assert forall|n: Seq<char>| #[trigger] self.state_of(n) is Some implies self.state_of(
            n,
        ).unwrap().well_formed(n) by {
            let i = choose|i: int| 0 <= i < self.states@.len() && self.states@[i].0@ == n;
            assert(self.states@[i].1.well_formed(self.states@[i].0@));
        }
    }

    /// No actuator has received a command yet.
    pub fn new() -> (b: Self)
        ensures
            forall|n: Seq<char>| b.state_of(n) is None,
            b.all_well_formed(),
    {
        ActuatorBank { states: Vec::new() }
    }

    fn find(&self, name: &str) -> (r: Option<usize>)
        ensures
            match r {
                Some(i) => i < self.states@.len() && self.states@[i as int].0@ == name@,
                None => forall|i: int| 0 <= i < self.states@.len() ==> self.states@[i].0@ != name@,
            },
    {
        let mut i: usize = 0;
        while i < self.states.len()
            invariant
                i <= self.states@.len(),
                forall|j: int| 0 <= j < i ==> self.states@[j].0@ != name@,
            decreases self.states@.len() - i,
        {
            if str_eq(self.states[i].0.as_str(), name) {
                return Some(i);
            }
            i = i + 1;
        }
        None
    }

    /// Applies a command to actuator `actuator` (starting it off, closed and
    /// still if it is new) and returns the report it then publishes.
    pub fn handle_command(&mut self, actuator: &str, enabled: bool, mode: String) -> (r: ActuatorReport)
        ensures
            final(self).state_of(actuator@) == Some(
                commanded(
                    match old(self).state_of(actuator@) {
                        Some(s) => s,
                        None => fresh_state(mode),
                    },
                    actuator@,
                    enabled,
                    mode,
                ),
            ),
            forall|n: Seq<char>| n != actuator@ ==> final(self).state_of(n) == old(self).state_of(n),
            r == report_of(final(self).state_of(actuator@).unwrap(), actuator@),
            final(self).state_of(actuator@).unwrap().well_formed(actuator@),
            old(self).all_well_formed(),
            final(self).all_well_formed(),
    {
        proof {
            use_type_invariant(&*self);
            self.lemma_all_well_formed();
        }
        let ghost before = self.states@;
        let ghost m = mode;
        let found = self.find(actuator);
        let mut states: Vec<(String, ActuatorState)> = Vec::new();
        std::mem::swap(&mut states, &mut self.states);
        let index: usize = match found {
            Some(i) => i,
            None => {
                let fresh = ActuatorState {
                    enabled: false,
                    power_percent: 0,
                    mode: mode.clone(),
                    position: 0,
                    moving: false,
                };
                states.push((String::from_str(actuator), fresh));
                states.len() - 1
            },
        };
        let ghost mid = states@;
        let (name, mut state) = states.remove(index);
        apply_command(&mut state, actuator, enabled, mode);
        let report = state_value(actuator, &state);
        states.insert(index, (name, state));
        proof {
            assert(states@ =~= mid.update(index as int, states@[index as int]));
            lemma_replace_state(mid, index as int, states@[index as int]);
            if found is None {
                assert(mid.drop_last() =~= before);
                assert(lookup_state(mid, actuator@) == Some(mid[index as int].1));
                assert forall|n: Seq<char>| n != actuator@ implies #[trigger] lookup_state(mid, n) == lookup_state(before, n) by {
                    if exists|i: int| 0 <= i < mid.len() && mid[i].0@ == n {
                        let i = choose|i: int| 0 <= i < mid.len() && mid[i].0@ == n;
                        assert(mid[i] == before[i]);
                    }
                    if exists|j: int| 0 <= j < before.len() && before[j].0@ == n {
                        let j = choose|j: int| 0 <= j < before.len() && before[j].0@ == n;
                        assert(mid[j] == before[j]);
                    }
                }
            }
        }
        self.states = states;
        proof {
            use_type_invariant(&*self);
            self.lemma_all_well_formed();
        }
        report
    }

    /// Moves a travelling garage door one step; returns its new report, or
    /// nothing when there is no travelling garage door.
    pub fn tick(&mut self) -> (r: Option<ActuatorReport>)
        ensures
            match old(self).state_of("garage_door"@) {
                Some(s) => if s.moving {
                    &&& final(self).state_of("garage_door"@) == Some(stepped(s))
                    &&& r == Some(report_of(stepped(s), "garage_door"@))
                } else {
                    &&& final(self).state_of("garage_door"@) == Some(s)
                    &&& r is None
                },
                None => final(self).state_of("garage_door"@) is None && r is None,
            },
            forall|n: Seq<char>| n != "garage_door"@ ==> final(self).state_of(n) == old(self).state_of(n),
            old(self).all_well_formed(),
            final(self).all_well_formed(),
    {
        proof {
            use_type_invariant(&*self);
            self.lemma_all_well_formed();
        }
        let ghost before = self.states@;
        let found = self.find("garage_door");
        let index: usize = match found {
            Some(i) => i,
            None => {
                return None;
            },
        };
        if !self.states[index].1.moving {
            return None;
        }
        let mut states: Vec<(String, ActuatorState)> = Vec::new();
        std::mem::swap(&mut states, &mut self.states);
        let (name, mut state) = states.remove(index);
        step_door(&mut state);
        let report = state_value("garage_door", &state);
        states.insert(index, (name, state));
        proof {
            assert(states@ =~= before.update(index as int, states@[index as int]));
            lemma_replace_state(before, index as int, states@[index as int]);
            reveal_strlit("garage_door");
        }
        self.states = states;
        proof {
            use_type_invariant(&*self);
            self.lemma_all_well_formed();
        }
        Some(report)
    }
}

spec fn lookup_state(states: Seq<(String, ActuatorState)>, name: Seq<char>) -> Option<ActuatorState> {
    if exists|i: int| 0 <= i < states.len() && states[i].0@ == name {
        let i = choose|i: int| 0 <= i < states.len() && states[i].0@ == name;
        Some(states[i].1)
    } else {
        None
    }
}

spec fn distinct_names(states: Seq<(String, ActuatorState)>) -> bool {
    forall|i: int, j: int|
        0 <= i < states.len() && 0 <= j < states.len() && i != j ==> states[i].0@ != states[j].0@
}

/// Replacing the state at `index` (keeping its name) changes the lookup of
/// that name only.
proof fn lemma_replace_state(
    before: Seq<(String, ActuatorState)>,
    index: int,
    entry: (String, ActuatorState),
)
    requires
        distinct_names(before),
        0 <= index < before.len(),
        entry.0 == before[index].0,
    ensures
        distinct_names(before.update(index, entry)),
        lookup_state(before.update(index, entry), entry.0@) == Some(entry.1),
        forall|n: Seq<char>|
            n != entry.0@ ==> #[trigger] lookup_state(before.update(index, entry), n)
                == lookup_state(before, n),
{
    let after = before.update(index, entry);
    let k = choose|i: int| 0 <= i < after.len() && after[i].0@ == entry.0@;
    assert(after[index].0@ == entry.0@);
    assert(k == index);
    assert forall|n: Seq<char>| n != entry.0@ implies #[trigger] lookup_state(after, n)
        == lookup_state(before, n) by {
        if exists|i: int| 0 <= i < after.len() && after[i].0@ == n {
            let i = choose|i: int| 0 <= i < after.len() && after[i].0@ == n;
            assert(before[i] == after[i]);
            let j = choose|j: int| 0 <= j < before.len() && before[j].0@ == n;
            assert(i == j);
        } else {
            if exists|j: int| 0 <= j < before.len() && before[j].0@ == n {
                let j = choose|j: int| 0 <= j < before.len() && before[j].0@ == n;
                assert(after[j] == before[j]);
            }
        }
    }
}


/// Commands express the desired state, so delivering one twice (QoS 1 may)
/// leaves the actuator as delivering it once.
pub proof fn commands_are_idempotent(s: ActuatorState, actuator: Seq<char>, enabled: bool, mode: String)
    requires
        s.well_formed(actuator),
    ensures
        commanded(commanded(s, actuator, enabled, mode), actuator, enabled, mode) == commanded(
            s,
            actuator,
            enabled,
            mode,
        ),
{
}

/// A garage door never leaves its track: from any consistent state,
/// commands and ticks keep the position a multiple of ten within 0..=100,
/// and every other actuator stays still.
pub proof fn door_stays_on_track(s: ActuatorState, actuator: Seq<char>, enabled: bool, mode: String)
    requires
        s.well_formed(actuator),
    ensures
        commanded(s, actuator, enabled, mode).well_formed(actuator),
        s.moving ==> stepped(s).well_formed(actuator),
{
    reveal_strlit("garage_door");
    reveal_strlit("door_lock");
    assert("garage_door"@.len() != "door_lock"@.len());
}

/// A commanded garage door arrives: after at most ten ticks it stands
/// still at its target and draws nothing.
pub proof fn door_arrives(s: ActuatorState, enabled: bool, mode: String)
    requires
        s.well_formed("garage_door"@),
    ensures
        stepped_times(commanded(s, "garage_door"@, enabled, mode), 10).position == door_target(
            enabled,
        ),
        !stepped_times(commanded(s, "garage_door"@, enabled, mode), 10).moving,
        stepped_times(commanded(s, "garage_door"@, enabled, mode), 10).power_percent == 0,
        report_of(stepped_times(commanded(s, "garage_door"@, enabled, mode), 10), "garage_door"@)
            == (ActuatorReport {
            enabled: enabled,
            locked: None,
            position_percent: Some(door_target(enabled)),
            moving: Some(false),
            power_percent: 0,
            mode: mode,
        }),
        stepped_times(commanded(s, "garage_door"@, enabled, mode), 10).enabled == enabled,
        stepped_times(commanded(s, "garage_door"@, enabled, mode), 10).mode == mode,
{
    reveal_strlit("garage_door");
    reveal_strlit("door_lock");
    assert("garage_door"@.len() != "door_lock"@.len());
    let c = commanded(s, "garage_door"@, enabled, mode);
    lemma_door_arrives(c, 10);
}

proof fn lemma_door_arrives(s: ActuatorState, k: nat)
    requires
        s.well_formed("garage_door"@),
        !s.moving ==> s.position == door_target(s.enabled) && s.power_percent == 0,
        s.moving ==> s.power_percent == 100,
        s.enabled ==> (100 - s.position) <= 10 * k,
        !s.enabled ==> s.position <= 10 * k,
    ensures
        stepped_times(s, k).position == door_target(s.enabled),
        !stepped_times(s, k).moving,
        stepped_times(s, k).power_percent == 0,
        stepped_times(s, k).enabled == s.enabled,
        stepped_times(s, k).mode == s.mode,
    decreases k,
{
    if k > 0 && s.moving {
        lemma_door_arrives(stepped(s), (k - 1) as nat);
    }
}


/// A garage door draws power exactly while it travels: at full power while
/// moving, none once still, after any command and after any tick.
pub proof fn door_draws_power_while_moving(s: ActuatorState, enabled: bool, mode: String)
    requires
        s.well_formed("garage_door"@),
    ensures
        commanded(s, "garage_door"@, enabled, mode).power_percent == if commanded(
            s,
            "garage_door"@,
            enabled,
            mode,
        ).moving {
            100u8
        } else {
            0u8
        },
        s.moving ==> stepped(s).power_percent == if stepped(s).moving {
            100u8
        } else {
            0u8
        },
{
    reveal_strlit("garage_door");
    reveal_strlit("door_lock");
    assert("garage_door"@.len() != "door_lock"@.len());
}


/// A travelling garage door moves exactly ten percent towards its target
/// on each tick, staying within 0 to 100.
pub proof fn door_moves_ten_per_tick(s: ActuatorState)
    requires
        s.well_formed("garage_door"@),
        s.moving,
    ensures
        stepped(s).position == if s.enabled {
            s.position + 10
        } else {
            s.position - 10
        },
        stepped(s).position <= 100,
        stepped(s).enabled == s.enabled,
{
    reveal_strlit("garage_door");
}

} // verus!
