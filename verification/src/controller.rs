//! The automatic room controller: which topics it listens to, how
//! configuration switches its modes, and which commands it sends.
//!
//! Temperatures and CO2 levels are measured in floating point; the caller
//! compares them and hands over only the outcomes.

use vstd::prelude::*;
use vstd::string::*;
use crate::runtime::{exceeds, number_exceeds};
use crate::text::{contains, ends_with, occurs_at, seq_contains, seq_ends_with};

verus! {

/// The modes and the last known occupancy of a room's controller.
#[derive(Debug, Clone, Copy, PartialEq, Eq, Structural)]
pub struct ControllerState {
    pub occupied: bool,
    pub energy_saving: bool,
    pub manual_mode: bool,
    pub blueprint_mode: bool,
}

/// The entries of a sensor or configuration message that the controller
/// reads, where they are booleans.
#[derive(Debug, Clone, Copy, PartialEq, Eq, Structural)]
pub struct ControllerMessage {
    /// `occupied`
    pub occupied: Option<bool>,
    /// `energy_saving`
    pub energy_saving: Option<bool>,
    /// `manual_mode`
    pub manual_mode: Option<bool>,
    /// `blueprint_mode`
    pub blueprint_mode: Option<bool>,
}

/// What the caller does with a message after the controller read it.
#[derive(Debug, Clone, Copy, PartialEq, Eq, Structural)]
pub struct ControllerStep {
    /// Take the temperature reading (`temperature_c`).
    pub read_temperature: bool,
    /// Take the CO2 reading (`co2_ppm`).
    pub read_co2: bool,
    /// Take the target temperature (`target_temperature_c`), if present.
    pub read_target: bool,
    /// Decide and send commands (automatic mode).
    pub decide: bool,
}

/// Whether a topic is a sensor topic.
pub open spec fn is_sensor_topic(topic: Seq<char>) -> bool {
    seq_contains(topic, "/sensor/"@)
}

/// Whether a topic is a configuration topic.
pub open spec fn is_config_topic(topic: Seq<char>) -> bool {
    seq_ends_with(topic, "/config"@)
}

/// `current`, or the message's value where it has one.
pub open spec fn updated(current: bool, value: Option<bool>) -> bool {
    match value {
        Some(v) => v,
        None => current,
    }
}

/// The controller after reading a message on `topic`.
pub open spec fn controller_after(s: ControllerState, topic: Seq<char>, m: ControllerMessage) -> ControllerState {
    if !(is_sensor_topic(topic) || is_config_topic(topic)) {
        s
    } else {
        let occupied = if seq_ends_with(topic, "/sensor/occupancy"@) {
            updated(s.occupied, m.occupied)
        } else {
            s.occupied
        };
        if is_config_topic(topic) {
            ControllerState {
                occupied,
                energy_saving: updated(s.energy_saving, m.energy_saving),
                manual_mode: updated(s.manual_mode, m.manual_mode),
                blueprint_mode: updated(s.blueprint_mode, m.blueprint_mode),
            }
        } else {
            ControllerState { occupied, ..s }
        }
    }
}

/// A message on an occupancy sensor topic that carries `occupied: v` leaves
/// the room occupied exactly when `v` holds, whatever it was before; one
/// without that entry, or on any other topic, leaves the occupancy as it
/// was.
pub proof fn occupancy_follows_the_latest_reading(
    s: ControllerState,
    topic: Seq<char>,
    m: ControllerMessage,
    v: bool,
)
    ensures
        seq_ends_with(topic, "/sensor/occupancy"@) && m.occupied == Some(v) ==> controller_after(
            s,
            topic,
            m,
        ).occupied == v,
        seq_ends_with(topic, "/sensor/occupancy"@) && m.occupied is None ==> controller_after(
            s,
            topic,
            m,
        ).occupied == s.occupied,
        !seq_ends_with(topic, "/sensor/occupancy"@) ==> controller_after(s, topic, m).occupied
            == s.occupied,
{
    reveal_strlit("/sensor/occupancy");
    reveal_strlit("/sensor/");
    if seq_ends_with(topic, "/sensor/occupancy"@) {
        let n = topic.len() as int;
        let suffix = "/sensor/occupancy"@;
        let i = n - 17;
        assert(topic.subrange(i, n) == suffix);
        assert(topic.subrange(i, i + 8) =~= suffix.subrange(0, 8));
        assert(suffix.subrange(0, 8) =~= "/sensor/"@);
        assert(occurs_at(topic, "/sensor/"@, i));
        assert(is_sensor_topic(topic));
    }
}

/// A configuration message sets each mode it carries to the value it
/// carries and leaves the others as they were; a message on a topic that is
/// neither a sensor nor a configuration topic changes nothing.
pub proof fn configuration_sets_the_modes(
    s: ControllerState,
    topic: Seq<char>,
    m: ControllerMessage,
    v: bool,
)
    ensures
        is_config_topic(topic) && m.energy_saving == Some(v) ==> controller_after(
            s,
            topic,
            m,
        ).energy_saving == v,
        is_config_topic(topic) && m.manual_mode == Some(v) ==> controller_after(
            s,
            topic,
            m,
        ).manual_mode == v,
        is_config_topic(topic) && m.blueprint_mode == Some(v) ==> controller_after(
            s,
            topic,
            m,
        ).blueprint_mode == v,
        m.energy_saving is None || !is_config_topic(topic) ==> controller_after(
            s,
            topic,
            m,
        ).energy_saving == s.energy_saving,
        m.manual_mode is None || !is_config_topic(topic) ==> controller_after(
            s,
            topic,
            m,
        ).manual_mode == s.manual_mode,
        m.blueprint_mode is None || !is_config_topic(topic) ==> controller_after(
            s,
            topic,
            m,
        ).blueprint_mode == s.blueprint_mode,
        !is_sensor_topic(topic) && !is_config_topic(topic) ==> controller_after(s, topic, m) == s,
{
}

/// A command the controller sends to one actuator.
#[derive(Debug)]
pub struct ControllerCommand {
    pub actuator: String,
    pub enabled: bool,
    pub mode: String,
    pub reason: String,
}

/// The bits of the `f64` values 1000 and 1200: the CO2 levels (ppm) above
/// which the controller ventilates and raises an alert.
pub const CO2_LIMIT_BITS: u64 = 0x408f_4000_0000_0000u64;
pub const CO2_ALARM_BITS: u64 = 0x4092_c000_0000_0000u64;

/// What the controller sends in automatic mode: heating, ventilation and
/// lights commands, and whether to raise a high-CO2 alert.
#[derive(Debug)]
pub struct ControllerDecision {
    pub heating: ControllerCommand,
    pub ventilation: ControllerCommand,
    pub lights: ControllerCommand,
    pub co2_alert: bool,
}

impl ControllerState {
    /// The start-up state: unoccupied, no energy saving, no manual mode, in
    /// blueprint mode (so blueprints, not this controller, decide).
    pub fn new() -> (s: Self)
        ensures
            !s.occupied,
            !s.energy_saving,
            !s.manual_mode,
            s.blueprint_mode,
    {
        ControllerState { occupied: false, energy_saving: false, manual_mode: false, blueprint_mode: true }
    }

    /// Reads a message that arrived on `topic`. Sensor and configuration
    /// messages update the state; the answer says which readings the caller
    /// takes and whether the controller decides (neither manual nor
    /// blueprint mode).
    pub fn handle_message(&mut self, topic: &str, message: &ControllerMessage) -> (r: ControllerStep)
        ensures
            *final(self) == controller_after(*old(self), topic@, *message),
            r.read_temperature == ((is_sensor_topic(topic@) || is_config_topic(topic@))
                && seq_ends_with(topic@, "/sensor/temperature"@)),
            r.read_co2 == ((is_sensor_topic(topic@) || is_config_topic(topic@)) && seq_ends_with(
                topic@,
                "/sensor/co2"@,
            )),
            r.read_target == is_config_topic(topic@),
            r.decide == ((is_sensor_topic(topic@) || is_config_topic(topic@))
                && !final(self).manual_mode && !final(self).blueprint_mode),
            seq_ends_with(topic@, "/sensor/occupancy"@) && message.occupied is Some
                ==> final(self).occupied == message.occupied.unwrap(),
            !(seq_ends_with(topic@, "/sensor/occupancy"@) && message.occupied is Some)
                ==> final(self).occupied == old(self).occupied,
    {
        proof {
            let v = match message.occupied {
                Some(v) => v,
                None => false,
            };
            occupancy_follows_the_latest_reading(*self, topic@, *message, v);
        }
        let sensor = contains(topic, "/sensor/");
        let config = ends_with(topic, "/config");
        if !sensor && !config {
            return ControllerStep { read_temperature: false, read_co2: false, read_target: false, decide: false };
        }
        let read_temperature = ends_with(topic, "/sensor/temperature");
        let read_co2 = ends_with(topic, "/sensor/co2");
        if ends_with(topic, "/sensor/occupancy") {
            if let Some(v) = message.occupied {
                self.occupied = v;
            }
        }
        if config {
            if let Some(v) = message.energy_saving {
                self.energy_saving = v;
            }
            if let Some(v) = message.manual_mode {
                self.manual_mode = v;
            }
            if let Some(v) = message.blueprint_mode {
                self.blueprint_mode = v;
            }
        }
        ControllerStep {
            read_temperature,
            read_co2,
            read_target: config,
            decide: !self.manual_mode && !self.blueprint_mode,
        }
    }

    /// The commands of automatic mode. `temperature_below_target`: the
    /// temperature is below the effective target less half a degree (the
    /// caller compares, as that needs `f64` arithmetic); `co2_bits`: the bits
    /// of the CO2 level in ppm, compared here with 1000 (ventilation) and
    /// 1200 (alert). Heating runs when the room is occupied and cold,
    /// ventilation when the air is stale, lights when the room is occupied.
    pub fn decide(&self, temperature_below_target: bool, co2_bits: u64) -> (r: ControllerDecision)
        ensures
            r.heating.actuator@ == "heating"@,
            r.heating.enabled == (self.occupied && temperature_below_target),
            r.heating.mode@ == if self.energy_saving {
                "eco"@
            } else {
                "automatic"@
            },
            r.heating.reason@ == if r.heating.enabled {
                "temperature_below_target"@
            } else {
                "target_reached_or_room_unoccupied"@
            },
            r.ventilation.actuator@ == "ventilation"@,
            r.ventilation.enabled == exceeds(co2_bits, CO2_LIMIT_BITS),
            r.ventilation.mode@ == "automatic"@,
            r.ventilation.reason@ == if exceeds(co2_bits, CO2_LIMIT_BITS) {
                "co2_above_1000ppm"@
            } else {
                "co2_normal"@
            },
            r.lights.actuator@ == "lights"@,
            r.lights.enabled == self.occupied,
            r.lights.mode@ == "automatic"@,
            r.lights.reason@ == if self.occupied {
                "occupancy_detected"@
            } else {
                "room_unoccupied"@
            },
            r.co2_alert == exceeds(co2_bits, CO2_ALARM_BITS),
    {
        let co2_above_limit = number_exceeds(co2_bits, CO2_LIMIT_BITS);
        let co2_alarming = number_exceeds(co2_bits, CO2_ALARM_BITS);
        let heating_enabled = self.occupied && temperature_below_target;
        let heating = ControllerCommand {
            actuator: String::from_str("heating"),
            enabled: heating_enabled,
            mode: if self.energy_saving {
                String::from_str("eco")
            } else {
                String::from_str("automatic")
            },
            reason: if heating_enabled {
                String::from_str("temperature_below_target")
            } else {
                String::from_str("target_reached_or_room_unoccupied")
            },
        };
        let ventilation = ControllerCommand {
            actuator: String::from_str("ventilation"),
            enabled: co2_above_limit,
            mode: String::from_str("automatic"),
            reason: if co2_above_limit {
                String::from_str("co2_above_1000ppm")
            } else {
                String::from_str("co2_normal")
            },
        };
        let lights = ControllerCommand {
            actuator: String::from_str("lights"),
            enabled: self.occupied,
            mode: String::from_str("automatic"),
            reason: if self.occupied {
                String::from_str("occupancy_detected")
            } else {
                String::from_str("room_unoccupied")
            },
        };
        ControllerDecision { heating, ventilation, lights, co2_alert: co2_alarming }
    }
}


/// While blueprint or manual mode is on, only a configuration message can
/// hand control back: a sensor message keeps the modes, so the controller
/// sends no command and cannot overwrite what the blueprints decided.
pub proof fn blueprint_mode_holds_off_the_controller(
    s: ControllerState,
    topic: Seq<char>,
    m: ControllerMessage,
)
    requires
        s.blueprint_mode || s.manual_mode,
        !is_config_topic(topic),
    ensures
        controller_after(s, topic, m).blueprint_mode == s.blueprint_mode,
        controller_after(s, topic, m).manual_mode == s.manual_mode,
        controller_after(s, topic, m).energy_saving == s.energy_saving,
        controller_after(s, topic, m).blueprint_mode || controller_after(s, topic, m).manual_mode,
{
}

} // verus!
