//! Verified core of the MQTT smart-building simulator: the topic layout,
//! the Building -> Floor -> Room tree with its default devices and built-in
//! scripts, blueprint evaluation, presence tracking, actuator and controller
//! decisions, and the bookkeeping behind the HTTP API.

pub mod text;
pub mod topics;
pub mod errors;
pub mod ids;
pub mod blueprints;
pub mod runtime;
pub mod building;
pub mod store;
pub mod presence;
pub mod actuators;
pub mod controller;
pub mod sensors;
pub mod observer;
pub mod defaults;
