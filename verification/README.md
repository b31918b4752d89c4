# MQTT smart-building simulator

A smart-building simulation that speaks MQTT: rooms on floors with
simulated sensors, actuators, an automatic controller and an energy meter,
a live dashboard, and Blueprint-style visual scripts that turn sensor
readings into actuator commands.

## Layout

- `src/` is the library, written in Verus and verified:
  - `topics` builds every MQTT topic of the Building -> Floor -> Room
    hierarchy and reads the actuator back out of a topic;
  - `building` holds the tree of floors and rooms, the request checks
    (names, colours, room measurements) and the tree edits;
  - `store` is the bookkeeping behind the HTTP API: rooms, floors,
    devices and blueprints;
  - `defaults` gives every room its default devices, a fresh building its
    first floor and every room its built-in scripts, and rebuilds device
    topics from the tree;
  - `runtime` evaluates the blueprints and says which commands they send;
  - `presence` tracks which room each walking player is in;
  - `actuators`, `controller` and `sensors` hold the decisions of the
    per-room simulators;
  - `observer` decides what the dashboard keeps, logs and forgets;
  - `ids` and `text` are the small helpers underneath (random ids from the
    `uuid` crate, string scanning, decimal text).
- `tests/` runs the library on concrete values.
- `app/` is the program around it: the Axum HTTP server, the rumqttc MQTT
  clients and tasks, JSON (serde) copies of the library's types, the data
  file, and the floating-point sensor curves and energy integration.

Floating-point values (room measurements, blueprint numbers) enter the
library as the bits of their `f64`; numbers are compared by an ordinal of
those bits that orders them as `f64` does.
