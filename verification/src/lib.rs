//! A verified core for an MQTT telemetry bridge.
//!
//! The bridge relays sensor telemetry from an upstream ("field") broker to a
//! downstream ("platform") broker: it performs the connect and subscribe
//! handshakes on both links, decodes each inbound publish into a canonical
//! telemetry sample, announces each device downstream at most once per
//! session, and forwards the telemetry as JSON publishes.
//!
//! This crate holds the verified logic: payload transformation, the device
//! registry, the session state machine, and the framing of outbound messages.
//! The I/O loops that feed it live outside the crate.

pub mod bridge;
pub mod credentials;
pub mod envelope;
pub mod forward;
pub mod frames;
pub mod registry;
pub mod session;
pub mod store;
pub mod telemetry;
pub mod transform;

pub use credentials::{get, Credentials};
pub use session::generate_client_id;
pub use telemetry::{generate_telemtry_packet, Device, Sensor, Values};
