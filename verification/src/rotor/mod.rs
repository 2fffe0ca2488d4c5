//! Rotor control: data-driven wire protocols, profile checks, backend errors
//! and the serial link watchdog.
pub mod backend;
pub mod engine;
pub mod loopback;
pub mod profile;
pub mod serial;
pub mod spec;
