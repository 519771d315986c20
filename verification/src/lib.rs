//! Verified core of a sensor telemetry hub.
//!
//! Sensors find the controller on the local network, connect, announce
//! themselves and stream readings; the controller keeps the latest reading of
//! each and pushes the whole table to observers at a fixed rhythm.
//!
//! Everything here decides and computes; nothing here waits, reads a socket or
//! holds a lock. A caller feeds events in and carries actions out.
//!
//! - [`model`]: the identity of a sensor and the record kept of it.
//! - [`table`]: the table of latest readings.
//! - [`session`]: the protocol of one connection, as a state machine.
//! - [`hub`]: many sessions over one table, and what holds of every
//!   interleaving.
//! - [`wire`]: the frames that sensors send.
//! - [`publisher`]: the frames that observers get.
//! - [`discovery`]: what is advertised and how answers are read.
//! - [`agent`]: the sensor's control loop, as a state machine.
//! - [`lifecycle`]: how the controller ends.
//! - [`text`], [`decimal`], [`json`], [`token`]: text, numbers, JSON and ids.

pub mod agent;
pub mod decimal;
pub mod discovery;
pub mod hub;
pub mod json;
pub mod lifecycle;
pub mod model;
pub mod publisher;
pub mod session;
pub mod table;
pub mod text;
pub mod token;
pub mod wire;
