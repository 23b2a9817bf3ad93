//! The client's side of the control protocol of a mesh network.
//!
//! - [`keys`]: the machine, node and disco keys and their text form.
//! - [`noise`]: the Noise IK handshake and the encrypted session.
//! - [`transport`]: the upgrade request and the control connection.
//! - [`wire`]: the requests that are sent and the responses that come back.
//! - [`upgrade`]: the upgrade of a stream to a control connection, step by
//!   step.
//! - [`types`]: the messages of the control protocol.
//! - [`error`]: one error type for all layers.
//!
//! The library does no I/O. What it takes on trust from outside crates stands
//! in [`boundary`].

pub mod authority;
pub mod boundary;
pub mod config;
pub mod control;
pub mod encoding;
pub mod error;
pub mod frame;
pub mod keys;
pub mod noise;
pub mod text;
pub mod transport;
pub mod types;
pub mod upgrade;
pub mod wire;
