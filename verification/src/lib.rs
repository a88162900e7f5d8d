//! Orchestration of GPU compute dispatch and readback.
//!
//! A session declares its buffers and its pipeline, plans one or more compute
//! passes, submits them in order, copies the output into staging memory and
//! reads it back as a sequence of fixed-size records. The device itself is
//! not touched here: a [`session::Session`] is a state machine that tells its
//! host which command to perform next and takes the host's report as an
//! event, so that every decision of a run is made, and proved, in this crate.
//!
//! - [`adapter`]: which adapters a session may run on.
//! - [`buffer`]: buffer declarations, their sizes, roles and slots.
//! - [`pipeline`]: binding layouts and binding groups.
//! - [`plan`]: passes, their workgroup counts and payloads.
//! - [`sequencer`]: the order of submissions.
//! - [`readback`]: the handshake of one mapped read.
//! - [`extract`]: bytes to records and back.
//! - [`session`]: the state machine of one run.
//! - [`trace`]: whole runs, and replaying them.
//! - [`laws`]: what holds of every run.
//! - [`ppm`]: plain-text pixel output.

pub mod adapter;
pub mod buffer;
pub mod error;
pub mod extract;
pub mod laws;
pub mod pipeline;
pub mod plan;
pub mod ppm;
pub mod readback;
pub mod sequencer;
pub mod session;
pub mod trace;
