//! Orchestration core of a stream demultiplexing job.
//!
//! A job reads one container from storage and writes each elementary stream
//! it holds to a destination of its own. The pipeline engine does the reading,
//! the parsing and the writing; this crate decides:
//!
//! - [`address`]: the effective address of a storage location;
//! - [`template`]: the destination of each stream, from a template and a token;
//! - [`codec`]: which content types get a processing chain, and which parser;
//! - [`dispatch`]: what to plug in for a discovered stream, and what to publish;
//! - [`message`]: the messages on the bus and the failures they carry;
//! - [`control`]: the control loop that turns bus traffic into one result;
//! - [`job`]: a whole job as a function of what the engine reports.

pub mod address;
pub mod codec;
pub mod control;
pub mod dispatch;
pub mod encoding;
pub mod job;
pub mod message;
pub mod template;
pub mod text;

pub use crate::job::demux_main;
pub use crate::message::{Media, Request, Response};
