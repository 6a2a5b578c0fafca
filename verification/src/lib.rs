//! A verified core for exposing remote-procedure-call services as
//! command-line tools.
//!
//! The crate models one message type's shape as a recursive schema tree,
//! compiles that tree into a flat list of dotted-path leaf arguments,
//! reconstructs a nested value from the leaf values a caller supplied,
//! and assembles a two-level command tree (service, then method) from a
//! catalog of service descriptors.

pub mod arg;
pub mod clap;
pub mod encode;
pub mod gen;
pub mod hello;
pub mod json;
pub mod protos;
pub mod request;
pub mod value;
pub mod visit;
