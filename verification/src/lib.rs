//! A binary codec for Adobe's Action Message Format (AMF0 and AMF3), the
//! serialization format used by Local Shared Objects and remote invocation
//! payloads.
//!
//! The crate models every wire value as a [`types::Value`] tree and provides
//! the AMF3 engine ([`amf3::AMF3Encoder`]) with its three reference tables
//! (byte strings, class traits, objects) and the reference-table-free AMF0
//! engine ([`amf0`]).  Every byte the engines emit is pinned down by spec
//! functions that state the wire grammar.
//!
//! Doubles travel as their IEEE-754 bit patterns (`u64`) and strings as their
//! UTF-8 bytes, so that the encoders are exact bit-level functions.

pub mod types;
pub mod wire;
pub mod u29;
pub mod amf3;
pub mod amf0;
pub mod laws;
