//! Synchronizes Model Context Protocol (MCP) server entries between two host
//! applications that persist them in incompatible JSON schemas.
//!
//! The library models a raw server definition as an ordered JSON tree
//! ([`json::Json`]), converts definitions field by field between the two
//! schemas ([`convert`]), maintains each backend's persisted name-to-definition
//! mapping ([`store`]), and keeps one overwritten snapshot per backend with
//! full and single-entry restore ([`backup`]). All file reading and writing is
//! left to the embedding application: every operation here takes document text
//! in and hands document text back.

pub mod backup;
pub mod codec;
pub mod convert;
pub mod errors;
pub mod json;
pub mod num;
pub mod ops;
pub mod skills;
pub mod store;
