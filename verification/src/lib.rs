//! Verified core of an ETSI GS QKD 014 to Cisco SKIP key-delivery converter.

pub mod collections;
pub mod config;
pub mod converter;
pub mod etsi014;
pub mod skip;
pub mod status;
pub mod text;
