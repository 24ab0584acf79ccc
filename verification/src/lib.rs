//! Device discovery, pairing, envelope encryption and state keeping for LAN synchronisation.

pub mod address;
pub mod crypto;
pub mod discovery;
pub mod endpoints;
pub mod machine_uid;
pub mod manager;
pub mod mdns;
pub mod models;
pub mod outside;
pub mod stamps;
pub mod storage;
pub mod text;
