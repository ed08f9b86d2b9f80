//! The verified core of a Brew server, which links TETRA base stations: packets,
//! the server's records of clients and calls, telemetry, access to its channels,
//! and the gateway to APRS.

pub mod aprs;
pub mod aprs_link;
pub mod bytes;
pub mod collect;
pub mod config;
pub mod dashboard;
pub mod fsnet;
pub mod history;
pub mod ids;
pub mod lip;
pub mod monitor;
pub mod protocol;
pub mod state;
pub mod telemetry;
pub mod text;
pub mod text_map;
pub mod wire;
