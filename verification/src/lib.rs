//! Verified core of the `dnet` peer-to-peer discovery service.
//!
//! The library holds the logic of the service: the UDP wire format of the
//! discovery messages, the tables of known peers and of their last-seen
//! times, the decisions of the service and of its UDP worker, the choice of
//! the local network interface, and the extraction of Thunderbolt data from
//! a system profile.
//!
//! Sockets, timers, the environment, processes and serialisation with serde
//! are left to the caller, which hands the library plain values.

pub mod config;
pub mod echo;
pub mod ffi;
pub mod gossip;
pub mod mdns;
pub mod packet;
pub mod peers;
pub mod properties;
pub mod service;
pub mod thunderbolt;
pub mod udp;
pub mod utils;
pub mod worker;
