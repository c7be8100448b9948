//! The virtual LAN: remote worlds in the local game's server list, and the tunnel to them.

pub mod access;
pub mod bridge;
pub mod detector;
pub mod identifier;
pub mod manager;
pub mod network;
pub mod packets;
pub mod pong;
pub mod tunnel;
