//! Virtual LAN tunnelling and rendezvous for Minecraft Bedrock.

pub mod addr;
pub mod bytes;
pub mod datagram;
pub mod io_error;
pub mod lan;
pub mod maps;
pub mod node;
pub mod platform;
pub mod server;
pub mod text;
pub mod time;
pub mod vec_map;
