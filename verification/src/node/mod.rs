//! A node: what it advertises, whom it relays for, and how it talks to the rendezvous server.

pub mod client;
pub mod config;
pub mod discovery;
pub mod error;
pub mod net;
pub mod relay;
pub mod rendezvous;
pub mod session;
