//! The relay server that datagrams between peers go through.

pub mod protocol;
pub mod relay;
pub mod session;
