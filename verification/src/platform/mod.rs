//! What the operating system says of ports and processes.

pub mod android;
pub mod linux;
pub mod proc_fs;
pub mod processes;
pub mod windows;
