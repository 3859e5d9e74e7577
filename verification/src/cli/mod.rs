//! The client side: what is asked of a running daemon, and how its answers
//! are shown.

pub mod client;
pub mod command;
pub mod frame;
pub mod init;
pub mod printing;
pub mod tui;
pub mod wait;
