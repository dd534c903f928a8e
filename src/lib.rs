//! Handshake parsing, egress routing and session control for a
//! WebSocket-carried proxy tunnel gateway, and the connection links that
//! clients import.

pub mod address;
pub mod config;
pub mod handshake;
pub mod link;
pub mod route;
pub mod session;
mod text;
