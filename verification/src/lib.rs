//! A small chat system: the wire format shared by client and server, the
//! server's user store and handshake, the routing table of connected
//! clients, and the client's session, state machine and chat view logic.

pub mod wire;
pub mod error;
pub mod message;
pub mod text;
pub mod user_store;
pub mod handshake;
pub mod client_registry;
pub mod client_error;
pub mod session;
pub mod config;
pub mod auth;
pub mod widgets;
pub mod tui;
pub mod connection;
