//! The server side: federation, attached clients, and what they are shown.

pub mod autodetect;
pub mod client_accept;
pub mod client_shell;
pub mod clipboard_image;
pub mod event_loop;
pub mod federation_accept;
pub mod federation_actor;
pub mod federation_fault;
pub mod federation_lease;
pub mod frame_cursor;
pub mod handshake;
pub mod headless;
pub mod notifications;
pub mod sockets;
