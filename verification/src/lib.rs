//! The decision core of a terminal workspace server: which connection controls
//! a federated mount, which client owns the screen, what a snapshot shows, and
//! where every widget of the interface is painted.

pub mod detect;
pub mod encoding;
pub mod geometry;
pub mod idset;
pub mod json;
pub mod lines;
pub mod path;
pub mod server;
pub mod session;
pub mod sound;
pub mod terminal;
pub mod text;
pub mod ui;
pub mod workspace;
