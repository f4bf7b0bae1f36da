//! Discovery of peers on the local network and transfer of files between
//! them, without a server: what a beacon says and does to the registry of
//! peers, how a transfer is framed on the wire, and how each side of a
//! transfer proceeds. The networking itself is left to the caller, who tells
//! this library what arrived and does what it answers.

pub mod announcement;
pub mod app_state;
pub mod channel;
pub mod identity;
pub mod services;
pub mod text;
pub mod types;
pub mod wire;
