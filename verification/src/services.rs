//! What the background services decide: which peers a datagram makes known,
//! which peers have gone silent, and how a transfer proceeds on either side.

pub mod discovery;
pub mod transfer;
