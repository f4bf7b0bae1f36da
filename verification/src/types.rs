//! The values that travel between the services and the user interface.

pub mod transfer;
