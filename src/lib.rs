//! Binding a server to a list of host addresses and serving on all of them
//! until the first listener finishes.

pub mod address;
pub mod server;
