//! A per-connection time-series store answering binary insert and mean queries.

pub mod laws;
pub mod request;
pub mod session;
pub mod store;
pub mod wire;
