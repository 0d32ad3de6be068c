//! The network side: sessions over TCP connections and the engine that
//! supervises them.

pub mod server;
