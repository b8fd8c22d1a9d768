//! Handlers that come with the library.

pub mod forwarder;

pub use forwarder::Forwarder;
