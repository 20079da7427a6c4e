//! Middleware that makes sure every outgoing request carries a server
//! identity and a date header, without touching values already present.

pub mod header;
pub mod date;
pub mod service;
pub mod required_header;
