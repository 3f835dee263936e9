//! Interactive administration client, verified core.
//!
//! The library holds the logic of a small command-line client that talks to a
//! remote administration endpoint: the persisted configuration (URL and
//! token), the JSON text it is stored as, the planning of each outbound
//! request, and the dispatch of operator commands. Reading the terminal,
//! touching the file system and sending the requests stay outside the
//! library.

pub mod config;
pub mod errors;
pub mod json;
pub mod request;
pub mod session;
pub mod text;
