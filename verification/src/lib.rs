//! Coordination core of a multi-process desktop companion: the message-bus
//! wire format, the client registry, the message router and the process
//! supervisor's decision logic.

pub mod clock;
pub mod config;
pub mod error;
pub mod fields;
pub mod ident;
pub mod ipc;
pub mod json;
pub mod models;
pub mod paths;
pub mod process;
pub mod registry;
pub mod router;
pub mod script;
pub mod server;
pub mod storage;
pub mod text;
pub mod views;
pub mod wire;
pub mod wire_script;
