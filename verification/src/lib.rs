//! Switchboard, an edge-device fleet control plane: the verified core of its
//! session tokens, passcodes, secret vault, request checks, identifiers and
//! telemetry routing.
use vstd::prelude::*;

pub mod api;
pub mod config;
pub mod console;
pub mod crypto;
pub mod encoding;
pub mod ids;
pub mod ingest;
pub mod models;
pub mod session;
pub mod sim;
pub mod text;
pub mod vault;

verus! {

}
