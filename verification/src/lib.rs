//! A peer-to-peer chat and file-sharing node: its decisions, wire format and windows.

pub mod api;
pub mod node;
pub mod p2p;
pub mod ui;
pub mod wasm;
