pub mod command;
pub mod message;
pub mod node_state;
pub mod node_laws;
