pub mod address;
pub mod command;
pub mod core_laws;
pub mod core_state;
pub mod event;
pub mod file_exchange;
pub mod listen;
pub mod message;
pub mod name_table;
pub mod pending;
pub mod text;
