pub mod handler;
