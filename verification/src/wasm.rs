pub mod event;
pub mod lan;
pub mod lan_laws;
