pub mod color;
pub mod main_app;
pub mod text_format;
pub mod web_app;
pub mod ui_laws;
