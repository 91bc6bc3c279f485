//! The client: what it knows, shows and sends.

pub mod app;
pub mod entry;
pub mod laws;
pub mod net;
pub mod operations;
pub mod screen;
pub mod state;
pub mod url;
pub mod utils;
