pub mod actor;
pub mod config;
pub mod handle;
pub mod state;
