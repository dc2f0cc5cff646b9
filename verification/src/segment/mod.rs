pub mod config;
pub mod laws;
pub mod log_segment;
pub mod metadata;
