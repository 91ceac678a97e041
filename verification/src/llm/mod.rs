pub mod config;
pub mod store;
