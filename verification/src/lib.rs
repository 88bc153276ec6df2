pub mod cli;
pub mod commands;
pub mod config;
pub mod crypto;
pub mod errors;
pub mod paths;
pub mod utils;
pub mod vault;
