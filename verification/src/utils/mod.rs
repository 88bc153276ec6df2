pub mod gather_config;
pub mod git_ops;
pub mod keygen;
