pub mod archive;
pub mod create;
pub mod init;
pub mod edit;
pub mod list;
pub mod remove;
pub mod show;
