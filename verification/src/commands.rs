pub mod apply;
pub mod current;
pub mod edit;
pub mod init;
pub mod list;
pub mod new;
pub mod remove;
pub mod show;
