pub mod book;
pub mod config;
pub mod library;
pub mod paths;
pub mod session;
pub mod types;
