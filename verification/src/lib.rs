pub mod book;
pub mod codec;
pub mod command;
pub mod config;
pub mod error;
pub mod json;
pub mod preprocessor;
pub mod version;
