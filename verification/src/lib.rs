pub mod api;
pub mod config;
pub mod error;
pub mod history;
pub mod json;
pub mod store;
pub mod text;
