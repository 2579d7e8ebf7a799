pub mod api;
pub mod db;
pub mod mcp;
pub mod models;
pub mod state;
pub mod store;
pub mod summary;
pub mod text;
pub mod validation;
