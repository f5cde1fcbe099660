//! The configuration: its values, its schema and how it is stored.
pub mod app;
pub mod checks;
pub mod errors;
pub mod json;
pub mod json_text;
pub mod live;
pub mod locations;
pub mod paths;
pub mod pruning;
pub mod schema;
pub mod secrets;
pub mod sections;
pub mod settings;
pub mod sql;
pub mod store;
pub mod tables;
pub mod validity;
