pub mod app;
pub mod engine;
pub mod jira;
pub mod model;
pub mod provider;
pub mod store;
pub mod text;
