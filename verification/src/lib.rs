pub mod commands;
pub mod commit_store;
pub mod connection;
pub mod data;
pub mod discovery;
pub mod error;
pub mod export;
pub mod filter;
pub mod json;
pub mod migration;
pub mod rows;
pub mod schema;
pub mod sql;
pub mod text;
pub mod trusted;
