//! A lightweight monitoring server for Spring Boot applications.

pub mod auth;
pub mod clock;
pub mod config;
pub mod discovery;
pub mod exchange;
pub mod groups;
pub mod handlers;
pub mod health;
pub mod journal;
pub mod json;
pub mod lists;
pub mod model;
pub mod polling;
pub mod probe;
pub mod proxy;
pub mod state;
pub mod static_files;
pub mod table;
pub mod text;
pub mod urls;
