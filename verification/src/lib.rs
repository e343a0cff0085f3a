//! The rules of a self-hosted, double opt-in newsletter service.
pub mod clock;
pub mod config;
pub mod db;
pub mod escaping;
pub mod json;
pub mod laws;
pub mod limiter;
pub mod mail;
pub mod mail_laws;
pub mod post_laws;
pub mod posts;
pub mod request_laws;
pub mod send;
pub mod service;
pub mod setting_laws;
pub mod table_laws;
pub mod tables;
pub mod text;
pub mod text_laws;
pub mod tokens;
pub mod view_laws;
