//! Keeps the history of a baseball simulation: what is fetched from its API, when, and what is
//! stored of it.
pub mod app_error;
pub mod config;
pub mod entity;
pub mod feed_pages;
pub mod http;
pub mod ids;
pub mod json;
pub mod location;
pub mod objectid;
pub mod text;
pub mod timestamp;
pub mod workers;
