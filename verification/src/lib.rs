//! Core logic of the nexus terminal anime client.

pub mod api;
pub mod app;
pub mod config;
pub mod history;
pub mod json;
pub mod net;
pub mod player;
pub mod text;
pub mod ui;
