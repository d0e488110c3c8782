//! Layout, virtualization and render caching for a terminal transcript viewer.

pub mod cache;
pub mod config;
pub mod conversation;
pub mod entry_view;
pub mod handlers;
pub mod live_indicator;
pub mod model;
pub mod renderer;
pub mod scroll;
pub mod search;
pub mod source;
pub mod text;
pub mod types;
pub mod viewed_session;
