pub mod app;
pub mod config;
pub mod error;
pub mod event_handler;
pub mod json;
pub mod model;
pub mod order;
pub mod text;
pub mod update;
pub mod view;
pub mod wire;
