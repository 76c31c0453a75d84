pub mod common;
pub mod connection;
pub mod cover_art;
pub mod keybind;
pub mod keys;
pub mod library;
pub mod musing;
pub mod playlists;
pub mod queue;
pub mod search;
