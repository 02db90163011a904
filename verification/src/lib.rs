//! Station, playlist and navigation logic of an internet radio player.
pub mod api;
pub mod display;
pub mod persist;
pub mod playlist;
pub mod settings;
pub mod sort;
pub mod state;
pub mod station;
pub mod text;
