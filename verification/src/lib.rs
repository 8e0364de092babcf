//! Decision logic, parsers and state model of an OpenDeck audio-control plugin.
pub mod constants;
pub mod text;
pub mod pipewire;
pub mod audio;
pub mod store;
pub mod shared_state;
pub mod state;
pub mod actions;
pub mod volume_monitor;
pub mod icons;
pub mod display;
pub mod iconify;
