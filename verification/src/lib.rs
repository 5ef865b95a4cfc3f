//! Core logic of the Pulse music player: media-file classification, HTTP
//! range handling for the local audio streaming server, metadata shaping,
//! the mini-window state machine and the default configuration.

pub mod text;
pub mod stream;
pub mod urlcodec;
pub mod paths;
pub mod window;
pub mod metadata;
pub mod config;
