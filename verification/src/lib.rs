//! Core of a local music-library player: track descriptors, the
//! playback/queue controller, and the persisted configuration record
//! with its on-disk encoding.

pub mod config;
pub mod player;
pub mod track;
