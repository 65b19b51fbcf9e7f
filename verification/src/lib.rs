//! Verified core of a terminal S3 browser: listing state, selection, filtering,
//! metadata editing, settings resolution and the key/message state machine.
pub mod text;
pub mod fuzzy;
pub mod ranking;
pub mod filepicker;
pub mod storage;
pub mod metadata;
pub mod app;
pub mod events;
pub mod config;
pub mod cli;
pub mod timefmt;
pub mod remote;
pub mod cache;
pub mod view;
pub mod theme;
