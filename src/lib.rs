//! Platform-independent core of a media-browsing client: the watched-episode
//! bitfield codec, the resource-loading state machine shared by the views,
//! the effect vocabulary and the single-writer runtime that applies it.

pub mod bitfield8;
pub mod watched_bitfield;
pub mod addon;
pub mod resource;
pub mod common;
pub mod effects;
pub mod library;
pub mod msg;
pub mod meta_details;
pub mod ctx;
pub mod runtime;
pub mod catalogs;
pub mod deep_links;
