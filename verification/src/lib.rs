//! The state machine of a terminal music player: what it shows, what it plays,
//! what it keeps count of, and what it asks of the threads and the machine around
//! it.
pub mod anim;
pub mod app;
pub mod art;
pub mod cd;
pub mod commands;
pub mod copies;
pub mod device;
pub mod device_laws;
pub mod format;
pub mod input;
pub mod laws;
pub mod library;
pub mod model;
pub mod ordmap;
pub mod playlists;
pub mod plays;
pub mod precision;
pub mod sort;
pub mod stem_model;
pub mod tag_model;
pub mod text;
pub mod tracks;
pub mod types;
