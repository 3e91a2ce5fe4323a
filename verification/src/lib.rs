//! The screen logic of a terminal music player.

pub mod app;
pub mod areas;
pub mod arrivals;
pub mod backend;
pub mod contrast;
pub mod cover;
pub mod dashboard;
pub mod domain;
pub mod event;
pub mod float;
pub mod glyphs;
pub mod greeting;
pub mod help;
pub mod inbox;
pub mod ink;
pub mod input;
pub mod jobs;
pub mod keymap;
pub mod keys;
pub mod keyset;
pub mod laws;
pub mod layout;
pub mod liked;
pub mod linear;
pub mod navigation;
pub mod notices;
pub mod painting;
pub mod palette;
pub mod playback;
pub mod playlists;
pub mod related;
pub mod rows;
pub mod scope;
pub mod search;
pub mod shortcuts;
pub mod taste;
pub mod text;
pub mod thumb;
pub mod tone;
pub mod view;
