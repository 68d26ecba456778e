//! Decoders for the asset formats of a classic role-playing game: the chunked
//! archive container, its block compression, sprite and animation run-length
//! codecs, the packed tile map and the six-bit palette.

pub mod bytes;
pub mod error;
pub mod mkf;
pub mod sprite;
pub mod rng;
pub mod map;
pub mod canvas;
pub mod utils;
pub mod input;
pub mod common;
pub mod data;
pub mod textmgr;
pub mod text;
pub mod ui;
pub mod scene;
pub mod play;
pub mod game;
