//! Wiimaker: verified asset formats, input mapping and grid logic for Wii homebrew games.
#![allow(unused_imports)]

pub mod audio;
pub mod bytes;
pub mod clips;
pub mod console;
pub mod cook;
pub mod editor;
pub mod grid_mover;
pub mod host;
pub mod input;
pub mod paths;
pub mod raster;
pub mod sorting;
pub mod sprites;
pub mod strings;
pub mod text;
pub mod texture;
pub mod util;
pub mod tilemap;
pub mod wav;
pub mod wpack;
pub mod wiimote_map;
