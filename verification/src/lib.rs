//! Verified reader for Mapsforge-style binary map files.
//!
//! A map file holds, for each zoom interval, a dense index of tile entries
//! laid out row by row over a grid of Web-Mercator tiles, followed by the
//! tile records themselves. This crate builds those indices from the file's
//! bytes, resolves a tile coordinate to its index entry and decodes the
//! record the entry points at. Every function states what it returns over
//! a mathematical model of the bytes, and Verus proves that it does.

pub mod bytes;
pub mod error;
pub mod grid;
pub mod index;
pub mod map_file;
pub mod tile;
pub mod types;
pub mod vbe;

pub use error::{IoErrorKind, MapforgeError};
