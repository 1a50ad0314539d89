//! Lanio serves the videos of a local media directory to Stremio: it keeps an index of the
//! files by IMDb identifier, lists it as catalogs, and hands out links that stream a file
//! whole or in part.
//!
//! This crate holds the decisions and the data. Walking directories, watching them, asking the
//! movie database and speaking HTTP is left to the program around it, which hands over plain
//! values and acts on what comes back.

pub mod config;
pub mod encoding;
pub mod error;
pub mod index;
pub mod metadata;
pub mod paths;
pub mod routes;
pub mod scanner;
pub mod streamer;
pub mod text;
