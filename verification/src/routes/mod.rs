//! What the server answers to its clients.

pub mod catalog;
pub mod stream;
