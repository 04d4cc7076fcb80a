//! Client-side core of a homework submission service: remote-path
//! addressing, glob-based file selection, and the copy-resolution rules
//! that decide how files move between the local filesystem and the server.

pub mod config;
pub mod copy;
pub mod credentials;
pub mod digits;
pub mod encode;
pub mod errors;
pub mod glob;
pub mod listing;
pub mod messages;
pub mod parse;
pub mod paths;
pub mod table;
pub mod text;
