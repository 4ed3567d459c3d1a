//! Generation and textual rendering of version 4 and version 7 UUIDs.
//!
//! The crate is organised around three concerns: a configuration model
//! with a command-line parser (`config`, `cli`), a UUID source that
//! draws fresh identifiers from the `uuid` crate (`source`), and a
//! renderer that turns an identifier and a configuration into the exact
//! output lines (`hexfmt`, `render`, `run`).

pub mod cli;
pub mod config;
pub mod hexfmt;
pub mod render;
pub mod run;
pub mod source;
