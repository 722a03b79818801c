//! Resumable consumption of a filtered block stream: the decisions of the
//! indexing loop, the checkpoint record, the key-value store's requests and
//! the conversions between field elements and text.
//!
//! The library performs no input or output of its own. Whoever drives it reads
//! files, talks to servers and awaits the stream, and hands the library what
//! came back; the library says what to do next.

pub mod checkpoint;
pub mod config;
pub mod dna;
pub mod queue;
pub mod services;
pub mod stream;
pub mod trace;
pub mod utils;

