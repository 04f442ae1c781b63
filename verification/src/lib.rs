//! Shannon-entropy scanning of file contents.
//!
//! The library holds the two pieces of logic behind an entropy scanner: the
//! byte-frequency accounting over fixed-size chunk reads (`chunk`), and the
//! expansion of a root path into the list of regular files to scan (`walk`).
//! The `scan` module holds the error taxonomy and the admission checks that
//! guard a single file's scan. Reading from the filesystem and the
//! floating-point summation of the entropy terms stay with the caller, which
//! hands chunks and directory listings in as plain values.

pub mod chunk;
pub mod scan;
pub mod walk;
