//! Content-addressed chunking and resumable upload for packaged images.
//!
//! The library chunks an image into fixed-size pieces, hashes each piece
//! with SHA-256 and the whole image with SHA3-224, serializes the result
//! into a fixed binary descriptor, reads and writes the CRC-guarded JSON
//! trailer of a packaged image, parses image names, and decides every step
//! of the resumable upload protocol against a content-addressed registry.

pub mod builder;
pub mod chunks;
pub mod config;
pub mod encoding;
pub mod errors;
pub mod hashes;
pub mod name;
pub mod progress;
pub mod text;
pub mod trailer;
pub mod upload;
