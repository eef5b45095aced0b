//! Verified core of a PlayStation 3 disc-image decryption tool.
//!
//! The library parses the proprietary region-table header of a disc image,
//! derives the disc key from a 16-byte seed (`d1`), decrypts individual
//! 2048-byte sectors with AES-128-CBC under a per-sector IV, and models the
//! single- and multi-worker decryption pipelines. File and terminal I/O live
//! outside the library; the library works on plain bytes.

pub mod codec;
pub mod decrypt;
pub mod disc;
pub mod error;
pub mod ird;
pub mod pipeline;
pub mod sector;
pub mod text;
