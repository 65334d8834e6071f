//! Core logic of a story player's embedded-asset packaging scheme.
//!
//! A distributable player binary carries a compressed project archive
//! appended to itself, tagged by a fixed 12-byte trailer.  This crate holds
//! the verified logic of that scheme: locating the archive through the
//! trailer, planning its extraction into a working directory, decoding the
//! project manifest, and resolving the window configuration with its
//! fallback chain.  It also holds the pure parts of the authoring tool's
//! directory-listing commands.  All file and window I/O stays with the
//! embedding application, which hands this crate plain bytes and strings.

pub mod archive;
pub mod footer;
pub mod images;
pub mod json;
pub mod listing;
pub mod manifest;
pub mod startup;
pub mod text;
