//! Parser for the append-only binary session log written by a DJ-mixing
//! application. The log is an opaque byte stream: records are separated by a
//! fixed ASCII delimiter, and fields inside a record are introduced by 5-byte
//! binary tags. This crate decodes the stream, splits it into candidate
//! chunks, locates the tags, and extracts `Track` records (title, artist,
//! style), tolerating missing or malformed markers on every re-parse.

pub mod decode;
pub mod pattern;
pub mod split;
pub mod track;
pub mod extract;
pub mod parse;
pub mod session;
