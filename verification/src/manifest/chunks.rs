//! Codecs for on-disk chunk payload files.
pub mod chunk_header;
