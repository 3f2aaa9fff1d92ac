//! Extraction engine for EPUB archives: opens the zip container, resolves the
//! package document, parses bibliographic metadata, assembles reading-order
//! content with inlined resources, and computes a content checksum.

pub mod archive;
pub mod bytes;
pub mod container;
pub mod content;
pub mod digest;
pub mod dto;
pub mod errors;
pub mod export;
pub mod meta;
pub mod opf;
pub mod paths;
pub mod scan;
pub mod strings;
pub mod xml;
