//! Typed failures of the extraction pipeline. Structural failures are fatal
//! to a single archive's extraction and are surfaced to the caller; they are
//! never turned into panics.

use vstd::prelude::*;

verus! {

/// Failures of the archive container itself.
#[derive(Debug, Clone, Copy, PartialEq, Eq, Structural)]
pub enum ArchiveError {
    /// The archive file could not be read at all; raised by the caller's
    /// I/O layer before any bytes reach the engine.
    MissingFile,
    /// The bytes are not a readable zip structure.
    InvalidArchive,
    /// The fixed-location container descriptor is absent.
    MissingContainer,
    /// A path would resolve outside the archive root.
    PathTraversal,
    /// A named entry is not present in the archive.
    EntryNotFound,
}

/// Malformed XML in the container descriptor or the package document.
#[derive(Debug, Clone, Copy, PartialEq, Eq, Structural)]
pub enum XmlParseError {
    /// An element or attribute is not properly delimited.
    Malformed,
    /// A required element or attribute is absent.
    MissingElement,
}

/// Failures of the package metadata.
#[derive(Debug, Clone, Copy, PartialEq, Eq, Structural)]
pub enum MetadataError {
    /// The package declares no usable title.
    MissingTitle,
    /// A spine reference names no manifest entry.
    DanglingSpineRef,
}

/// Any failure of a single archive's extraction pipeline.
#[derive(Debug, Clone, Copy, PartialEq, Eq, Structural)]
pub enum EpubError {
    Archive(ArchiveError),
    Xml(XmlParseError),
    Metadata(MetadataError),
    /// A filesystem failure during export or scan; raised by the caller's
    /// I/O layer around the engine.
    Io,
}

} // verus!
