//! Error kinds shared by the components of the library.

use vstd::prelude::*;

verus! {

/// Failure to interpret the bytes of a photo as a raster image.
#[derive(Clone, Copy, Debug, PartialEq, Eq, Structural)]
pub enum DecodeError {
    /// The bytes are not a valid or supported raster image.
    Undecodable,
}

/// Failure while loading or restructuring a template document.
#[derive(Clone, Copy, Debug, PartialEq, Eq, Structural)]
pub enum DocumentError {
    /// The template bytes could not be parsed as a document.
    NotLoadable,
    /// The document has no pages to overlay onto.
    NoPages,
    /// The first page has no `Contents` entry.
    MissingContents,
    /// The first page's `Contents` entry is neither a reference nor an
    /// array of references, so appending would discard existing content.
    UnexpectedContents,
    /// The first page's resource dictionary is missing or not editable.
    BadResources,
    /// The document has too few object numbers left for the new streams
    /// and the bookkeeping of a later save.
    TooManyObjects,
    /// The mutated document could not be serialized.
    SaveFailed,
}

/// Failure to turn an optional device name into a concrete printer device.
#[derive(Clone, Copy, Debug, PartialEq, Eq, Structural)]
pub enum PrinterResolutionError {
    /// Neither a matching device nor a default device exists.
    NoPrinterAvailable,
    /// The running platform has no print backend.
    UnsupportedPlatform,
}

/// Failure reported by the print spooler for a submitted job.
#[derive(Clone, Copy, Debug, PartialEq, Eq, Structural)]
pub enum SubmitError {
    /// The spooler rejected the job or returned an invalid job identifier.
    Rejected,
}

/// Any failure that aborts a single print job; the worker proceeds to the
/// next queued job afterwards.
#[derive(Clone, Copy, Debug, PartialEq, Eq, Structural)]
pub enum JobError {
    Decode(DecodeError),
    Document(DocumentError),
    Submit(SubmitError),
}

} // verus!
