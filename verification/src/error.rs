//! The error taxonomy of the pipeline.
//!
//! Every failure a unit of work can report is one of these variants; the
//! contracts of the stream, transform and orchestration code say exactly
//! which inputs produce which variant.

use vstd::prelude::*;

verus! {

/// Everything that can go wrong while processing a corpus.
#[derive(Clone, Debug, PartialEq, Eq)]
pub enum Error {
    /// A channel could not be opened, read or written. Fatal to the owning
    /// unit of work; never retried here.
    Io,
    /// The framing of the input stream is corrupt or cut short after the
    /// given number of complete frames. Fatal from that point onward;
    /// records routed before it are preserved.
    Truncated { index: u64 },
    /// One record failed to parse: the frame with the given record index
    /// (counting from zero) held no well-formed record.
    Malformed { index: u64 },
    /// A transform rejected the record with the given index; `code` is the
    /// language code it could not map.
    UnmappedCode { index: u64, code: Vec<u8> },
    /// An invalid configuration value (for example a zero shard limit),
    /// detected before any unit of work begins.
    Config,
    /// The run was cancelled before this unit finished.
    Cancelled,
}

/// Mathematical model of an [`Error`].
pub enum ErrorV {
    Io,
    Truncated { index: u64 },
    Malformed { index: u64 },
    UnmappedCode { index: u64, code: Seq<u8> },
    Config,
    Cancelled,
}

impl View for Error {
    type V = ErrorV;

    open spec fn view(&self) -> ErrorV {
        match self {
            Error::Io => ErrorV::Io,
            Error::Truncated { index } => ErrorV::Truncated { index: *index },
            Error::Malformed { index } => ErrorV::Malformed { index: *index },
            Error::UnmappedCode { index, code } => ErrorV::UnmappedCode {
                index: *index,
                code: code@,
            },
            Error::Config => ErrorV::Config,
            Error::Cancelled => ErrorV::Cancelled,
        }
    }
}

} // verus!
