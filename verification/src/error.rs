use vstd::prelude::*;

verus! {

/// The failure taxonomy of the converter. Every condition is fatal: a caller
/// stops at the first error it sees and attempts no further input.
#[derive(Clone, Copy, Debug, PartialEq, Eq, Structural)]
pub enum ConvertError {
    /// The input filename holds neither channel-pair token.
    NoPairToken,
    /// Neither sibling file exists on disk.
    NoRecordingFound,
    /// An existence check or an open failed for a reason other than absence.
    FilesystemAccessError,
    /// A source stream does not report exactly two channels.
    UnexpectedChannelCount,
    /// The paired streams report different sample rates.
    SampleRateMismatch,
    /// The paired streams report, or yield while merging, different frame
    /// counts.
    LengthMismatch,
    /// The codec reported an error while reading a stream.
    StreamReadFailure,
    /// The codec reported an error while writing a stream.
    StreamWriteFailure,
    /// The destination file could not be created or opened for writing.
    OutputOpenFailure,
}

impl ConvertError {
    /// A diagnostic line for each failure, for the caller to print before it
    /// terminates.
    pub fn describe(&self) -> (r: &'static str)
    {
        match self {
            ConvertError::NoPairToken => "no channel-pair token in the input name",
            ConvertError::NoRecordingFound => "no audio file exists for either pair member",
            ConvertError::FilesystemAccessError => "cannot access a pair member on disk",
            ConvertError::UnexpectedChannelCount => "channel count of the file is unexpected",
            ConvertError::SampleRateMismatch => "MS and XY file differ in sample rate",
            ConvertError::LengthMismatch => "MS and XY file differ in length",
            ConvertError::StreamReadFailure => "error reading audio data",
            ConvertError::StreamWriteFailure => "failed to write audio data",
            ConvertError::OutputOpenFailure => "failed to open file for writing",
        }
    }
}

} // verus!
