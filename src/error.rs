use vstd::prelude::*;

verus! {

/// Every way an archive operation can fail before or inside the library.
#[derive(Debug, Clone, Copy, PartialEq, Eq, Structural)]
pub enum ArchiveError {
    /// The compression level lies outside the codec's domain.
    LevelOutOfRange,
    /// The input name does not carry the compressed-format suffix.
    ExtensionMismatch,
    /// A tree record names a path that could leave the output directory.
    UnsafePath,
    /// The compressed input or the container inside it is malformed or truncated.
    CorruptArchive,
    /// The encoder refused its parameters or failed while encoding.
    EncoderFailed,
}

} // verus!
