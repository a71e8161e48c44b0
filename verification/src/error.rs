use vstd::prelude::*;

verus! {

/// Which field of a framed container was found cut short while decoding.
///
/// Decode errors carry this closed discriminant rather than a rendered
/// message, so callers (and proofs) can tell exactly which bounds check
/// failed; the presentation layer turns it into text.
#[derive(Debug, Clone, Copy, PartialEq, Eq, Structural)]
pub enum CorruptField {
    /// The buffer announces the current magic but is shorter than the
    /// fixed magic/version/flags header.
    Header,
    /// A legacy container is shorter than its fixed 72-byte header.
    LegacyHeader,
    /// The base checksum is announced by the flags but cut short.
    BaseChecksum,
    /// The output checksum is announced by the flags but cut short.
    OutputChecksum,
    /// The metadata length prefix is announced but cut short.
    MetadataLength,
    /// The metadata bytes fall short of their declared length.
    Metadata,
    /// The forward delta length prefix is cut short.
    ForwardLength,
    /// The forward delta bytes fall short of their declared length.
    ForwardData,
    /// The reverse delta length prefix is announced but cut short.
    ReverseLength,
    /// The reverse delta bytes fall short of their declared length.
    ReverseData,
}

/// Every failure this library reports. Failures of the external delta
/// primitives carry the collaborator's own message; corruption names the
/// field that failed its bounds check.
#[derive(Debug)]
pub enum RustineErrorKind {
    /// The container bytes do not add up to the structure they declare.
    CorruptedPatch { field: CorruptField },
    /// A versioned container declares a version this build does not read.
    UnsupportedVersion { version: u8 },
    /// A digest carried by the container does not match the data,
    /// both rendered as lowercase hex.
    ChecksumMismatch { expected: String, actual: String },
    /// The delta payload fails the external primitive's structural check.
    InvalidPatch { message: String },
    /// The external patch primitive reported a failure while applying.
    PatchFailed { message: String },
    /// The external diff primitive reported a failure while comparing.
    DiffFailed { message: String },
    /// A reverse application was requested of a container that carries
    /// no reverse delta.
    MissingReversePatch,
    /// An output path is already taken and overwriting was not allowed.
    FileExists { path: String },
}

} // verus!
