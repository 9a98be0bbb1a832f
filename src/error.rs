use vstd::prelude::*;

verus! {

/// Which structural invariant a decoded module broke.
#[derive(Clone, Copy, Debug, PartialEq, Eq, Structural)]
pub enum InvalidReason {
    /// The function section and the code section list different counts.
    FunctionCodeMismatch,
    /// A function names a signature past the end of the type section.
    TypeIndexOutOfBounds,
    /// A function export names a function past the end of the function list.
    ExportIndexOutOfBounds,
    /// Two exports carry the same name.
    DuplicateExport,
}

/// Every way in which reading a module can fail.
#[derive(Clone, Copy, Debug, PartialEq, Eq, Structural)]
pub enum ReadError {
    /// Fewer bytes remain than a read asked for.
    UnexpectedEof,
    /// A variable-length integer is too long, never ends, or does not fit its width.
    MalformedVarint,
    /// A name is not well-formed UTF-8.
    InvalidUtf8,
    /// The first four bytes are not the module magic.
    BadMagic,
    /// The version field names a version this reader does not know.
    UnsupportedVersion,
    /// A section declares more bytes than the buffer still holds.
    TruncatedSection { section: u8 },
    /// A value-kind (or signature marker) byte is not recognised.
    UnknownValueKind { tag: u8 },
    /// An export kind byte is not recognised.
    UnknownExportKind { tag: u8 },
    /// A section has bytes left over after its declared records.
    SectionOverrun { section: u8 },
    /// The module decoded, but breaks a cross-reference invariant.
    InvalidModule { reason: InvalidReason },
}

} // verus!
