use vstd::prelude::*;

verus! {

/// Every way a decode or a lookup can fail.
///
/// Decoders surface errors to their caller instead of substituting defaults;
/// a malformed file is always fatal to the current operation.
#[derive(Debug, Clone, Copy, PartialEq, Eq, Structural)]
pub enum DbError {
    /// The page discriminant byte is none of the four b-tree page kinds.
    InvalidPageType,
    /// A column serial-type code falls outside the legal ranges.
    InvalidSerialType,
    /// The buffer ran out in the middle of a variable-length integer.
    TruncatedVarint,
    /// The declared record header length is inconsistent with the
    /// serial-type varints actually found in the header.
    RecordHeaderLengthMismatch,
    /// A text column is not valid UTF-8.
    InvalidUtf8,
    /// A read would leave the page or file bounds: a cell pointer, a child
    /// page number, or a fixed-width field that the buffer cannot hold.
    CorruptPage,
    /// A table name is absent from the schema catalog.
    NoSuchTable,
    /// The command text is none of the recognized shapes.
    UnsupportedCommand,
}

} // verus!
