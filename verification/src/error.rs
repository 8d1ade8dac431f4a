use vstd::prelude::*;

verus! {

/// Failure conditions of the codec and of the table operations.
/// Every failure is a deterministic function of the inputs; no operation
/// panics or retries.
#[derive(Clone, Copy, Debug, PartialEq, Eq, Structural)]
pub enum Error {
    /// The buffer does not begin with the fixed 8-byte container signature.
    NotThisFormat,
    /// A section tag is wrong, a declared length is inconsistent, or a read
    /// would run past the end of the buffer.
    MalformedSection,
    /// A byte payload is not valid UTF-8, or a UTF-16 code unit is a
    /// surrogate and names no character.
    TextEncodingError,
    /// A bracketed control tag was recognized but its body cannot be parsed.
    MalformedControlCode,
    /// An editing operation addressed a label that no record carries.
    LabelNotFound,
    /// An editing operation addressed an index that no record carries.
    IndexNotFound,
    /// An add was attempted on an empty table, so no next index exists.
    EmptyTableError,
    /// The recorded content hash of a patch does not match the baseline.
    HashMismatch,
    /// A diff entry starts with a character that names no edit state.
    MalformedDiffUnrecognizedState,
}

} // verus!
