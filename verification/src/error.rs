//! The error taxonomy of the codec.

use vstd::prelude::*;

verus! {

/// Everything that can go wrong while decoding or encoding a binary STL
/// stream.  Decode failures are all forms of the input being shorter than
/// the fixed layout demands; the one encode failure is a caller bug.
#[derive(Clone, Copy, Debug, PartialEq, Eq, Structural)]
pub enum StlError {
    /// Fewer than the 80 bytes of the fixed file header were available.
    TruncatedHeader,
    /// A fixed-width field ran past the end of the input.
    ShortRead,
    /// The input ended inside a 50-byte triangle record.
    TruncatedRecord,
    /// Encode was invoked with `num_triangles` different from the length
    /// of the triangle list.
    CountMismatch,
}

} // verus!
