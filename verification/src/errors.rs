//! The failure taxonomy of the decoder.

use vstd::prelude::*;

verus! {

/// Everything that can go wrong while decoding one stream.
///
/// Any error aborts the current decode call and leaves the decoder in a
/// poisoned state: callers should discard the decoder.
#[derive(Clone, Copy, Debug, PartialEq, Eq, Structural)]
pub enum Error {
    /// The input ended in the middle of a value.
    UnexpectedEof,
    /// A variable-length integer lead byte announced zero following bytes,
    /// a reserved encoding.  A two's-complement lead byte cannot express it,
    /// so a decoder that checks the byte count first never reports it; the
    /// variant completes the format's taxonomy.
    NumZeroBytes,
    /// A variable-length integer claimed more bytes than fit in the target
    /// width, or a machine-word quantity did not fit the native word.
    NumOutOfRange,
    /// A struct field id fell outside the descriptor's range.
    InvalidField,
    /// A type definition had zero, or more than one, of its four variants.
    AmbiguousWireType,
    /// A value referenced a type id that is neither built-in nor defined
    /// earlier in the stream.
    UndefinedType(isize),
    /// A definition arrived for a type id that is already defined.
    TypeAlreadyDefined(isize),
    /// A definition's leading id and the id inside its descriptor disagree:
    /// the first field is the id announced by the stream, the second the id
    /// the descriptor carries.
    DefiningIdMismatch(isize, isize),
    /// A definition arrived for a reserved (built-in) type id.
    DefiningBuiltin(isize),
    /// The value is well formed but the decoder does not support its type;
    /// the field carries the descriptor's type id.
    DecodingUnsupported(isize),
}

} // verus!
