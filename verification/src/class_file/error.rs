use vstd::prelude::*;

verus! {

/// Why a class file could not be decoded.
#[derive(Clone, Copy, Debug, PartialEq, Eq, Structural)]
pub enum DecodeError {
    /// The input does not begin with the magic bytes `CA FE BA BE`, or it
    /// gives the constant pool a count of 0.
    MalformedHeader,
    /// The input ends in the middle of a structure, or a structure reaches
    /// past the length that the one around it gives it.
    TruncatedInput,
    /// A constant-pool tag, method-handle kind, stack-map frame type,
    /// verification-type tag or element-value tag is not a known one.
    UnknownTag,
    /// A constant-pool index is zero or out of range where an entry is
    /// required, or a chain of references between entries of the constant
    /// pool comes back to where it began.
    InvalidIndex,
    /// The payload of a UTF-8 constant is not valid UTF-8.
    InvalidUtf8,
    /// An attribute's content does not fill its declared length exactly.
    LengthMismatch,
    /// The two bytes that follow the operand of `invokedynamic` are not zero.
    MalformedInstruction,
}

} // verus!
