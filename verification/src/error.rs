//! Error values surfaced at the crate boundary: structural decode errors
//! and runtime traps. Errors are values, never panics.

use vstd::prelude::*;

verus! {

use crate::location::SourceLocation;

/// The kind of a structural decode failure.
#[derive(Debug, Clone, Copy, PartialEq, Eq, Structural)]
pub enum BinaryError {
    /// The four-byte module magic was not `00 61 73 6D`.
    InvalidMagic,
    /// The four-byte version was not `01 00 00 00`.
    InvalidVersion,
    /// A section id was rejected by policy (never produced by the default
    /// framer, which tolerates and skips unknown sections).
    UnknownSection,
    /// A section or code-entry payload was not consumed exactly.
    InvalidSectionSize,
    /// More input was required than was available.
    UnexpectedEOF,
    /// A known tag byte was expected and something else was found.
    TypeMismatch,
    /// An opcode byte that the decoder does not recognise.
    InvalidInstruction,
    /// A LEB128 integer ran past its 32-bit width limit.
    Overflow,
    /// A name was not valid UTF-8.
    InvalidUtf8,
}

/// A decode failure together with the byte range that caused it.
#[derive(Debug, Clone, Copy, PartialEq, Eq, Structural)]
pub struct DecodeError {
    pub kind: BinaryError,
    pub location: SourceLocation,
}

impl DecodeError {
    pub fn new(kind: BinaryError, offset: usize, length: usize) -> (r: DecodeError)
        ensures
            r.kind == kind,
            r.location.offset == offset,
            r.location.length == length,
    {
        DecodeError { kind, location: SourceLocation::new(offset, length) }
    }
}

/// An aborting runtime condition; it propagates out of the current
/// invocation and is returned as the invocation's result.
#[derive(Debug, Clone, Copy, PartialEq, Eq, Structural)]
pub enum Trap {
    /// The `unreachable` instruction was executed.
    Unreachable,
    /// The configured operand-stack depth limit was exceeded.
    StackOverflow,
    /// A branch named more labels than are live in the invocation.
    BranchOutOfRange,
    /// A local index named a slot outside the locals vector.
    LocalIndexOutOfRange,
    /// The stack discipline was violated: a wrong operand type, a missing
    /// value, or a missing label.
    TypeMismatch,
}

} // verus!
