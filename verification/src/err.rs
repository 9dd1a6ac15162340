//! The error kinds a machine operation can report.

use vstd::prelude::*;

verus! {

/// Everything that can go wrong while decoding or executing one instruction,
/// or while operating on a block through the table interface.
#[derive(Clone, Copy, Debug, PartialEq, Eq, Structural)]
pub enum VmError {
    /// Operand bytes are missing past the end of the instruction stream.
    MalformedProgram,
    /// The fetched tag has no executable semantics.
    UnknownOpcode,
    /// A slot index at or beyond a block's fixed length.
    OutOfBoundsIndex,
    /// A block identifier that is not live: never allocated, or freed.
    UnknownBlockIdentifier,
    /// A division or remainder with a zero divisor.
    DivisionByZero,
}

impl VmError {
    /// A short human-readable name for the error kind.
    pub fn describe(&self) -> (s: &'static str)
        ensures
            s@.len() > 0,
    {
        proof {
            reveal_strlit("malformed program");
            reveal_strlit("unknown opcode");
            reveal_strlit("out of bounds index");
            reveal_strlit("unknown block identifier");
            reveal_strlit("division by zero");
        }
        match self {
            VmError::MalformedProgram => "malformed program",
            VmError::UnknownOpcode => "unknown opcode",
            VmError::OutOfBoundsIndex => "out of bounds index",
            VmError::UnknownBlockIdentifier => "unknown block identifier",
            VmError::DivisionByZero => "division by zero",
        }
    }
}

} // verus!
