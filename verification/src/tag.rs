//! The instruction tags: 8-bit opcodes, four families.
//!
//! Memory family: bind, unbind, write, read, take, join, split. Arithmetic,
//! logic and comparison family: add through greater-or-equal. Control
//! family: the jumps, call/return and the parallel brackets. And halt.
//!
//! Only a subset has executable semantics today; the rest of the tags are
//! reserved, and the machine reports them as unknown opcodes (see
//! [`crate::machine`]).

use vstd::prelude::*;

verus! {

/// An 8-bit opcode.
pub type Tag = u8;

/// Do nothing.
pub const NOP: Tag = 0x00;

/// Bind: allocate a block of [`crate::machine::DEFAULT_BLOCK_SLOTS`] zeroed
/// slots.
pub const BND: Tag = 0x01;

/// Unbind: free the block named by the identifier operand.
pub const UND: Tag = 0x02;

/// Write: set a slot of a block to an immediate value.
pub const WIE: Tag = 0x03;

/// Read: look a slot up and report its value.
pub const RAD: Tag = 0x04;

/// Take: a second release operation; today it frees, exactly as [`UND`]
/// does.
pub const TAE: Tag = 0x05;

/// Join: reserved, no executable semantics yet.
pub const JON: Tag = 0x06;

/// Split: reserved, no executable semantics yet.
pub const SPL: Tag = 0x07;

/// Add an immediate value to a slot, wrapping on overflow.
pub const ADD: Tag = 0x10;

/// Subtract an immediate value from a slot, wrapping on underflow.
pub const SUB: Tag = 0x11;

/// Multiply a slot by an immediate value, wrapping on overflow.
pub const MUL: Tag = 0x12;

/// Divide a slot by an immediate value; a zero divisor is an error.
pub const DIV: Tag = 0x13;

/// Remainder: reserved, no executable semantics yet.
pub const REM: Tag = 0x14;

/// Bitwise-and a slot with an immediate value.
pub const AND: Tag = 0x15;

/// Bitwise-or a slot with an immediate value.
pub const ORR: Tag = 0x16;

/// Bitwise-xor a slot with an immediate value.
pub const XOR: Tag = 0x17;

/// Bitwise-invert a slot.
pub const NOT: Tag = 0x18;

/// Store 1 in the slot when it equals the immediate value, else 0.
pub const EQ: Tag = 0x19;

/// Store 1 in the slot when it differs from the immediate value, else 0.
pub const NEQ: Tag = 0x1A;

/// Store 1 in the slot when it is below the immediate value, else 0.
pub const LT: Tag = 0x1B;

/// Store 1 in the slot when it is above the immediate value, else 0.
pub const GT: Tag = 0x1C;

/// Store 1 in the slot when it is at most the immediate value, else 0.
pub const LE: Tag = 0x1D;

/// Store 1 in the slot when it is at least the immediate value, else 0.
pub const GE: Tag = 0x1E;

/// Goto: reserved, no executable semantics yet.
pub const GO: Tag = 0x20;

/// Goto if not zero: reserved, no executable semantics yet.
pub const GNZ: Tag = 0x21;

/// Goto if zero: reserved, no executable semantics yet.
pub const GOZ: Tag = 0x22;

/// Call: reserved, no executable semantics yet.
pub const CLL: Tag = 0x23;

/// Return: reserved, no executable semantics yet.
pub const RET: Tag = 0x24;

/// Parallel region begin: reserved, no executable semantics yet.
pub const PRB: Tag = 0x30;

/// Parallel region end: reserved, no executable semantics yet.
pub const PRE: Tag = 0x31;

/// Halt: stop the loop immediately, whatever work is pending.
pub const HLT: Tag = 0xFF;

} // verus!
