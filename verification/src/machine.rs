//! The machine: a fetch-decode-execute loop over an instruction stream,
//! interpreting each tag against a block table.
//!
//! The meaning of a program is pinned by a specification-level interpreter:
//! [`step_spec`] gives the effect of the single instruction at the program
//! counter, [`run_spec`] iterates it to the final outcome. The executable
//! loop [`Lem::run`] is proved to land exactly where [`run_spec`] says.
//!
//! Instructions are atomic: one either applies in full, or faults and leaves
//! the machine exactly as it stood, with the program counter at the failing
//! tag. Errors are reported to the caller of the loop as a [`Fault`]
//! carrying the failing program counter and the error kind; the loop never
//! panics. The control-family tags and the other reserved tags have no
//! executed semantics yet and are reported as unknown opcodes.

use vstd::prelude::*;

use crate::block::Block;
use crate::err::VmError;
use crate::table::{live, BlockManager};
use crate::tag::{
    Tag, ADD, AND, BND, DIV, EQ, GE, GT, HLT, LE, LT, MUL, NEQ, NOP, NOT, ORR, RAD, SUB, TAE, UND,
    WIE, XOR,
};

verus! {

/// The fixed shape of a block allocated by [`BND`]: ten zeroed slots.
pub const DEFAULT_BLOCK_SLOTS: usize = 10;

/// The slot contents of a freshly bound block.
pub open spec fn zero_slots() -> Seq<u32> {
    Seq::new(DEFAULT_BLOCK_SLOTS as nat, |i: int| 0u32)
}

/// The machine state the specification interpreter works on: the block
/// table, the program counter, and the values the read instruction has
/// reported so far.
pub struct MachineState {
    pub table: Seq<Option<Seq<u32>>>,
    pub pc: int,
    pub out: Seq<u32>,
}

/// What one instruction does: step to a new state, halt, or fault.
pub enum Step {
    Next(MachineState),
    Halt,
    Fail(VmError),
}

/// What a whole run does: finish in a state, or fault in a state whose
/// program counter names the failing instruction.
pub enum Outcome {
    Done(MachineState),
    Faulted(MachineState, VmError),
}

/// The three-operand tags that combine a slot with an immediate value:
/// arithmetic, bitwise and comparison.
pub open spec fn is_alu_tag(t: Tag) -> bool {
    ||| t == ADD
    ||| t == SUB
    ||| t == MUL
    ||| t == DIV
    ||| t == AND
    ||| t == ORR
    ||| t == XOR
    ||| t == EQ
    ||| t == NEQ
    ||| t == LT
    ||| t == GT
    ||| t == LE
    ||| t == GE
}

/// The value an ALU tag stores back, given the slot's current value and the
/// immediate operand. Arithmetic wraps; comparisons store 1 for true and 0
/// for false; a zero divisor is the one error.
pub open spec fn alu_spec(t: Tag, cur: u32, value: u32) -> Result<u32, VmError> {
    if t == ADD {
        Ok(vstd::wrapping::u32_specs::wrapping_add(cur, value))
    } else if t == SUB {
        Ok(vstd::wrapping::u32_specs::wrapping_sub(cur, value))
    } else if t == MUL {
        Ok(vstd::wrapping::u32_specs::wrapping_mul(cur, value))
    } else if t == DIV {
        if value == 0 {
            Err(VmError::DivisionByZero)
        } else {
            Ok(cur / value)
        }
    } else if t == AND {
        Ok(cur & value)
    } else if t == ORR {
        Ok(cur | value)
    } else if t == XOR {
        Ok(cur ^ value)
    } else if t == EQ {
        Ok(if cur == value { 1u32 } else { 0u32 })
    } else if t == NEQ {
        Ok(if cur != value { 1u32 } else { 0u32 })
    } else if t == LT {
        Ok(if cur < value { 1u32 } else { 0u32 })
    } else if t == GT {
        Ok(if cur > value { 1u32 } else { 0u32 })
    } else if t == LE {
        Ok(if cur <= value { 1u32 } else { 0u32 })
    } else {
        Ok(if cur >= value { 1u32 } else { 0u32 })
    }
}

/// The effect of the single instruction at `s.pc`, which must be inside the
/// program.
pub open spec fn step_spec(prog: Seq<u8>, s: MachineState) -> Step
    recommends
        0 <= s.pc < prog.len(),
{
    let t = prog[s.pc];
    if t == NOP {
        Step::Next(MachineState { table: s.table, pc: s.pc + 1, out: s.out })
    } else if t == BND {
        Step::Next(
            MachineState { table: s.table.push(Some(zero_slots())), pc: s.pc + 1, out: s.out },
        )
    } else if t == UND || t == TAE {
        if s.pc + 2 > prog.len() {
            Step::Fail(VmError::MalformedProgram)
        } else {
            let id = prog[s.pc + 1] as int;
            if !live(s.table, id) {
                Step::Fail(VmError::UnknownBlockIdentifier)
            } else {
                Step::Next(MachineState { table: s.table.update(id, None), pc: s.pc + 2, out: s.out })
            }
        }
    } else if t == WIE {
        if s.pc + 4 > prog.len() {
            Step::Fail(VmError::MalformedProgram)
        } else {
            let id = prog[s.pc + 1] as int;
            let index = prog[s.pc + 2] as int;
            let value = prog[s.pc + 3] as u32;
            if !live(s.table, id) {
                Step::Fail(VmError::UnknownBlockIdentifier)
            } else if index >= s.table[id]->0.len() {
                Step::Fail(VmError::OutOfBoundsIndex)
            } else {
                Step::Next(
                    MachineState {
                        table: s.table.update(id, Some(s.table[id]->0.update(index, value))),
                        pc: s.pc + 4,
                        out: s.out,
                    },
                )
            }
        }
    } else if t == RAD {
        if s.pc + 3 > prog.len() {
            Step::Fail(VmError::MalformedProgram)
        } else {
            let id = prog[s.pc + 1] as int;
            let index = prog[s.pc + 2] as int;
            if !live(s.table, id) {
                Step::Fail(VmError::UnknownBlockIdentifier)
            } else if index >= s.table[id]->0.len() {
                Step::Fail(VmError::OutOfBoundsIndex)
            } else {
                Step::Next(
                    MachineState {
                        table: s.table,
                        pc: s.pc + 3,
                        out: s.out.push(s.table[id]->0[index]),
                    },
                )
            }
        }
    } else if is_alu_tag(t) {
        if s.pc + 4 > prog.len() {
            Step::Fail(VmError::MalformedProgram)
        } else {
            let id = prog[s.pc + 1] as int;
            let index = prog[s.pc + 2] as int;
            let value = prog[s.pc + 3] as u32;
            if !live(s.table, id) {
                Step::Fail(VmError::UnknownBlockIdentifier)
            } else if index >= s.table[id]->0.len() {
                Step::Fail(VmError::OutOfBoundsIndex)
            } else {
                match alu_spec(t, s.table[id]->0[index], value) {
                    Ok(nv) => Step::Next(
                        MachineState {
                            table: s.table.update(id, Some(s.table[id]->0.update(index, nv))),
                            pc: s.pc + 4,
                            out: s.out,
                        },
                    ),
                    Err(e) => Step::Fail(e),
                }
            }
        }
    } else if t == NOT {
        if s.pc + 3 > prog.len() {
            Step::Fail(VmError::MalformedProgram)
        } else {
            let id = prog[s.pc + 1] as int;
            let index = prog[s.pc + 2] as int;
            if !live(s.table, id) {
                Step::Fail(VmError::UnknownBlockIdentifier)
            } else if index >= s.table[id]->0.len() {
                Step::Fail(VmError::OutOfBoundsIndex)
            } else {
                Step::Next(
                    MachineState {
                        table: s.table.update(
                            id,
                            Some(s.table[id]->0.update(index, !s.table[id]->0[index])),
                        ),
                        pc: s.pc + 3,
                        out: s.out,
                    },
                )
            }
        }
    } else if t == HLT {
        Step::Halt
    } else {
        Step::Fail(VmError::UnknownOpcode)
    }
}

/// The outcome of running from `s` to the end of the program, to a halt, or
/// to a fault. Execution stops the instant the program counter reaches the
/// end of the stream; a halt leaves the counter at the halt tag; a fault
/// leaves the state untouched, counter at the failing tag.
pub open spec fn run_spec(prog: Seq<u8>, s: MachineState) -> Outcome
    decreases prog.len() - s.pc,
{
    if s.pc < 0 || s.pc >= prog.len() {
        Outcome::Done(s)
    } else {
        match step_spec(prog, s) {
            Step::Halt => Outcome::Done(s),
            Step::Fail(e) => Outcome::Faulted(s, e),
            Step::Next(s2) => if s.pc < s2.pc <= prog.len() {
                run_spec(prog, s2)
            } else {
                // every step of step_spec moves the counter forward and stays
                // inside the stream, so this arm is never the one taken
                Outcome::Done(s2)
            },
        }
    }
}

/// A reported failure: the program counter of the instruction that failed,
/// and the error kind.
#[derive(Clone, Copy, Debug, PartialEq, Eq, Structural)]
pub struct Fault {
    pub pc: usize,
    pub kind: VmError,
}

/// The machine: an instruction stream, a program counter, a block table,
/// and the log of values the read instruction has reported.
pub struct Lem {
    pub block_manager: BlockManager,
    pub instrs: Vec<Tag>,
    pub pointer: usize,
    pub outputs: Vec<u32>,
}

impl Lem {
    /// The specification-level view of the machine's mutable state.
    pub open spec fn state(&self) -> MachineState {
        MachineState {
            table: self.block_manager@,
            pc: self.pointer as int,
            out: self.outputs@,
        }
    }

    /// A fresh machine over the given instruction stream: empty table,
    /// counter at the start, nothing read yet.
    pub fn new(instrs: Vec<Tag>) -> (m: Self)
        ensures
            m.instrs@ == instrs@,
            m.state().table.len() == 0,
            m.state().pc == 0,
            m.state().out.len() == 0,
    {
        Lem { block_manager: BlockManager::new(), instrs, pointer: 0, outputs: Vec::new() }
    }

    /// Runs the fetch-decode-execute loop until the program ends, a halt tag
    /// is reached, or an instruction faults: exactly what [`run_spec`] says
    /// of the starting state.
    pub fn run(&mut self) -> (r: Result<(), Fault>)
        ensures
            final(self).instrs@ == old(self).instrs@,
            match run_spec(old(self).instrs@, old(self).state()) {
                Outcome::Done(s) => r is Ok && final(self).state() == s,
                Outcome::Faulted(s, e) => r == Err::<(), Fault>(
                    Fault { pc: s.pc as usize, kind: e },
                ) && final(self).state() == s,
            },
    {
        loop
            invariant
                self.instrs@ == old(self).instrs@,
                run_spec(self.instrs@, self.state()) == run_spec(
                    old(self).instrs@,
                    old(self).state(),
                ),
            decreases self.instrs@.len() - self.pointer,
        {
            let ghost pre = self.state();
            if self.pointer >= self.instrs.len() {
                return Ok(());
            }
            let base = self.pointer;
            let t = self.instrs[base];
            if t == NOP {
                self.pointer = base + 1;
            } else if t == BND {
                let values: Vec<u32> = vec![0u32; DEFAULT_BLOCK_SLOTS];
                proof {
                    assert(values@ =~= zero_slots());
                }
                let _ = self.block_manager.create_block(values);
                self.pointer = base + 1;
            } else if t == UND || t == TAE {
                if self.instrs.len() - base < 2 {
                    return Err(Fault { pc: base, kind: VmError::MalformedProgram });
                }
                let id = self.instrs[base + 1] as usize;
                match self.block_manager.delete_block(id) {
                    Ok(()) => {
                        self.pointer = base + 2;
                    },
                    Err(e) => {
                        return Err(Fault { pc: base, kind: e });
                    },
                }
            } else if t == WIE {
                if self.instrs.len() - base < 4 {
                    return Err(Fault { pc: base, kind: VmError::MalformedProgram });
                }
                let id = self.instrs[base + 1] as usize;
                let index = self.instrs[base + 2] as usize;
                let value = self.instrs[base + 3] as u32;
                match self.block_manager.get_block(id) {
                    None => {
                        return Err(Fault { pc: base, kind: VmError::UnknownBlockIdentifier });
                    },
                    Some(mut block) => {
                        match block.set(index, value) {
                            Ok(()) => {
                                let _ = self.block_manager.update_block(id, block.slots);
                                self.pointer = base + 4;
                            },
                            Err(e) => {
                                return Err(Fault { pc: base, kind: e });
                            },
                        }
                    },
                }
            } else if t == RAD {
                if self.instrs.len() - base < 3 {
                    return Err(Fault { pc: base, kind: VmError::MalformedProgram });
                }
                let id = self.instrs[base + 1] as usize;
                let index = self.instrs[base + 2] as usize;
                match self.block_manager.get_block(id) {
                    None => {
                        return Err(Fault { pc: base, kind: VmError::UnknownBlockIdentifier });
                    },
                    Some(block) => {
                        match block.get(index) {
                            Some(value) => {
                                self.outputs.push(value);
                                self.pointer = base + 3;
                            },
                            None => {
                                return Err(Fault { pc: base, kind: VmError::OutOfBoundsIndex });
                            },
                        }
                    },
                }
            } else if t == ADD || t == SUB || t == MUL || t == DIV || t == AND || t == ORR || t
                == XOR || t == EQ || t == NEQ || t == LT || t == GT || t == LE || t == GE {
                if self.instrs.len() - base < 4 {
                    return Err(Fault { pc: base, kind: VmError::MalformedProgram });
                }
                let id = self.instrs[base + 1] as usize;
                let index = self.instrs[base + 2] as usize;
                let value = self.instrs[base + 3] as u32;
                match self.block_manager.get_block(id) {
                    None => {
                        return Err(Fault { pc: base, kind: VmError::UnknownBlockIdentifier });
                    },
                    Some(mut block) => {
                        let res = if t == ADD || t == SUB || t == MUL || t == DIV {
                            run_arithmetic(t, &mut block, index, value)
                        } else if t == AND {
                            run_and(&mut block, index, value)
                        } else if t == ORR {
                            run_or(&mut block, index, value)
                        } else if t == XOR {
                            run_xor(&mut block, index, value)
                        } else {
                            run_comparison(t, &mut block, index, value)
                        };
                        match res {
                            Ok(()) => {
                                let _ = self.block_manager.update_block(id, block.slots);
                                self.pointer = base + 4;
                            },
                            Err(e) => {
                                return Err(Fault { pc: base, kind: e });
                            },
                        }
                    },
                }
            } else if t == NOT {
                if self.instrs.len() - base < 3 {
                    return Err(Fault { pc: base, kind: VmError::MalformedProgram });
                }
                let id = self.instrs[base + 1] as usize;
                let index = self.instrs[base + 2] as usize;
                match self.block_manager.get_block(id) {
                    None => {
                        return Err(Fault { pc: base, kind: VmError::UnknownBlockIdentifier });
                    },
                    Some(mut block) => {
                        match run_not(&mut block, index) {
                            Ok(()) => {
                                let _ = self.block_manager.update_block(id, block.slots);
                                self.pointer = base + 3;
                            },
                            Err(e) => {
                                return Err(Fault { pc: base, kind: e });
                            },
                        }
                    },
                }
            } else if t == HLT {
                // the counter stays at the halt tag
                return Ok(());
            } else {
                return Err(Fault { pc: base, kind: VmError::UnknownOpcode });
            }
            proof {
                assert(step_spec(self.instrs@, pre) == Step::Next(self.state()));
            }
        }
    }
}

/// Applies an arithmetic tag to the slot at `index`: the in-place update the
/// arithmetic family of instructions performs.
fn run_arithmetic(instr: Tag, block: &mut Block, index: usize, value: u32) -> (r: Result<
    (),
    VmError,
>)
    requires
        instr == ADD || instr == SUB || instr == MUL || instr == DIV,
    ensures
        match r {
            Ok(()) => index < old(block)@.len() && alu_spec(
                instr,
                old(block)@[index as int],
                value,
            ) is Ok && final(block)@ == old(block)@.update(
                index as int,
                alu_spec(instr, old(block)@[index as int], value)->Ok_0,
            ),
            Err(e) => final(block)@ == old(block)@ && (if index >= old(block)@.len() {
                e == VmError::OutOfBoundsIndex
            } else {
                alu_spec(instr, old(block)@[index as int], value) == Err::<u32, VmError>(e)
            }),
        },
{
    if instr == ADD {
        block.add(index, value)
    } else if instr == SUB {
        block.sub(index, value)
    } else if instr == MUL {
        block.mul(index, value)
    } else {
        block.div(index, value)
    }
}

/// Compares the slot at `index` against `value` and stores the outcome back
/// into the slot, 1 for true and 0 for false.
fn run_comparison(instr: Tag, block: &mut Block, index: usize, value: u32) -> (r: Result<
    (),
    VmError,
>)
    requires
        instr == EQ || instr == NEQ || instr == LT || instr == GT || instr == LE || instr == GE,
    ensures
        match r {
            Ok(()) => index < old(block)@.len() && final(block)@ == old(block)@.update(
                index as int,
                alu_spec(instr, old(block)@[index as int], value)->Ok_0,
            ),
            Err(e) => e == VmError::OutOfBoundsIndex && index >= old(block)@.len() && final(block)@ == old(block)@,
        },
{
    let cur = match block.get(index) {
        Some(c) => c,
        None => {
            return Err(VmError::OutOfBoundsIndex);
        },
    };
    let result: bool = if instr == EQ {
        cur == value
    } else if instr == NEQ {
        cur != value
    } else if instr == LT {
        cur < value
    } else if instr == GT {
        cur > value
    } else if instr == LE {
        cur <= value
    } else {
        cur >= value
    };
    block.set(index, if result { 1 } else { 0 })
}

/// Bitwise-ands the slot at `index` with `value`.
fn run_and(block: &mut Block, index: usize, value: u32) -> (r: Result<(), VmError>)
    ensures
        match r {
            Ok(()) => index < old(block)@.len() && final(block)@ == old(block)@.update(
                index as int,
                old(block)@[index as int] & value,
            ),
            Err(e) => e == VmError::OutOfBoundsIndex && index >= old(block)@.len() && final(block)@ == old(block)@,
        },
{
    match block.get(index) {
        Some(existing) => block.set(index, existing & value),
        None => Err(VmError::OutOfBoundsIndex),
    }
}

/// Bitwise-ors the slot at `index` with `value`.
fn run_or(block: &mut Block, index: usize, value: u32) -> (r: Result<(), VmError>)
    ensures
        match r {
            Ok(()) => index < old(block)@.len() && final(block)@ == old(block)@.update(
                index as int,
                old(block)@[index as int] | value,
            ),
            Err(e) => e == VmError::OutOfBoundsIndex && index >= old(block)@.len() && final(block)@ == old(block)@,
        },
{
    match block.get(index) {
        Some(existing) => block.set(index, existing | value),
        None => Err(VmError::OutOfBoundsIndex),
    }
}

/// Bitwise-xors the slot at `index` with `value`.
fn run_xor(block: &mut Block, index: usize, value: u32) -> (r: Result<(), VmError>)
    ensures
        match r {
            Ok(()) => index < old(block)@.len() && final(block)@ == old(block)@.update(
                index as int,
                old(block)@[index as int] ^ value,
            ),
            Err(e) => e == VmError::OutOfBoundsIndex && index >= old(block)@.len() && final(block)@ == old(block)@,
        },
{
    match block.get(index) {
        Some(existing) => block.set(index, existing ^ value),
        None => Err(VmError::OutOfBoundsIndex),
    }
}

/// Bitwise-inverts the slot at `index`.
fn run_not(block: &mut Block, index: usize) -> (r: Result<(), VmError>)
    ensures
        match r {
            Ok(()) => index < old(block)@.len() && final(block)@ == old(block)@.update(
                index as int,
                !old(block)@[index as int],
            ),
            Err(e) => e == VmError::OutOfBoundsIndex && index >= old(block)@.len() && final(block)@ == old(block)@,
        },
{
    match block.get(index) {
        Some(existing) => block.set(index, !existing),
        None => Err(VmError::OutOfBoundsIndex),
    }
}


/// Halt is final: whatever instruction stream is appended after the halt tag
/// that stops a run, the appended part is never executed, and the run's
/// outcome does not change.
pub proof fn lemma_halt_is_final(prog: Seq<u8>, extra: Seq<u8>, s: MachineState)
    requires
        run_spec(prog, s) matches Outcome::Done(f) && 0 <= f.pc < prog.len() && prog[f.pc] == HLT,
    ensures
        run_spec(prog + extra, s) == run_spec(prog, s),
    decreases prog.len() - s.pc,
{
    assert(prog + extra =~= prog + extra);
    assert((prog + extra).len() == prog.len() + extra.len());
    assert(forall|i: int| 0 <= i < prog.len() ==> (prog + extra)[i] == prog[i]);
    if 0 <= s.pc < prog.len() {
        match step_spec(prog, s) {
            Step::Halt => {
                assert(step_spec(prog + extra, s) == Step::Halt);
            },
            Step::Fail(e) => {
                assert(false);
            },
            Step::Next(s2) => {
                assert(s.pc < s2.pc <= prog.len());
                assert(step_spec(prog + extra, s) == Step::Next(s2));
                lemma_halt_is_final(prog, extra, s2);
            },
        }
    }
}


/// The identifiers the array encoding hands to the children of a parent
/// block: consecutive, starting at `start`, stored as `u32` slots.
pub open spec fn child_ids(start: int, n: nat) -> Seq<u32> {
    Seq::new(n, |i: int| (start + i) as u32)
}

/// The table after the array encoding stores `arrays` under the parent
/// `id`: one fresh child block per inner array, and the parent's slots
/// replaced by the children's identifiers.
pub open spec fn table_after_write_array(
    t: Seq<Option<Seq<u32>>>,
    id: int,
    arrays: Seq<Seq<u32>>,
) -> Seq<Option<Seq<u32>>> {
    (t + arrays.map_values(|a: Seq<u32>| Some(a))).update(
        id,
        Some(child_ids(t.len() as int, arrays.len())),
    )
}

/// The arrays the decoding side reads back through a parent's slots: one
/// per slot that names a live block, in slot order, dead slots skipped.
pub open spec fn gather_arrays(t: Seq<Option<Seq<u32>>>, ids: Seq<u32>) -> Seq<Seq<u32>>
    decreases ids.len(),
{
    if ids.len() == 0 {
        Seq::empty()
    } else {
        (if live(t, ids[0] as int) {
            seq![t[ids[0] as int]->0]
        } else {
            Seq::<Seq<u32>>::empty()
        }) + gather_arrays(t, ids.drop_first())
    }
}

/// Gathering treats the identifier slots one at a time: appending an
/// identifier appends whatever it names.
pub proof fn lemma_gather_arrays_push(t: Seq<Option<Seq<u32>>>, ids: Seq<u32>, x: u32)
    ensures
        gather_arrays(t, ids.push(x)) == gather_arrays(t, ids) + (if live(t, x as int) {
            seq![t[x as int]->0]
        } else {
            Seq::<Seq<u32>>::empty()
        }),
    decreases ids.len(),
{
    let opt = if live(t, x as int) {
        seq![t[x as int]->0]
    } else {
        Seq::<Seq<u32>>::empty()
    };
    if ids.len() == 0 {
        assert(ids.push(x)[0] == x);
        assert(ids.push(x).drop_first() =~= Seq::<u32>::empty());
        assert(gather_arrays(t, ids.push(x)) == opt + gather_arrays(t, Seq::<u32>::empty()));
        assert(opt + Seq::<Seq<u32>>::empty() =~= opt);
        assert(gather_arrays(t, ids) + opt =~= opt);
    } else {
        let head = if live(t, ids[0] as int) {
            seq![t[ids[0] as int]->0]
        } else {
            Seq::<Seq<u32>>::empty()
        };
        assert(ids.push(x)[0] == ids[0]);
        assert(ids.push(x).drop_first() =~= ids.drop_first().push(x));
        lemma_gather_arrays_push(t, ids.drop_first(), x);
        assert(gather_arrays(t, ids.push(x)) == head + (gather_arrays(t, ids.drop_first()) + opt));
        assert(gather_arrays(t, ids) + opt == (head + gather_arrays(t, ids.drop_first())) + opt);
        assert(head + (gather_arrays(t, ids.drop_first()) + opt) =~= (head + gather_arrays(
            t,
            ids.drop_first(),
        )) + opt);
    }
}

/// Consecutive identifiers starting at `start` each name a live block of
/// `t` holding the matching member of `arrays`.
pub open spec fn names_consecutive(
    t: Seq<Option<Seq<u32>>>,
    arrays: Seq<Seq<u32>>,
    start: int,
) -> bool {
    forall|j: int| #![trigger arrays[j]]
        0 <= j < arrays.len() ==> live(t, start + j) && t[start + j]->0 == arrays[j]
}

/// Gathering consecutive identifiers that each name a live block holding
/// the matching array yields exactly those arrays, from position `k` on.
proof fn lemma_gather_consecutive(t: Seq<Option<Seq<u32>>>, arrays: Seq<Seq<u32>>, start: int, k: int)
    requires
        0 <= start,
        0 <= k <= arrays.len(),
        start + arrays.len() <= u32::MAX + 1,
        names_consecutive(t, arrays, start),
    ensures
        gather_arrays(t, child_ids(start + k, (arrays.len() - k) as nat)) == arrays.skip(k),
    decreases arrays.len() - k,
{
    let n = arrays.len() as int;
    let ids = child_ids(start + k, (n - k) as nat);
    if k == n {
        assert(ids =~= Seq::<u32>::empty());
        assert(gather_arrays(t, ids) =~= arrays.skip(k));
    } else {
        // mentioning arrays[k] instantiates names_consecutive at k
        assert(live(t, start + k) && t[start + k]->0 == arrays[k]) by {
            assert(arrays[k] =~= arrays[k]);
        }
        assert(ids[0] == (start + k) as u32);
        assert(ids[0] as int == start + k);
        assert(ids.drop_first() =~= child_ids(start + (k + 1), (n - (k + 1)) as nat));
        lemma_gather_consecutive(t, arrays, start, k + 1);
        assert(gather_arrays(t, ids) == seq![arrays[k]] + arrays.skip(k + 1));
        assert(seq![arrays[k]] + arrays.skip(k + 1) =~= arrays.skip(k));
    }
}

/// The array encoding round-trips: storing a family of arrays under a live
/// parent block and gathering them back through the parent's slots yields
/// the same family, in the same order.
pub proof fn lemma_array_round_trip(t: Seq<Option<Seq<u32>>>, id: int, arrays: Seq<Seq<u32>>)
    requires
        live(t, id),
        t.len() + arrays.len() <= u32::MAX,
    ensures
        ({
            let t2 = table_after_write_array(t, id, arrays);
            &&& live(t2, id)
            &&& gather_arrays(t2, t2[id]->0) == arrays
        }),
{
    let t2 = table_after_write_array(t, id, arrays);
    let n = arrays.len();
    assert(t2[id] == Some(child_ids(t.len() as int, n)));
    assert forall|j: int| 0 <= j < n implies live(t2, t.len() + j) && t2[t.len() + j]->0
        == arrays[j] by {
        assert((t + arrays.map_values(|a: Seq<u32>| Some(a)))[t.len() + j] == arrays.map_values(
            |a: Seq<u32>| Some(a),
        )[j]);
    }
    lemma_gather_consecutive(t2, arrays, t.len() as int, 0);
    assert(arrays.skip(0) =~= arrays);
}

impl Lem {
    /// Stores `string` in the block named by `block_id`, one slot per
    /// character's code point; the block's previous slot vector is replaced
    /// whole, so the index is where the text begins: the start of the
    /// block. Succeeds exactly when `block_id` is live.
    pub fn write_string(&mut self, block_id: usize, index: usize, string: &str) -> (r: Result<
        (),
        VmError,
    >)
        ensures
            final(self).instrs@ == old(self).instrs@,
            final(self).pointer == old(self).pointer,
            final(self).outputs@ == old(self).outputs@,
            match r {
                Ok(()) => live(old(self).block_manager@, block_id as int) && final(self).block_manager@ == old(self).block_manager@.update(
                    block_id as int,
                    Some(crate::convert::string_slots(string@)),
                ),
                Err(e) => e == VmError::UnknownBlockIdentifier && !live(
                    old(self).block_manager@,
                    block_id as int,
                ) && final(self).block_manager@ == old(self).block_manager@,
            },
    {
        let values = crate::convert::convert_string_to_int_array(string);
        self.block_manager.update_block(block_id, values)
    }

    /// Reads the block named by `block_id` back as a string: each slot that
    /// holds a Unicode scalar value becomes one character, the rest are
    /// skipped. `None` exactly when `block_id` is not live.
    pub fn read_string(&self, block_id: usize) -> (r: Option<String>)
        ensures
            match r {
                Some(s) => live(self.block_manager@, block_id as int) && s@
                    == crate::convert::decoded_slots(self.block_manager@[block_id as int]->0),
                None => !live(self.block_manager@, block_id as int),
            },
    {
        match self.block_manager.get_block(block_id) {
            None => None,
            Some(block) => {
                let mut out = String::new();
                let mut i: usize = 0;
                while i < block.slots.len()
                    invariant
                        i <= block@.len(),
                        out@ == crate::convert::decoded_slots(block@.take(i as int)),
                    decreases block@.len() - i,
                {
                    match crate::convert::char_from_u32(block.slots[i]) {
                        Some(c) => {
                            crate::convert::push_char(&mut out, c);
                        },
                        None => {},
                    }
                    proof {
                        assert(block@.take(i as int + 1) =~= block@.take(i as int).push(
                            block@[i as int],
                        ));
                        crate::convert::lemma_decoded_slots_push(
                            block@.take(i as int),
                            block@[i as int],
                        );
                    }
                    i = i + 1;
                }
                proof {
                    assert(block@.take(block@.len() as int) =~= block@);
                }
                Some(out)
            },
        }
    }

    /// Stores a family of arrays under the block named by `block_id`: one
    /// fresh child block per inner array, the children's identifiers
    /// written into the parent's slots. Succeeds exactly when `block_id` is
    /// live; nothing is allocated when it is not.
    pub fn write_array(&mut self, block_id: usize, arrays: Vec<Vec<u32>>) -> (r: Result<
        (),
        VmError,
    >)
        requires
            old(self).block_manager@.len() + arrays@.len() <= u32::MAX,
        ensures
            final(self).instrs@ == old(self).instrs@,
            final(self).pointer == old(self).pointer,
            final(self).outputs@ == old(self).outputs@,
            match r {
                Ok(()) => live(old(self).block_manager@, block_id as int) && final(self).block_manager@ == table_after_write_array(
                    old(self).block_manager@,
                    block_id as int,
                    arrays.deep_view(),
                ),
                Err(e) => e == VmError::UnknownBlockIdentifier && !live(
                    old(self).block_manager@,
                    block_id as int,
                ) && final(self).block_manager@ == old(self).block_manager@,
            },
    {
        if !(block_id < self.block_manager.blocks.len() && self.block_manager.blocks[
            block_id
        ].is_some()) {
            return Err(VmError::UnknownBlockIdentifier);
        }
        let ghost t0 = self.block_manager@;
        let ghost all = arrays.deep_view();
        let mut arrays = arrays;
        let mut values: Vec<u32> = Vec::new();
        proof {
            assert(arrays.deep_view() =~= all.skip(0));
            assert(t0 + all.take(0).map_values(|a: Seq<u32>| Some(a)) =~= t0);
            assert(child_ids(t0.len() as int, 0) =~= values@);
        }
        while arrays.len() > 0
            invariant
                values@.len() + arrays.deep_view().len() == all.len(),
                arrays.deep_view() == all.skip(values@.len() as int),
                t0.len() + all.len() <= u32::MAX,
                self.block_manager@ == t0 + all.take(values@.len() as int).map_values(
                    |a: Seq<u32>| Some(a),
                ),
                values@ == child_ids(t0.len() as int, values@.len()),
                self.instrs@ == old(self).instrs@,
                self.pointer == old(self).pointer,
                self.outputs@ == old(self).outputs@,
            decreases arrays@.len(),
        {
            let ghost k = values@.len() as int;
            let ghost pre = arrays.deep_view();
            let ghost presh = arrays@;
            let array = arrays.remove(0);
            proof {
                assert(array.deep_view() == pre[0]);
                assert(pre[0] == all.skip(k)[0]);
                assert(all.skip(k)[0] == all[k]);
                assert(array.deep_view() =~= array@);
                assert(arrays@ =~= presh.subrange(1, presh.len() as int));
                assert forall|j: int| 0 <= j < arrays.deep_view().len() implies arrays.deep_view()[j]
                    == all.skip(k + 1)[j] by {
                    assert(arrays.deep_view()[j] == arrays@[j].deep_view());
                    assert(arrays@[j] == presh[j + 1]);
                    assert(pre[j + 1] == presh[j + 1].deep_view());
                    assert(all.skip(k)[j + 1] == all[k + 1 + j]);
                    assert(all.skip(k + 1)[j] == all[k + 1 + j]);
                }
                assert(arrays.deep_view() =~= all.skip(k + 1));
            }
            let sub_block_id = self.block_manager.create_block(array);
            values.push(sub_block_id as u32);
            proof {
                assert(self.block_manager@ =~~= t0 + all.take(k + 1).map_values(
                    |a: Seq<u32>| Some(a),
                ));
                assert(values@ =~= child_ids(t0.len() as int, (k + 1) as nat));
            }
        }
        proof {
            assert(all.take(all.len() as int) =~= all);
        }
        let r = self.block_manager.update_block(block_id, values);
        proof {
            assert(r is Ok);
        }
        r
    }

    /// Reads the family of arrays stored under the block named by
    /// `block_id`: one inner array per slot that names a live block, dead
    /// slots skipped. An unknown parent reads as an empty family.
    pub fn read_array(&self, block_id: usize) -> (r: Vec<Vec<u32>>)
        ensures
            r.deep_view() == (if live(self.block_manager@, block_id as int) {
                gather_arrays(self.block_manager@, self.block_manager@[block_id as int]->0)
            } else {
                Seq::<Seq<u32>>::empty()
            }),
    {
        let mut arrays: Vec<Vec<u32>> = Vec::new();
        proof {
            assert(arrays.deep_view() =~= Seq::<Seq<u32>>::empty());
        }
        match self.block_manager.get_block(block_id) {
            None => arrays,
            Some(block) => {
                let mut i: usize = 0;
                proof {
                    assert(block@.take(0) =~= Seq::<u32>::empty());
                }
                while i < block.slots.len()
                    invariant
                        i <= block@.len(),
                        block@ == self.block_manager@[block_id as int]->0,
                        arrays.deep_view() == gather_arrays(
                            self.block_manager@,
                            block@.take(i as int),
                        ),
                    decreases block@.len() - i,
                {
                    let sub_block_id = block.slots[i] as usize;
                    let ghost pre = arrays.deep_view();
                    match self.block_manager.get_block(sub_block_id) {
                        Some(sub_block) => {
                            proof {
                                assert(sub_block.slots.deep_view() =~= sub_block@);
                            }
                            arrays.push(sub_block.slots);
                            proof {
                                assert(arrays.deep_view() =~~= pre.push(
                                    self.block_manager@[sub_block_id as int]->0,
                                ));
                            }
                        },
                        None => {},
                    }
                    proof {
                        assert(block@.take(i as int + 1) =~= block@.take(i as int).push(
                            block@[i as int],
                        ));
                        lemma_gather_arrays_push(
                            self.block_manager@,
                            block@.take(i as int),
                            block@[i as int],
                        );
                        if live(self.block_manager@, block@[i as int] as int) {
                            assert(pre.push(self.block_manager@[block@[i as int] as int]->0) =~= pre
                                + seq![self.block_manager@[block@[i as int] as int]->0]);
                        } else {
                            assert(pre + Seq::<Seq<u32>>::empty() =~= pre);
                        }
                    }
                    i = i + 1;
                }
                proof {
                    assert(block@.take(block@.len() as int) =~= block@);
                }
                arrays
            },
        }
    }
}

} // verus!
