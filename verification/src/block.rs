//! The atomic unit of heap storage: a fixed-length container of `u32` slots.

use vstd::prelude::*;

use crate::err::VmError;

verus! {

/// A block identifier: an integer handle naming a live block in a block table.
pub type BlockId = usize;

/// A fixed-length container of unsigned 32-bit slots, mutated in place by
/// index and never resized after creation.
///
/// Every operation that takes an index is bounds-checked against the block's
/// fixed length; an out-of-range index is reported as
/// [`VmError::OutOfBoundsIndex`] and leaves the block untouched. The
/// arithmetic updates wrap around on overflow, as machine registers do; a
/// zero divisor is reported as [`VmError::DivisionByZero`].
#[derive(Debug, Clone)]
pub struct Block {
    pub slots: Vec<u32>,
}

impl View for Block {
    type V = Seq<u32>;

    open spec fn view(&self) -> Seq<u32> {
        self.slots@
    }
}

impl Block {
    /// Creates a block holding exactly the given slot values.
    pub fn new(values: Vec<u32>) -> (b: Self)
        ensures
            b@ == values@,
    {
        Block { slots: values }
    }

    /// Reads the slot at `index`, or `None` when the index is out of range.
    pub fn get(&self, index: usize) -> (r: Option<u32>)
        ensures
            r == (if index < self@.len() {
                Some(self@[index as int])
            } else {
                None::<u32>
            }),
    {
        match self.slots.get(index) {
            Some(v) => Some(*v),
            None => None,
        }
    }

    /// Overwrites the slot at `index` with `value`; all other slots keep
    /// their contents.
    pub fn set(&mut self, index: usize, value: u32) -> (r: Result<(), VmError>)
        ensures
            match r {
                Ok(()) => index < old(self)@.len() && final(self)@ == old(self)@.update(
                    index as int,
                    value,
                ),
                Err(e) => e == VmError::OutOfBoundsIndex && index >= old(self)@.len() && final(self)@ == old(self)@,
            },
    {
        if index < self.slots.len() {
            self.slots[index] = value;
            Ok(())
        } else {
            Err(VmError::OutOfBoundsIndex)
        }
    }

    /// Adds `value` to the slot at `index`, wrapping around on overflow.
    pub fn add(&mut self, index: usize, value: u32) -> (r: Result<(), VmError>)
        ensures
            match r {
                Ok(()) => index < old(self)@.len() && final(self)@ == old(self)@.update(
                    index as int,
                    vstd::wrapping::u32_specs::wrapping_add(old(self)@[index as int], value),
                ),
                Err(e) => e == VmError::OutOfBoundsIndex && index >= old(self)@.len() && final(self)@ == old(self)@,
            },
    {
        if index < self.slots.len() {
            let cur = self.slots[index];
            self.slots[index] = cur.wrapping_add(value);
            Ok(())
        } else {
            Err(VmError::OutOfBoundsIndex)
        }
    }

    /// Subtracts `value` from the slot at `index`, wrapping around on
    /// underflow.
    pub fn sub(&mut self, index: usize, value: u32) -> (r: Result<(), VmError>)
        ensures
            match r {
                Ok(()) => index < old(self)@.len() && final(self)@ == old(self)@.update(
                    index as int,
                    vstd::wrapping::u32_specs::wrapping_sub(old(self)@[index as int], value),
                ),
                Err(e) => e == VmError::OutOfBoundsIndex && index >= old(self)@.len() && final(self)@ == old(self)@,
            },
    {
        if index < self.slots.len() {
            let cur = self.slots[index];
            self.slots[index] = cur.wrapping_sub(value);
            Ok(())
        } else {
            Err(VmError::OutOfBoundsIndex)
        }
    }

    /// Multiplies the slot at `index` by `value`, wrapping around on
    /// overflow.
    pub fn mul(&mut self, index: usize, value: u32) -> (r: Result<(), VmError>)
        ensures
            match r {
                Ok(()) => index < old(self)@.len() && final(self)@ == old(self)@.update(
                    index as int,
                    vstd::wrapping::u32_specs::wrapping_mul(old(self)@[index as int], value),
                ),
                Err(e) => e == VmError::OutOfBoundsIndex && index >= old(self)@.len() && final(self)@ == old(self)@,
            },
    {
        if index < self.slots.len() {
            let cur = self.slots[index];
            self.slots[index] = cur.wrapping_mul(value);
            Ok(())
        } else {
            Err(VmError::OutOfBoundsIndex)
        }
    }

    /// Divides the slot at `index` by `value`. A zero divisor is reported
    /// as an error and leaves the block untouched.
    pub fn div(&mut self, index: usize, value: u32) -> (r: Result<(), VmError>)
        ensures
            match r {
                Ok(()) => index < old(self)@.len() && value != 0 && final(self)@ == old(self)@.update(index as int, old(self)@[index as int] / value),
                Err(e) => final(self)@ == old(self)@ && (if index >= old(self)@.len() {
                    e == VmError::OutOfBoundsIndex
                } else {
                    e == VmError::DivisionByZero && value == 0
                }),
            },
    {
        if index < self.slots.len() {
            if value == 0 {
                Err(VmError::DivisionByZero)
            } else {
                let cur = self.slots[index];
                self.slots[index] = cur / value;
                Ok(())
            }
        } else {
            Err(VmError::OutOfBoundsIndex)
        }
    }
}

} // verus!
