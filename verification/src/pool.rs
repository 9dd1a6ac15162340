//! The allocator: assigns block identifiers and recycles freed ones through
//! a LIFO free list.

use vstd::prelude::*;

use crate::block::{Block, BlockId};
use crate::err::VmError;
use crate::table::live;

verus! {

/// The well-formedness of an allocator state: every identifier on the free
/// list names a slot of the table that is currently empty, and no identifier
/// appears on the free list twice.
pub open spec fn pool_inv(table: Seq<Option<Seq<u32>>>, free: Seq<usize>) -> bool {
    &&& forall|i: int|
        0 <= i < free.len() ==> free[i] < table.len() && table[#[trigger] free[i] as int] is None
    &&& forall|i: int, j: int| 0 <= i < j < free.len() ==> free[i] != free[j]
}

/// The identifier the next allocation hands out: the most recently freed one
/// when the free list is non-empty, otherwise a freshly minted one.
pub open spec fn allocated_id(table: Seq<Option<Seq<u32>>>, free: Seq<usize>) -> usize {
    if free.len() > 0 {
        free.last()
    } else {
        table.len() as usize
    }
}

/// The table after the next allocation stores `values` under
/// [`allocated_id`].
pub open spec fn table_after_allocate(
    table: Seq<Option<Seq<u32>>>,
    free: Seq<usize>,
    values: Seq<u32>,
) -> Seq<Option<Seq<u32>>> {
    if free.len() > 0 {
        table.update(free.last() as int, Some(values))
    } else {
        table.push(Some(values))
    }
}

/// Owns identifier assignment and block storage.
///
/// `allocate` pops an identifier from the free list when one is available
/// (LIFO reuse) and otherwise mints a fresh, monotonically increasing one;
/// `free` removes a block and pushes its identifier for later reuse. A freed
/// identifier can come back only through that explicit reuse path: a caller
/// can never make the pool adopt an identifier of its own minting.
pub struct Pool {
    pub blocks: Vec<Option<Block>>,
    pub free_blocks: Vec<BlockId>,
}

impl Pool {
    /// The slot vectors the pool stores, by identifier; `None` marks an
    /// identifier with no live block.
    pub open spec fn table(&self) -> Seq<Option<Seq<u32>>> {
        Seq::new(
            self.blocks@.len(),
            |i: int|
                match self.blocks@[i] {
                    Some(b) => Some(b@),
                    None => None,
                },
        )
    }

    /// The well-formedness every pool operation preserves.
    pub open spec fn wf(&self) -> bool {
        pool_inv(self.table(), self.free_blocks@)
    }

    /// An empty pool, sized to hold about `pool_size` blocks before its
    /// storage grows.
    pub fn new(pool_size: usize) -> (p: Self)
        ensures
            p.wf(),
            p.table().len() == 0,
            p.free_blocks@.len() == 0,
    {
        Pool { blocks: Vec::with_capacity(pool_size), free_blocks: Vec::with_capacity(pool_size) }
    }

    /// Inserts a fresh block holding `values` and returns its identifier:
    /// the most recently freed identifier when one is waiting for reuse,
    /// otherwise a freshly minted one.
    pub fn allocate(&mut self, values: Vec<u32>) -> (id: BlockId)
        requires
            old(self).wf(),
        ensures
            final(self).wf(),
            id == allocated_id(old(self).table(), old(self).free_blocks@),
            final(self).table() == table_after_allocate(
                old(self).table(),
                old(self).free_blocks@,
                values@,
            ),
            final(self).free_blocks@ == (if old(self).free_blocks@.len() > 0 {
                old(self).free_blocks@.drop_last()
            } else {
                old(self).free_blocks@
            }),
            live(final(self).table(), id as int),
            final(self).table()[id as int]->0 == values@,
    {
        match self.free_blocks.pop() {
            Some(block_id) => {
                self.blocks[block_id] = Some(Block::new(values));
                proof {
                    assert(self.table() =~= old(self).table().update(
                        block_id as int,
                        Some(values@),
                    ));
                }
                block_id
            },
            None => {
                let block_id = self.blocks.len();
                self.blocks.push(Some(Block::new(values)));
                proof {
                    assert(self.table() =~= old(self).table().push(Some(values@)));
                }
                block_id
            },
        }
    }

    /// Removes the block named by `block_id` and pushes its identifier onto
    /// the free list. Succeeds exactly when `block_id` is live; an unknown
    /// identifier is reported and the pool is left untouched.
    pub fn free(&mut self, block_id: BlockId) -> (r: Result<(), VmError>)
        requires
            old(self).wf(),
        ensures
            final(self).wf(),
            match r {
                Ok(()) => live(old(self).table(), block_id as int) && final(self).table() == old(
                    self,
                ).table().update(block_id as int, None) && final(self).free_blocks@ == old(
                    self,
                ).free_blocks@.push(block_id),
                Err(e) => e == VmError::UnknownBlockIdentifier && !live(
                    old(self).table(),
                    block_id as int,
                ) && final(self).table() == old(self).table() && final(self).free_blocks@ == old(
                    self,
                ).free_blocks@,
            },
    {
        if block_id < self.blocks.len() && self.blocks[block_id].is_some() {
            self.blocks[block_id] = None;
            self.free_blocks.push(block_id);
            proof {
                assert(self.table() =~= old(self).table().update(block_id as int, None));
            }
            Ok(())
        } else {
            Err(VmError::UnknownBlockIdentifier)
        }
    }
}

/// Free-list reuse is LIFO: whatever the pool held, freeing the identifier
/// `x` and then allocating hands `x` out again, before any fresh identifier
/// is minted.
pub proof fn lemma_free_then_allocate_is_lifo(
    table: Seq<Option<Seq<u32>>>,
    free: Seq<usize>,
    x: usize,
)
    ensures
        allocated_id(table.update(x as int, None), free.push(x)) == x,
{
}

/// Allocate-then-write-then-read round trip: allocating a block from at
/// least one slot, overwriting a valid index `i` with `v` as
/// [`Block::set`] does, and reading index `i` back as [`Block::get`] does,
/// yields exactly `v`; the other slots keep the allocated contents.
pub proof fn lemma_allocate_write_read(
    table: Seq<Option<Seq<u32>>>,
    free: Seq<usize>,
    values: Seq<u32>,
    i: int,
    v: u32,
)
    requires
        pool_inv(table, free),
        table.len() <= usize::MAX,
        values.len() >= 1,
        0 <= i < values.len(),
    ensures
        ({
            let id = allocated_id(table, free) as int;
            let t1 = table_after_allocate(table, free, values);
            let t2 = t1.update(id, Some(t1[id]->0.update(i, v)));
            &&& live(t2, id)
            &&& t2[id]->0[i] == v
            &&& forall|j: int| 0 <= j < values.len() && j != i ==> t2[id]->0[j] == values[j]
        }),
{
    if free.len() > 0 {
        assert(free[free.len() - 1] < table.len());
    }
}

} // verus!
