//! The block table: the mapping from block identifier to [`Block`], owned by
//! the component that mints identifiers.

use vstd::prelude::*;

use crate::block::{Block, BlockId};
use crate::err::VmError;

verus! {

/// True when `id` names a live block of the table `t`: an identifier that was
/// handed out and has not been freed since.
pub open spec fn live(t: Seq<Option<Seq<u32>>>, id: int) -> bool {
    0 <= id < t.len() && t[id] is Some
}

/// Owns the mapping from block identifier to block, and mints fresh
/// identifiers.
///
/// Identifiers are slot positions: a freed identifier keeps its position,
/// holding `None`, so an identifier is unique while live and is never handed
/// out twice by [`BlockManager::create_block`] (reuse is the business of the
/// pool's explicit free list, not of this table).
#[derive(Debug)]
pub struct BlockManager {
    pub blocks: Vec<Option<Block>>,
}

impl View for BlockManager {
    type V = Seq<Option<Seq<u32>>>;

    open spec fn view(&self) -> Seq<Option<Seq<u32>>> {
        Seq::new(
            self.blocks@.len(),
            |i: int|
                match self.blocks@[i] {
                    Some(b) => Some(b@),
                    None => None,
                },
        )
    }
}

/// Copies a slot vector; the table hands out snapshots, never references
/// into its own storage.
fn copy_slots(values: &Vec<u32>) -> (r: Vec<u32>)
    ensures
        r@ == values@,
{
    let mut out: Vec<u32> = Vec::new();
    let mut i: usize = 0;
    while i < values.len()
        invariant
            i <= values@.len(),
            out@ == values@.take(i as int),
        decreases values@.len() - i,
    {
        out.push(values[i]);
        proof {
            assert(out@ =~= values@.take(i as int + 1));
        }
        i = i + 1;
    }
    proof {
        assert(values@.take(values@.len() as int) =~= values@);
    }
    out
}

impl BlockManager {
    /// An empty table: no identifier is live.
    pub fn new() -> (m: Self)
        ensures
            m@.len() == 0,
    {
        BlockManager { blocks: Vec::new() }
    }

    /// Inserts a fresh block holding `values` and returns its identifier,
    /// which is freshly minted: it was not live before the call.
    pub fn create_block(&mut self, values: Vec<u32>) -> (id: BlockId)
        ensures
            id == old(self)@.len(),
            final(self)@ == old(self)@.push(Some(values@)),
    {
        let id = self.blocks.len();
        self.blocks.push(Some(Block::new(values)));
        proof {
            assert(self@ =~= old(self)@.push(Some(values@)));
        }
        id
    }

    /// Returns a snapshot of the block named by `id`, or `None` when `id` is
    /// not live.
    pub fn get_block(&self, id: BlockId) -> (r: Option<Block>)
        ensures
            match r {
                Some(b) => live(self@, id as int) && b@ == self@[id as int]->0,
                None => !live(self@, id as int),
            },
    {
        if id < self.blocks.len() {
            match &self.blocks[id] {
                Some(b) => Some(Block::new(copy_slots(&b.slots))),
                None => None,
            }
        } else {
            None
        }
    }

    /// Replaces the slot vector stored under `id`. Succeeds exactly when
    /// `id` is live; an unknown identifier is reported and the table is left
    /// untouched.
    pub fn update_block(&mut self, id: BlockId, values: Vec<u32>) -> (r: Result<(), VmError>)
        ensures
            match r {
                Ok(()) => live(old(self)@, id as int) && final(self)@ == old(self)@.update(
                    id as int,
                    Some(values@),
                ),
                Err(e) => e == VmError::UnknownBlockIdentifier && !live(old(self)@, id as int)
                    && final(self)@ == old(self)@,
            },
    {
        if id < self.blocks.len() && self.blocks[id].is_some() {
            self.blocks[id] = Some(Block::new(values));
            proof {
                assert(self@ =~= old(self)@.update(id as int, Some(values@)));
            }
            Ok(())
        } else {
            Err(VmError::UnknownBlockIdentifier)
        }
    }

    /// Removes the block named by `id` from the table. Succeeds exactly when
    /// `id` is live; an unknown identifier is reported and the table is left
    /// untouched.
    pub fn delete_block(&mut self, id: BlockId) -> (r: Result<(), VmError>)
        ensures
            match r {
                Ok(()) => live(old(self)@, id as int) && final(self)@ == old(self)@.update(
                    id as int,
                    None,
                ),
                Err(e) => e == VmError::UnknownBlockIdentifier && !live(old(self)@, id as int)
                    && final(self)@ == old(self)@,
            },
    {
        if id < self.blocks.len() && self.blocks[id].is_some() {
            self.blocks[id] = None;
            proof {
                assert(self@ =~= old(self)@.update(id as int, None));
            }
            Ok(())
        } else {
            Err(VmError::UnknownBlockIdentifier)
        }
    }
}

} // verus!
