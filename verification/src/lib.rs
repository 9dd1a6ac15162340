//! A small register/block-oriented virtual machine: an 8-bit tagged
//! instruction stream interpreted by a fetch-decode-execute loop over a heap
//! of fixed-shape memory blocks addressed by integer identifiers.
//!
//! The pieces, leaves first: [`block::Block`] is a fixed-length container of
//! `u32` slots; [`table::BlockManager`] maps block identifiers to blocks;
//! [`pool::Pool`] assigns identifiers and recycles freed ones through a LIFO
//! free list; [`machine::Lem`] runs the instruction loop against the table.

pub mod block;
pub mod convert;
pub mod err;
pub mod machine;
pub mod pool;
pub mod table;
pub mod tag;
