//! The block registry: the definition of each material.

use std::collections::HashMap;
use vstd::prelude::*;

verus! {

broadcast use vstd::std_specs::hash::group_hash_axioms;

/// Identifies a block definition, and with it a material.
pub type BlockId = u32;

/// The id that stands for air; no block is registered under it by counting.
pub const AIR_BLOCK_ID: BlockId = 0;

/// The definition of a block: the name of its texture, and whether it is a
/// liquid and whether it blocks light.
#[derive(Debug, Clone)]
pub struct Block {
    pub texture_name: String,
    pub liquid: bool,
    pub opaque: bool,
}

/// The registered blocks by id. Ids are given out by counting from 1, in the
/// order of registration.
pub struct Blocks {
    next_id: BlockId,
    map: HashMap<BlockId, Block>,
}

impl Blocks {
    /// The registered blocks.
    pub closed spec fn registry(&self) -> Map<BlockId, Block> {
        self.map@
    }

    /// The id that the next block gets by counting.
    pub closed spec fn next(&self) -> BlockId {
        self.next_id
    }

    /// A registry without blocks; the first block gets id 1.
    pub fn new() -> (blocks: Blocks)
        ensures
            blocks.registry() == Map::<BlockId, Block>::empty(),
            blocks.next() == 1,
    {
        Blocks { next_id: 1, map: HashMap::new() }
    }

    /// The id that the next block gets by counting.
    pub fn next_id(&self) -> (id: BlockId)
        ensures
            id == self.next(),
    {
        self.next_id
    }

    /// Registers `block` under the next id.
    pub fn add_block(&mut self, block: Block)
        requires
            old(self).next() < u32::MAX,
        ensures
            final(self).registry() == old(self).registry().insert(old(self).next(), block),
            final(self).next() == old(self).next() + 1,
    {
        self.map.insert(self.next_id, block);
        self.next_id += 1;
    }

    /// Passes over the next id: it is used up, and no block is found under it
    /// unless one was registered there before.
    pub fn skip_block(&mut self)
        requires
            old(self).next() < u32::MAX,
        ensures
            final(self).registry() == old(self).registry(),
            final(self).next() == old(self).next() + 1,
    {
        self.next_id += 1;
    }

    /// Registers `block` under `id`; counting goes on after `id`.
    pub fn insert_block(&mut self, id: BlockId, block: Block)
        requires
            id < u32::MAX,
        ensures
            final(self).registry() == old(self).registry().insert(id, block),
            final(self).next() == id + 1,
    {
        self.map.insert(id, block);
        self.next_id = id + 1;
    }

    /// The block registered under `id`, if any.
    pub fn get_block(&self, id: &BlockId) -> (block: Option<&Block>)
        ensures
            block is Some <==> self.registry().contains_key(*id),
            block matches Some(b) ==> *b == self.registry()[*id],
    {
        self.map.get(id)
    }

    /// Whether a block is registered under `id`.
    pub fn has_block(&self, id: &BlockId) -> (r: bool)
        ensures
            r == self.registry().contains_key(*id),
    {
        self.map.contains_key(id)
    }
}

impl Default for Blocks {
    fn default() -> (blocks: Blocks)
        ensures
            blocks.registry() == Map::<BlockId, Block>::empty(),
            blocks.next() == 1,
    {
        Blocks::new()
    }
}

} // verus!
