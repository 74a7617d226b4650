use vstd::prelude::*;
use crate::error::ChainError;
use crate::resolve::{ResolvedSet, resolve, resolve_spec, resolved_view};
use crate::storage::{BlockStorage, HashBytes, hash_lookup, same_hash};

verus! {

/// A read-only view pinned to one block: every read through it targets that
/// block, however far the chain has advanced since.
#[derive(Debug, Clone, Copy)]
pub struct Snapshot {
    height: usize,
    block_hash: HashBytes,
}

impl Snapshot {
    pub closed spec fn height_spec(&self) -> nat {
        self.height as nat
    }

    pub closed spec fn hash_spec(&self) -> Seq<u8> {
        self.block_hash@
    }

    /// The height of the pinned block.
    pub fn height(&self) -> (r: usize)
        ensures
            r == self.height_spec(),
    {
        self.height
    }

    /// The hash of the pinned block.
    pub fn block_hash(&self) -> (r: HashBytes)
        ensures
            r@ == self.hash_spec(),
    {
        self.block_hash
    }
}

/// The storage a snapshot reads in a history of blocks.
pub open spec fn pinned_storage(blocks: Seq<BlockStorage>, s: Snapshot) -> BlockStorage {
    blocks[s.height_spec() as int]
}

/// Whether a snapshot points at a block of this history, with that block's hash.
pub open spec fn pins_into(blocks: Seq<BlockStorage>, s: Snapshot) -> bool {
    s.height_spec() < blocks.len() && blocks[s.height_spec() as int].block_hash@ == s.hash_spec()
}

/// A growing history of block storage, oldest first.
pub struct Chain {
    blocks: Vec<BlockStorage>,
}

impl View for Chain {
    type V = Seq<BlockStorage>;

    closed spec fn view(&self) -> Seq<BlockStorage> {
        self.blocks@
    }
}

impl Chain {
    /// A chain always has at least one block.
    pub closed spec fn wf(&self) -> bool {
        self.blocks@.len() > 0
    }

    /// Starts a history at `genesis`.
    pub fn new(genesis: BlockStorage) -> (r: Chain)
        ensures
            r.wf(),
            r@ == seq![genesis],
    {
        let mut blocks: Vec<BlockStorage> = Vec::new();
        blocks.push(genesis);
        Chain { blocks }
    }

    /// Appends a new block on top of the history.
    pub fn advance(&mut self, next: BlockStorage)
        requires
            old(self).wf(),
        ensures
            final(self).wf(),
            final(self)@ == old(self)@.push(next),
    {
        self.blocks.push(next);
    }

    /// Pins a block: the named one (the oldest with that hash), or the
    /// latest one when none is named. An unknown hash is `UnknownBlock`.
    pub fn pin(&self, at: Option<HashBytes>) -> (r: Result<Snapshot, ChainError>)
        requires
            self.wf(),
        ensures
            r matches Ok(s) ==> pins_into(self@, s),
            at is None ==> (r matches Ok(s) && s.height_spec() == self@.len() - 1),
            at matches Some(h) ==> (r is Ok <==> exists|i: int| 0 <= i < self@.len() && (#[trigger] self@[i]).block_hash@ == h@),
            at matches Some(h) ==> (r matches Ok(s) ==> forall|i: int| 0 <= i < s.height_spec() ==> (#[trigger] self@[i]).block_hash@ != h@),
            r is Err ==> r == Err::<Snapshot, ChainError>(ChainError::UnknownBlock),
    {
        match at {
            None => {
                let last = self.blocks.len() - 1;
                Ok(Snapshot { height: last, block_hash: self.blocks[last].block_hash })
            },
            Some(h) => {
                let mut i: usize = 0;
                while i < self.blocks.len()
                    invariant
                        i <= self.blocks@.len(),
                        at == Some(h),
                        forall|j: int| 0 <= j < i ==> (#[trigger] self.blocks@[j]).block_hash@ != h@,
                    decreases self.blocks@.len() - i,
                {
                    if same_hash(&self.blocks[i].block_hash, &h) {
                        let found = self.blocks[i].block_hash;
                        assert(self@[i as int].block_hash@ == h@);
                        return Ok(Snapshot { height: i, block_hash: found });
                    }
                    i = i + 1;
                }
                Err(ChainError::UnknownBlock)
            },
        }
    }

    /// The storage of the pinned block.
    pub fn storage_at(&self, snap: &Snapshot) -> (r: &BlockStorage)
        requires
            pins_into(self@, *snap),
        ensures
            *r == pinned_storage(self@, *snap),
    {
        &self.blocks[snap.height]
    }

    /// Resolves the code set at the pinned block.
    pub fn resolve_at(&self, snap: &Snapshot) -> (r: Result<ResolvedSet, ChainError>)
        requires
            pins_into(self@, *snap),
        ensures
            resolved_view(r) == resolve_spec(pinned_storage(self@, *snap)),
    {
        resolve(self.storage_at(snap))
    }
}

/// Pin stability: once a snapshot is taken, appending blocks changes neither
/// the block it points at nor anything read through it.
pub proof fn lemma_pin_stable(blocks: Seq<BlockStorage>, s: Snapshot, next: BlockStorage)
    requires
        pins_into(blocks, s),
    ensures
        pins_into(blocks.push(next), s),
        pinned_storage(blocks.push(next), s) == pinned_storage(blocks, s),
{
}

/// Resolving through the same snapshot twice, with any number of blocks
/// appended in between, gives the same code set and executor parameters.
pub proof fn lemma_resolution_idempotent(blocks: Seq<BlockStorage>, s: Snapshot, later: Seq<BlockStorage>)
    requires
        pins_into(blocks, s),
    ensures
        pins_into(blocks + later, s),
        resolve_spec(pinned_storage(blocks + later, s)) == resolve_spec(pinned_storage(blocks, s)),
{
    assert((blocks + later)[s.height_spec() as int] == blocks[s.height_spec() as int]);
}

/// Resolver consistency: when a listed parachain has no code hash, the whole
/// resolution fails as `Inconsistent`; no partial set is returned.
pub proof fn lemma_missing_hash_is_inconsistent(storage: BlockStorage, i: int)
    requires
        storage.parachains is Some,
        0 <= i < storage.parachains.unwrap()@.len(),
        hash_lookup(storage.code_hashes@, storage.parachains.unwrap()@[i]) is None,
    ensures
        resolve_spec(storage) == Err::<(Seq<(u32, Seq<u8>)>, Seq<u8>), ChainError>(ChainError::Inconsistent),
{
}

} // verus!
