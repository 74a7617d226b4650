use vstd::prelude::*;
use crate::error::ChainError;

verus! {

/// A 32-byte hash: of a block, or of validation code.
pub type HashBytes = [u8; 32];

/// Compares two hashes byte by byte.
pub fn same_hash(a: &HashBytes, b: &HashBytes) -> (r: bool)
    ensures
        r == (a@ == b@),
{
    let mut i: usize = 0;
    while i < 32
        invariant
            i <= 32,
            a@.len() == 32,
            b@.len() == 32,
            forall|j: int| 0 <= j < i ==> a@[j] == b@[j],
        decreases 32 - i,
    {
        if a[i] != b[i] {
            return false;
        }
        i = i + 1;
    }
    assert(a@ =~= b@);
    true
}

/// The current code hash of one parachain.
#[derive(Debug, Clone)]
pub struct CodeHashEntry {
    pub para_id: u32,
    pub code_hash: HashBytes,
}

/// Validation code stored under its hash.
#[derive(Debug, Clone)]
pub struct CodeEntry {
    pub code_hash: HashBytes,
    pub code: Vec<u8>,
}

/// Executor parameters stored under a session index.
#[derive(Debug, Clone)]
pub struct ParamsEntry {
    pub session: u32,
    pub params: Vec<u8>,
}

/// The storage entries of one block that a precheck reads.
#[derive(Debug, Clone)]
pub struct BlockStorage {
    pub block_hash: HashBytes,
    pub parachains: Option<Vec<u32>>,
    pub code_hashes: Vec<CodeHashEntry>,
    pub codes: Vec<CodeEntry>,
    pub session_index: Option<u32>,
    pub executor_params: Vec<ParamsEntry>,
}

/// The code hash recorded for `id`: the first entry for it.
pub open spec fn hash_lookup(entries: Seq<CodeHashEntry>, id: u32) -> Option<Seq<u8>>
    decreases entries.len(),
{
    if entries.len() == 0 {
        None
    } else if entries[0].para_id == id {
        Some(entries[0].code_hash@)
    } else {
        hash_lookup(entries.drop_first(), id)
    }
}

/// The code stored under `h`: the first entry for it.
pub open spec fn code_lookup(entries: Seq<CodeEntry>, h: Seq<u8>) -> Option<Seq<u8>>
    decreases entries.len(),
{
    if entries.len() == 0 {
        None
    } else if entries[0].code_hash@ == h {
        Some(entries[0].code@)
    } else {
        code_lookup(entries.drop_first(), h)
    }
}

/// The executor parameters stored for session `s`: the first entry for it.
pub open spec fn params_lookup(entries: Seq<ParamsEntry>, s: u32) -> Option<Seq<u8>>
    decreases entries.len(),
{
    if entries.len() == 0 {
        None
    } else if entries[0].session == s {
        Some(entries[0].params@)
    } else {
        params_lookup(entries.drop_first(), s)
    }
}

impl BlockStorage {
    /// Reads the current code hash of `id`.
    pub fn code_hash_of(&self, id: u32) -> (r: Option<HashBytes>)
        ensures
            r matches Some(h) ==> hash_lookup(self.code_hashes@, id) == Some(h@),
            r is None ==> hash_lookup(self.code_hashes@, id) is None,
    {
        let mut i: usize = 0;
        assert(self.code_hashes@.subrange(0, self.code_hashes@.len() as int) =~= self.code_hashes@);
        while i < self.code_hashes.len()
            invariant
                i <= self.code_hashes@.len(),
                hash_lookup(self.code_hashes@, id) == hash_lookup(self.code_hashes@.subrange(i as int, self.code_hashes@.len() as int), id),
            decreases self.code_hashes@.len() - i,
        {
            let ghost rest = self.code_hashes@.subrange(i as int, self.code_hashes@.len() as int);
            assert(rest.drop_first() =~= self.code_hashes@.subrange(i + 1, self.code_hashes@.len() as int));
            if self.code_hashes[i].para_id == id {
                return Some(self.code_hashes[i].code_hash);
            }
            i = i + 1;
        }
        None
    }

    /// Reads the code stored under `h`.
    pub fn code_by_hash(&self, h: &HashBytes) -> (r: Option<Vec<u8>>)
        ensures
            r matches Some(c) ==> code_lookup(self.codes@, h@) == Some(c@),
            r is None ==> code_lookup(self.codes@, h@) is None,
    {
        let mut i: usize = 0;
        assert(self.codes@.subrange(0, self.codes@.len() as int) =~= self.codes@);
        while i < self.codes.len()
            invariant
                i <= self.codes@.len(),
                code_lookup(self.codes@, h@) == code_lookup(self.codes@.subrange(i as int, self.codes@.len() as int), h@),
            decreases self.codes@.len() - i,
        {
            let ghost rest = self.codes@.subrange(i as int, self.codes@.len() as int);
            assert(rest.drop_first() =~= self.codes@.subrange(i + 1, self.codes@.len() as int));
            if same_hash(&self.codes[i].code_hash, h) {
                return Some(self.codes[i].code.clone());
            }
            i = i + 1;
        }
        None
    }

    /// Reads the executor parameters of session `s`.
    pub fn params_of_session(&self, s: u32) -> (r: Option<Vec<u8>>)
        ensures
            r matches Some(p) ==> params_lookup(self.executor_params@, s) == Some(p@),
            r is None ==> params_lookup(self.executor_params@, s) is None,
    {
        let mut i: usize = 0;
        assert(self.executor_params@.subrange(0, self.executor_params@.len() as int) =~= self.executor_params@);
        while i < self.executor_params.len()
            invariant
                i <= self.executor_params@.len(),
                params_lookup(self.executor_params@, s) == params_lookup(self.executor_params@.subrange(i as int, self.executor_params@.len() as int), s),
            decreases self.executor_params@.len() - i,
        {
            let ghost rest = self.executor_params@.subrange(i as int, self.executor_params@.len() as int);
            assert(rest.drop_first() =~= self.executor_params@.subrange(i + 1, self.executor_params@.len() as int));
            if self.executor_params[i].session == s {
                return Some(self.executor_params[i].params.clone());
            }
            i = i + 1;
        }
        None
    }
}

} // verus!
