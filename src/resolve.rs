use vstd::prelude::*;
use crate::error::ChainError;
use crate::storage::{
    BlockStorage, CodeHashEntry, HashBytes, code_lookup, hash_lookup, params_lookup,
};

verus! {

/// One parachain and its raw (possibly compressed) validation code.
#[derive(Debug, Clone)]
pub struct ParaCode {
    pub para_id: u32,
    pub code: Vec<u8>,
}

/// The code set of one pinned block and the executor parameters of its session.
#[derive(Debug, Clone)]
pub struct ResolvedSet {
    pub pvfs: Vec<ParaCode>,
    pub executor_params: Vec<u8>,
}

/// The code set as pairs of id and code bytes.
pub open spec fn pvfs_view(v: Seq<ParaCode>) -> Seq<(u32, Seq<u8>)> {
    v.map_values(|p: ParaCode| (p.para_id, p.code@))
}

/// A resolution outcome over plain values.
pub open spec fn resolved_view(r: Result<ResolvedSet, ChainError>) -> Result<(Seq<(u32, Seq<u8>)>, Seq<u8>), ChainError> {
    match r {
        Ok(s) => Ok((pvfs_view(s.pvfs@), s.executor_params@)),
        Err(e) => Err(e),
    }
}

pub open spec fn hash_opt_view(o: Option<HashBytes>) -> Option<Seq<u8>> {
    match o {
        Some(h) => Some(h@),
        None => None,
    }
}

pub open spec fn bytes_opt_view(o: Option<Vec<u8>>) -> Option<Seq<u8>> {
    match o {
        Some(b) => Some(b@),
        None => None,
    }
}

/// The code hash that block storage `s` records for `id`, assuming one exists.
pub open spec fn hash_in(s: BlockStorage, id: u32) -> Seq<u8> {
    hash_lookup(s.code_hashes@, id).unwrap()
}

/// What resolving the code set of block storage `s` gives: every live
/// parachain with its code (through its code hash), and the executor
/// parameters of the current session; a missing list, session index or
/// parameter set is `MissingState`, a missing hash or code `Inconsistent`.
pub open spec fn resolve_spec(s: BlockStorage) -> Result<(Seq<(u32, Seq<u8>)>, Seq<u8>), ChainError> {
    match s.parachains {
        None => Err(ChainError::MissingState),
        Some(ids) => if exists|i: int| 0 <= i < ids@.len() && (#[trigger] hash_lookup(s.code_hashes@, ids@[i])) is None {
            Err(ChainError::Inconsistent)
        } else if exists|i: int| 0 <= i < ids@.len() && (#[trigger] code_lookup(s.codes@, hash_in(s, ids@[i]))) is None {
            Err(ChainError::Inconsistent)
        } else {
            match s.session_index {
                None => Err(ChainError::MissingState),
                Some(si) => match params_lookup(s.executor_params@, si) {
                    None => Err(ChainError::MissingState),
                    Some(p) => Ok((
                        Seq::new(ids@.len(), |i: int| (ids@[i], code_lookup(s.codes@, hash_in(s, ids@[i])).unwrap())),
                        p,
                    )),
                },
            }
        },
    }
}

/// Turns an absent storage entry into `MissingState`.
pub fn require_present<T>(entry: Option<T>) -> (r: Result<T, ChainError>)
    ensures
        entry is None ==> r == Err::<T, ChainError>(ChainError::MissingState),
        entry matches Some(x) ==> r == Ok::<T, ChainError>(x),
{
    match entry {
        Some(x) => Ok(x),
        None => Err(ChainError::MissingState),
    }
}

/// Pairs each live parachain with the code hash read for it; any missing
/// hash makes the whole resolution `Inconsistent`.
pub fn collect_code_hashes(ids: &Vec<u32>, found: &Vec<Option<HashBytes>>) -> (r: Result<Vec<CodeHashEntry>, ChainError>)
    requires
        found@.len() == ids@.len(),
    ensures
        (exists|i: int| 0 <= i < found@.len() && (#[trigger] found@[i]) is None) ==> r == Err::<Vec<CodeHashEntry>, ChainError>(ChainError::Inconsistent),
        (forall|i: int| 0 <= i < found@.len() ==> (#[trigger] found@[i]) is Some) ==> (r matches Ok(v) && v@.len() == ids@.len() && forall|i: int| 0 <= i < ids@.len() ==> (#[trigger] v@[i]).para_id == ids@[i] && found@[i] == Some(v@[i].code_hash)),
{
    let mut out: Vec<CodeHashEntry> = Vec::new();
    let mut i: usize = 0;
    while i < ids.len()
        invariant
            i <= ids@.len(),
            found@.len() == ids@.len(),
            out@.len() == i,
            forall|j: int| 0 <= j < i ==> (#[trigger] out@[j]).para_id == ids@[j] && found@[j] == Some(out@[j].code_hash),
            forall|j: int| 0 <= j < i ==> (#[trigger] found@[j]) is Some,
        decreases ids@.len() - i,
    {
        match found[i] {
            Some(h) => {
                out.push(CodeHashEntry { para_id: ids[i], code_hash: h });
            },
            None => {
                return Err(ChainError::Inconsistent);
            },
        }
        i = i + 1;
    }
    Ok(out)
}

/// Pairs each parachain with the code read under its code hash; any missing
/// code makes the whole resolution `Inconsistent`.
pub fn collect_codes(entries: &Vec<CodeHashEntry>, found: &Vec<Option<Vec<u8>>>) -> (r: Result<Vec<ParaCode>, ChainError>)
    requires
        found@.len() == entries@.len(),
    ensures
        (exists|i: int| 0 <= i < found@.len() && (#[trigger] found@[i]) is None) ==> r == Err::<Vec<ParaCode>, ChainError>(ChainError::Inconsistent),
        (forall|i: int| 0 <= i < found@.len() ==> (#[trigger] found@[i]) is Some) ==> (r matches Ok(v) && v@.len() == entries@.len() && forall|i: int| 0 <= i < entries@.len() ==> (#[trigger] v@[i]).para_id == entries@[i].para_id && bytes_opt_view(found@[i]) == Some(v@[i].code@)),
{
    let mut out: Vec<ParaCode> = Vec::new();
    let mut i: usize = 0;
    while i < entries.len()
        invariant
            i <= entries@.len(),
            found@.len() == entries@.len(),
            out@.len() == i,
            forall|j: int| 0 <= j < i ==> (#[trigger] out@[j]).para_id == entries@[j].para_id && bytes_opt_view(found@[j]) == Some(out@[j].code@),
            forall|j: int| 0 <= j < i ==> (#[trigger] found@[j]) is Some,
        decreases entries@.len() - i,
    {
        match &found[i] {
            Some(c) => {
                out.push(ParaCode { para_id: entries[i].para_id, code: c.clone() });
            },
            None => {
                return Err(ChainError::Inconsistent);
            },
        }
        i = i + 1;
    }
    Ok(out)
}

/// Resolves the code set and executor parameters of one block's storage:
/// list the live parachains, read each one's code hash, read the code under
/// each hash, then read the current session and its executor parameters.
pub fn resolve(storage: &BlockStorage) -> (r: Result<ResolvedSet, ChainError>)
    ensures
        resolved_view(r) == resolve_spec(*storage),
{
    let ids = match require_present(storage.parachains.clone()) {
        Ok(ids) => ids,
        Err(e) => {
            return Err(e);
        },
    };
    assert(storage.parachains matches Some(l) && l@ == ids@);
    let mut hashes: Vec<Option<HashBytes>> = Vec::new();
    let mut i: usize = 0;
    while i < ids.len()
        invariant
            i <= ids@.len(),
            hashes@.len() == i,
            forall|j: int| 0 <= j < i ==> hash_opt_view(#[trigger] hashes@[j]) == hash_lookup(storage.code_hashes@, ids@[j]),
        decreases ids@.len() - i,
    {
        hashes.push(storage.code_hash_of(ids[i]));
        i = i + 1;
    }
    let entries = match collect_code_hashes(&ids, &hashes) {
        Ok(v) => v,
        Err(e) => {
            assert(exists|j: int| 0 <= j < ids@.len() && (#[trigger] hash_lookup(storage.code_hashes@, ids@[j])) is None) by {
                let j = choose|j: int| 0 <= j < hashes@.len() && (#[trigger] hashes@[j]) is None;
                assert(hash_opt_view(hashes@[j]) == hash_lookup(storage.code_hashes@, ids@[j]));
            };
            return Err(e);
        },
    };
    assert(forall|j: int| 0 <= j < hashes@.len() ==> (#[trigger] hashes@[j]) is Some);
    assert forall|j: int| 0 <= j < ids@.len() implies (#[trigger] hash_lookup(storage.code_hashes@, ids@[j])) == Some(entries@[j].code_hash@) by {
        assert(hash_opt_view(hashes@[j]) == hash_lookup(storage.code_hashes@, ids@[j]));
        assert(hashes@[j] is Some);
    };
    assert(!exists|j: int| 0 <= j < ids@.len() && (#[trigger] hash_lookup(storage.code_hashes@, ids@[j])) is None);
    let mut codes: Vec<Option<Vec<u8>>> = Vec::new();
    let mut k: usize = 0;
    while k < entries.len()
        invariant
            k <= entries@.len(),
            entries@.len() == ids@.len(),
            codes@.len() == k,
            forall|j: int| 0 <= j < k ==> bytes_opt_view(#[trigger] codes@[j]) == code_lookup(storage.codes@, entries@[j].code_hash@),
        decreases entries@.len() - k,
    {
        codes.push(storage.code_by_hash(&entries[k].code_hash));
        k = k + 1;
    }
    let pvfs = match collect_codes(&entries, &codes) {
        Ok(v) => v,
        Err(e) => {
            assert(exists|j: int| 0 <= j < ids@.len() && (#[trigger] code_lookup(storage.codes@, hash_in(*storage, ids@[j]))) is None) by {
                let j = choose|j: int| 0 <= j < codes@.len() && (#[trigger] codes@[j]) is None;
                assert(bytes_opt_view(codes@[j]) == code_lookup(storage.codes@, entries@[j].code_hash@));
                assert(hash_lookup(storage.code_hashes@, ids@[j]) == Some(entries@[j].code_hash@));
                assert(hash_in(*storage, ids@[j]) == entries@[j].code_hash@);
                assert(code_lookup(storage.codes@, hash_in(*storage, ids@[j])) is None);
            };
            return Err(e);
        },
    };
    assert(forall|j: int| 0 <= j < codes@.len() ==> (#[trigger] codes@[j]) is Some);
    assert forall|j: int| 0 <= j < ids@.len() implies (#[trigger] code_lookup(storage.codes@, hash_in(*storage, ids@[j]))) == Some(pvfs@[j].code@) by {
        assert(bytes_opt_view(codes@[j]) == code_lookup(storage.codes@, entries@[j].code_hash@));
        assert(hash_lookup(storage.code_hashes@, ids@[j]) == Some(entries@[j].code_hash@));
        assert(codes@[j] is Some);
    };
    assert(!exists|j: int| 0 <= j < ids@.len() && (#[trigger] code_lookup(storage.codes@, hash_in(*storage, ids@[j]))) is None);
    let session = match require_present(storage.session_index) {
        Ok(s) => s,
        Err(e) => {
            return Err(e);
        },
    };
    let params = match require_present(storage.params_of_session(session)) {
        Ok(p) => p,
        Err(e) => {
            return Err(e);
        },
    };
    let ghost expected = Seq::new(ids@.len(), |j: int| (ids@[j], code_lookup(storage.codes@, hash_in(*storage, ids@[j])).unwrap()));
    assert forall|j: int| 0 <= j < ids@.len() implies #[trigger] pvfs_view(pvfs@)[j] == expected[j] by {
        assert(code_lookup(storage.codes@, hash_in(*storage, ids@[j])) == Some(pvfs@[j].code@));
    };
    assert(pvfs_view(pvfs@) =~= expected);
    Ok(ResolvedSet { pvfs, executor_params: params })
}

} // verus!
