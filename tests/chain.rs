use pvf_checker::error::ChainError;
use pvf_checker::resolve::{collect_code_hashes, collect_codes, require_present, resolve, ParaCode};
use pvf_checker::snapshot::Chain;
use pvf_checker::storage::{BlockStorage, CodeEntry, CodeHashEntry, ParamsEntry};

fn h(b: u8) -> [u8; 32] {
    [b; 32]
}

fn block(tag: u8, ids: Vec<u32>, code_byte: u8) -> BlockStorage {
    let mut code_hashes = Vec::new();
    let mut codes = Vec::new();
    for id in &ids {
        code_hashes.push(CodeHashEntry { para_id: *id, code_hash: h(*id as u8) });
        codes.push(CodeEntry { code_hash: h(*id as u8), code: vec![code_byte, *id as u8] });
    }
    BlockStorage {
        block_hash: h(tag),
        parachains: Some(ids),
        code_hashes,
        codes,
        session_index: Some(tag as u32),
        executor_params: vec![ParamsEntry { session: tag as u32, params: vec![tag, tag] }],
    }
}

#[test]
fn resolves_all_parachains_through_hashes() {
    let b = block(1, vec![1, 2, 3], 9);
    let set = resolve(&b).unwrap();
    let ids: Vec<u32> = set.pvfs.iter().map(|p| p.para_id).collect();
    assert_eq!(ids, vec![1, 2, 3]);
    assert_eq!(set.pvfs[1].code, vec![9, 2]);
    assert_eq!(set.executor_params, vec![1, 1]);
}

#[test]
fn shared_code_hash_resolves_for_both() {
    let mut b = block(1, vec![1, 2], 9);
    b.code_hashes[1].code_hash = h(1);
    let set = resolve(&b).unwrap();
    assert_eq!(set.pvfs[0].code, set.pvfs[1].code);
}

#[test]
fn missing_code_hash_fails_whole_resolution() {
    let mut b = block(1, vec![1, 2, 3], 9);
    b.code_hashes.remove(1);
    assert_eq!(resolve(&b).map(|s| s.pvfs.len()), Err(ChainError::Inconsistent));
}

#[test]
fn missing_code_is_inconsistent() {
    let mut b = block(1, vec![1, 2, 3], 9);
    b.codes.remove(2);
    assert_eq!(resolve(&b).map(|s| s.pvfs.len()), Err(ChainError::Inconsistent));
}

#[test]
fn missing_parachain_list_is_missing_state() {
    let mut b = block(1, vec![1], 9);
    b.parachains = None;
    assert_eq!(resolve(&b).map(|s| s.pvfs.len()), Err(ChainError::MissingState));
}

#[test]
fn missing_session_or_params_is_missing_state() {
    let mut b = block(1, vec![1], 9);
    b.session_index = None;
    assert_eq!(resolve(&b).map(|s| s.pvfs.len()), Err(ChainError::MissingState));
    let mut c = block(1, vec![1], 9);
    c.session_index = Some(7);
    assert_eq!(resolve(&c).map(|s| s.pvfs.len()), Err(ChainError::MissingState));
}

#[test]
fn empty_parachain_list_resolves_empty() {
    let b = block(4, Vec::new(), 9);
    let set = resolve(&b).unwrap();
    assert!(set.pvfs.is_empty());
    assert_eq!(set.executor_params, vec![4, 4]);
}

#[test]
fn pieces_report_missing_entries() {
    assert_eq!(require_present::<u32>(None), Err(ChainError::MissingState));
    assert_eq!(require_present(Some(5u32)), Ok(5));
    let ids = vec![1u32, 2, 3];
    let found = vec![Some(h(1)), None, Some(h(3))];
    assert!(matches!(collect_code_hashes(&ids, &found), Err(ChainError::Inconsistent)));
    let all = vec![Some(h(1)), Some(h(2)), Some(h(3))];
    let entries = collect_code_hashes(&ids, &all).unwrap();
    assert_eq!(entries[2].para_id, 3);
    assert_eq!(entries[2].code_hash, h(3));
    let codes = vec![Some(vec![1u8]), Some(vec![2u8]), None];
    assert!(matches!(collect_codes(&entries, &codes), Err(ChainError::Inconsistent)));
    let codes = vec![Some(vec![1u8]), Some(vec![2u8]), Some(vec![3u8])];
    let pvfs: Vec<ParaCode> = collect_codes(&entries, &codes).unwrap();
    assert_eq!(pvfs[1].para_id, 2);
    assert_eq!(pvfs[1].code, vec![2]);
}

#[test]
fn pinned_snapshot_ignores_later_blocks() {
    let mut chain = Chain::new(block(1, vec![1, 2], 9));
    let snap = chain.pin(None).unwrap();
    assert_eq!(snap.height(), 0);
    let first = chain.resolve_at(&snap).unwrap();
    chain.advance(block(2, vec![1, 2, 3], 8));
    let second = chain.resolve_at(&snap).unwrap();
    assert_eq!(snap.block_hash(), h(1));
    assert_eq!(first.pvfs.len(), 2);
    assert_eq!(second.pvfs.len(), 2);
    assert_eq!(second.pvfs[0].code, vec![9, 1]);
    assert_eq!(second.executor_params, vec![1, 1]);
    let latest = chain.pin(None).unwrap();
    assert_eq!(latest.height(), 1);
    assert_eq!(chain.resolve_at(&latest).unwrap().pvfs.len(), 3);
}

#[test]
fn resolving_twice_is_identical() {
    let mut chain = Chain::new(block(1, vec![5, 6], 3));
    let snap = chain.pin(Some(h(1))).unwrap();
    let a = chain.resolve_at(&snap).unwrap();
    chain.advance(block(2, vec![7], 4));
    let b = chain.resolve_at(&snap).unwrap();
    let pa: Vec<(u32, Vec<u8>)> = a.pvfs.into_iter().map(|p| (p.para_id, p.code)).collect();
    let pb: Vec<(u32, Vec<u8>)> = b.pvfs.into_iter().map(|p| (p.para_id, p.code)).collect();
    assert_eq!(pa, pb);
    assert_eq!(a.executor_params, b.executor_params);
}

#[test]
fn pin_named_and_unknown_blocks() {
    let mut chain = Chain::new(block(1, vec![1], 9));
    chain.advance(block(2, vec![2], 9));
    let snap = chain.pin(Some(h(2))).unwrap();
    assert_eq!(snap.height(), 1);
    assert_eq!(chain.storage_at(&snap).session_index, Some(2));
    assert_eq!(chain.pin(Some(h(9))).map(|s| s.height()), Err(ChainError::UnknownBlock));
}
