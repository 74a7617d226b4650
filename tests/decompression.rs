use pvf_checker::decompress::{bound_code, decompress_code, MAX_CODE_SIZE};
use pvf_checker::error::CodeError;

#[test]
fn plain_code_passes_through() {
    let raw = vec![0u8, 97, 115, 109, 1, 0, 0, 0];
    assert_eq!(decompress_code(&raw), Ok(raw.clone()));
}

#[test]
fn empty_code_passes_through() {
    let raw: Vec<u8> = Vec::new();
    assert_eq!(decompress_code(&raw), Ok(Vec::new()));
}

#[test]
fn compressed_code_is_decoded() {
    let code: Vec<u8> = (0..5000u32).map(|i| (i % 251) as u8).collect();
    let packed = sp_maybe_compressed_blob::compress_weakly(&code, MAX_CODE_SIZE).unwrap();
    assert_ne!(packed, code);
    assert_eq!(decompress_code(&packed), Ok(code));
}

#[test]
fn compressed_bomb_is_oversized() {
    let big = vec![0u8; MAX_CODE_SIZE + 1];
    let packed = sp_maybe_compressed_blob::compress_weakly(&big, 4 * MAX_CODE_SIZE).unwrap();
    assert!(packed.len() < 1024 * 1024);
    assert_eq!(decompress_code(&packed), Err(CodeError::Oversized));
}

#[test]
fn compressed_at_bound_is_accepted() {
    let big = vec![7u8; MAX_CODE_SIZE];
    let packed = sp_maybe_compressed_blob::compress_weakly(&big, MAX_CODE_SIZE).unwrap();
    let out = decompress_code(&packed).unwrap();
    assert_eq!(out.len(), MAX_CODE_SIZE);
}

#[test]
fn plain_code_over_bound_is_oversized() {
    let raw = vec![1u8; MAX_CODE_SIZE + 1];
    assert_eq!(decompress_code(&raw), Err(CodeError::Oversized));
}

#[test]
fn marked_garbage_is_malformed() {
    let mut raw = vec![82u8, 188, 83, 118, 70, 219, 142, 5];
    raw.extend_from_slice(&[1, 2, 3, 4, 5, 6, 7, 8, 9]);
    assert_eq!(decompress_code(&raw), Err(CodeError::Malformed));
}

#[test]
fn bound_code_keeps_errors_and_limits_size() {
    assert_eq!(bound_code(Err(CodeError::Malformed)), Err(CodeError::Malformed));
    assert_eq!(bound_code(Ok(vec![1, 2, 3])), Ok(vec![1, 2, 3]));
    assert_eq!(bound_code(Ok(vec![0u8; MAX_CODE_SIZE + 1])), Err(CodeError::Oversized));
    assert_eq!(MAX_CODE_SIZE, 12 * 1024 * 1024);
}

#[test]
fn error_messages_are_distinct() {
    assert_ne!(CodeError::Oversized.message(), CodeError::Malformed.message());
}
