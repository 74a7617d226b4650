use vstd::prelude::*;
use crate::error::CodeError;

verus! {

/// The largest code, in bytes, that a blob may decompress to: 12 MiB.
pub const MAX_CODE_SIZE: usize = 12582912;

/// The magic bytes that mark a blob as zstd-compressed.
pub open spec fn zstd_prefix() -> Seq<u8> {
    seq![82u8, 188u8, 83u8, 118u8, 70u8, 219u8, 142u8, 5u8]
}

/// Whether a blob starts with the compression marker.
pub open spec fn is_marked_compressed(blob: Seq<u8>) -> bool {
    blob.len() >= 8 && blob.subrange(0, 8) == zstd_prefix()
}

/// A byte-vector result seen as a byte-sequence result.
pub open spec fn bytes_result(r: Result<Vec<u8>, CodeError>) -> Result<Seq<u8>, CodeError> {
    match r {
        Ok(d) => Ok(d@),
        Err(e) => Err(e),
    }
}

/// What decoding a blob with `sp_maybe_compressed_blob::decompress` gives
/// under a bomb limit.
pub uninterp spec fn decoded_blob(blob: Seq<u8>, limit: usize) -> Result<Seq<u8>, CodeError>;

/// Relies on `sp_maybe_compressed_blob::decompress`: a blob without the
/// marker comes back unchanged; a marked one is zstd-decoded, and the result
/// never exceeds `limit` bytes (`PossibleBomb` otherwise, `Invalid` for a bad
/// stream).
#[verifier::external_body]
fn decode_maybe_compressed(blob: &[u8], limit: usize) -> (r: Result<Vec<u8>, CodeError>)
    requires
        limit < usize::MAX,
    ensures
        bytes_result(r) == decoded_blob(blob@, limit),
        !is_marked_compressed(blob@) ==> r.is_ok() && r.unwrap()@ == blob@,
        is_marked_compressed(blob@) && r.is_ok() ==> r.unwrap()@.len() <= limit,
{
    match sp_maybe_compressed_blob::decompress(blob, limit) {
        Ok(d) => Ok(d.to_vec()),
        Err(sp_maybe_compressed_blob::Error::PossibleBomb) => Err(CodeError::Oversized),
        Err(sp_maybe_compressed_blob::Error::Invalid) => Err(CodeError::Malformed),
    }
}

/// The size bound applied to an already-decoded blob.
pub open spec fn bounded_code(decoded: Result<Seq<u8>, CodeError>) -> Result<Seq<u8>, CodeError> {
    match decoded {
        Ok(d) => if d.len() <= MAX_CODE_SIZE {
            Ok(d)
        } else {
            Err(CodeError::Oversized)
        },
        Err(e) => Err(e),
    }
}

/// The code that a raw on-chain blob stands for, or why it is rejected.
pub open spec fn decompressed_code(raw: Seq<u8>) -> Result<Seq<u8>, CodeError> {
    bounded_code(decoded_blob(raw, MAX_CODE_SIZE))
}

/// Applies the size bound to the outcome of decoding a blob: an error is kept,
/// and code longer than `MAX_CODE_SIZE` becomes `Oversized`.
pub fn bound_code(decoded: Result<Vec<u8>, CodeError>) -> (r: Result<Vec<u8>, CodeError>)
    ensures
        bytes_result(r) == bounded_code(bytes_result(decoded)),
{
    match decoded {
        Ok(d) => if d.len() <= MAX_CODE_SIZE {
            Ok(d)
        } else {
            Err(CodeError::Oversized)
        },
        Err(e) => Err(e),
    }
}

/// Decompresses untrusted on-chain code. A blob without the compression
/// marker is plain code; a marked one is decoded. Nothing longer than
/// `MAX_CODE_SIZE` is ever returned.
pub fn decompress_code(raw: &Vec<u8>) -> (r: Result<Vec<u8>, CodeError>)
    ensures
        bytes_result(r) == decompressed_code(raw@),
        r is Ok ==> r.unwrap()@.len() <= MAX_CODE_SIZE,
        !is_marked_compressed(raw@) && raw@.len() <= MAX_CODE_SIZE ==> r.is_ok() && r.unwrap()@ == raw@,
        !is_marked_compressed(raw@) && raw@.len() > MAX_CODE_SIZE ==> r == Err::<Vec<u8>, CodeError>(CodeError::Oversized),
{
    let decoded = decode_maybe_compressed(raw.as_slice(), MAX_CODE_SIZE);
    bound_code(decoded)
}

} // verus!
