use vstd::prelude::*;
use crate::error::ChainError;

verus! {

#[verifier::external_type_specification]
#[verifier::external_body]
pub struct ExExecutorParams(polkadot_primitives::ExecutorParams);

#[verifier::external_type_specification]
#[verifier::external_body]
pub struct ExExecutorParam(polkadot_primitives::ExecutorParam);

#[verifier::external_type_specification]
#[verifier::external_body]
pub struct ExCodecError(parity_scale_codec::Error);

/// Whether bytes decode as executor parameters of the host's schema.
pub uninterp spec fn decodes_as_params(encoded: Seq<u8>) -> bool;

/// Relies on `<polkadot_primitives::ExecutorParams as parity_scale_codec::Decode>::decode`
/// reading from the byte slice: whether it succeeds depends on the bytes alone.
#[verifier::external_body]
fn decode_params(encoded: &[u8]) -> (r: Result<polkadot_primitives::ExecutorParams, parity_scale_codec::Error>)
    ensures
        r.is_ok() == decodes_as_params(encoded@),
{
    let mut input = encoded;
    <polkadot_primitives::ExecutorParams as parity_scale_codec::Decode>::decode(&mut input)
}

/// Maps the outcome of decoding executor parameters: an undecodable set is
/// as good as a missing one.
pub fn params_outcome(decoded: Result<polkadot_primitives::ExecutorParams, parity_scale_codec::Error>) -> (r: Result<polkadot_primitives::ExecutorParams, ChainError>)
    ensures
        decoded matches Ok(p) ==> r == Ok::<polkadot_primitives::ExecutorParams, ChainError>(p),
        decoded is Err ==> r == Err::<polkadot_primitives::ExecutorParams, ChainError>(ChainError::MissingState),
{
    match decoded {
        Ok(p) => Ok(p),
        Err(_) => Err(ChainError::MissingState),
    }
}

/// Re-reads the chain's encoded executor parameters in the schema the
/// preparation host expects; bytes that do not decode are `MissingState`.
pub fn adapt_executor_params(encoded: &Vec<u8>) -> (r: Result<polkadot_primitives::ExecutorParams, ChainError>)
    ensures
        r.is_ok() == decodes_as_params(encoded@),
        r is Err ==> r == Err::<polkadot_primitives::ExecutorParams, ChainError>(ChainError::MissingState),
{
    params_outcome(decode_params(encoded.as_slice()))
}

} // verus!
