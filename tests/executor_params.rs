use parity_scale_codec::Encode;
use polkadot_primitives::{ExecutorParam, ExecutorParams};
use pvf_checker::error::ChainError;
use pvf_checker::params::adapt_executor_params;

#[test]
fn empty_params_decode() {
    let encoded = ExecutorParams::new().encode();
    let decoded = adapt_executor_params(&encoded).unwrap();
    assert_eq!(decoded, ExecutorParams::new());
}

#[test]
fn configured_params_survive_the_schema_change() {
    let params = ExecutorParams::from(&[ExecutorParam::MaxMemoryPages(8192), ExecutorParam::StackLogicalMax(65536)][..]);
    let decoded = adapt_executor_params(&params.encode()).unwrap();
    assert_eq!(decoded, params);
    assert_ne!(decoded, ExecutorParams::new());
}

#[test]
fn undecodable_params_are_missing_state() {
    assert_eq!(adapt_executor_params(&vec![4u8, 99]).err(), Some(ChainError::MissingState));
    assert_eq!(adapt_executor_params(&Vec::new()).err(), Some(ChainError::MissingState));
}
