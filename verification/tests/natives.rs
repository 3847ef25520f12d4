use move_vm_core::errors::NativeFailure;
use move_vm_core::gas::GasStatus;
use move_vm_core::natives::{native_sha2_256, native_sha3_256, native_to_bytes};
use move_vm_core::types::{TypeTag, Value};

const SHA2_EMPTY: [u8; 32] = [
    0xe3, 0xb0, 0xc4, 0x42, 0x98, 0xfc, 0x1c, 0x14, 0x9a, 0xfb, 0xf4, 0xc8, 0x99, 0x6f, 0xb9,
    0x24, 0x27, 0xae, 0x41, 0xe4, 0x64, 0x9b, 0x93, 0x4c, 0xa4, 0x95, 0x99, 0x1b, 0x78, 0x52,
    0xb8, 0x55,
];

const SHA3_EMPTY: [u8; 32] = [
    0xa7, 0xff, 0xc6, 0xf8, 0xbf, 0x1e, 0xd7, 0x66, 0x51, 0xc1, 0x47, 0x56, 0xa0, 0x61, 0xd6,
    0x62, 0xf5, 0x80, 0xff, 0x4d, 0xe4, 0x3b, 0x49, 0xfa, 0x82, 0xd8, 0x0a, 0x4b, 0x80, 0xf8,
    0x43, 0x4a,
];

#[test]
fn sha2_256_known_vector() {
    let mut gas = GasStatus::new(10_000);
    let r = native_sha2_256(&mut gas, Vec::new()).unwrap();
    assert_eq!(r, Value::Bytes(SHA2_EMPTY.to_vec()));
    assert_eq!(gas.charged, 0);
}

#[test]
fn sha3_256_known_vector() {
    let mut gas = GasStatus::new(10_000);
    let r = native_sha3_256(&mut gas, Vec::new()).unwrap();
    assert_eq!(r, Value::Bytes(SHA3_EMPTY.to_vec()));
}

#[test]
fn sha2_256_deterministic_cost_and_output() {
    let input = b"determinism".to_vec();
    let mut gas1 = GasStatus::new(10_000);
    let mut gas2 = GasStatus::new(10_000);
    let r1 = native_sha2_256(&mut gas1, input.clone()).unwrap();
    let r2 = native_sha2_256(&mut gas2, input.clone()).unwrap();
    assert_eq!(r1, r2);
    assert_eq!(gas1.charged, gas2.charged);
    assert_eq!(gas1.charged, 21 * input.len() as u64);
    match r1 {
        Value::Bytes(d) => assert_eq!(d.len(), 32),
        other => panic!("expected bytes, got {:?}", other),
    }
}

#[test]
fn sha2_256_out_of_gas_drains_budget() {
    let mut gas = GasStatus::new(10);
    let r = native_sha2_256(&mut gas, b"abc".to_vec());
    assert_eq!(r, Err(NativeFailure::OutOfGas));
    assert_eq!(gas.charged, 10);
    assert_eq!(gas.remaining, 0);
}

#[test]
fn to_bytes_u64_canonical_little_endian() {
    let mut gas = GasStatus::new(10_000);
    let r = native_to_bytes(&mut gas, TypeTag::U64, &Value::U64(0x0102)).unwrap();
    assert_eq!(r, Value::Bytes(vec![0x02, 0x01, 0, 0, 0, 0, 0, 0]));
    assert_eq!(gas.charged, 10 * 8);
}

#[test]
fn to_bytes_byte_string_length_prefixed() {
    let mut gas = GasStatus::new(10_000);
    let r = native_to_bytes(&mut gas, TypeTag::Bytes, &Value::Bytes(vec![9, 8])).unwrap();
    assert_eq!(r, Value::Bytes(vec![2, 0, 0, 0, 9, 8]));
    assert_eq!(gas.charged, 10 * 6);
}

#[test]
fn serialization_failure_still_costs_gas() {
    let mut gas = GasStatus::new(10_000);
    let r = native_to_bytes(&mut gas, TypeTag::Signer, &Value::Signer(1));
    assert_eq!(r, Err(NativeFailure::SerializationUnsupported));
    assert_eq!(gas.charged, 10);
    assert!(gas.charged > 0);
}

#[test]
fn to_bytes_bool_and_address() {
    let mut gas = GasStatus::new(10_000);
    let r = native_to_bytes(&mut gas, TypeTag::Bool, &Value::Bool(true)).unwrap();
    assert_eq!(r, Value::Bytes(vec![1]));
    let r = native_to_bytes(&mut gas, TypeTag::Address, &Value::Address(0xFF)).unwrap();
    let mut expected = vec![0xFF];
    expected.extend_from_slice(&[0; 15]);
    assert_eq!(r, Value::Bytes(expected));
}

#[test]
fn gas_charge_sequence_accumulates() {
    let mut gas = GasStatus::new(100);
    assert!(gas.charge(30).is_ok());
    assert_eq!(gas.charged, 30);
    assert_eq!(gas.remaining, 70);
    assert_eq!(gas.charge(80), Err(NativeFailure::OutOfGas));
    assert_eq!(gas.charged, 100);
    assert_eq!(gas.remaining, 0);
}
