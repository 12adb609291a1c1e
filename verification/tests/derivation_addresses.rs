use anchor_lang::prelude::Pubkey;
use solana_x402::derivation::derive_config_address;
use solana_x402::derivation::derive_request_address;

const PROGRAM_ID: [u8; 32] = [7; 32];

#[test]
fn config_address_is_deterministic_and_real() {
    let first = derive_config_address(&PROGRAM_ID).expect("derivation must land");
    let second = derive_config_address(&PROGRAM_ID).expect("derivation must land");
    assert_eq!(first.address, second.address);
    assert_eq!(first.bump, second.bump);
    assert_eq!(first.address.len(), 32);
    assert_ne!(first.address, b"config2".to_vec());

    let program = Pubkey::new_from_array(PROGRAM_ID);
    let (expected, expected_bump) = Pubkey::find_program_address(&[b"config2"], &program);
    assert_eq!(first.address, expected.to_bytes().to_vec());
    assert_eq!(first.bump, expected_bump);
}

#[test]
fn request_addresses_follow_the_identifier() {
    let a1 = derive_request_address(&"r1".to_string(), &PROGRAM_ID).expect("derivation must land");
    let a1_again =
        derive_request_address(&"r1".to_string(), &PROGRAM_ID).expect("derivation must land");
    let a2 = derive_request_address(&"r2".to_string(), &PROGRAM_ID).expect("derivation must land");
    assert_eq!(a1.address, a1_again.address);
    assert_eq!(a1.bump, a1_again.bump);
    assert_ne!(a1.address, a2.address);

    let program = Pubkey::new_from_array(PROGRAM_ID);
    let (expected, expected_bump) =
        Pubkey::find_program_address(&[b"payment_request", b"r1"], &program);
    assert_eq!(a1.address, expected.to_bytes().to_vec());
    assert_eq!(a1.bump, expected_bump);
}

#[test]
fn request_address_differs_from_config_address() {
    let config = derive_config_address(&PROGRAM_ID).expect("derivation must land");
    let request =
        derive_request_address(&"config2".to_string(), &PROGRAM_ID).expect("derivation must land");
    assert_ne!(config.address, request.address);
}

#[test]
fn oversized_seed_is_surfaced_not_retried() {
    let long_id = "x".repeat(33);
    assert!(derive_request_address(&long_id, &PROGRAM_ID).is_none());
}
