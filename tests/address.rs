use anchor_lang::prelude::Pubkey;
use escrow_pool::address::{derive_address, verify_address, Address};
use escrow_pool::error::ErrorCode;
use escrow_pool::vault::derive_state_address;

fn program() -> Address {
    Address { bytes: [7u8; 32] }
}

#[test]
fn derivation_is_deterministic() {
    let user = Address { bytes: [42u8; 32] };
    let first = derive_state_address(&program(), &user).unwrap();
    let second = derive_state_address(&program(), &user).unwrap();
    assert_eq!(first.0, second.0);
    assert_eq!(first.1, second.1);
}

#[test]
fn derivation_matches_program_address_search() {
    let user = [42u8; 32];
    let (a, b) = derive_address(&program(), &b"state".to_vec(), &vec![user.to_vec()]).unwrap();
    let (expected, bump) =
        Pubkey::find_program_address(&[b"state", &user], &Pubkey::new_from_array([7u8; 32]));
    assert_eq!(a.bytes, expected.to_bytes());
    assert_eq!(b, bump);
    assert_ne!(a.bytes, user);
}

#[test]
fn derived_address_verifies_with_its_bump_only() {
    let seeds = vec![vec![1u8, 2, 3]];
    let label = b"vault".to_vec();
    let (a, b) = derive_address(&program(), &label, &seeds).unwrap();
    assert!(verify_address(&program(), &label, &seeds, b, &a));
    assert!(!verify_address(&program(), &label, &seeds, b, &Address { bytes: [0u8; 32] }));
    assert!(!verify_address(&program(), &b"other".to_vec(), &seeds, b, &a));
    assert!(!verify_address(&program(), &Vec::new(), &seeds, b, &a));
}

#[test]
fn different_principals_get_different_addresses() {
    let a = derive_state_address(&program(), &Address { bytes: [1u8; 32] }).unwrap();
    let b = derive_state_address(&program(), &Address { bytes: [2u8; 32] }).unwrap();
    assert_ne!(a.0, b.0);
}

#[test]
fn empty_label_is_refused() {
    assert_eq!(derive_address(&program(), &Vec::new(), &vec![vec![1u8]]), Err(ErrorCode::InvalidParameter));
}

#[test]
fn too_many_seeds_are_refused() {
    let seeds: Vec<Vec<u8>> = (0..15).map(|i| vec![i as u8]).collect();
    assert_eq!(derive_address(&program(), &b"x".to_vec(), &seeds), Err(ErrorCode::InvalidParameter));
}

#[test]
fn overlong_seed_is_refused() {
    let seeds = vec![vec![0u8; 33]];
    assert_eq!(derive_address(&program(), &b"x".to_vec(), &seeds), Err(ErrorCode::InvalidParameter));
}
