use pda_provision::address::{find_program_address, Address};
use pda_provision::error::ProvisionError;
use pda_provision::ledger::Ledger;
use pda_provision::payload::{read_payload, OnChainData, PAYLOAD_SIZE};
use pda_provision::provision::{
    complete_provisioning, derive_user_address, plan_creation, process_instruction, user_seeds,
};
use solana_program::pubkey::Pubkey;
use solana_program::rent::Rent;

fn program() -> Address {
    Address { bytes: [42u8; 32] }
}

fn user_a() -> Address {
    Address { bytes: [7u8; 32] }
}

fn user_b() -> Address {
    Address { bytes: [9u8; 32] }
}

fn ledger_service() -> Address {
    Address { bytes: [0u8; 32] }
}

fn rent_minimum() -> u64 {
    Rent::default().minimum_balance(PAYLOAD_SIZE)
}

fn derived(user: &Address) -> Address {
    derive_user_address(&program(), user).unwrap().0
}

fn funded_ledger(user: &Address, lamports: u64) -> Ledger {
    let mut ledger = Ledger::new();
    assert!(ledger.open_account(user, lamports, &ledger_service()));
    ledger
}

#[test]
fn rent_minimum_for_payload() {
    assert_eq!(rent_minimum(), 918_720);
}

#[test]
fn derivation_matches_solana() {
    let (address, bump) = derive_user_address(&program(), &user_a()).unwrap();
    let (key, key_bump) = Pubkey::find_program_address(
        &[&user_a().bytes, b"user"],
        &Pubkey::new_from_array(program().bytes),
    );
    assert_eq!(address.bytes, key.to_bytes());
    assert_eq!(bump, key_bump);
}

#[test]
fn derivation_is_deterministic() {
    let first = derive_user_address(&program(), &user_a());
    let second = derive_user_address(&program(), &user_a());
    assert_eq!(first, second);
    let other = derive_user_address(&program(), &user_b());
    assert_ne!(first, other);
}

#[test]
fn derived_address_is_off_curve() {
    for user in [user_a(), user_b(), ledger_service()] {
        assert!(!Pubkey::new_from_array(derived(&user).bytes).is_on_curve());
    }
}

#[test]
fn curve_point_is_on_curve() {
    let mut base = [0x66u8; 32];
    base[0] = 0x58;
    assert!(Pubkey::new_from_array(base).is_on_curve());
}

#[test]
fn too_many_seeds_exhaust_bumps() {
    let seeds: Vec<Vec<u8>> = (0..16u8).map(|i| vec![i]).collect();
    assert_eq!(
        find_program_address(&seeds, &program()),
        Err(ProvisionError::BumpSeedExhausted)
    );
}

#[test]
fn long_seed_exhausts_bumps() {
    let seeds = vec![vec![1u8; 33]];
    assert_eq!(
        find_program_address(&seeds, &program()),
        Err(ProvisionError::BumpSeedExhausted)
    );
}

#[test]
fn user_seed_set_is_identifier_then_domain() {
    let seeds = user_seeds(&user_a());
    assert_eq!(seeds, vec![vec![7u8; 32], b"user".to_vec()]);
}

#[test]
fn provisioning_succeeds() {
    let target = derived(&user_a());
    let mut ledger = funded_ledger(&user_a(), 10_000_000);
    let accounts = vec![target, user_a(), ledger_service()];
    assert_eq!(
        process_instruction(&mut ledger, &program(), &accounts, Some(rent_minimum())),
        Ok(())
    );
    assert_eq!(ledger.owner_of(&target), Some(program()));
    assert_eq!(ledger.balance(&target), Some(918_720));
    assert_eq!(ledger.balance(&user_a()), Some(10_000_000 - 918_720));
    let data = ledger.data_of(&target).unwrap();
    assert_eq!(data, vec![0u8; 4]);
    assert_eq!(read_payload(&data), Some(OnChainData { count: 0 }));
}

#[test]
fn unrelated_target_is_refused() {
    let target = Address { bytes: [5u8; 32] };
    let mut ledger = funded_ledger(&user_a(), 10_000_000);
    let accounts = vec![target, user_a(), ledger_service()];
    assert_eq!(
        process_instruction(&mut ledger, &program(), &accounts, Some(rent_minimum())),
        Err(ProvisionError::AddressMismatch)
    );
    assert_eq!(ledger.balance(&target), None);
    assert_eq!(ledger.balance(&user_a()), Some(10_000_000));
    assert_eq!(ledger.accounts.len(), 1);
}

#[test]
fn poor_funder_is_refused() {
    let target = derived(&user_b());
    let mut ledger = funded_ledger(&user_b(), rent_minimum() - 1);
    let accounts = vec![target, user_b(), ledger_service()];
    assert_eq!(
        process_instruction(&mut ledger, &program(), &accounts, Some(rent_minimum())),
        Err(ProvisionError::InsufficientFunds)
    );
    assert_eq!(ledger.balance(&target), None);
    assert_eq!(ledger.balance(&user_b()), Some(rent_minimum() - 1));
}

#[test]
fn missing_funder_is_refused() {
    let target = derived(&user_b());
    let mut ledger = Ledger::new();
    let accounts = vec![target, user_b(), ledger_service()];
    assert_eq!(
        process_instruction(&mut ledger, &program(), &accounts, Some(rent_minimum())),
        Err(ProvisionError::InsufficientFunds)
    );
    assert_eq!(ledger.accounts.len(), 0);
}

#[test]
fn second_provisioning_is_refused() {
    let target = derived(&user_a());
    let mut ledger = funded_ledger(&user_a(), 10_000_000);
    let accounts = vec![target, user_a(), ledger_service()];
    assert_eq!(
        process_instruction(&mut ledger, &program(), &accounts, Some(rent_minimum())),
        Ok(())
    );
    assert_eq!(
        process_instruction(&mut ledger, &program(), &accounts, Some(rent_minimum())),
        Err(ProvisionError::AccountAlreadyExists)
    );
    assert_eq!(ledger.accounts.len(), 2);
    assert_eq!(ledger.balance(&user_a()), Some(10_000_000 - 918_720));
    assert_eq!(read_payload(&ledger.data_of(&target).unwrap()), Some(OnChainData { count: 0 }));
}

#[test]
fn short_storage_rolls_back() {
    let target = derived(&user_a());
    let mut ledger = funded_ledger(&user_a(), 10_000_000);
    let accounts = vec![target, user_a(), ledger_service()];
    let mut req = plan_creation(&program(), &accounts, Some(rent_minimum())).unwrap();
    req.space = PAYLOAD_SIZE - 2;
    assert_eq!(
        complete_provisioning(&mut ledger, &program(), &req),
        Err(ProvisionError::SerializationFailure)
    );
    assert_eq!(ledger.balance(&target), None);
    assert_eq!(ledger.balance(&user_a()), Some(10_000_000));
    assert_eq!(ledger.accounts.len(), 1);
}

#[test]
fn larger_storage_keeps_tail_zero() {
    let target = derived(&user_a());
    let mut ledger = funded_ledger(&user_a(), 10_000_000);
    let accounts = vec![target, user_a(), ledger_service()];
    let mut req = plan_creation(&program(), &accounts, Some(rent_minimum())).unwrap();
    req.space = 10;
    assert_eq!(complete_provisioning(&mut ledger, &program(), &req), Ok(()));
    assert_eq!(ledger.data_of(&target), Some(vec![0u8; 10]));
}

#[test]
fn too_few_references_are_refused() {
    let mut ledger = funded_ledger(&user_a(), 10_000_000);
    let accounts = vec![derived(&user_a()), user_a()];
    assert_eq!(
        process_instruction(&mut ledger, &program(), &accounts, Some(rent_minimum())),
        Err(ProvisionError::NotEnoughAccountKeys)
    );
}

#[test]
fn unreadable_fee_parameters_are_refused() {
    let mut ledger = funded_ledger(&user_a(), 10_000_000);
    let accounts = vec![derived(&user_a()), user_a(), ledger_service()];
    assert_eq!(
        process_instruction(&mut ledger, &program(), &accounts, None),
        Err(ProvisionError::SysvarUnavailable)
    );
    assert_eq!(ledger.balance(&user_a()), Some(10_000_000));
}

#[test]
fn mismatch_wins_over_missing_fee_parameters() {
    let mut ledger = funded_ledger(&user_a(), 10_000_000);
    let accounts = vec![user_b(), user_a(), ledger_service()];
    assert_eq!(
        process_instruction(&mut ledger, &program(), &accounts, None),
        Err(ProvisionError::AddressMismatch)
    );
}

#[test]
fn plan_carries_signer_seeds() {
    let (target, bump) = derive_user_address(&program(), &user_a()).unwrap();
    let accounts = vec![target, user_a(), ledger_service()];
    let req = plan_creation(&program(), &accounts, Some(918_720)).unwrap();
    assert_eq!(req.signer_seeds, vec![vec![7u8; 32], b"user".to_vec(), vec![bump]]);
    assert_eq!(req.target, target);
    assert_eq!(req.funder, user_a());
    assert_eq!(req.owner, program());
    assert_eq!(req.lamports, 918_720);
    assert_eq!(req.space, 4);
}

#[test]
fn wrong_signer_seeds_are_refused() {
    let target = derived(&user_a());
    let mut ledger = funded_ledger(&user_a(), 10_000_000);
    let accounts = vec![target, user_a(), ledger_service()];
    let mut req = plan_creation(&program(), &accounts, Some(rent_minimum())).unwrap();
    req.signer_seeds[0] = vec![8u8; 32];
    assert_eq!(
        ledger.create_account(&program(), &req),
        Err(ProvisionError::AuthorityMismatch)
    );
    assert_eq!(ledger.accounts.len(), 1);
}

#[test]
fn taken_target_is_refused_before_funds() {
    let target = derived(&user_a());
    let mut ledger = funded_ledger(&user_a(), 1);
    assert!(ledger.open_account(&target, 5, &ledger_service()));
    let accounts = vec![target, user_a(), ledger_service()];
    assert_eq!(
        process_instruction(&mut ledger, &program(), &accounts, Some(rent_minimum())),
        Err(ProvisionError::AccountAlreadyExists)
    );
    assert_eq!(ledger.balance(&target), Some(5));
}

#[test]
fn open_account_refuses_taken_address() {
    let mut ledger = funded_ledger(&user_a(), 3);
    assert!(!ledger.open_account(&user_a(), 9, &ledger_service()));
    assert_eq!(ledger.balance(&user_a()), Some(3));
}
