use account_demo::error::{AccountDemoError, ProcessError};
use account_demo::processor::Processor;
use account_demo::state::UserData;

const PROGRAM_ID: [u8; 32] = [1; 32];
const SYSTEM_OWNED: [u8; 32] = [0; 32];

fn derived(owner: &[u8; 32]) -> ([u8; 32], u8) {
    account_demo::address::derive(&PROGRAM_ID, owner).unwrap()
}

/// Runs the create flow against an empty slot at the derived address and
/// returns the slot bytes the allocator-plus-write would leave behind.
fn created_slot(owner: [u8; 32], name: &str, message: &str) -> (Vec<u8>, [u8; 32]) {
    let (address, _bump) = derived(&owner);
    let plan = Processor::process_initialize(
        &PROGRAM_ID,
        &owner,
        true,
        &address,
        0,
        &SYSTEM_OWNED,
        name.as_bytes().to_vec(),
        message.as_bytes().to_vec(),
    )
    .unwrap();
    let alloc = plan.allocation.as_ref().unwrap();
    let mut slot = vec![0u8; alloc.size as usize];
    Processor::write_record(&mut slot, &plan.record).unwrap();
    (slot, address)
}

#[test]
fn derivation_is_deterministic() {
    let owner = [2u8; 32];
    let first = account_demo::address::derive(&PROGRAM_ID, &owner);
    let second = account_demo::address::derive(&PROGRAM_ID, &owner);
    assert_eq!(first, second);
    let (address, _bump) = first.unwrap();
    assert_ne!(address, owner);
    assert_ne!(address, PROGRAM_ID);
}

#[test]
fn create_on_empty_slot_succeeds() {
    let owner = [2u8; 32];
    let (slot, _address) = created_slot(owner, "alice", "hi");
    assert_eq!(slot.len(), 56);
    let d = UserData::safe_deserialize(&slot).unwrap();
    assert!(d.is_initialized);
    assert_eq!(d.owner, owner);
    assert_eq!(d.name, b"alice".to_vec());
    assert_eq!(d.message, b"hi".to_vec());
    assert_eq!(d.update_count, 1);
}

#[test]
fn update_replaces_message_and_bumps_counter() {
    let owner = [2u8; 32];
    let (mut slot, _) = created_slot(owner, "alice", "hi");
    Processor::process_update_message(&owner, true, &mut slot, b"yo".to_vec()).unwrap();
    let d = UserData::safe_deserialize(&slot).unwrap();
    assert_eq!(d.update_count, 2);
    assert_eq!(d.message, b"yo".to_vec());
    assert_eq!(d.name, b"alice".to_vec());
    assert_eq!(d.owner, owner);
}

#[test]
fn update_to_longer_message_succeeds_with_matching_capacity() {
    let owner = [6u8; 32];
    let (mut slot, _) = created_slot(owner, "alice", "placeholder");
    Processor::process_update_message(&owner, true, &mut slot, b"hello again".to_vec()).unwrap();
    let d = UserData::safe_deserialize(&slot).unwrap();
    assert_eq!(d.update_count, 2);
    assert_eq!(d.message, b"hello again".to_vec());
    assert_eq!(d.name, b"alice".to_vec());
    assert_eq!(d.owner, owner);
}

#[test]
fn shrinking_update_keeps_slot_decodable() {
    let owner = [5u8; 32];
    let (mut slot, _) = created_slot(owner, "alice", "hi");
    Processor::process_update_message(&owner, true, &mut slot, b"x".to_vec()).unwrap();
    let d = UserData::safe_deserialize(&slot).unwrap();
    assert_eq!(d.update_count, 2);
    assert_eq!(d.message, b"x".to_vec());
    assert_eq!(d.name, b"alice".to_vec());
    // the slot still decodes, so a further update — back up to the
    // capacity ceiling — goes through as well
    Processor::process_update_message(&owner, true, &mut slot, b"yo".to_vec()).unwrap();
    let d = UserData::safe_deserialize(&slot).unwrap();
    assert_eq!(d.update_count, 3);
    assert_eq!(d.message, b"yo".to_vec());
}

#[test]
fn update_grows_message_within_roomy_slot() {
    let owner = [7u8; 32];
    let (address, _bump) = derived(&owner);
    // a slot with capacity beyond the fresh encoding: the
    // re-initialization path allocates nothing and keeps the capacity
    let plan = Processor::process_initialize(
        &PROGRAM_ID,
        &owner,
        true,
        &address,
        65,
        &PROGRAM_ID,
        b"alice".to_vec(),
        b"hi".to_vec(),
    )
    .unwrap();
    assert!(plan.allocation.is_none());
    let mut slot = vec![0u8; 65];
    Processor::write_record(&mut slot, &plan.record).unwrap();
    let d = UserData::safe_deserialize(&slot).unwrap();
    assert_eq!(d.update_count, 1);
    assert_eq!(d.message, b"hi".to_vec());
    Processor::process_update_message(&owner, true, &mut slot, b"hello again".to_vec()).unwrap();
    let d = UserData::safe_deserialize(&slot).unwrap();
    assert_eq!(d.update_count, 2);
    assert_eq!(d.message, b"hello again".to_vec());
    assert_eq!(d.name, b"alice".to_vec());
    assert_eq!(d.owner, owner);
}

#[test]
fn update_by_other_identity_fails_not_owner() {
    let owner = [2u8; 32];
    let other = [3u8; 32];
    let (mut slot, _) = created_slot(owner, "alice", "hi");
    let before = slot.clone();
    let r = Processor::process_update_message(&other, true, &mut slot, b"yo".to_vec());
    assert_eq!(r, Err(ProcessError::Custom(AccountDemoError::NotOwner)));
    assert_eq!(slot, before);
}

#[test]
fn create_with_long_name_fails_before_allocation() {
    let owner = [2u8; 32];
    let (address, _bump) = derived(&owner);
    let r = Processor::process_initialize(
        &PROGRAM_ID,
        &owner,
        true,
        &address,
        0,
        &SYSTEM_OWNED,
        vec![b'a'; 65],
        b"hi".to_vec(),
    );
    // the plan carrying the allocation request is never produced
    assert_eq!(r, Err(ProcessError::Custom(AccountDemoError::NameTooLong)));
}

#[test]
fn create_with_long_message_fails() {
    let owner = [2u8; 32];
    let (address, _bump) = derived(&owner);
    let r = Processor::process_initialize(
        &PROGRAM_ID,
        &owner,
        true,
        &address,
        0,
        &SYSTEM_OWNED,
        b"alice".to_vec(),
        vec![b'm'; 257],
    );
    assert_eq!(r, Err(ProcessError::Custom(AccountDemoError::MessageTooLong)));
}

#[test]
fn update_beyond_capacity_fails_and_leaves_slot() {
    let owner = [2u8; 32];
    let (mut slot, _) = created_slot(owner, "alice", "hi");
    let before = slot.clone();
    let r = Processor::process_update_message(&owner, true, &mut slot, b"hello again".to_vec());
    assert_eq!(r, Err(ProcessError::AccountDataTooSmall));
    assert_eq!(slot, before);
    assert_eq!(UserData::safe_deserialize(&slot).unwrap().update_count, 1);
}

#[test]
fn counter_counts_each_successful_update() {
    let owner = [4u8; 32];
    let (mut slot, _) = created_slot(owner, "alice", "hi");
    for message in [&b"a"[..], b"bc", b"d", b"ef", b"g"] {
        Processor::process_update_message(&owner, true, &mut slot, message.to_vec()).unwrap();
    }
    let d = UserData::safe_deserialize(&slot).unwrap();
    assert_eq!(d.update_count, 6);
    assert_eq!(d.name, b"alice".to_vec());
    assert_eq!(d.owner, owner);
}

#[test]
fn create_without_signature_fails() {
    let owner = [2u8; 32];
    let (address, _bump) = derived(&owner);
    let r = Processor::process_initialize(
        &PROGRAM_ID,
        &owner,
        false,
        &address,
        0,
        &SYSTEM_OWNED,
        b"alice".to_vec(),
        b"hi".to_vec(),
    );
    assert_eq!(r, Err(ProcessError::MissingRequiredSignature));
}

#[test]
fn update_without_signature_fails() {
    let owner = [2u8; 32];
    let (mut slot, _) = created_slot(owner, "alice", "hi");
    let before = slot.clone();
    let r = Processor::process_update_message(&owner, false, &mut slot, b"yo".to_vec());
    assert_eq!(r, Err(ProcessError::MissingRequiredSignature));
    assert_eq!(slot, before);
}

#[test]
fn create_on_foreign_slot_fails() {
    let owner = [2u8; 32];
    let (address, _bump) = derived(&owner);
    let foreign_program = [9u8; 32];
    let r = Processor::process_initialize(
        &PROGRAM_ID,
        &owner,
        true,
        &address,
        56,
        &foreign_program,
        b"alice".to_vec(),
        b"hi".to_vec(),
    );
    assert_eq!(r, Err(ProcessError::IncorrectProgramId));
}

#[test]
fn create_on_existing_own_slot_skips_allocation() {
    let owner = [2u8; 32];
    let (address, _bump) = derived(&owner);
    let plan = Processor::process_initialize(
        &PROGRAM_ID,
        &owner,
        true,
        &address,
        56,
        &PROGRAM_ID,
        b"alice".to_vec(),
        b"hi".to_vec(),
    )
    .unwrap();
    assert!(plan.allocation.is_none());
    assert_eq!(plan.record.update_count, 1);
}

#[test]
fn create_at_wrong_address_fails() {
    let owner = [2u8; 32];
    let wrong_address = [8u8; 32];
    let r = Processor::process_initialize(
        &PROGRAM_ID,
        &owner,
        true,
        &wrong_address,
        0,
        &SYSTEM_OWNED,
        b"alice".to_vec(),
        b"hi".to_vec(),
    );
    assert_eq!(r, Err(ProcessError::InvalidArgument));
}

#[test]
fn update_of_uninitialized_record_fails() {
    let owner = [2u8; 32];
    let record = UserData {
        is_initialized: false,
        owner,
        name: b"alice".to_vec(),
        message: b"hi".to_vec(),
        update_count: 1,
    };
    let mut slot = record.encode();
    let before = slot.clone();
    let r = Processor::process_update_message(&owner, true, &mut slot, b"yo".to_vec());
    assert_eq!(r, Err(ProcessError::Custom(AccountDemoError::NotInitialized)));
    assert_eq!(slot, before);
}

#[test]
fn update_of_undecodable_slot_fails() {
    let owner = [2u8; 32];
    let mut slot = vec![7u8; 20];
    let before = slot.clone();
    let r = Processor::process_update_message(&owner, true, &mut slot, b"yo".to_vec());
    assert_eq!(r, Err(ProcessError::Custom(AccountDemoError::DataTypeMismatch)));
    assert_eq!(slot, before);
}

#[test]
fn update_with_long_message_fails() {
    let owner = [2u8; 32];
    let (mut slot, _) = created_slot(owner, "alice", "hi");
    let before = slot.clone();
    let r = Processor::process_update_message(&owner, true, &mut slot, vec![b'm'; 257]);
    assert_eq!(r, Err(ProcessError::Custom(AccountDemoError::MessageTooLong)));
    assert_eq!(slot, before);
}
