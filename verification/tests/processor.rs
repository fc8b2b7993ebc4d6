use greeting_program::address::derive_address;
use greeting_program::codec::{decode_record, encode_instruction, encode_record};
use greeting_program::{
    process_instruction, Account, Effect, GreetingAccountState, GreetingError,
    GreetingInstruction,
};

fn bytes(s: &str) -> Vec<u8> {
    s.as_bytes().to_vec()
}

fn key(fill: u8) -> Vec<u8> {
    vec![fill; 32]
}

fn create_data(name: &str, message: &str) -> Vec<u8> {
    encode_instruction(&GreetingInstruction::CreateGreeting {
        name: bytes(name),
        message: bytes(message),
    })
}

fn set_data(message: &str) -> Vec<u8> {
    encode_instruction(&GreetingInstruction::SetGreeting {
        message: bytes(message),
    })
}

/// The three accounts a creation expects: payer, record slot, allocator.
fn create_accounts(payer_key: Vec<u8>, target_key: Vec<u8>) -> Vec<Account> {
    vec![
        Account { key: payer_key, is_signer: true, is_writable: true, data: Vec::new() },
        Account { key: target_key, is_signer: false, is_writable: true, data: Vec::new() },
        Account { key: key(0), is_signer: false, is_writable: false, data: Vec::new() },
    ]
}

/// The two accounts an update expects: authority, record slot.
fn set_accounts(authority_key: Vec<u8>, target: Account) -> Vec<Account> {
    vec![
        Account { key: authority_key, is_signer: true, is_writable: false, data: Vec::new() },
        target,
    ]
}

#[test]
fn test_basic_invocation() {
    // One dummy account and opaque instruction bytes [1, 2, 3]: tag 1 with a
    // truncated length prefix, so the invocation fails at the decode step.
    let program_id = key(9);
    let accounts = vec![Account {
        key: key(1),
        is_signer: false,
        is_writable: true,
        data: Vec::new(),
    }];
    let instruction_data: Vec<u8> = vec![1, 2, 3];
    assert_eq!(
        process_instruction(&program_id, &accounts, &instruction_data),
        Err(GreetingError::InvalidInstructionData)
    );
}

#[test]
fn derivation_is_deterministic() {
    let program = key(3);
    let payer = key(4);
    let first = derive_address(&program, &payer, &bytes("Alice")).unwrap();
    let second = derive_address(&program, &payer, &bytes("Alice")).unwrap();
    assert_eq!(first, second);
    assert_eq!(first.len(), 32);
    // The derivation is a hash, not an echo of any seed.
    assert_ne!(first, payer);
    assert_ne!(first, program);
    // Another name leads elsewhere.
    let other = derive_address(&program, &payer, &bytes("Bob")).unwrap();
    assert_ne!(first, other);
}

#[test]
fn create_succeeds_at_derived_address() {
    let program = key(3);
    let payer = key(4);
    let derived = derive_address(&program, &payer, &bytes("Alice")).unwrap();
    let accounts = create_accounts(payer.clone(), derived.clone());
    let r = process_instruction(&program, &accounts, &create_data("Alice", "Hello"));
    let expected = encode_record(&GreetingAccountState {
        authority: payer,
        name: bytes("Alice"),
        message: bytes("Hello"),
        update_count: 0,
    });
    assert_eq!(r, Ok(Effect::Created { record_data: expected }));
    // A second, independent computation of the derived address agrees.
    let again = derive_address(&program, &key(4), &bytes("Alice")).unwrap();
    assert_eq!(derived, again);
}

#[test]
fn create_boundary_lengths_succeed() {
    let program = key(3);
    let payer = key(4);
    let name = "n".repeat(32);
    let message = "m".repeat(128);
    let derived = derive_address(&program, &payer, &bytes(&name)).unwrap();
    let accounts = create_accounts(payer, derived);
    let r = process_instruction(&program, &accounts, &create_data(&name, &message));
    assert!(matches!(r, Ok(Effect::Created { .. })));
}

#[test]
fn create_name_too_long_fails() {
    let program = key(3);
    let payer = key(4);
    let name = "n".repeat(33);
    let accounts = create_accounts(payer, key(5));
    let r = process_instruction(&program, &accounts, &create_data(&name, "hi"));
    assert_eq!(r, Err(GreetingError::FieldTooLong));
}

#[test]
fn create_message_too_long_fails() {
    let program = key(3);
    let payer = key(4);
    let message = "m".repeat(129);
    let accounts = create_accounts(payer, key(5));
    let r = process_instruction(&program, &accounts, &create_data("Alice", &message));
    assert_eq!(r, Err(GreetingError::FieldTooLong));
}

#[test]
fn create_wrong_address_fails_without_allocation() {
    let program = key(3);
    let payer = key(4);
    // Hand the payer's own key as the record slot: were the derivation an
    // echo of its seed, this would pass; it must fail.
    let accounts = create_accounts(payer.clone(), payer);
    let r = process_instruction(&program, &accounts, &create_data("Alice", "Hello"));
    assert_eq!(r, Err(GreetingError::InvalidAccountAddress));
}

#[test]
fn create_occupied_slot_fails() {
    let program = key(3);
    let payer = key(4);
    let derived = derive_address(&program, &payer, &bytes("Alice")).unwrap();
    let mut accounts = create_accounts(payer, derived);
    accounts[1].data = vec![0u8; 204];
    let r = process_instruction(&program, &accounts, &create_data("Alice", "Hello"));
    assert_eq!(r, Err(GreetingError::AccountAlreadyInitialized));
}

#[test]
fn create_missing_accounts_fails() {
    let program = key(3);
    let accounts = vec![Account {
        key: key(4),
        is_signer: true,
        is_writable: true,
        data: Vec::new(),
    }];
    let r = process_instruction(&program, &accounts, &create_data("Alice", "Hello"));
    assert_eq!(r, Err(GreetingError::NotEnoughAccounts));
}

#[test]
fn create_unsigned_payer_fails() {
    let program = key(3);
    let mut accounts = create_accounts(key(4), key(5));
    accounts[0].is_signer = false;
    let r = process_instruction(&program, &accounts, &create_data("Alice", "Hello"));
    assert_eq!(r, Err(GreetingError::MissingRequiredSignature));
}

#[test]
fn create_readonly_slot_fails() {
    let program = key(3);
    let mut accounts = create_accounts(key(4), key(5));
    accounts[1].is_writable = false;
    let r = process_instruction(&program, &accounts, &create_data("Alice", "Hello"));
    assert_eq!(r, Err(GreetingError::AccountNotWritable));
}

fn stored_record(authority: Vec<u8>, name: &str, message: &str, update_count: u32) -> Account {
    let data = encode_record(&GreetingAccountState {
        authority,
        name: bytes(name),
        message: bytes(message),
        update_count,
    });
    Account { key: key(8), is_signer: false, is_writable: true, data }
}

#[test]
fn set_by_authority_updates() {
    let program = key(3);
    let authority = key(4);
    let target = stored_record(authority.clone(), "Alice", "Hello", 0);
    let accounts = set_accounts(authority.clone(), target);
    let r = process_instruction(&program, &accounts, &set_data("Howdy"));
    let expected = encode_record(&GreetingAccountState {
        authority,
        name: bytes("Alice"),
        message: bytes("Howdy"),
        update_count: 1,
    });
    assert_eq!(r, Ok(Effect::Updated { record_data: expected }));
}

#[test]
fn set_by_non_authority_leaves_record_unchanged() {
    let program = key(3);
    let authority = key(4);
    let intruder = key(5);
    let target = stored_record(authority, "Alice", "Hello", 7);
    let before = target.data.clone();
    let accounts = set_accounts(intruder, target);
    let r = process_instruction(&program, &accounts, &set_data("Hijacked"));
    assert_eq!(r, Err(GreetingError::Unauthorized));
    // No effect was produced, so the stored record is bit-for-bit unchanged.
    assert_eq!(accounts[1].data, before);
}

#[test]
fn set_three_times_counts_to_three() {
    let program = key(3);
    let payer = key(4);
    let derived = derive_address(&program, &payer, &bytes("Alice")).unwrap();
    let accounts = create_accounts(payer.clone(), derived.clone());
    let r = process_instruction(&program, &accounts, &create_data("Alice", "Hello"));
    let mut stored = match r {
        Ok(Effect::Created { record_data }) => record_data,
        other => panic!("creation failed: {:?}", other),
    };
    for message in ["one", "two", "three"] {
        let target = Account {
            key: derived.clone(),
            is_signer: false,
            is_writable: true,
            data: stored,
        };
        let accounts = set_accounts(payer.clone(), target);
        stored = match process_instruction(&program, &accounts, &set_data(message)) {
            Ok(Effect::Updated { record_data }) => record_data,
            other => panic!("update failed: {:?}", other),
        };
    }
    let rec = decode_record(&stored).unwrap();
    assert_eq!(rec.update_count, 3);
    assert_eq!(rec.message, bytes("three"));
    assert_eq!(rec.name, bytes("Alice"));
    assert_eq!(rec.authority, payer);
}

#[test]
fn set_message_too_long_fails() {
    let program = key(3);
    let authority = key(4);
    let target = stored_record(authority.clone(), "Alice", "Hello", 0);
    let accounts = set_accounts(authority, target);
    let message = "m".repeat(129);
    let r = process_instruction(&program, &accounts, &set_data(&message));
    assert_eq!(r, Err(GreetingError::FieldTooLong));
}

#[test]
fn set_empty_slot_fails() {
    let program = key(3);
    let authority = key(4);
    let target = Account { key: key(8), is_signer: false, is_writable: true, data: Vec::new() };
    let accounts = set_accounts(authority, target);
    let r = process_instruction(&program, &accounts, &set_data("Howdy"));
    assert_eq!(r, Err(GreetingError::AccountNotInitialized));
}

#[test]
fn set_garbage_slot_fails() {
    let program = key(3);
    let authority = key(4);
    let target = Account { key: key(8), is_signer: false, is_writable: true, data: vec![1, 2, 3] };
    let accounts = set_accounts(authority, target);
    let r = process_instruction(&program, &accounts, &set_data("Howdy"));
    assert_eq!(r, Err(GreetingError::InvalidAccountData));
}

#[test]
fn set_unsigned_authority_fails() {
    let program = key(3);
    let authority = key(4);
    let target = stored_record(authority.clone(), "Alice", "Hello", 0);
    let mut accounts = set_accounts(authority, target);
    accounts[0].is_signer = false;
    let r = process_instruction(&program, &accounts, &set_data("Howdy"));
    assert_eq!(r, Err(GreetingError::MissingRequiredSignature));
}

#[test]
fn set_missing_accounts_fails() {
    let program = key(3);
    let accounts = vec![Account {
        key: key(4),
        is_signer: true,
        is_writable: false,
        data: Vec::new(),
    }];
    let r = process_instruction(&program, &accounts, &set_data("Howdy"));
    assert_eq!(r, Err(GreetingError::NotEnoughAccounts));
}
