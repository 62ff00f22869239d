use pdsl_core::allocator::KeyAllocator;
use pdsl_core::cell::StorageMap;
use pdsl_core::codec::Codec;
use pdsl_core::dispatch::Instance;
use pdsl_core::env::{AccountId, Env};
use pdsl_core::flipper::{Flipper, FLIP_SELECTOR, GET_SELECTOR};
use pdsl_core::key::Key;
use pdsl_core::storage::Storage;
use pdsl_core::token::{Token, BALANCE_OF_SELECTOR, TOTAL_SUPPLY_SELECTOR, TRANSFER_SELECTOR};
use pdsl_core::Error;

fn call_buffer(sel: u32, payload: &[u8]) -> Vec<u8> {
    let mut buf = sel.to_le_bytes().to_vec();
    buf.extend_from_slice(payload);
    buf
}

fn deployed_flipper() -> (Instance<Flipper>, Env) {
    let mut alloc = KeyAllocator::new(Key([0; 32]));
    let contract = Flipper::bind(&mut alloc);
    let mut inst = Instance::new(contract);
    let mut env = Env::new(Storage::new(), AccountId([0xAA; 32]));
    assert_eq!(inst.deploy(&mut env, &[]), Ok(()));
    (inst, env)
}

#[test]
fn flipper_scenario() {
    // Deploy sets the stored boolean to true; each Flip negates it.
    let (mut inst, mut env) = deployed_flipper();
    assert_eq!(inst.call(&mut env, &call_buffer(GET_SELECTOR, &[])), Ok(vec![1]));
    assert_eq!(inst.call(&mut env, &call_buffer(FLIP_SELECTOR, &[])), Ok(vec![]));
    assert_eq!(inst.call(&mut env, &call_buffer(GET_SELECTOR, &[])), Ok(vec![0]));
    assert_eq!(inst.call(&mut env, &call_buffer(FLIP_SELECTOR, &[])), Ok(vec![]));
    assert_eq!(inst.call(&mut env, &call_buffer(GET_SELECTOR, &[])), Ok(vec![1]));
}

#[test]
fn unknown_selector_is_fatal_and_mutates_nothing() {
    let (mut inst, mut env) = deployed_flipper();
    assert_eq!(
        inst.call(&mut env, &call_buffer(0x0BAD_C0DE, &[])),
        Err(Error::UnknownSelector)
    );
    // The stored boolean is untouched.
    assert_eq!(inst.call(&mut env, &call_buffer(GET_SELECTOR, &[])), Ok(vec![1]));
}

#[test]
fn truncated_call_buffer_is_a_decode_error() {
    let (mut inst, mut env) = deployed_flipper();
    assert_eq!(inst.call(&mut env, &[1, 2, 3]), Err(Error::Decode));
    assert_eq!(inst.call(&mut env, &[]), Err(Error::Decode));
}

#[test]
fn malformed_handler_payload_is_a_decode_error() {
    let (mut inst, mut env) = deployed_flipper();
    assert_eq!(inst.call(&mut env, &call_buffer(FLIP_SELECTOR, &[9])), Err(Error::Decode));
    assert_eq!(inst.call(&mut env, &call_buffer(GET_SELECTOR, &[])), Ok(vec![1]));
}

#[test]
fn flipper_deploy_rejects_arguments() {
    let mut alloc = KeyAllocator::new(Key([0; 32]));
    let contract = Flipper::bind(&mut alloc);
    let mut inst = Instance::new(contract);
    let mut env = Env::new(Storage::new(), AccountId([0xAA; 32]));
    assert_eq!(inst.deploy(&mut env, &[1]), Err(Error::Decode));
    // The failed deploy left the instance undeployed; a proper deploy
    // still goes through.
    assert_eq!(inst.deploy(&mut env, &[]), Ok(()));
    assert_eq!(inst.call(&mut env, &call_buffer(GET_SELECTOR, &[])), Ok(vec![1]));
}

#[test]
fn call_entries_never_rerun_the_initializer() {
    // After deploy, the initializer's effect (true) is flipped away and
    // stays flipped across further call entries.
    let (mut inst, mut env) = deployed_flipper();
    assert_eq!(inst.call(&mut env, &call_buffer(FLIP_SELECTOR, &[])), Ok(vec![]));
    assert_eq!(inst.call(&mut env, &call_buffer(GET_SELECTOR, &[])), Ok(vec![0]));
    assert_eq!(inst.call(&mut env, &call_buffer(GET_SELECTOR, &[])), Ok(vec![0]));
}

#[test]
fn token_scenario() {
    // Deploy with initial supply 1000 assigned to caller A.
    let a = AccountId([0xA1; 32]);
    let b = AccountId([0xB2; 32]);
    let mut alloc = KeyAllocator::new(Key([0; 32]));
    let contract = Token::bind(&mut alloc);
    let mut inst = Instance::new(contract);
    let mut env = Env::new(Storage::new(), a);
    assert_eq!(inst.deploy(&mut env, &1000u64.encode()), Ok(()));

    assert_eq!(
        inst.call(&mut env, &call_buffer(TOTAL_SUPPLY_SELECTOR, &[])),
        Ok(1000u64.encode())
    );
    assert_eq!(
        inst.call(&mut env, &call_buffer(BALANCE_OF_SELECTOR, &a.encode())),
        Ok(1000u64.encode())
    );

    // Transfer(from=A, to=B, amount=400) called by A: succeeds.
    let mut payload = b.encode();
    payload.extend_from_slice(&400u64.encode());
    assert_eq!(inst.call(&mut env, &call_buffer(TRANSFER_SELECTOR, &payload)), Ok(vec![1]));
    assert_eq!(
        inst.call(&mut env, &call_buffer(BALANCE_OF_SELECTOR, &a.encode())),
        Ok(600u64.encode())
    );
    assert_eq!(
        inst.call(&mut env, &call_buffer(BALANCE_OF_SELECTOR, &b.encode())),
        Ok(400u64.encode())
    );

    // Transfer(from=A, to=B, amount=10000) called by A: returns false,
    // balances unchanged.
    let mut payload_large = b.encode();
    payload_large.extend_from_slice(&10000u64.encode());
    assert_eq!(
        inst.call(&mut env, &call_buffer(TRANSFER_SELECTOR, &payload_large)),
        Ok(vec![0])
    );
    assert_eq!(
        inst.call(&mut env, &call_buffer(BALANCE_OF_SELECTOR, &a.encode())),
        Ok(600u64.encode())
    );
    assert_eq!(
        inst.call(&mut env, &call_buffer(BALANCE_OF_SELECTOR, &b.encode())),
        Ok(400u64.encode())
    );
}

#[test]
fn token_balance_of_unknown_account_is_zero() {
    let a = AccountId([0xA1; 32]);
    let mut alloc = KeyAllocator::new(Key([0; 32]));
    let contract = Token::bind(&mut alloc);
    let mut inst = Instance::new(contract);
    let mut env = Env::new(Storage::new(), a);
    assert_eq!(inst.deploy(&mut env, &7u64.encode()), Ok(()));
    let stranger = AccountId([0xCC; 32]);
    assert_eq!(
        inst.call(&mut env, &call_buffer(BALANCE_OF_SELECTOR, &stranger.encode())),
        Ok(0u64.encode())
    );
}

#[test]
fn token_self_transfer_changes_nothing() {
    let a = AccountId([0xA1; 32]);
    let mut alloc = KeyAllocator::new(Key([0; 32]));
    let contract = Token::bind(&mut alloc);
    let mut inst = Instance::new(contract);
    let mut env = Env::new(Storage::new(), a);
    assert_eq!(inst.deploy(&mut env, &500u64.encode()), Ok(()));
    let mut payload = a.encode();
    payload.extend_from_slice(&200u64.encode());
    assert_eq!(inst.call(&mut env, &call_buffer(TRANSFER_SELECTOR, &payload)), Ok(vec![1]));
    assert_eq!(
        inst.call(&mut env, &call_buffer(BALANCE_OF_SELECTOR, &a.encode())),
        Ok(500u64.encode())
    );
}

#[test]
fn token_transfer_refuses_recipient_overflow() {
    // Prepare a recipient balance at the numeric limit through a map
    // bound to the same base key the allocator will assign (cell two,
    // hence key one), then deploy on top of that store.
    let a = AccountId([0xA1; 32]);
    let b = AccountId([0xB2; 32]);
    let mut storage = Storage::new();
    let shadow: StorageMap<AccountId, u64> = StorageMap::bind(Key([0; 32]).add(1));
    shadow.insert(&mut storage, &b, &u64::MAX);
    let mut alloc = KeyAllocator::new(Key([0; 32]));
    let contract = Token::bind(&mut alloc);
    let mut inst = Instance::new(contract);
    let mut env = Env::new(storage, a);
    assert_eq!(inst.deploy(&mut env, &100u64.encode()), Ok(()));

    let mut payload = b.encode();
    payload.extend_from_slice(&50u64.encode());
    assert_eq!(inst.call(&mut env, &call_buffer(TRANSFER_SELECTOR, &payload)), Ok(vec![0]));
    assert_eq!(
        inst.call(&mut env, &call_buffer(BALANCE_OF_SELECTOR, &a.encode())),
        Ok(100u64.encode())
    );
    assert_eq!(
        inst.call(&mut env, &call_buffer(BALANCE_OF_SELECTOR, &b.encode())),
        Ok(u64::MAX.encode())
    );
}

#[test]
fn token_malformed_payloads_are_decode_errors() {
    let a = AccountId([0xA1; 32]);
    let mut alloc = KeyAllocator::new(Key([0; 32]));
    let contract = Token::bind(&mut alloc);
    let mut inst = Instance::new(contract);
    let mut env = Env::new(Storage::new(), a);
    assert_eq!(inst.deploy(&mut env, &10u64.encode()), Ok(()));
    // total_supply takes no payload.
    assert_eq!(
        inst.call(&mut env, &call_buffer(TOTAL_SUPPLY_SELECTOR, &[1])),
        Err(Error::Decode)
    );
    // balance_of takes exactly one encoded account.
    assert_eq!(
        inst.call(&mut env, &call_buffer(BALANCE_OF_SELECTOR, &[1, 2, 3])),
        Err(Error::Decode)
    );
    // transfer takes an account and an amount.
    assert_eq!(
        inst.call(&mut env, &call_buffer(TRANSFER_SELECTOR, &[0; 39])),
        Err(Error::Decode)
    );
}

#[test]
fn token_deploy_rejects_malformed_supply() {
    let a = AccountId([0xA1; 32]);
    let mut alloc = KeyAllocator::new(Key([0; 32]));
    let contract = Token::bind(&mut alloc);
    let mut inst = Instance::new(contract);
    let mut env = Env::new(Storage::new(), a);
    assert_eq!(inst.deploy(&mut env, &[1, 2, 3]), Err(Error::Decode));
}

#[test]
fn rebound_state_sees_persisted_storage() {
    // A later entry re-derives the same cell keys from the same base
    // and declaration order, so a freshly bound state view reads what
    // an earlier dispatch persisted.
    let (mut inst, mut env) = deployed_flipper();
    assert_eq!(inst.call(&mut env, &call_buffer(FLIP_SELECTOR, &[])), Ok(vec![]));
    let mut alloc = KeyAllocator::new(Key::zero());
    let rebound = Flipper::bind(&mut alloc);
    assert_eq!(rebound.get(&env), Ok(false));
}
