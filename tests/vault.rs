use glitter_lock::account::{same_key, AccountState};
use glitter_lock::error::LockError;
use glitter_lock::instruction::GlitterLockInstruction;
use glitter_lock::processor::{HostContext, Processor};
use glitter_lock::state::{GlitterLock, LEN};
use glitter_lock::utils::{mint_decimals, transfer_service_fee_lamports, MINT_LEN};

const PROGRAM: [u8; 32] = [7u8; 32];
const OWNER: [u8; 32] = [1u8; 32];
const VAULT: [u8; 32] = [2u8; 32];
const OTHER: [u8; 32] = [3u8; 32];

fn payer(key: [u8; 32], lamports: u64) -> AccountState {
    AccountState { key, owner: [0u8; 32], is_signer: true, lamports, data: Vec::new() }
}

fn vault(lamports: u64, data: Vec<u8>) -> AccountState {
    AccountState { key: VAULT, owner: PROGRAM, is_signer: false, lamports, data }
}

fn ctx(t: i64) -> HostContext {
    HostContext { unix_timestamp: t, vault_rent_exempt: true }
}

fn lock_ix(amount: u64) -> Vec<u8> {
    let mut v = vec![0u8];
    v.extend_from_slice(&amount.to_le_bytes());
    v
}

fn record(init: bool, owner: [u8; 32], amount: u64, t: i64) -> Vec<u8> {
    let mut v = vec![init as u8];
    v.extend_from_slice(&owner);
    v.extend_from_slice(&amount.to_le_bytes());
    v.extend_from_slice(&t.to_le_bytes());
    v
}

#[test]
fn unpack_lock_reads_amount() {
    let r = GlitterLockInstruction::unpack(&lock_ix(1000));
    assert_eq!(r, Ok(GlitterLockInstruction::Lock { amount: 1000 }));
}

#[test]
fn unpack_lock_ignores_trailing_bytes() {
    let mut ix = lock_ix(0x0102030405060708);
    ix.extend_from_slice(&[9, 9, 9]);
    assert_eq!(
        GlitterLockInstruction::unpack(&ix),
        Ok(GlitterLockInstruction::Lock { amount: 0x0102030405060708 })
    );
}

#[test]
fn unpack_release() {
    assert_eq!(GlitterLockInstruction::unpack(&[1]), Ok(GlitterLockInstruction::Release));
    assert_eq!(GlitterLockInstruction::unpack(&[1, 5, 6]), Ok(GlitterLockInstruction::Release));
}

#[test]
fn unpack_rejects_malformed() {
    assert_eq!(GlitterLockInstruction::unpack(&[]), Err(LockError::InvalidInstruction));
    assert_eq!(GlitterLockInstruction::unpack(&[2]), Err(LockError::InvalidInstruction));
    assert_eq!(GlitterLockInstruction::unpack(&[0]), Err(LockError::InvalidInstruction));
    assert_eq!(
        GlitterLockInstruction::unpack(&[0, 1, 2, 3, 4, 5, 6, 7]),
        Err(LockError::InvalidInstruction)
    );
}

#[test]
fn record_round_trip() {
    let bytes = record(true, OWNER, 1000, -5);
    let rec = GlitterLock::unpack_from_slice(&bytes).unwrap();
    assert!(rec.is_initialized());
    assert_eq!(rec.locker_public_key, OWNER);
    assert_eq!(rec.amount, 1000);
    assert_eq!(rec.lock_time, -5);
    let mut out = vec![0xAAu8; LEN];
    assert_eq!(rec.pack(&mut out), Ok(()));
    assert_eq!(out, bytes);
}

#[test]
fn record_encoding_layout() {
    let rec = GlitterLock { is_initialized: false, locker_public_key: OTHER, amount: 1000, lock_time: 60 };
    let mut out = vec![0u8; LEN + 2];
    out[LEN] = 5;
    out[LEN + 1] = 6;
    rec.pack_into_slice(&mut out);
    assert_eq!(out[0], 0);
    assert_eq!(&out[1..33], &OTHER[..]);
    assert_eq!(&out[33..41], &[0xE8, 0x03, 0, 0, 0, 0, 0, 0]);
    assert_eq!(&out[41..49], &[60, 0, 0, 0, 0, 0, 0, 0]);
    assert_eq!(&out[49..], &[5, 6]);
}

#[test]
fn record_rejects_bad_flag_and_length() {
    let mut bytes = record(false, OWNER, 1, 1);
    bytes[0] = 2;
    assert!(matches!(GlitterLock::unpack_from_slice(&bytes), Err(LockError::InvalidAccountData)));
    assert!(matches!(GlitterLock::unpack_from_slice(&[0u8; 48]), Err(LockError::InvalidAccountData)));
    assert!(matches!(GlitterLock::unpack_unchecked(&[0u8; 50]), Err(LockError::InvalidAccountData)));
    assert!(GlitterLock::unpack_from_slice(&[0u8; 50]).is_ok());
    let rec = GlitterLock::unpack_unchecked(&[0u8; 49]).unwrap();
    assert_eq!(rec.pack(&mut [0u8; 48]), Err(LockError::InvalidAccountData));
}

#[test]
fn transfer_moves_balance() {
    let mut a = payer(OWNER, 500);
    let mut b = vault(u64::MAX - 10, Vec::new());
    assert_eq!(transfer_service_fee_lamports(&mut a, &mut b, 501), Err(LockError::InsufficientFunds));
    assert_eq!(transfer_service_fee_lamports(&mut a, &mut b, 11), Err(LockError::AmountOverflow));
    assert_eq!((a.lamports, b.lamports), (500, u64::MAX - 10));
    assert_eq!(transfer_service_fee_lamports(&mut a, &mut b, 10), Ok(()));
    assert_eq!((a.lamports, b.lamports), (490, u64::MAX));
}

#[test]
fn keys_compare_bytewise() {
    assert!(same_key(&OWNER, &[1u8; 32]));
    let mut k = OWNER;
    k[31] = 0;
    assert!(!same_key(&OWNER, &k));
}

#[test]
fn custom_codes_are_distinct() {
    assert_eq!(LockError::InvalidInstruction.custom_code(), Some(0));
    assert_eq!(LockError::NotRentExempt.custom_code(), Some(1));
    assert_eq!(LockError::AmountOverflow.custom_code(), Some(2));
    assert_eq!(LockError::EarlyUnlock.custom_code(), Some(3));
    assert_eq!(LockError::NotInitialized.custom_code(), Some(4));
    assert_eq!(LockError::IncorrectClaim.custom_code(), Some(5));
    assert_eq!(LockError::InsufficientFunds.custom_code(), None);
}

#[test]
fn lock_then_release_end_to_end() {
    let mut o = payer(OWNER, 5000);
    let mut v = vault(100, vec![0u8; LEN]);
    assert_eq!(Processor::process(&PROGRAM, &mut o, &mut v, &lock_ix(1000), &ctx(0)), Ok(()));
    assert_eq!(v.data, record(true, OWNER, 1000, 0));
    assert_eq!((o.lamports, v.lamports), (4000, 1100));

    assert_eq!(
        Processor::process(&PROGRAM, &mut o, &mut v, &[1], &ctx(59)),
        Err(LockError::EarlyUnlock)
    );
    assert_eq!((o.lamports, v.lamports), (4000, 1100));
    assert_eq!(v.data, record(true, OWNER, 1000, 0));

    assert_eq!(Processor::process(&PROGRAM, &mut o, &mut v, &[1], &ctx(60)), Ok(()));
    assert_eq!(v.data, record(false, OWNER, 1000, 0));
    assert_eq!((o.lamports, v.lamports), (5000, 100));
}

#[test]
fn lock_on_locked_vault_fails() {
    let before = record(true, OTHER, 7, 3);
    let mut o = payer(OWNER, 5000);
    let mut v = vault(0, before.clone());
    assert_eq!(
        Processor::process(&PROGRAM, &mut o, &mut v, &lock_ix(10), &ctx(100)),
        Err(LockError::AccountAlreadyInitialized)
    );
    assert_eq!(v.data, before);
    assert_eq!((o.lamports, v.lamports), (5000, 0));
}

#[test]
fn lock_with_insufficient_funds_fails() {
    let mut o = payer(OWNER, 999);
    let mut v = vault(0, vec![0u8; LEN]);
    assert_eq!(
        Processor::process(&PROGRAM, &mut o, &mut v, &lock_ix(1000), &ctx(0)),
        Err(LockError::InsufficientFunds)
    );
    assert_eq!((o.lamports, v.lamports), (999, 0));
    assert_eq!(v.data, vec![0u8; LEN]);
}

#[test]
fn lock_checks_in_order() {
    let mut o = payer(OWNER, 10);
    let mut v = vault(0, vec![0u8; LEN]);
    v.owner = OTHER;
    o.is_signer = false;
    assert_eq!(
        Processor::process(&PROGRAM, &mut o, &mut v, &lock_ix(1), &ctx(0)),
        Err(LockError::IncorrectProgramId)
    );
    v.owner = PROGRAM;
    assert_eq!(
        Processor::process(&PROGRAM, &mut o, &mut v, &lock_ix(1), &ctx(0)),
        Err(LockError::MissingRequiredSignature)
    );
    o.is_signer = true;
    let no_rent = HostContext { unix_timestamp: 0, vault_rent_exempt: false };
    assert_eq!(
        Processor::process(&PROGRAM, &mut o, &mut v, &lock_ix(1), &no_rent),
        Err(LockError::NotRentExempt)
    );
    v.data[0] = 9;
    assert_eq!(
        Processor::process(&PROGRAM, &mut o, &mut v, &lock_ix(1), &ctx(0)),
        Err(LockError::InvalidAccountData)
    );
    v.data = vec![0u8; LEN];
    v.lamports = u64::MAX;
    assert_eq!(
        Processor::process(&PROGRAM, &mut o, &mut v, &lock_ix(1), &ctx(0)),
        Err(LockError::AmountOverflow)
    );
    assert_eq!(
        Processor::process(&PROGRAM, &mut o, &mut v, &[5], &ctx(0)),
        Err(LockError::InvalidInstruction)
    );
}

#[test]
fn release_by_other_signer_fails() {
    let mut o = payer(OTHER, 0);
    let mut v = vault(1000, record(true, OWNER, 1000, 0));
    assert_eq!(
        Processor::process(&PROGRAM, &mut o, &mut v, &[1], &ctx(1000)),
        Err(LockError::IncorrectClaim)
    );
    assert_eq!((o.lamports, v.lamports), (0, 1000));
}

#[test]
fn release_uninitialized_fails() {
    let mut o = payer(OWNER, 0);
    let mut v = vault(1000, record(false, OWNER, 1000, 0));
    assert_eq!(
        Processor::process(&PROGRAM, &mut o, &mut v, &[1], &ctx(1000)),
        Err(LockError::NotInitialized)
    );
    let mut empty = vault(1000, Vec::new());
    empty.owner = OTHER;
    assert_eq!(
        Processor::process(&PROGRAM, &mut o, &mut empty, &[1], &ctx(1000)),
        Err(LockError::NotInitialized)
    );
}

#[test]
fn release_near_time_limit() {
    let mut o = payer(OWNER, 0);
    let mut v = vault(5, record(true, OWNER, 5, i64::MAX - 10));
    assert_eq!(
        Processor::process(&PROGRAM, &mut o, &mut v, &[1], &ctx(i64::MAX)),
        Err(LockError::EarlyUnlock)
    );
    let mut w = vault(4, record(true, OWNER, 5, -100));
    assert_eq!(
        Processor::process(&PROGRAM, &mut o, &mut w, &[1], &ctx(-40)),
        Err(LockError::InsufficientFunds)
    );
}

#[test]
fn mint_decimals_reads_layout() {
    let mut m = vec![0u8; MINT_LEN];
    m[44] = 6;
    m[45] = 1;
    assert_eq!(mint_decimals(&m), Ok(6));
    m[46] = 1;
    assert_eq!(mint_decimals(&m), Ok(6));
    m[0] = 2;
    assert_eq!(mint_decimals(&m), Err(LockError::InvalidAccountData));
    m[0] = 1;
    m[45] = 2;
    assert_eq!(mint_decimals(&m), Err(LockError::InvalidAccountData));
    m[45] = 0;
    m[47] = 1;
    assert_eq!(mint_decimals(&m), Err(LockError::InvalidAccountData));
    assert_eq!(mint_decimals(&m[..MINT_LEN - 1]), Err(LockError::InvalidAccountData));
}
