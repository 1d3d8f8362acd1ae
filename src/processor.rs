use vstd::prelude::*;
use crate::account::{same_key, AccountModel, AccountState};
use crate::instruction::{spec_unpack, GlitterLockInstruction};
use crate::state::{
    decodes_to, lemma_decode_encode, lemma_encode_len, record_amount, record_bytes,
    record_lock_time, well_formed_record, GlitterLock, LEN,
};
use crate::utils::transfer_service_fee_lamports;

pub use crate::error::LockError;

verus! {

/// Seconds that must pass between a lock and its release.
pub const MIN_HOLD_SECONDS: i64 = 60;

/// What the host tells the program about the current invocation.
#[derive(Debug, Clone, Copy, PartialEq, Eq, Structural)]
pub struct HostContext {
    /// The host clock, read once for the invocation.
    pub unix_timestamp: i64,
    /// Whether the vault account meets the host's minimum-balance rule.
    pub vault_rent_exempt: bool,
}

/// Holds the entry points of the program.
pub struct Processor;

/// The balances and storage after the transfers of a successful invocation.
pub type Outcome = Result<(AccountModel, AccountModel), LockError>;

/// The bytes of `data` hold exactly one well-formed record.
pub open spec fn holds_record(data: Seq<u8>) -> bool {
    data.len() == LEN && well_formed_record(data)
}

/// `Lock(amount)`: the checks in order, then the new payer and vault.
pub open spec fn spec_lock(
    program_id: Seq<u8>,
    payer: AccountModel,
    vault: AccountModel,
    amount: u64,
    ctx: HostContext,
) -> Outcome {
    if vault.owner != program_id {
        Err(LockError::IncorrectProgramId)
    } else if !payer.is_signer {
        Err(LockError::MissingRequiredSignature)
    } else if !ctx.vault_rent_exempt {
        Err(LockError::NotRentExempt)
    } else if !holds_record(vault.data) {
        Err(LockError::InvalidAccountData)
    } else if vault.data[0] == 1 {
        Err(LockError::AccountAlreadyInitialized)
    } else if payer.lamports < amount {
        Err(LockError::InsufficientFunds)
    } else if vault.lamports + amount > u64::MAX {
        Err(LockError::AmountOverflow)
    } else {
        Ok(
            (
                AccountModel { lamports: (payer.lamports - amount) as u64, ..payer },
                AccountModel {
                    lamports: (vault.lamports + amount) as u64,
                    data: record_bytes(true, payer.key, amount, ctx.unix_timestamp),
                    ..vault
                },
            ),
        )
    }
}

/// `Release`: the checks in order, then the new payer and vault. Only the
/// flag byte of the record is cleared; the other fields stay as they were.
pub open spec fn spec_release(
    program_id: Seq<u8>,
    payer: AccountModel,
    vault: AccountModel,
    ctx: HostContext,
) -> Outcome {
    let amount = record_amount(vault.data);
    if vault.data.len() == 0 {
        Err(LockError::NotInitialized)
    } else if vault.owner != program_id {
        Err(LockError::IncorrectProgramId)
    } else if !payer.is_signer {
        Err(LockError::MissingRequiredSignature)
    } else if !holds_record(vault.data) {
        Err(LockError::InvalidAccountData)
    } else if vault.data[0] == 0 {
        Err(LockError::NotInitialized)
    } else if payer.key != vault.data.subrange(1, 33) {
        Err(LockError::IncorrectClaim)
    } else if ctx.unix_timestamp < record_lock_time(vault.data) + MIN_HOLD_SECONDS {
        Err(LockError::EarlyUnlock)
    } else if vault.lamports < amount {
        Err(LockError::InsufficientFunds)
    } else if payer.lamports + amount > u64::MAX {
        Err(LockError::AmountOverflow)
    } else {
        Ok(
            (
                AccountModel { lamports: (payer.lamports + amount) as u64, ..payer },
                AccountModel {
                    lamports: (vault.lamports - amount) as u64,
                    data: vault.data.update(0, 0u8),
                    ..vault
                },
            ),
        )
    }
}

/// A whole invocation: decode the payload, then lock or release.
pub open spec fn spec_process(
    program_id: Seq<u8>,
    payer: AccountModel,
    vault: AccountModel,
    instruction_data: Seq<u8>,
    ctx: HostContext,
) -> Outcome {
    match spec_unpack(instruction_data) {
        Err(e) => Err(e),
        Ok(GlitterLockInstruction::Lock { amount }) => spec_lock(program_id, payer, vault, amount, ctx),
        Ok(GlitterLockInstruction::Release) => spec_release(program_id, payer, vault, ctx),
    }
}

/// The accounts after a call that returned `r`, given the expected outcome:
/// on success the new states, on failure the old ones untouched.
pub open spec fn applied(
    outcome: Outcome,
    r: Result<(), LockError>,
    payer_before: AccountModel,
    vault_before: AccountModel,
    payer_after: AccountModel,
    vault_after: AccountModel,
) -> bool {
    match outcome {
        Ok((p, v)) => r is Ok && payer_after == p && vault_after == v,
        Err(e) => r == Err::<(), LockError>(e) && payer_after == payer_before && vault_after
            == vault_before,
    }
}

/// Locking a vault whose record is already active fails with
/// `AccountAlreadyInitialized`, and so leaves the record as it was.
pub proof fn lemma_lock_on_locked_fails(
    program_id: Seq<u8>,
    payer: AccountModel,
    vault: AccountModel,
    amount: u64,
    ctx: HostContext,
)
    requires
        vault.owner == program_id,
        payer.is_signer,
        ctx.vault_rent_exempt,
        holds_record(vault.data),
        vault.data[0] == 1,
    ensures
        spec_lock(program_id, payer, vault, amount, ctx) == Err::<
            (AccountModel, AccountModel),
            LockError,
        >(LockError::AccountAlreadyInitialized),
{
}

/// Locking more than the payer holds fails with `InsufficientFunds`, and so
/// moves no balance.
pub proof fn lemma_lock_insufficient_funds(
    program_id: Seq<u8>,
    payer: AccountModel,
    vault: AccountModel,
    amount: u64,
    ctx: HostContext,
)
    requires
        vault.owner == program_id,
        payer.is_signer,
        ctx.vault_rent_exempt,
        holds_record(vault.data),
        vault.data[0] == 0,
        payer.lamports < amount,
    ensures
        spec_lock(program_id, payer, vault, amount, ctx) == Err::<
            (AccountModel, AccountModel),
            LockError,
        >(LockError::InsufficientFunds),
{
}

/// The owner's release fails with `EarlyUnlock` strictly before
/// `lock_time + 60` and succeeds from then on, when the balances allow the
/// transfer back.
pub proof fn lemma_release_hold_period(
    program_id: Seq<u8>,
    payer: AccountModel,
    vault: AccountModel,
    ctx: HostContext,
)
    requires
        vault.owner == program_id,
        payer.is_signer,
        holds_record(vault.data),
        vault.data[0] == 1,
        payer.key == vault.data.subrange(1, 33),
        vault.lamports >= record_amount(vault.data),
        payer.lamports + record_amount(vault.data) <= u64::MAX,
    ensures
        ctx.unix_timestamp < record_lock_time(vault.data) + MIN_HOLD_SECONDS ==> spec_release(
            program_id,
            payer,
            vault,
            ctx,
        ) == Err::<(AccountModel, AccountModel), LockError>(LockError::EarlyUnlock),
        ctx.unix_timestamp >= record_lock_time(vault.data) + MIN_HOLD_SECONDS ==> spec_release(
            program_id,
            payer,
            vault,
            ctx,
        ) is Ok,
{
}

/// A release signed by anyone but the recorded owner fails with
/// `IncorrectClaim`.
pub proof fn lemma_release_wrong_owner(
    program_id: Seq<u8>,
    payer: AccountModel,
    vault: AccountModel,
    ctx: HostContext,
)
    requires
        vault.owner == program_id,
        payer.is_signer,
        holds_record(vault.data),
        vault.data[0] == 1,
        payer.key != vault.data.subrange(1, 33),
    ensures
        spec_release(program_id, payer, vault, ctx) == Err::<
            (AccountModel, AccountModel),
            LockError,
        >(LockError::IncorrectClaim),
{
}

/// Releasing a vault with no active lock fails with `NotInitialized`.
pub proof fn lemma_release_uninitialized(
    program_id: Seq<u8>,
    payer: AccountModel,
    vault: AccountModel,
    ctx: HostContext,
)
    requires
        vault.data.len() == 0 || (vault.owner == program_id && payer.is_signer && holds_record(
            vault.data,
        ) && vault.data[0] == 0),
    ensures
        spec_release(program_id, payer, vault, ctx) == Err::<
            (AccountModel, AccountModel),
            LockError,
        >(LockError::NotInitialized),
{
}

impl Processor {
    /// Runs one invocation with `payer` as the first account and `vault` as
    /// the second.
    pub fn process(
        program_id: &[u8; 32],
        payer: &mut AccountState,
        vault: &mut AccountState,
        instruction_data: &[u8],
        ctx: &HostContext,
    ) -> (r: Result<(), LockError>)
        ensures
            applied(
                spec_process(program_id@, old(payer)@, old(vault)@, instruction_data@, *ctx),
                r,
                old(payer)@,
                old(vault)@,
                final(payer)@,
                final(vault)@,
            ),
    {
        let instruction = GlitterLockInstruction::unpack(instruction_data)?;
        match instruction {
            GlitterLockInstruction::Lock { amount } => {
                Processor::process_lock(payer, vault, amount, program_id, ctx)
            },
            GlitterLockInstruction::Release => {
                Processor::process_unlock(payer, vault, program_id, ctx)
            },
        }
    }

    fn process_lock(
        payer: &mut AccountState,
        vault: &mut AccountState,
        amount: u64,
        program_id: &[u8; 32],
        ctx: &HostContext,
    ) -> (r: Result<(), LockError>)
        ensures
            applied(
                spec_lock(program_id@, old(payer)@, old(vault)@, amount, *ctx),
                r,
                old(payer)@,
                old(vault)@,
                final(payer)@,
                final(vault)@,
            ),
    {
        if !same_key(&vault.owner, program_id) {
            return Err(LockError::IncorrectProgramId);
        }
        if !payer.is_signer {
            return Err(LockError::MissingRequiredSignature);
        }
        if !ctx.vault_rent_exempt {
            return Err(LockError::NotRentExempt);
        }
        let mut lock = GlitterLock::unpack_unchecked(vault.data.as_slice())?;
        if lock.is_initialized {
            return Err(LockError::AccountAlreadyInitialized);
        }
        if payer.lamports < amount {
            return Err(LockError::InsufficientFunds);
        }
        transfer_service_fee_lamports(payer, vault, amount)?;
        lock.is_initialized = true;
        lock.locker_public_key = payer.key;
        lock.amount = amount;
        lock.lock_time = ctx.unix_timestamp;
        proof {
            lemma_encode_len(lock);
        }
        let packed = lock.pack(vault.data.as_mut_slice());
        assert(packed is Ok);
        Ok(())
    }

    fn process_unlock(
        payer: &mut AccountState,
        vault: &mut AccountState,
        program_id: &[u8; 32],
        ctx: &HostContext,
    ) -> (r: Result<(), LockError>)
        ensures
            applied(
                spec_release(program_id@, old(payer)@, old(vault)@, *ctx),
                r,
                old(payer)@,
                old(vault)@,
                final(payer)@,
                final(vault)@,
            ),
    {
        if vault.data.len() == 0 {
            return Err(LockError::NotInitialized);
        }
        if !same_key(&vault.owner, program_id) {
            return Err(LockError::IncorrectProgramId);
        }
        if !payer.is_signer {
            return Err(LockError::MissingRequiredSignature);
        }
        let mut lock = GlitterLock::unpack_unchecked(vault.data.as_slice())?;
        if !lock.is_initialized {
            return Err(LockError::NotInitialized);
        }
        if !same_key(&lock.locker_public_key, &payer.key) {
            return Err(LockError::IncorrectClaim);
        }
        if lock.lock_time > i64::MAX - MIN_HOLD_SECONDS || ctx.unix_timestamp < lock.lock_time
            + MIN_HOLD_SECONDS {
            return Err(LockError::EarlyUnlock);
        }
        let ghost data0 = vault.data@;
        lock.is_initialized = false;
        transfer_service_fee_lamports(vault, payer, lock.amount)?;
        proof {
            let cleared = data0.update(0, 0u8);
            assert(cleared.subrange(1, 33) =~= data0.subrange(1, 33));
            assert(cleared.subrange(33, 41) =~= data0.subrange(33, 41));
            assert(cleared.subrange(41, 49) =~= data0.subrange(41, 49));
            assert(decodes_to(cleared, lock));
            lemma_decode_encode(cleared, lock);
        }
        let packed = lock.pack(vault.data.as_mut_slice());
        assert(packed is Ok);
        Ok(())
    }
}

} // verus!
