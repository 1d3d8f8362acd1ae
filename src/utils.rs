use vstd::prelude::*;
use crate::account::AccountState;
use crate::error::LockError;
use solana_program::program_error::ProgramError;
use spl_token::state::Mint;
use solana_program::program_pack::Pack;

verus! {

#[verifier::external_type_specification]
#[verifier::external_body]
pub struct ExProgramError(ProgramError);

/// Number of bytes of a token mint's state.
pub const MINT_LEN: usize = 82;

/// A 4-byte option tag of the mint layout: `[0,0,0,0]` or `[1,0,0,0]`.
pub open spec fn valid_option_tag(b: Seq<u8>, at: int) -> bool {
    (b[at] == 0 || b[at] == 1) && b[at + 1] == 0 && b[at + 2] == 0 && b[at + 3] == 0
}

/// Mint bytes that decode: both authority option tags valid (at 0 and 46)
/// and an initialized flag (at 45) of 0 or 1.
pub open spec fn valid_mint_layout(b: Seq<u8>) -> bool {
    &&& b.len() >= MINT_LEN
    &&& valid_option_tag(b, 0)
    &&& (b[45] == 0 || b[45] == 1)
    &&& valid_option_tag(b, 46)
}

/// Relies on spl_token's `Mint::unpack_from_slice`: it reads the first 82
/// bytes, fails unless both option tags and the initialized flag are valid,
/// and takes the decimals from byte 44.
#[verifier::external_body]
fn unpack_mint_decimals(data: &[u8]) -> (r: Result<u8, ProgramError>)
    requires
        data@.len() >= MINT_LEN,
    ensures
        match r {
            Ok(d) => valid_mint_layout(data@) && d == data@[44],
            Err(_) => !valid_mint_layout(data@),
        },
{
    Mint::unpack_from_slice(data).map(|m| m.decimals)
}

/// The number of decimals of a token mint, read from its account data.
pub fn mint_decimals(mint_data: &[u8]) -> (r: Result<u8, LockError>)
    ensures
        valid_mint_layout(mint_data@) ==> r == Ok::<u8, LockError>(mint_data@[44]),
        !valid_mint_layout(mint_data@) ==> r == Err::<u8, LockError>(LockError::InvalidAccountData),
{
    if mint_data.len() < MINT_LEN {
        return Err(LockError::InvalidAccountData);
    }
    match unpack_mint_decimals(mint_data) {
        Ok(d) => Ok(d),
        Err(_) => Err(LockError::InvalidAccountData),
    }
}

/// Moves `amount_of_lamports` from `from_account` to `to_account`.
///
/// Fails with `InsufficientFunds` when `from_account` holds less, and with
/// `AmountOverflow` when the credit would not fit in `u64`; on failure
/// neither account changes.
pub fn transfer_service_fee_lamports(
    from_account: &mut AccountState,
    to_account: &mut AccountState,
    amount_of_lamports: u64,
) -> (r: Result<(), LockError>)
    ensures
        old(from_account).lamports < amount_of_lamports ==> r == Err::<(), LockError>(
            LockError::InsufficientFunds,
        ),
        old(from_account).lamports >= amount_of_lamports && old(to_account).lamports
            + amount_of_lamports > u64::MAX ==> r == Err::<(), LockError>(
            LockError::AmountOverflow,
        ),
        r is Ok <==> old(from_account).lamports >= amount_of_lamports && old(to_account).lamports
            + amount_of_lamports <= u64::MAX,
        r is Ok ==> final(from_account)@ == (crate::account::AccountModel {
            lamports: (old(from_account).lamports - amount_of_lamports) as u64,
            ..old(from_account)@
        }) && final(to_account)@ == (crate::account::AccountModel {
            lamports: (old(to_account).lamports + amount_of_lamports) as u64,
            ..old(to_account)@
        }),
        r is Err ==> final(from_account)@ == old(from_account)@ && final(to_account)@ == old(
            to_account,
        )@,
{
    if from_account.lamports < amount_of_lamports {
        return Err(LockError::InsufficientFunds);
    }
    if to_account.lamports > u64::MAX - amount_of_lamports {
        return Err(LockError::AmountOverflow);
    }
    from_account.lamports = from_account.lamports - amount_of_lamports;
    to_account.lamports = to_account.lamports + amount_of_lamports;
    Ok(())
}

} // verus!
