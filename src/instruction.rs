use vstd::prelude::*;
use vstd::bytes::{spec_u64_from_le_bytes, u64_from_le_bytes};
use vstd::slice::slice_subrange;
use crate::error::LockError;

verus! {

/// The two operations of the program.
#[derive(Debug, Clone, Copy, PartialEq, Eq, Structural)]
pub enum GlitterLockInstruction {
    /// `[0] ++ amount (8 bytes, little-endian)`: lock `amount` into the vault.
    Lock { amount: u64 },
    /// `[1]`: release the locked amount back to its owner.
    Release,
}

/// What a payload decodes to: the opcode is byte 0; a lock reads its amount
/// from bytes 1..9 and ignores anything after them.
pub open spec fn spec_unpack(input: Seq<u8>) -> Result<GlitterLockInstruction, LockError> {
    if input.len() == 0 {
        Err(LockError::InvalidInstruction)
    } else if input[0] == 0 {
        if input.len() < 9 {
            Err(LockError::InvalidInstruction)
        } else {
            Ok(GlitterLockInstruction::Lock { amount: spec_u64_from_le_bytes(input.subrange(1, 9)) })
        }
    } else if input[0] == 1 {
        Ok(GlitterLockInstruction::Release)
    } else {
        Err(LockError::InvalidInstruction)
    }
}

impl GlitterLockInstruction {
    /// Decodes an instruction payload.
    pub fn unpack(input: &[u8]) -> (r: Result<GlitterLockInstruction, LockError>)
        ensures
            r == spec_unpack(input@),
    {
        if input.len() == 0 {
            return Err(LockError::InvalidInstruction);
        }
        let tag = input[0];
        let rest = slice_subrange(input, 1, input.len());
        if tag == 0 {
            let amount = GlitterLockInstruction::unpack_amount(rest)?;
            assert(rest@.subrange(0, 8) =~= input@.subrange(1, 9));
            Ok(GlitterLockInstruction::Lock { amount })
        } else if tag == 1 {
            Ok(GlitterLockInstruction::Release)
        } else {
            Err(LockError::InvalidInstruction)
        }
    }

    fn unpack_amount(input: &[u8]) -> (r: Result<u64, LockError>)
        ensures
            input@.len() < 8 ==> r == Err::<u64, LockError>(LockError::InvalidInstruction),
            input@.len() >= 8 ==> r == Ok::<u64, LockError>(
                spec_u64_from_le_bytes(input@.subrange(0, 8)),
            ),
    {
        if input.len() < 8 {
            return Err(LockError::InvalidInstruction);
        }
        Ok(u64_from_le_bytes(slice_subrange(input, 0, 8)))
    }
}

/// Bytes after the ninth never change what a lock payload decodes to.
pub proof fn lemma_unpack_ignores_trailing(a: Seq<u8>, b: Seq<u8>)
    requires
        a.len() >= 9,
        b.len() >= 9,
        a[0] == 0,
        a.subrange(0, 9) == b.subrange(0, 9),
    ensures
        spec_unpack(a) == spec_unpack(b),
        spec_unpack(a) is Ok,
{
    assert(a.subrange(1, 9) =~= a.subrange(0, 9).subrange(1, 9));
    assert(b.subrange(1, 9) =~= b.subrange(0, 9).subrange(1, 9));
    assert(b[0] == b.subrange(0, 9)[0]);
}

/// A lock payload shorter than nine bytes is rejected.
pub proof fn lemma_short_lock_rejected(a: Seq<u8>)
    requires
        1 <= a.len() < 9,
        a[0] == 0,
    ensures
        spec_unpack(a) == Err::<GlitterLockInstruction, LockError>(LockError::InvalidInstruction),
{
}

} // verus!
