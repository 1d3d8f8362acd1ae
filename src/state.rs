use vstd::prelude::*;
use vstd::bytes::{
    spec_u64_from_le_bytes, spec_u64_to_le_bytes, u64_from_le_bytes, u64_to_le_bytes,
    lemma_auto_spec_u64_to_from_le_bytes,
};
use vstd::slice::slice_subrange;
use crate::error::LockError;

verus! {

/// Number of bytes of an encoded record.
pub const LEN: usize = 49;

/// The persisted vault record: `[0] flag, [1..33] owner, [33..41] amount,
/// [41..49] lock time`, integers little-endian, no padding.
pub struct GlitterLock {
    /// True while a lock is active.
    pub is_initialized: bool,
    /// The signer allowed to release the lock.
    pub locker_public_key: [u8; 32],
    /// Quantity locked.
    pub amount: u64,
    /// Host clock at lock time.
    pub lock_time: i64,
}

/// Bytes that `unpack_from_slice` accepts: long enough, with a flag of 0 or 1.
pub open spec fn well_formed_record(b: Seq<u8>) -> bool {
    b.len() >= LEN && (b[0] == 0 || b[0] == 1)
}

/// The fields that `b` holds at their fixed offsets.
pub open spec fn decodes_to(b: Seq<u8>, r: GlitterLock) -> bool {
    &&& r.is_initialized == (b[0] == 1)
    &&& r.locker_public_key@ == b.subrange(1, 33)
    &&& r.amount == record_amount(b)
    &&& r.lock_time == record_lock_time(b)
}

/// The bytes of a record with these fields.
pub open spec fn record_bytes(is_initialized: bool, owner: Seq<u8>, amount: u64, lock_time: i64) -> Seq<u8> {
    seq![if is_initialized { 1u8 } else { 0u8 }] + owner + spec_u64_to_le_bytes(amount)
        + spec_u64_to_le_bytes(lock_time as u64)
}

/// The amount that the record bytes `b` hold.
pub open spec fn record_amount(b: Seq<u8>) -> u64 {
    spec_u64_from_le_bytes(b.subrange(33, 41))
}

/// The lock time that the record bytes `b` hold.
pub open spec fn record_lock_time(b: Seq<u8>) -> i64 {
    spec_u64_from_le_bytes(b.subrange(41, 49)) as i64
}

/// Replaces `dst[offset..offset + src.len()]` by `src`.
pub open spec fn overwrite(dst: Seq<u8>, offset: int, src: Seq<u8>) -> Seq<u8> {
    dst.subrange(0, offset) + src + dst.subrange(offset + src.len(), dst.len() as int)
}

impl GlitterLock {
    /// The 49 bytes this record encodes to.
    pub open spec fn spec_encode(self) -> Seq<u8> {
        record_bytes(self.is_initialized, self.locker_public_key@, self.amount, self.lock_time)
    }

    pub fn is_initialized(&self) -> (r: bool)
        ensures
            r == self.is_initialized,
    {
        self.is_initialized
    }

    /// Decodes the first 49 bytes of `src`.
    pub fn unpack_from_slice(src: &[u8]) -> (r: Result<GlitterLock, LockError>)
        ensures
            match r {
                Ok(rec) => well_formed_record(src@) && decodes_to(src@, rec),
                Err(e) => !well_formed_record(src@) && e == LockError::InvalidAccountData,
            },
    {
        if src.len() < LEN {
            return Err(LockError::InvalidAccountData);
        }
        let is_initialized = if src[0] == 0 {
            false
        } else if src[0] == 1 {
            true
        } else {
            return Err(LockError::InvalidAccountData);
        };
        let mut key: [u8; 32] = [0u8; 32];
        let mut i: usize = 0;
        while i < 32
            invariant
                i <= 32,
                src@.len() >= LEN,
                key@.len() == 32,
                forall|j: int| 0 <= j < i ==> key@[j] == src@[j + 1],
            decreases 32 - i,
        {
            key[i] = src[i + 1];
            i = i + 1;
        }
        assert(key@ == src@.subrange(1, 33));
        let amount = u64_from_le_bytes(slice_subrange(src, 33, 41));
        let lock_time = u64_from_le_bytes(slice_subrange(src, 41, 49)) as i64;
        Ok(GlitterLock { is_initialized, locker_public_key: key, amount, lock_time })
    }

    /// Writes the record into the first 49 bytes of `dst`; the rest is kept.
    pub fn pack_into_slice(&self, dst: &mut [u8])
        requires
            old(dst)@.len() >= LEN,
        ensures
            final(dst)@ == overwrite(old(dst)@, 0, self.spec_encode()),
    {
        let ghost d0 = dst@;
        dst[0] = if self.is_initialized { 1u8 } else { 0u8 };
        copy_into(dst, 1, self.locker_public_key.as_slice());
        let amount_bytes = u64_to_le_bytes(self.amount);
        copy_into(dst, 33, amount_bytes.as_slice());
        let time_bytes = u64_to_le_bytes(self.lock_time as u64);
        copy_into(dst, 41, time_bytes.as_slice());
        assert(dst@ =~= overwrite(d0, 0, self.spec_encode()));
    }

    /// Decodes a buffer that must be exactly one record long.
    pub fn unpack_unchecked(input: &[u8]) -> (r: Result<GlitterLock, LockError>)
        ensures
            match r {
                Ok(rec) => input@.len() == LEN && well_formed_record(input@) && decodes_to(
                    input@,
                    rec,
                ),
                Err(e) => !(input@.len() == LEN && well_formed_record(input@)) && e
                    == LockError::InvalidAccountData,
            },
    {
        if input.len() != LEN {
            return Err(LockError::InvalidAccountData);
        }
        GlitterLock::unpack_from_slice(input)
    }

    /// Encodes the record into a buffer that must be exactly one record long.
    pub fn pack(&self, dst: &mut [u8]) -> (r: Result<(), LockError>)
        ensures
            r is Ok <==> old(dst)@.len() == LEN,
            r is Ok ==> final(dst)@ == self.spec_encode(),
            r is Err ==> final(dst)@ == old(dst)@ && r == Err::<(), LockError>(
                LockError::InvalidAccountData,
            ),
    {
        if dst.len() != LEN {
            return Err(LockError::InvalidAccountData);
        }
        self.pack_into_slice(dst);
        proof {
            lemma_encode_len(*self);
            assert(dst@ =~= self.spec_encode());
        }
        Ok(())
    }
}

fn copy_into(dst: &mut [u8], offset: usize, src: &[u8])
    requires
        offset + src@.len() <= old(dst)@.len(),
    ensures
        final(dst)@ == overwrite(old(dst)@, offset as int, src@),
{
    let ghost d0 = dst@;
    let n = dst.len();
    let mut i: usize = 0;
    while i < src.len()
        invariant
            offset + src@.len() <= dst@.len(),
            i <= src@.len(),
            dst@.len() == d0.len(),
            d0.len() == n,
            forall|j: int| 0 <= j < offset ==> dst@[j] == d0[j],
            forall|j: int| 0 <= j < i ==> dst@[offset + j] == src@[j],
            forall|j: int| offset + i <= j < d0.len() ==> dst@[j] == d0[j],
        decreases src@.len() - i,
    {
        dst[offset + i] = src[i];
        i = i + 1;
    }
    assert(dst@ =~= overwrite(d0, offset as int, src@));
}

/// An encoded record is 49 bytes long.
pub proof fn lemma_encode_len(r: GlitterLock)
    ensures
        r.spec_encode().len() == LEN,
{
    lemma_auto_spec_u64_to_from_le_bytes();
}

/// Decoding a well-formed 49-byte buffer and encoding the result gives the
/// buffer back, byte for byte.
pub proof fn lemma_decode_encode(b: Seq<u8>, r: GlitterLock)
    requires
        b.len() == LEN,
        well_formed_record(b),
        decodes_to(b, r),
    ensures
        r.spec_encode() == b,
{
    lemma_auto_spec_u64_to_from_le_bytes();
    let t = spec_u64_from_le_bytes(b.subrange(41, 49));
    assert((t as i64) as u64 == t) by (bit_vector);
    assert(spec_u64_to_le_bytes(r.amount) == b.subrange(33, 41));
    assert(spec_u64_to_le_bytes(r.lock_time as u64) == b.subrange(41, 49));
    assert(r.spec_encode() =~= b);
}

/// Encoding a record and decoding the bytes gives the same record back.
pub proof fn lemma_encode_decode(r: GlitterLock)
    ensures
        well_formed_record(r.spec_encode()),
        decodes_to(r.spec_encode(), r),
{
    lemma_auto_spec_u64_to_from_le_bytes();
    let b = r.spec_encode();
    let t = r.lock_time;
    assert((t as u64) as i64 == t) by (bit_vector);
    assert(b.subrange(1, 33) =~= r.locker_public_key@);
    assert(b.subrange(33, 41) =~= spec_u64_to_le_bytes(r.amount));
    assert(b.subrange(41, 49) =~= spec_u64_to_le_bytes(r.lock_time as u64));
}

} // verus!
