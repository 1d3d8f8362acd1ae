use vstd::prelude::*;

verus! {

/// The part of a host account that the program reads or changes.
pub struct AccountState {
    /// The account's own address.
    pub key: [u8; 32],
    /// The program that owns the account's storage.
    pub owner: [u8; 32],
    /// Whether the account signed the invocation.
    pub is_signer: bool,
    /// Its balance.
    pub lamports: u64,
    /// Its storage.
    pub data: Vec<u8>,
}

/// An account as plain mathematical values.
pub struct AccountModel {
    pub key: Seq<u8>,
    pub owner: Seq<u8>,
    pub is_signer: bool,
    pub lamports: u64,
    pub data: Seq<u8>,
}

impl View for AccountState {
    type V = AccountModel;

    open spec fn view(&self) -> AccountModel {
        AccountModel {
            key: self.key@,
            owner: self.owner@,
            is_signer: self.is_signer,
            lamports: self.lamports,
            data: self.data@,
        }
    }
}

/// Compares two 32-byte addresses.
pub fn same_key(a: &[u8; 32], b: &[u8; 32]) -> (r: bool)
    ensures
        r == (a@ == b@),
{
    let mut i: usize = 0;
    while i < 32
        invariant
            i <= 32,
            a@.len() == 32,
            b@.len() == 32,
            forall|j: int| 0 <= j < i ==> a@[j] == b@[j],
        decreases 32 - i,
    {
        if a[i] != b[i] {
            return false;
        }
        i = i + 1;
    }
    assert(a@ =~= b@);
    true
}

} // verus!
