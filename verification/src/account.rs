//! An account as the host hands it to the program: its identity, whether it
//! signed, its balance and its bytes.

use pinocchio::pubkey::Pubkey;
use vstd::prelude::*;

verus! {

/// One account of an operation's account list.
#[derive(Clone, Debug, PartialEq)]
pub struct Account {
    /// The account's identity.
    pub key: Pubkey,
    /// Whether the host has verified this account's signature on the
    /// transaction.
    pub is_signer: bool,
    /// The account's balance.
    pub lamports: u64,
    /// The account's bytes: for a record, the header and then the payload.
    pub data: Vec<u8>,
}

/// An account as a mathematical value.
pub struct AccountView {
    pub key: Pubkey,
    pub is_signer: bool,
    pub lamports: u64,
    pub data: Seq<u8>,
}

impl View for Account {
    type V = AccountView;

    open spec fn view(&self) -> AccountView {
        AccountView {
            key: self.key,
            is_signer: self.is_signer,
            lamports: self.lamports,
            data: self.data@,
        }
    }
}

/// The accounts of a list, each as a mathematical value.
pub open spec fn views(accounts: Seq<Account>) -> Seq<AccountView> {
    Seq::new(accounts.len(), |i: int| accounts[i]@)
}

/// Whether two identities are the same.
pub fn pubkey_eq(a: &Pubkey, b: &Pubkey) -> (same: bool)
    ensures
        same == (a@ == b@),
{
    let mut i: usize = 0;
    while i < 32
        invariant
            i <= 32,
            forall|j: int| 0 <= j < i ==> a@[j] == b@[j],
        decreases 32 - i,
    {
        if a[i] != b[i] {
            return false;
        }
        i += 1;
    }
    assert(a@ =~= b@);
    true
}

/// Copies `src` over the bytes of `dst` that start at `start`, and leaves the
/// bytes on both sides of them as they are.
pub(crate) fn copy_into(dst: &mut [u8], start: usize, src: &[u8])
    requires
        start + src@.len() <= old(dst)@.len(),
    ensures
        final(dst)@ == overwritten(old(dst)@, start as int, src@),
{
    let n = src.len();
    let total = dst.len();
    let mut i: usize = 0;
    while i < n
        invariant
            i <= n,
            n == src@.len(),
            dst@.len() == old(dst)@.len(),
            dst@.len() == total,
            start + n <= total,
            forall|j: int| 0 <= j < start ==> dst@[j] == old(dst)@[j],
            forall|j: int| 0 <= j < i ==> dst@[start + j] == src@[j],
            forall|j: int| start + i <= j < dst@.len() ==> dst@[j] == old(dst)@[j],
        decreases n - i,
    {
        dst[start + i] = src[i];
        i += 1;
    }
    assert(dst@ =~= overwritten(old(dst)@, start as int, src@));
}

/// The buffer `data` with the bytes `bytes` in place of those that start at
/// `start`.
pub open spec fn overwritten(data: Seq<u8>, start: int, bytes: Seq<u8>) -> Seq<u8>
    recommends
        0 <= start,
        start + bytes.len() <= data.len(),
{
    data.subrange(0, start) + bytes + data.subrange(start + bytes.len(), data.len() as int)
}

} // verus!
