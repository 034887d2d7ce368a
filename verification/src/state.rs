//! The record header: one version byte and the owner's identity, ahead of the
//! payload in a storage cell's bytes.

use bytemuck::PodCastError;
use pinocchio::program_error::ProgramError;
use pinocchio::pubkey::Pubkey;
use vstd::prelude::*;
use vstd::slice::slice_subrange;

verus! {

/// `bytemuck::PodCastError`, the reason a cast between byte forms failed.
#[verifier::external_type_specification]
#[verifier::external_body]
pub struct ExPodCastError(PodCastError);

/// Header of a record, as it lies at the start of the storage cell.
#[derive(Clone, Copy, Debug, PartialEq)]
pub struct RecordData {
    /// Struct version, allows for upgrades to the program
    pub version: u8,
    /// The account allowed to update the data
    pub authority: Pubkey,
}

/// Whether a buffer is long enough to hold a header.
pub open spec fn holds_header(data: Seq<u8>) -> bool {
    data.len() >= RecordData::WRITABLE_START_INDEX
}

/// The version byte of the header that a buffer starts with.
pub open spec fn stored_version(data: Seq<u8>) -> u8
    recommends
        holds_header(data),
{
    data[0]
}

/// The owner's identity in the header that a buffer starts with.
pub open spec fn stored_authority(data: Seq<u8>) -> Seq<u8>
    recommends
        holds_header(data),
{
    data.subrange(1, RecordData::WRITABLE_START_INDEX as int)
}

/// What follows the header.
pub open spec fn payload(data: Seq<u8>) -> Seq<u8>
    recommends
        holds_header(data),
{
    data.subrange(RecordData::WRITABLE_START_INDEX as int, data.len() as int)
}

/// A buffer holds an initialized record when it holds a header whose version
/// byte is the current one.
pub open spec fn holds_initialized(data: Seq<u8>) -> bool {
    holds_header(data) && stored_version(data) == RecordData::CURRENT_VERSION
}

/// The buffer with its header replaced and its payload kept.
pub open spec fn with_header(data: Seq<u8>, version: u8, authority: Seq<u8>) -> Seq<u8>
    recommends
        holds_header(data),
        authority.len() == 32,
{
    seq![version] + authority + payload(data)
}

/// Calls `bytemuck::try_from_bytes` to read 32 bytes as an identity. The cast
/// succeeds exactly on a slice of 32 bytes (an identity has alignment 1), and
/// the identity then holds the bytes of the slice in order.
#[verifier::external_body]
fn pubkey_from_bytes(bytes: &[u8]) -> (r: Result<&Pubkey, PodCastError>)
    ensures
        r is Ok <==> bytes@.len() == 32,
        r is Ok ==> r->Ok_0@ == bytes@,
{
    bytemuck::try_from_bytes::<Pubkey>(bytes)
}

impl RecordData {
    /// Version to fill in on new created accounts
    pub const CURRENT_VERSION: u8 = 1;

    /// Start of writable account data, after version and authority
    pub const WRITABLE_START_INDEX: usize = 33;

    pub open spec fn spec_is_initialized(&self) -> bool {
        self.version == Self::CURRENT_VERSION
    }

    pub fn is_initialized(&self) -> (b: bool)
        ensures
            b == self.spec_is_initialized(),
    {
        self.version == Self::CURRENT_VERSION
    }

    /// Reads the header that a buffer starts with. A buffer shorter than a
    /// header is refused.
    pub fn from_bytes(data: &[u8]) -> (r: Result<RecordData, ProgramError>)
        ensures
            !holds_header(data@) ==> r == Err::<RecordData, ProgramError>(
                ProgramError::InvalidAccountData,
            ),
            holds_header(data@) ==> r is Ok && r->Ok_0.version == stored_version(data@)
                && r->Ok_0.authority@ == stored_authority(data@),
    {
        if data.len() < Self::WRITABLE_START_INDEX {
            return Err(ProgramError::InvalidAccountData);
        }
        let version = data[0];
        match pubkey_from_bytes(slice_subrange(data, 1, Self::WRITABLE_START_INDEX)) {
            Ok(authority) => Ok(RecordData { version, authority: *authority }),
            Err(_) => Err(ProgramError::InvalidArgument),
        }
    }

    /// Writes this header over the one that a buffer starts with, and leaves
    /// the payload as it is. A buffer shorter than a header is refused and
    /// left unchanged.
    pub fn write_to(&self, data: &mut [u8]) -> (r: Result<(), ProgramError>)
        ensures
            !holds_header(old(data)@) ==> r == Err::<(), ProgramError>(
                ProgramError::InvalidAccountData,
            ) && final(data)@ == old(data)@,
            holds_header(old(data)@) ==> r is Ok && final(data)@ == with_header(
                old(data)@,
                self.version,
                self.authority@,
            ),
    {
        if data.len() < Self::WRITABLE_START_INDEX {
            return Err(ProgramError::InvalidAccountData);
        }
        data[0] = self.version;
        let mut i: usize = 0;
        while i < 32
            invariant
                i <= 32,
                data@.len() == old(data)@.len(),
                data@.len() >= 33,
                data@[0] == self.version,
                forall|j: int| 0 <= j < i ==> data@[1 + j] == self.authority@[j],
                forall|j: int| 33 <= j < data@.len() ==> data@[j] == old(data)@[j],
            decreases 32 - i,
        {
            data[1 + i] = self.authority[i];
            i += 1;
        }
        assert(data@ =~= with_header(old(data)@, self.version, self.authority@));
        Ok(())
    }
}

} // verus!
