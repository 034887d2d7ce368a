//! What holds of the operations taken together: statements over the
//! outcome and the effect that the processor's contracts speak of.

use crate::account::{overwritten, AccountView};
use crate::error::RecordError;
use crate::instruction::InstructionView;
use crate::processor::{needed_length, payload_index, spec_authorize, spec_effect, spec_result};
use crate::state::{
    holds_header, holds_initialized, payload, stored_authority, stored_version,
};
use pinocchio::program_error::ProgramError;
use vstd::prelude::*;

verus! {

/// A cell is initialized once. `Initialize` leaves an initialized record
/// behind, owned by the second account and with the payload that the cell
/// had, and on that record a second `Initialize` is refused as already
/// initialized, whoever it names as authority.
pub proof fn lemma_initialize_once(
    pre: Seq<AccountView>,
    post: Seq<AccountView>,
    again: Seq<AccountView>,
)
    requires
        spec_result(pre, InstructionView::Initialize) is Ok,
        spec_effect(pre, InstructionView::Initialize, post),
        again.len() >= 2,
        again[0] == post[0],
    ensures
        holds_initialized(post[0].data),
        stored_authority(post[0].data) == pre[1].key@,
        payload(post[0].data) == payload(pre[0].data),
        post[0].data.len() == pre[0].data.len(),
        spec_result(again, InstructionView::Initialize) == Err::<(), ProgramError>(
            ProgramError::AccountAlreadyInitialized,
        ),
{
    assert(pre[1].key@.len() == 32);
    assert(stored_authority(post[0].data) =~= pre[1].key@);
    assert(payload(post[0].data) =~= payload(pre[0].data));
}

/// On a cell that holds a header and was never initialized, `Write` is
/// refused as uninitialized, whatever it would write and whoever asks.
pub proof fn lemma_write_before_initialize(accounts: Seq<AccountView>, offset: u64, data: Seq<u8>)
    requires
        accounts.len() >= 2,
        holds_header(accounts[0].data),
        !holds_initialized(accounts[0].data),
    ensures
        spec_result(accounts, InstructionView::Write { offset, data }) == Err::<
            (),
            ProgramError,
        >(ProgramError::UninitializedAccount),
{
}

/// A `Write` by the record's authority succeeds exactly when the bytes it
/// writes end inside the buffer, and is refused as too small for it when
/// they do not.
pub proof fn lemma_write_capacity(accounts: Seq<AccountView>, offset: u64, data: Seq<u8>)
    requires
        spec_authorize(accounts, 2) is Ok,
    ensures
        payload_index(offset) + data.len() > accounts[0].data.len() ==> spec_result(
            accounts,
            InstructionView::Write { offset, data },
        ) == Err::<(), ProgramError>(ProgramError::AccountDataTooSmall),
        payload_index(offset) + data.len() <= accounts[0].data.len() ==> spec_result(
            accounts,
            InstructionView::Write { offset, data },
        ) is Ok,
{
}

/// On an initialized record, `Write` by an account that the record does not
/// name is refused for its authority, signed or not; by the account that the
/// record names, without a signature, it is refused for the signature.
pub proof fn lemma_write_authority(accounts: Seq<AccountView>, offset: u64, data: Seq<u8>)
    requires
        accounts.len() >= 2,
        holds_initialized(accounts[0].data),
    ensures
        accounts[1].key@ != stored_authority(accounts[0].data) ==> spec_result(
            accounts,
            InstructionView::Write { offset, data },
        ) == Err::<(), ProgramError>(
            ProgramError::Custom(RecordError::IncorrectAuthority.spec_code()),
        ),
        accounts[1].key@ == stored_authority(accounts[0].data) && !accounts[1].is_signer
            ==> spec_result(accounts, InstructionView::Write { offset, data }) == Err::<
            (),
            ProgramError,
        >(ProgramError::MissingRequiredSignature),
{
}

/// A `Write` changes the bytes it names and nothing else, and a second
/// `Write` of the same bytes to the same place changes nothing.
pub proof fn lemma_write_effect(
    pre: Seq<AccountView>,
    post: Seq<AccountView>,
    offset: u64,
    data: Seq<u8>,
)
    requires
        spec_result(pre, InstructionView::Write { offset, data }) is Ok,
        spec_effect(pre, InstructionView::Write { offset, data }, post),
    ensures
        post[0].data.len() == pre[0].data.len(),
        post[0].data.subrange(payload_index(offset), payload_index(offset) + data.len()) == data,
        forall|i: int|
            0 <= i < pre[0].data.len() && !(payload_index(offset) <= i < payload_index(offset)
                + data.len()) ==> post[0].data[i] == pre[0].data[i],
        stored_version(post[0].data) == stored_version(pre[0].data),
        stored_authority(post[0].data) == stored_authority(pre[0].data),
        spec_result(post, InstructionView::Write { offset, data }) is Ok,
        spec_effect(post, InstructionView::Write { offset, data }, post),
{
    let start = payload_index(offset);
    assert(post[0].data.subrange(start, start + data.len()) =~= data);
    assert(stored_authority(post[0].data) =~= stored_authority(pre[0].data));
    assert(overwritten(post[0].data, start, data) =~= post[0].data);
    assert(post =~= post.update(0, post[0]));
}

/// `SetAuthority` puts the third account's identity in the header and
/// leaves version and payload alone. From then on a `Write` by the former
/// authority, if it is another account, is refused for its authority, and a
/// signed `Write` by the new one succeeds wherever the bytes fit.
pub proof fn lemma_set_authority(
    pre: Seq<AccountView>,
    post: Seq<AccountView>,
    later: Seq<AccountView>,
    offset: u64,
    data: Seq<u8>,
)
    requires
        spec_result(pre, InstructionView::SetAuthority) is Ok,
        spec_effect(pre, InstructionView::SetAuthority, post),
        later.len() >= 2,
        later[0] == post[0],
    ensures
        stored_authority(post[0].data) == pre[2].key@,
        stored_version(post[0].data) == stored_version(pre[0].data),
        payload(post[0].data) == payload(pre[0].data),
        post[0].data.len() == pre[0].data.len(),
        later[1].key@ == pre[1].key@ && pre[1].key@ != pre[2].key@ ==> spec_result(
            later,
            InstructionView::Write { offset, data },
        ) == Err::<(), ProgramError>(
            ProgramError::Custom(RecordError::IncorrectAuthority.spec_code()),
        ),
        later[1].key@ == pre[2].key@ && later[1].is_signer && payload_index(offset) + data.len()
            <= later[0].data.len() ==> spec_result(
            later,
            InstructionView::Write { offset, data },
        ) is Ok,
{
    assert(pre[2].key@.len() == 32);
    assert(stored_authority(post[0].data) =~= pre[2].key@);
    assert(payload(post[0].data) =~= payload(pre[0].data));
}

/// `CloseAccount` moves the record's whole balance to the destination: the
/// record is left with nothing, the destination with the sum, and no other
/// balance and no byte changes. Where the sum does not fit a balance, the
/// operation is refused as an overflow.
pub proof fn lemma_close_account(pre: Seq<AccountView>, post: Seq<AccountView>)
    requires
        spec_authorize(pre, 3) is Ok,
    ensures
        pre[2].lamports + pre[0].lamports > u64::MAX <==> spec_result(
            pre,
            InstructionView::CloseAccount,
        ) == Err::<(), ProgramError>(ProgramError::Custom(RecordError::Overflow.spec_code())),
        pre[2].lamports + pre[0].lamports <= u64::MAX <==> spec_result(
            pre,
            InstructionView::CloseAccount,
        ) is Ok,
        spec_result(pre, InstructionView::CloseAccount) is Ok && spec_effect(
            pre,
            InstructionView::CloseAccount,
            post,
        ) ==> {
            &&& post[0].lamports == 0
            &&& post[2].lamports == pre[2].lamports + pre[0].lamports
            &&& post[0].data == pre[0].data
            &&& post[1] == pre[1]
            &&& post.len() == pre.len()
        },
{
}

/// A destination whose balance is at its maximum cannot take in a record's
/// balance: unless the record holds nothing, `CloseAccount` is refused as an
/// overflow.
pub proof fn lemma_close_account_full_destination(accounts: Seq<AccountView>)
    requires
        spec_authorize(accounts, 3) is Ok,
        accounts[2].lamports == u64::MAX,
        accounts[0].lamports > 0,
    ensures
        spec_result(accounts, InstructionView::CloseAccount) == Err::<(), ProgramError>(
            ProgramError::Custom(RecordError::Overflow.spec_code()),
        ),
{
}

/// `Reallocate` never shortens the buffer and never changes a byte that is
/// there. A buffer with room for the payload asked for stays as it is; a
/// shorter one comes out exactly as long as the header and that payload.
pub proof fn lemma_reallocate(pre: Seq<AccountView>, post: Seq<AccountView>, data_length: u64)
    requires
        spec_result(pre, InstructionView::Reallocate { data_length }) is Ok,
        spec_effect(pre, InstructionView::Reallocate { data_length }, post),
    ensures
        needed_length(data_length) <= pre[0].data.len() ==> post == pre,
        needed_length(data_length) > pre[0].data.len() ==> post[0].data.len() == needed_length(
            data_length,
        ),
        forall|i: int| 0 <= i < pre[0].data.len() ==> post[0].data[i] == pre[0].data[i],
        stored_version(post[0].data) == stored_version(pre[0].data),
        stored_authority(post[0].data) == stored_authority(pre[0].data),
        holds_initialized(post[0].data),
{
    let kept = post[0].data.subrange(0, pre[0].data.len() as int);
    assert forall|i: int| 0 <= i < pre[0].data.len() implies post[0].data[i] == pre[0].data[i] by {
        assert(kept[i] == post[0].data[i]);
    }
    assert(stored_authority(post[0].data) =~= stored_authority(pre[0].data));
    if needed_length(data_length) <= pre[0].data.len() {
        assert(post[0].data =~= pre[0].data);
        assert(post =~= pre);
    }
}

} // verus!
