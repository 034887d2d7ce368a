//! The state machine of a record: what each operation requires of the
//! accounts it is given, and what it does to them.

use crate::account::{copy_into, overwritten, pubkey_eq, views, Account, AccountView};
use crate::error::RecordError;
use crate::instruction::{spec_unpack, InstructionView, RecordInstruction};
use crate::state::{
    holds_header, holds_initialized, stored_authority, stored_version, with_header, RecordData,
};
use pinocchio::program_error::ProgramError;
use pinocchio::pubkey::Pubkey;
use pinocchio::ProgramResult;
use vstd::prelude::*;

verus! {

/// The account `account` with `data` as its bytes.
pub open spec fn with_data(account: AccountView, data: Seq<u8>) -> AccountView {
    AccountView { data, ..account }
}

/// The account `account` with `lamports` as its balance.
pub open spec fn with_lamports(account: AccountView, lamports: u64) -> AccountView {
    AccountView { lamports, ..account }
}

/// The authority guard: the account that acts must be the one that the
/// record names, and must have signed. The identity is looked at first, so
/// that a wrong account is told apart from the right one without a signature.
pub open spec fn spec_check_authority(authority: AccountView, expected: Seq<u8>) -> ProgramResult {
    if expected != authority.key@ {
        Err(ProgramError::Custom(RecordError::IncorrectAuthority.spec_code()))
    } else if !authority.is_signer {
        Err(ProgramError::MissingRequiredSignature)
    } else {
        Ok(())
    }
}

/// What every operation on an existing record checks first: that it was
/// given `count` accounts, that the first one holds an initialized record,
/// and that the second one passes the authority guard for it.
pub open spec fn spec_authorize(accounts: Seq<AccountView>, count: nat) -> ProgramResult
    recommends
        count >= 2,
{
    if accounts.len() < count {
        Err(ProgramError::NotEnoughAccountKeys)
    } else if !holds_header(accounts[0].data) {
        Err(ProgramError::InvalidAccountData)
    } else if !holds_initialized(accounts[0].data) {
        Err(ProgramError::UninitializedAccount)
    } else {
        spec_check_authority(accounts[1], stored_authority(accounts[0].data))
    }
}

/// Where the payload byte at `offset` lies in the buffer.
pub open spec fn payload_index(offset: u64) -> int {
    RecordData::WRITABLE_START_INDEX + offset
}

/// The buffer length that a payload of `data_length` bytes needs.
pub open spec fn needed_length(data_length: u64) -> int {
    RecordData::WRITABLE_START_INDEX + data_length
}

/// Whether an operation on these accounts succeeds, and with which failure
/// it is refused if not.
pub open spec fn spec_result(accounts: Seq<AccountView>, op: InstructionView) -> ProgramResult {
    match op {
        InstructionView::Initialize => {
            if accounts.len() < 2 {
                Err(ProgramError::NotEnoughAccountKeys)
            } else if !holds_header(accounts[0].data) {
                Err(ProgramError::InvalidAccountData)
            } else if holds_initialized(accounts[0].data) {
                Err(ProgramError::AccountAlreadyInitialized)
            } else {
                Ok(())
            }
        },
        InstructionView::Write { offset, data } => {
            if spec_authorize(accounts, 2) is Err {
                spec_authorize(accounts, 2)
            } else if payload_index(offset) + data.len() > accounts[0].data.len() {
                Err(ProgramError::AccountDataTooSmall)
            } else {
                Ok(())
            }
        },
        InstructionView::SetAuthority => spec_authorize(accounts, 3),
        InstructionView::CloseAccount => {
            if spec_authorize(accounts, 3) is Err {
                spec_authorize(accounts, 3)
            } else if accounts[2].lamports + accounts[0].lamports > u64::MAX {
                Err(ProgramError::Custom(RecordError::Overflow.spec_code()))
            } else {
                Ok(())
            }
        },
        InstructionView::Reallocate { data_length } => {
            if spec_authorize(accounts, 2) is Err {
                spec_authorize(accounts, 2)
            } else if needed_length(data_length) > usize::MAX {
                Err(ProgramError::InvalidArgument)
            } else {
                Ok(())
            }
        },
    }
}

/// What an operation that succeeds on the accounts `pre` leaves behind.
/// Only the record is changed, and for `CloseAccount` the two balances. The
/// bytes that `Reallocate` adds to the buffer are not determined.
pub open spec fn spec_effect(
    pre: Seq<AccountView>,
    op: InstructionView,
    post: Seq<AccountView>,
) -> bool {
    match op {
        InstructionView::Initialize => post == pre.update(
            0,
            with_data(
                pre[0],
                with_header(pre[0].data, RecordData::CURRENT_VERSION, pre[1].key@),
            ),
        ),
        InstructionView::Write { offset, data } => post == pre.update(
            0,
            with_data(pre[0], overwritten(pre[0].data, payload_index(offset), data)),
        ),
        InstructionView::SetAuthority => post == pre.update(
            0,
            with_data(
                pre[0],
                with_header(pre[0].data, stored_version(pre[0].data), pre[2].key@),
            ),
        ),
        InstructionView::CloseAccount => post == pre.update(
            2,
            with_lamports(pre[2], (pre[2].lamports + pre[0].lamports) as u64),
        ).update(0, with_lamports(pre[0], 0)),
        InstructionView::Reallocate { data_length } => {
            &&& post == pre.update(0, with_data(pre[0], post[0].data))
            &&& post[0].data.len() == if pre[0].data.len() >= needed_length(data_length) {
                pre[0].data.len() as int
            } else {
                needed_length(data_length)
            }
            &&& post[0].data.subrange(0, pre[0].data.len() as int) == pre[0].data
        },
    }
}

/// The authority guard.
pub fn check_authority(authority_info: &Account, expected_authority: &Pubkey) -> (r: ProgramResult)
    ensures
        r == spec_check_authority(authority_info@, expected_authority@),
{
    if !pubkey_eq(expected_authority, &authority_info.key) {
        return Err(ProgramError::from(RecordError::IncorrectAuthority));
    }
    if !authority_info.is_signer {
        return Err(ProgramError::MissingRequiredSignature);
    }
    Ok(())
}

/// Checks that an operation on an existing record may go ahead: `count`
/// accounts, an initialized record in the first, the record's authority with
/// its signature in the second.
fn authorize(accounts: &[Account], count: usize) -> (r: ProgramResult)
    requires
        count >= 2,
    ensures
        r == spec_authorize(views(accounts@), count as nat),
{
    if accounts.len() < count {
        return Err(ProgramError::NotEnoughAccountKeys);
    }
    let header = match RecordData::from_bytes(accounts[0].data.as_slice()) {
        Ok(header) => header,
        Err(e) => {
            return Err(e);
        },
    };
    if !header.is_initialized() {
        return Err(ProgramError::UninitializedAccount);
    }
    check_authority(&accounts[1], &header.authority)
}

/// `Initialize`: takes an empty cell into use. The record is the first
/// account; the second becomes its authority and need not sign.
pub fn process_initialize(accounts: &mut [Account]) -> (result: ProgramResult)
    ensures
        result == spec_result(views(old(accounts)@), InstructionView::Initialize),
        result is Ok ==> spec_effect(
            views(old(accounts)@),
            InstructionView::Initialize,
            views(final(accounts)@),
        ),
        result is Err ==> final(accounts)@ == old(accounts)@,
        final(accounts)@.len() == old(accounts)@.len(),
{
    if accounts.len() < 2 {
        return Err(ProgramError::NotEnoughAccountKeys);
    }
    let header = match RecordData::from_bytes(accounts[0].data.as_slice()) {
        Ok(header) => header,
        Err(e) => {
            return Err(e);
        },
    };
    if header.is_initialized() {
        return Err(ProgramError::AccountAlreadyInitialized);
    }
    let initialized = RecordData {
        version: RecordData::CURRENT_VERSION,
        authority: accounts[1].key,
    };
    let written = initialized.write_to(accounts[0].data.as_mut_slice());
    proof {
        let pre = views(old(accounts)@);
        let post = views(accounts@);
        assert(post =~= pre.update(
            0,
            with_data(
                pre[0],
                with_header(pre[0].data, RecordData::CURRENT_VERSION, pre[1].key@),
            ),
        ));
    }
    match written {
        Ok(()) => Ok(()),
        Err(e) => Err(e),
    }
}

/// `Write`: overwrites the payload from `offset` on with `data`. The record
/// is the first account, its authority the second.
pub fn process_write(accounts: &mut [Account], offset: u64, data: &[u8]) -> (result: ProgramResult)
    ensures
        result == spec_result(
            views(old(accounts)@),
            InstructionView::Write { offset, data: data@ },
        ),
        result is Ok ==> spec_effect(
            views(old(accounts)@),
            InstructionView::Write { offset, data: data@ },
            views(final(accounts)@),
        ),
        result is Err ==> final(accounts)@ == old(accounts)@,
        final(accounts)@.len() == old(accounts)@.len(),
{
    match authorize(accounts, 2) {
        Ok(()) => {},
        Err(e) => {
            return Err(e);
        },
    }
    let room = accounts[0].data.len() - RecordData::WRITABLE_START_INDEX;
    if offset > room as u64 || data.len() > room - offset as usize {
        return Err(ProgramError::AccountDataTooSmall);
    }
    let start = RecordData::WRITABLE_START_INDEX + offset as usize;
    copy_into(accounts[0].data.as_mut_slice(), start, data);
    proof {
        let pre = views(old(accounts)@);
        let post = views(accounts@);
        assert(post =~= pre.update(
            0,
            with_data(pre[0], overwritten(pre[0].data, payload_index(offset), data@)),
        ));
    }
    Ok(())
}

/// `SetAuthority`: names the third account as the record's authority. The
/// record is the first account, its present authority the second.
pub fn process_set_authority(accounts: &mut [Account]) -> (result: ProgramResult)
    ensures
        result == spec_result(views(old(accounts)@), InstructionView::SetAuthority),
        result is Ok ==> spec_effect(
            views(old(accounts)@),
            InstructionView::SetAuthority,
            views(final(accounts)@),
        ),
        result is Err ==> final(accounts)@ == old(accounts)@,
        final(accounts)@.len() == old(accounts)@.len(),
{
    match authorize(accounts, 3) {
        Ok(()) => {},
        Err(e) => {
            return Err(e);
        },
    }
    let handed_over = RecordData { version: accounts[0].data[0], authority: accounts[2].key };
    let written = handed_over.write_to(accounts[0].data.as_mut_slice());
    proof {
        let pre = views(old(accounts)@);
        let post = views(accounts@);
        assert(post =~= pre.update(
            0,
            with_data(
                pre[0],
                with_header(pre[0].data, stored_version(pre[0].data), pre[2].key@),
            ),
        ));
    }
    match written {
        Ok(()) => Ok(()),
        Err(e) => Err(e),
    }
}

/// `CloseAccount`: moves the record's whole balance to the third account.
/// The record is the first account, its authority the second. The record's
/// bytes stay as they are, its header too.
pub fn process_close_account(accounts: &mut [Account]) -> (result: ProgramResult)
    ensures
        result == spec_result(views(old(accounts)@), InstructionView::CloseAccount),
        result is Ok ==> spec_effect(
            views(old(accounts)@),
            InstructionView::CloseAccount,
            views(final(accounts)@),
        ),
        result is Err ==> final(accounts)@ == old(accounts)@,
        final(accounts)@.len() == old(accounts)@.len(),
{
    match authorize(accounts, 3) {
        Ok(()) => {},
        Err(e) => {
            return Err(e);
        },
    }
    let destination_starting_lamports = accounts[2].lamports;
    let data_lamports = accounts[0].lamports;
    match destination_starting_lamports.checked_add(data_lamports) {
        Some(total) => {
            accounts[2].lamports = total;
            accounts[0].lamports = 0;
            proof {
                let pre = views(old(accounts)@);
                let post = views(accounts@);
                assert(post =~= pre.update(
                    2,
                    with_lamports(pre[2], (pre[2].lamports + pre[0].lamports) as u64),
                ).update(0, with_lamports(pre[0], 0)));
            }
            Ok(())
        },
        None => Err(ProgramError::from(RecordError::Overflow)),
    }
}

/// `Reallocate`: makes sure that the buffer has room for a payload of
/// `data_length` bytes. A buffer that is long enough is left alone; a
/// shorter one grows to the header and that payload, and keeps its bytes.
/// The record is the first account, its authority the second.
pub fn process_reallocate(accounts: &mut [Account], data_length: u64) -> (result: ProgramResult)
    ensures
        result == spec_result(
            views(old(accounts)@),
            InstructionView::Reallocate { data_length },
        ),
        result is Ok ==> spec_effect(
            views(old(accounts)@),
            InstructionView::Reallocate { data_length },
            views(final(accounts)@),
        ),
        result is Err ==> final(accounts)@ == old(accounts)@,
        final(accounts)@.len() == old(accounts)@.len(),
{
    match authorize(accounts, 2) {
        Ok(()) => {},
        Err(e) => {
            return Err(e);
        },
    }
    if data_length > (usize::MAX - RecordData::WRITABLE_START_INDEX) as u64 {
        return Err(ProgramError::InvalidArgument);
    }
    let needed_account_length = RecordData::WRITABLE_START_INDEX + data_length as usize;
    if accounts[0].data.len() >= needed_account_length {
        proof {
            let pre = views(old(accounts)@);
            assert(pre =~= pre.update(0, with_data(pre[0], pre[0].data)));
            assert(pre[0].data.subrange(0, pre[0].data.len() as int) =~= pre[0].data);
        }
        return Ok(());
    }
    accounts[0].data.resize(needed_account_length, 0);
    proof {
        let pre = views(old(accounts)@);
        let post = views(accounts@);
        assert(post =~= pre.update(0, with_data(pre[0], post[0].data)));
    }
    Ok(())
}

/// Carries out one operation on the accounts it is given.
pub fn process(accounts: &mut [Account], instruction: &RecordInstruction) -> (result: ProgramResult)
    ensures
        result == spec_result(views(old(accounts)@), instruction@),
        result is Ok ==> spec_effect(
            views(old(accounts)@),
            instruction@,
            views(final(accounts)@),
        ),
        result is Err ==> final(accounts)@ == old(accounts)@,
        final(accounts)@.len() == old(accounts)@.len(),
{
    match instruction {
        RecordInstruction::Initialize => process_initialize(accounts),
        RecordInstruction::Write { offset, data } => process_write(accounts, *offset, data),
        RecordInstruction::SetAuthority => process_set_authority(accounts),
        RecordInstruction::CloseAccount => process_close_account(accounts),
        RecordInstruction::Reallocate { data_length } => process_reallocate(
            accounts,
            *data_length,
        ),
    }
}

/// Reads one operation from `input` and carries it out on `accounts`. Input
/// that stands for no operation is refused before any account is looked at.
pub fn process_instruction(_program_id: &Pubkey, accounts: &mut [Account], input: &[u8]) -> (result: ProgramResult)
    ensures
        match spec_unpack(input@) {
            Some(op) => {
                &&& result == spec_result(views(old(accounts)@), op)
                &&& result is Ok ==> spec_effect(
                    views(old(accounts)@),
                    op,
                    views(final(accounts)@),
                )
            },
            None => result == Err::<(), ProgramError>(ProgramError::InvalidInstructionData),
        },
        result is Err ==> final(accounts)@ == old(accounts)@,
        final(accounts)@.len() == old(accounts)@.len(),
{
    match RecordInstruction::unpack(input) {
        Ok(instruction) => process(accounts, &instruction),
        Err(e) => Err(e),
    }
}

} // verus!
