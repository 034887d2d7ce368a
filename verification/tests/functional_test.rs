use pinocchio::program_error::ProgramError;
use pinocchio::pubkey::Pubkey;
use pinocchio_sample::account::Account;
use pinocchio_sample::error::RecordError;
use pinocchio_sample::instruction::RecordInstruction;
use pinocchio_sample::processor::process_instruction;
use pinocchio_sample::state::RecordData;
use pinocchio_sample::ID;

const RENT: u64 = 1_176_240;

fn key(seed: u8) -> Pubkey {
    let mut k = [seed; 32];
    k[0] = seed.wrapping_add(1);
    k[31] = seed.wrapping_mul(3);
    k
}

fn signer(k: Pubkey) -> Account {
    Account { key: k, is_signer: true, lamports: 0, data: Vec::new() }
}

fn bystander(k: Pubkey) -> Account {
    Account { key: k, is_signer: false, lamports: 0, data: Vec::new() }
}

fn empty_cell(k: Pubkey, payload_len: usize) -> Account {
    Account {
        key: k,
        is_signer: true,
        lamports: RENT,
        data: vec![0u8; RecordData::WRITABLE_START_INDEX + payload_len],
    }
}

fn run(accounts: &mut [Account], instruction: RecordInstruction) -> Result<(), ProgramError> {
    process_instruction(&ID, accounts, &instruction.pack())
}

/// A cell of `data.len()` payload bytes, initialized under `authority` and
/// then written with `data`, as one transaction would do it.
fn initialize_storage_account(authority: Pubkey, account: Pubkey, data: &[u8]) -> Account {
    let mut accounts = vec![empty_cell(account, data.len()), bystander(authority)];
    run(&mut accounts, RecordInstruction::Initialize).unwrap();
    accounts[1].is_signer = true;
    run(&mut accounts, RecordInstruction::Write { offset: 0, data }).unwrap();
    accounts.remove(0)
}

#[test]
fn initialize_success() {
    let authority = key(1);
    let data = &[111u8; 8];
    let account = initialize_storage_account(authority, key(2), data);

    let account_data =
        RecordData::from_bytes(&account.data[..RecordData::WRITABLE_START_INDEX]).unwrap();
    assert_eq!(account_data.authority.as_slice(), authority.as_slice());
    assert_eq!(account_data.version, RecordData::CURRENT_VERSION);
    assert_eq!(&account.data[RecordData::WRITABLE_START_INDEX..], data);
}

#[test]
fn write_success() {
    let authority = key(1);
    let data = &[222u8; 8];
    let account = initialize_storage_account(authority, key(2), data);

    let new_data = &[200u8; 8];
    let mut accounts = vec![account, signer(authority)];
    run(&mut accounts, RecordInstruction::Write { offset: 0, data: new_data }).unwrap();

    let account = &accounts[0];
    let account_data =
        RecordData::from_bytes(&account.data[..RecordData::WRITABLE_START_INDEX]).unwrap();
    assert_eq!(account_data.authority.as_slice(), authority.as_slice());
    assert_eq!(account_data.version, RecordData::CURRENT_VERSION);
    assert_eq!(&account.data[RecordData::WRITABLE_START_INDEX..], new_data);
}

#[test]
fn write_fail_wrong_authority() {
    let authority = key(1);
    let data = &[222u8; 8];
    let account = initialize_storage_account(authority, key(2), data);

    let new_data = &[200u8; 8];
    let wrong_authority = key(3);
    let mut accounts = vec![account, signer(wrong_authority)];
    assert_eq!(
        run(&mut accounts, RecordInstruction::Write { offset: 0, data: new_data }).unwrap_err(),
        ProgramError::Custom(RecordError::IncorrectAuthority.code())
    );
}

#[test]
fn close_account_success() {
    let authority = key(1);
    let data = &[222u8; 8];
    let account = initialize_storage_account(authority, key(2), data);
    let recipient = key(4);

    let mut accounts = vec![account, signer(authority), bystander(recipient)];
    run(&mut accounts, RecordInstruction::CloseAccount).unwrap();

    assert_eq!(accounts[2].lamports, RENT);
}

#[test]
fn set_authority_success() {
    let authority = key(1);
    let data = &[222u8; 8];
    let account = initialize_storage_account(authority, key(2), data);
    let new_authority = key(5);

    let mut accounts = vec![account, signer(authority), bystander(new_authority)];
    run(&mut accounts, RecordInstruction::SetAuthority).unwrap();

    let account_data =
        RecordData::from_bytes(&accounts[0].data[..RecordData::WRITABLE_START_INDEX]).unwrap();
    assert_eq!(account_data.authority.as_slice(), new_authority.as_slice());

    let new_data = &[200u8; 8];
    let mut accounts = vec![accounts.remove(0), signer(new_authority)];
    run(&mut accounts, RecordInstruction::Write { offset: 0, data: new_data }).unwrap();

    let account_handle = &accounts[0];
    let account_data =
        RecordData::from_bytes(&account_handle.data[..RecordData::WRITABLE_START_INDEX]).unwrap();
    assert_eq!(account_data.authority.as_slice(), new_authority.as_slice());
    assert_eq!(account_data.version, RecordData::CURRENT_VERSION);
    assert_eq!(&account_handle.data[RecordData::WRITABLE_START_INDEX..], new_data);
}

#[test]
fn reallocate_success() {
    let authority = key(1);
    let data = &[222u8; 8];
    let account = initialize_storage_account(authority, key(2), data);

    let new_data_length = 16u64;
    let expected_account_data_length =
        RecordData::WRITABLE_START_INDEX.checked_add(new_data_length as usize).unwrap();

    let mut accounts = vec![account, signer(authority)];
    run(&mut accounts, RecordInstruction::Reallocate { data_length: new_data_length }).unwrap();
    assert_eq!(accounts[0].data.len(), expected_account_data_length);

    let old_data_length = 8u64;
    run(&mut accounts, RecordInstruction::Reallocate { data_length: old_data_length }).unwrap();
    assert_eq!(accounts[0].data.len(), expected_account_data_length);
}
