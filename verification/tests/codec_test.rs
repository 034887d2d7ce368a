use pinocchio::program_error::ProgramError;
use pinocchio_sample::instruction::RecordInstruction;

fn round_trip(instruction: RecordInstruction) {
    let packed = instruction.pack();
    assert_eq!(RecordInstruction::unpack(&packed), Ok(instruction));
}

#[test]
fn pack_initialize_is_tag_zero() {
    assert_eq!(RecordInstruction::Initialize.pack(), vec![0u8]);
}

#[test]
fn pack_set_authority_is_tag_two() {
    assert_eq!(RecordInstruction::SetAuthority.pack(), vec![2u8]);
}

#[test]
fn pack_close_account_is_tag_three() {
    assert_eq!(RecordInstruction::CloseAccount.pack(), vec![3u8]);
}

#[test]
fn pack_write_is_little_endian() {
    let packed = RecordInstruction::Write { offset: 0x0102_0304_0506_0708, data: &[9, 10, 11] }.pack();
    assert_eq!(
        packed,
        vec![1u8, 8, 7, 6, 5, 4, 3, 2, 1, 3, 0, 0, 0, 9, 10, 11]
    );
}

#[test]
fn pack_reallocate_is_little_endian() {
    let packed = RecordInstruction::Reallocate { data_length: 0x1122_3344_5566_7788 }.pack();
    assert_eq!(packed, vec![4u8, 0x88, 0x77, 0x66, 0x55, 0x44, 0x33, 0x22, 0x11]);
}

#[test]
fn round_trip_every_variant() {
    round_trip(RecordInstruction::Initialize);
    round_trip(RecordInstruction::Write { offset: 7, data: &[1, 2, 3, 4, 5] });
    round_trip(RecordInstruction::Write { offset: u64::MAX, data: &[255; 300] });
    round_trip(RecordInstruction::SetAuthority);
    round_trip(RecordInstruction::CloseAccount);
    round_trip(RecordInstruction::Reallocate { data_length: 0 });
    round_trip(RecordInstruction::Reallocate { data_length: u64::MAX });
}

#[test]
fn round_trip_write_without_data() {
    let instruction = RecordInstruction::Write { offset: 42, data: &[] };
    let packed = instruction.pack();
    assert_eq!(packed.len(), 13);
    assert_eq!(RecordInstruction::unpack(&packed), Ok(instruction));
}

#[test]
fn unpack_write_reads_offset_and_data() {
    let input = [1u8, 2, 1, 0, 0, 0, 0, 0, 0, 2, 0, 0, 0, 0xaa, 0xbb];
    assert_eq!(
        RecordInstruction::unpack(&input),
        Ok(RecordInstruction::Write { offset: 258, data: &[0xaa, 0xbb] })
    );
}

#[test]
fn unpack_reallocate_reads_length() {
    let input = [4u8, 0, 1, 0, 0, 0, 0, 0, 0];
    assert_eq!(
        RecordInstruction::unpack(&input),
        Ok(RecordInstruction::Reallocate { data_length: 256 })
    );
}

#[test]
fn unpack_ignores_bytes_after_the_last_field() {
    assert_eq!(RecordInstruction::unpack(&[0, 9, 9]), Ok(RecordInstruction::Initialize));
    assert_eq!(RecordInstruction::unpack(&[2, 9]), Ok(RecordInstruction::SetAuthority));
    assert_eq!(RecordInstruction::unpack(&[3, 9]), Ok(RecordInstruction::CloseAccount));
    let input = [1u8, 0, 0, 0, 0, 0, 0, 0, 0, 1, 0, 0, 0, 0xaa, 0xbb, 0xcc];
    assert_eq!(
        RecordInstruction::unpack(&input),
        Ok(RecordInstruction::Write { offset: 0, data: &[0xaa] })
    );
    let input = [4u8, 5, 0, 0, 0, 0, 0, 0, 0, 77];
    assert_eq!(
        RecordInstruction::unpack(&input),
        Ok(RecordInstruction::Reallocate { data_length: 5 })
    );
}

#[test]
fn unpack_refuses_empty_input() {
    assert_eq!(RecordInstruction::unpack(&[]), Err(ProgramError::InvalidInstructionData));
}

#[test]
fn unpack_refuses_unknown_tag() {
    assert_eq!(RecordInstruction::unpack(&[5]), Err(ProgramError::InvalidInstructionData));
    assert_eq!(RecordInstruction::unpack(&[255, 0, 0]), Err(ProgramError::InvalidInstructionData));
}

#[test]
fn unpack_refuses_truncated_offset() {
    assert_eq!(RecordInstruction::unpack(&[1]), Err(ProgramError::InvalidInstructionData));
    assert_eq!(
        RecordInstruction::unpack(&[1, 0, 0, 0, 0, 0, 0, 0]),
        Err(ProgramError::InvalidInstructionData)
    );
}

#[test]
fn unpack_refuses_truncated_length() {
    assert_eq!(
        RecordInstruction::unpack(&[1, 0, 0, 0, 0, 0, 0, 0, 0]),
        Err(ProgramError::InvalidInstructionData)
    );
    assert_eq!(
        RecordInstruction::unpack(&[1, 0, 0, 0, 0, 0, 0, 0, 0, 0, 0, 0]),
        Err(ProgramError::InvalidInstructionData)
    );
}

#[test]
fn unpack_refuses_length_beyond_input() {
    let input = [1u8, 0, 0, 0, 0, 0, 0, 0, 0, 3, 0, 0, 0, 0xaa, 0xbb];
    assert_eq!(RecordInstruction::unpack(&input), Err(ProgramError::InvalidInstructionData));
    let input = [1u8, 0, 0, 0, 0, 0, 0, 0, 0, 255, 255, 255, 255];
    assert_eq!(RecordInstruction::unpack(&input), Err(ProgramError::InvalidInstructionData));
}

#[test]
fn unpack_refuses_truncated_reallocate() {
    assert_eq!(RecordInstruction::unpack(&[4]), Err(ProgramError::InvalidInstructionData));
    assert_eq!(
        RecordInstruction::unpack(&[4, 0, 0, 0, 0, 0, 0, 0]),
        Err(ProgramError::InvalidInstructionData)
    );
}
