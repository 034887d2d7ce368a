//! The operations of the record program and their wire form: one tag byte,
//! then the operation's fields, integers in little-endian order.

use pinocchio::program_error::ProgramError;
use crate::bytes::{
    lemma_u32_le_roundtrip, lemma_u64_le_roundtrip, read_u32_le, read_u64_le, spec_u32_from_le,
    spec_u32_to_le, spec_u64_from_le, spec_u64_to_le, u32_to_le, u64_to_le,
};
use vstd::prelude::*;
use vstd::slice::slice_subrange;

verus! {

/// An operation on a record.
#[derive(Clone, Debug, PartialEq)]
pub enum RecordInstruction<'a> {
    /// Take an empty storage cell into use, under the given authority.
    Initialize,
    /// Overwrite part of the payload, `offset` bytes into it.
    Write { offset: u64, data: &'a [u8] },
    /// Hand the record over to a new authority.
    SetAuthority,
    /// Move the cell's balance out.
    CloseAccount,
    /// Make room for a payload of `data_length` bytes.
    Reallocate { data_length: u64 },
}

/// An operation as a mathematical value: the bytes of a `Write` as a sequence.
pub enum InstructionView {
    Initialize,
    Write { offset: u64, data: Seq<u8> },
    SetAuthority,
    CloseAccount,
    Reallocate { data_length: u64 },
}

impl<'a> View for RecordInstruction<'a> {
    type V = InstructionView;

    open spec fn view(&self) -> InstructionView {
        match *self {
            RecordInstruction::Initialize => InstructionView::Initialize,
            RecordInstruction::Write { offset, data } => InstructionView::Write {
                offset,
                data: data@,
            },
            RecordInstruction::SetAuthority => InstructionView::SetAuthority,
            RecordInstruction::CloseAccount => InstructionView::CloseAccount,
            RecordInstruction::Reallocate { data_length } => InstructionView::Reallocate {
                data_length,
            },
        }
    }
}

/// Bytes ahead of the data of a `Write`: the tag, the offset and the length.
pub const WRITE_HEADER_BYTES: usize = 13;

/// Bytes of a `Reallocate`: the tag and the new payload length.
pub const REALLOCATE_BYTES: usize = 9;

/// The length field of a `Write` that carries `len` bytes: `len` itself while
/// it fits in 32 bits, else its low 32 bits.
pub open spec fn length_field(len: nat) -> u32 {
    (len % 0x1_0000_0000) as u32
}

/// The wire form of an operation.
pub open spec fn spec_pack(op: InstructionView) -> Seq<u8> {
    match op {
        InstructionView::Initialize => seq![0u8],
        InstructionView::Write { offset, data } => seq![1u8] + spec_u64_to_le(offset)
            + spec_u32_to_le(length_field(data.len())) + data,
        InstructionView::SetAuthority => seq![2u8],
        InstructionView::CloseAccount => seq![3u8],
        InstructionView::Reallocate { data_length } => seq![4u8] + spec_u64_to_le(
            data_length,
        ),
    }
}

/// The operation that a byte string stands for, if it stands for one: the
/// first byte is the tag, the fields follow, and bytes after the last field
/// are not looked at.
pub open spec fn spec_unpack(input: Seq<u8>) -> Option<InstructionView> {
    if input.len() == 0 {
        None
    } else if input[0] == 0 {
        Some(InstructionView::Initialize)
    } else if input[0] == 1 {
        if input.len() < WRITE_HEADER_BYTES {
            None
        } else {
            let offset = spec_u64_from_le(input.subrange(1, 9));
            let length = spec_u32_from_le(input.subrange(9, 13));
            if WRITE_HEADER_BYTES + length > input.len() {
                None
            } else {
                Some(
                    InstructionView::Write {
                        offset,
                        data: input.subrange(13, 13 + length as int),
                    },
                )
            }
        }
    } else if input[0] == 2 {
        Some(InstructionView::SetAuthority)
    } else if input[0] == 3 {
        Some(InstructionView::CloseAccount)
    } else if input[0] == 4 {
        if input.len() < REALLOCATE_BYTES {
            None
        } else {
            Some(
                InstructionView::Reallocate {
                    data_length: spec_u64_from_le(input.subrange(1, 9)),
                },
            )
        }
    } else {
        None
    }
}

impl<'a> RecordInstruction<'a> {
    /// Reads an operation from its wire form. The data of a `Write` is a
    /// window into `input`. Input that stands for no operation is refused
    /// with `InvalidInstructionData`.
    pub fn unpack(input: &'a [u8]) -> (r: Result<Self, ProgramError>)
        ensures
            match spec_unpack(input@) {
                Some(op) => r is Ok && r->Ok_0@ == op,
                None => r is Err && r->Err_0 == ProgramError::InvalidInstructionData,
            },
    {
        if input.len() == 0 {
            return Err(ProgramError::InvalidInstructionData);
        }
        let tag = input[0];
        if tag == 0 {
            Ok(RecordInstruction::Initialize)
        } else if tag == 1 {
            let offset = match read_u64_le(input, 1) {
                Some(offset) => offset,
                None => {
                    return Err(ProgramError::InvalidInstructionData);
                },
            };
            let length = match read_u32_le(input, 9) {
                Some(length) => length as usize,
                None => {
                    return Err(ProgramError::InvalidInstructionData);
                },
            };
            if length > input.len() - WRITE_HEADER_BYTES {
                return Err(ProgramError::InvalidInstructionData);
            }
            let data = slice_subrange(input, WRITE_HEADER_BYTES, WRITE_HEADER_BYTES + length);
            Ok(RecordInstruction::Write { offset, data })
        } else if tag == 2 {
            Ok(RecordInstruction::SetAuthority)
        } else if tag == 3 {
            Ok(RecordInstruction::CloseAccount)
        } else if tag == 4 {
            match read_u64_le(input, 1) {
                Some(data_length) => Ok(RecordInstruction::Reallocate { data_length }),
                None => Err(ProgramError::InvalidInstructionData),
            }
        } else {
            Err(ProgramError::InvalidInstructionData)
        }
    }

    /// Packs a [`RecordInstruction`] into a byte buffer.
    pub fn pack(&self) -> (buf: Vec<u8>)
        ensures
            buf@ == spec_pack(self@),
    {
        let mut buf: Vec<u8> = Vec::new();
        match self {
            RecordInstruction::Initialize => buf.push(0),
            RecordInstruction::Write { offset, data } => {
                buf.push(1);
                let offset_bytes = u64_to_le(*offset);
                buf.extend_from_slice(offset_bytes.as_slice());
                let length: u64 = data.len() as u64 % 0x1_0000_0000;
                let length_bytes = u32_to_le(length as u32);
                buf.extend_from_slice(length_bytes.as_slice());
                buf.extend_from_slice(data);
            },
            RecordInstruction::SetAuthority => buf.push(2),
            RecordInstruction::CloseAccount => buf.push(3),
            RecordInstruction::Reallocate { data_length } => {
                buf.push(4);
                let length_bytes = u64_to_le(*data_length);
                buf.extend_from_slice(length_bytes.as_slice());
            },
        };
        assert(buf@ =~= spec_pack(self@));
        buf
    }
}

/// Every operation whose data length fits the 32-bit length field is read
/// back from its wire form as it was.
pub proof fn lemma_unpack_pack(op: InstructionView)
    requires
        op matches InstructionView::Write { data, .. } ==> data.len() <= u32::MAX,
    ensures
        spec_unpack(spec_pack(op)) == Some(op),
{
    let bytes = spec_pack(op);
    match op {
        InstructionView::Write { offset, data } => {
            lemma_u64_le_roundtrip(offset);
            lemma_u32_le_roundtrip(length_field(data.len()));
            let a = spec_u64_to_le(offset);
            let b = spec_u32_to_le(length_field(data.len()));
            assert(bytes.subrange(1, 9) =~= a);
            assert(bytes.subrange(9, 13) =~= b);
            assert(bytes.subrange(13, 13 + data.len() as int) =~= data);
        },
        InstructionView::Reallocate { data_length } => {
            lemma_u64_le_roundtrip(data_length);
            assert(bytes.subrange(1, 9) =~= spec_u64_to_le(data_length));
        },
        _ => {},
    }
}

} // verus!
