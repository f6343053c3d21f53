//! The instruction envelope: a tag-prefixed, two-variant binary union.
//!
//! Layout: one tag byte (0 for `Initialize`, 1 for `UpdateMessage`)
//! followed by each text field as a 4-byte little-endian length prefix and
//! the field's UTF-8 bytes. Parsing consumes the whole buffer and rejects a
//! field that is not valid UTF-8; anything else is a malformed envelope.

use vstd::prelude::*;
use vstd::bytes::*;
use vstd::slice::*;

use crate::error::{AccountDemoError, ProcessError};
use crate::utf8::is_valid_utf8;
use vstd::utf8::valid_utf8;

verus! {

broadcast use vstd::seq_lib::group_seq_lib_default;

/// A command addressed to the record store.
#[derive(Debug, PartialEq, Eq)]
pub enum AccountDemoInstruction {
    /// Create the record.
    ///
    /// Accounts expected, in order: the signing owner (writable), the
    /// record's storage slot (writable), the rent-parameters reference, and
    /// the allocator-service reference.
    Initialize { name: Vec<u8>, message: Vec<u8> },
    /// Replace the record's message.
    ///
    /// Accounts expected, in order: the signing owner, the record's storage
    /// slot (writable).
    UpdateMessage { message: Vec<u8> },
}

/// Mathematical view of an instruction.
#[verifier::ext_equal]
pub ghost enum InstructionView {
    Initialize { name: Seq<u8>, message: Seq<u8> },
    UpdateMessage { message: Seq<u8> },
}

impl View for AccountDemoInstruction {
    type V = InstructionView;

    open spec fn view(&self) -> InstructionView {
        match self {
            AccountDemoInstruction::Initialize { name, message } => InstructionView::Initialize {
                name: name@,
                message: message@,
            },
            AccountDemoInstruction::UpdateMessage { message } => InstructionView::UpdateMessage {
                message: message@,
            },
        }
    }
}

/// The envelope's byte encoding.
pub open spec fn spec_encoded_instruction(v: InstructionView) -> Seq<u8> {
    match v {
        InstructionView::Initialize { name, message } => seq![0u8] + spec_u32_to_le_bytes(
            name.len() as u32,
        ) + name + spec_u32_to_le_bytes(message.len() as u32) + message,
        InstructionView::UpdateMessage { message } => seq![1u8] + spec_u32_to_le_bytes(
            message.len() as u32,
        ) + message,
    }
}

/// Parsing of an envelope. An unknown tag, a length prefix implying more
/// bytes than are present, bytes left over after the last field, or a field
/// that is not valid UTF-8 make the envelope malformed.
pub open spec fn spec_parse_instruction(b: Seq<u8>) -> Option<InstructionView> {
    if b.len() < 5 {
        None
    } else if b[0] == 0 {
        let name_len = spec_u32_from_le_bytes(b.subrange(1, 5)) as int;
        if b.len() < 9 + name_len {
            None
        } else {
            let msg_len = spec_u32_from_le_bytes(b.subrange(5 + name_len, 9 + name_len)) as int;
            if b.len() != 9 + name_len + msg_len {
                None
            } else {
                let name = b.subrange(5, 5 + name_len);
                let message = b.subrange(9 + name_len, 9 + name_len + msg_len);
                if !valid_utf8(name) || !valid_utf8(message) {
                    None
                } else {
                    Some(InstructionView::Initialize { name, message })
                }
            }
        }
    } else if b[0] == 1 {
        let msg_len = spec_u32_from_le_bytes(b.subrange(1, 5)) as int;
        if b.len() != 5 + msg_len {
            None
        } else {
            let message = b.subrange(5, 5 + msg_len);
            if !valid_utf8(message) {
                None
            } else {
                Some(InstructionView::UpdateMessage { message })
            }
        }
    } else {
        None
    }
}

impl AccountDemoInstruction {
    /// Encodes the command for transport.
    pub fn encode(&self) -> (out: Vec<u8>)
        requires
            match self@ {
                InstructionView::Initialize { name, message } => name.len() <= u32::MAX
                    && message.len() <= u32::MAX && 9 + name.len() + message.len() <= usize::MAX,
                InstructionView::UpdateMessage { message } => message.len() <= u32::MAX && 5
                    + message.len() <= usize::MAX,
            },
        ensures
            out@ == spec_encoded_instruction(self@),
    {
        proof {
            lemma_auto_spec_u32_to_from_le_bytes();
        }
        let mut out: Vec<u8> = Vec::new();
        match self {
            AccountDemoInstruction::Initialize { name, message } => {
                out.push(0);
                let mut name_len_bytes = u32_to_le_bytes(name.len() as u32);
                out.append(&mut name_len_bytes);
                let mut name_bytes = slice_to_vec(name.as_slice());
                out.append(&mut name_bytes);
                let mut msg_len_bytes = u32_to_le_bytes(message.len() as u32);
                out.append(&mut msg_len_bytes);
                let mut msg_bytes = slice_to_vec(message.as_slice());
                out.append(&mut msg_bytes);
            },
            AccountDemoInstruction::UpdateMessage { message } => {
                out.push(1);
                let mut msg_len_bytes = u32_to_le_bytes(message.len() as u32);
                out.append(&mut msg_len_bytes);
                let mut msg_bytes = slice_to_vec(message.as_slice());
                out.append(&mut msg_bytes);
            },
        }
        proof {
            assert(out@ =~= spec_encoded_instruction(self@));
        }
        out
    }

    /// Parses a command from raw instruction bytes, rejecting anything
    /// [`spec_parse_instruction`] rejects as a malformed envelope.
    pub fn parse(data: &[u8]) -> (r: Result<AccountDemoInstruction, ProcessError>)
        ensures
            match r {
                Ok(i) => spec_parse_instruction(data@) == Some(i@),
                Err(e) => spec_parse_instruction(data@) is None && e == ProcessError::Custom(
                    AccountDemoError::InvalidInstructionData,
                ),
            },
    {
        let malformed = ProcessError::Custom(AccountDemoError::InvalidInstructionData);
        if data.len() < 5 {
            return Err(malformed);
        }
        let tag = *slice_index_get(data, 0);
        if tag == 0 {
            let name_len = u32_from_le_bytes(slice_subrange(data, 1, 5)) as usize;
            if data.len() < 9 || data.len() - 9 < name_len {
                return Err(malformed);
            }
            let name = slice_to_vec(slice_subrange(data, 5, 5 + name_len));
            let msg_len = u32_from_le_bytes(slice_subrange(data, 5 + name_len, 9 + name_len))
                as usize;
            if data.len() - 9 - name_len != msg_len {
                return Err(malformed);
            }
            let message = slice_to_vec(slice_subrange(data, 9 + name_len, 9 + name_len + msg_len));
            if !is_valid_utf8(name.as_slice()) || !is_valid_utf8(message.as_slice()) {
                return Err(malformed);
            }
            let i = AccountDemoInstruction::Initialize { name, message };
            proof {
                assert(spec_parse_instruction(data@).unwrap() =~= i@);
            }
            Ok(i)
        } else if tag == 1 {
            let msg_len = u32_from_le_bytes(slice_subrange(data, 1, 5)) as usize;
            if data.len() - 5 != msg_len {
                return Err(malformed);
            }
            let message = slice_to_vec(slice_subrange(data, 5, 5 + msg_len));
            if !is_valid_utf8(message.as_slice()) {
                return Err(malformed);
            }
            let i = AccountDemoInstruction::UpdateMessage { message };
            proof {
                assert(spec_parse_instruction(data@).unwrap() =~= i@);
            }
            Ok(i)
        } else {
            Err(malformed)
        }
    }
}

/// The envelope codec is lossless: parsing an encoded command gives the
/// command back.
pub proof fn lemma_instruction_round_trip(v: InstructionView)
    requires
        match v {
            InstructionView::Initialize { name, message } => name.len() <= u32::MAX
                && message.len() <= u32::MAX && valid_utf8(name) && valid_utf8(message),
            InstructionView::UpdateMessage { message } => message.len() <= u32::MAX && valid_utf8(
                message,
            ),
        },
    ensures
        spec_parse_instruction(spec_encoded_instruction(v)) == Some(v),
{
    lemma_auto_spec_u32_to_from_le_bytes();
    let b = spec_encoded_instruction(v);
    match v {
        InstructionView::Initialize { name, message } => {
            let nlen = name.len() as int;
            let mlen = message.len() as int;
            assert(b.len() == 9 + nlen + mlen);
            assert(b.subrange(1, 5) =~= spec_u32_to_le_bytes(name.len() as u32));
            assert(b.subrange(5 + nlen, 9 + nlen) =~= spec_u32_to_le_bytes(message.len() as u32));
            assert(b.subrange(5, 5 + nlen) =~= name);
            assert(b.subrange(9 + nlen, 9 + nlen + mlen) =~= message);
            assert(spec_parse_instruction(b).unwrap() =~= v);
        },
        InstructionView::UpdateMessage { message } => {
            let mlen = message.len() as int;
            assert(b.len() == 5 + mlen);
            assert(b.subrange(1, 5) =~= spec_u32_to_le_bytes(message.len() as u32));
            assert(b.subrange(5, 5 + mlen) =~= message);
            assert(spec_parse_instruction(b).unwrap() =~= v);
        },
    }
}

} // verus!
