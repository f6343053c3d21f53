//! The stored record and its binary codec.
//!
//! A record is laid out as: one initialization flag byte, the 32-byte owner
//! identity, the name with a 4-byte little-endian length prefix, the message
//! with the same prefix, and the 8-byte little-endian update counter. Both
//! text fields must be valid UTF-8. The codec is lossless and reads the
//! record from the front of the slot: [`spec_decode`] inverts
//! [`spec_encoded`] whatever capacity lies beyond the encoding, and the
//! encoded length is exactly [`spec_size_of`] of the two field lengths.

use vstd::prelude::*;
use vstd::bytes::*;
use vstd::slice::*;

use crate::error::{AccountDemoError, ProcessError};
use crate::utf8::is_valid_utf8;
use vstd::utf8::valid_utf8;

verus! {

broadcast use vstd::seq_lib::group_seq_lib_default, vstd::array::group_array_axioms;

/// Maximum byte length of a record's `name`.
pub const MAX_NAME_LENGTH: usize = 64;

/// Maximum byte length of a record's `message`.
pub const MAX_MESSAGE_LENGTH: usize = 256;

/// The record persisted in a storage slot.
///
/// `name` and `message` hold the UTF-8 bytes of the two text fields: the
/// store's rules depend only on their byte lengths, so they are kept as raw
/// bytes, and the codec rejects stored fields that are not valid UTF-8.
#[derive(Debug, PartialEq, Eq)]
pub struct UserData {
    /// Set true at creation, never reset.
    pub is_initialized: bool,
    /// The creating identity; immutable after creation.
    pub owner: [u8; 32],
    /// Set once at creation; immutable thereafter.
    pub name: Vec<u8>,
    /// The only field an owner may change after creation.
    pub message: Vec<u8>,
    /// Starts at 1 on creation and grows by exactly 1 per successful update.
    pub update_count: u64,
}

/// Mathematical view of a record.
#[verifier::ext_equal]
pub ghost struct UserDataView {
    pub is_initialized: bool,
    pub owner: Seq<u8>,
    pub name: Seq<u8>,
    pub message: Seq<u8>,
    pub update_count: u64,
}

impl View for UserData {
    type V = UserDataView;

    open spec fn view(&self) -> UserDataView {
        UserDataView {
            is_initialized: self.is_initialized,
            owner: self.owner@,
            name: self.name@,
            message: self.message@,
            update_count: self.update_count,
        }
    }
}

/// Exact encoded byte length of a record with these field contents: flag,
/// owner, two length-prefixed fields, and the update counter.
pub open spec fn spec_size_of(name: Seq<u8>, message: Seq<u8>) -> int {
    1 + 32 + 4 + name.len() as int + 4 + message.len() as int + 8
}

/// The record's byte encoding.
pub open spec fn spec_encoded(v: UserDataView) -> Seq<u8> {
    seq![if v.is_initialized { 1u8 } else { 0u8 }]
        + v.owner
        + spec_u32_to_le_bytes(v.name.len() as u32)
        + v.name
        + spec_u32_to_le_bytes(v.message.len() as u32)
        + v.message
        + spec_u64_to_le_bytes(v.update_count)
}

/// Decoding of a byte buffer into a record view.
///
/// Reads the record from the front of the buffer: a malformed flag byte, a
/// length prefix implying more bytes than are present, or a text field that
/// is not valid UTF-8 makes the buffer undecodable, while slot capacity
/// beyond the encoding is ignored.
pub open spec fn spec_decode(b: Seq<u8>) -> Option<UserDataView> {
    if b.len() < 37 {
        None
    } else if b[0] != 0 && b[0] != 1 {
        None
    } else {
        let name_len = spec_u32_from_le_bytes(b.subrange(33, 37)) as int;
        if b.len() < 41 + name_len {
            None
        } else {
            let msg_len = spec_u32_from_le_bytes(
                b.subrange(37 + name_len, 41 + name_len),
            ) as int;
            if b.len() < 49 + name_len + msg_len {
                None
            } else {
                let name = b.subrange(37, 37 + name_len);
                let message = b.subrange(41 + name_len, 41 + name_len + msg_len);
                if !valid_utf8(name) || !valid_utf8(message) {
                    None
                } else {
                    Some(UserDataView {
                        is_initialized: b[0] == 1,
                        owner: b.subrange(1, 33),
                        name,
                        message,
                        update_count: spec_u64_from_le_bytes(
                            b.subrange(41 + name_len + msg_len, 49 + name_len + msg_len),
                        ),
                    })
                }
            }
        }
    }
}

impl UserData {
    /// Exact encoded size of a record with these field contents; used both
    /// to size a fresh allocation and to re-validate capacity on update.
    pub fn get_size(name: &[u8], message: &[u8]) -> (size: usize)
        requires
            spec_size_of(name@, message@) <= usize::MAX,
        ensures
            size == spec_size_of(name@, message@),
    {
        1 + 32 + 4 + name.len() + 4 + message.len() + 8
    }

    /// A fresh record for `owner`: initialized, with the update counter at 1.
    /// Rejects field contents over the fixed maxima, name first.
    pub fn new(owner: [u8; 32], name: Vec<u8>, message: Vec<u8>) -> (r: Result<
        UserData,
        ProcessError,
    >)
        ensures
            name@.len() > MAX_NAME_LENGTH ==> r == Err::<UserData, ProcessError>(
                ProcessError::Custom(AccountDemoError::NameTooLong),
            ),
            name@.len() <= MAX_NAME_LENGTH && message@.len() > MAX_MESSAGE_LENGTH ==> r == Err::<
                UserData,
                ProcessError,
            >(ProcessError::Custom(AccountDemoError::MessageTooLong)),
            name@.len() <= MAX_NAME_LENGTH && message@.len() <= MAX_MESSAGE_LENGTH ==> (r matches Ok(
                d,
            ) && d@ == (UserDataView {
                is_initialized: true,
                owner: owner@,
                name: name@,
                message: message@,
                update_count: 1u64,
            })),
    {
        if name.len() > MAX_NAME_LENGTH {
            return Err(ProcessError::from(AccountDemoError::NameTooLong));
        }
        if message.len() > MAX_MESSAGE_LENGTH {
            return Err(ProcessError::from(AccountDemoError::MessageTooLong));
        }
        Ok(UserData { is_initialized: true, owner, name, message, update_count: 1 })
    }

    /// The 32-byte identity that created the record.
    pub fn get_owner(&self) -> (o: [u8; 32])
        ensures
            o@ == self@.owner,
    {
        self.owner
    }

    /// Encodes the record into a fresh buffer.
    ///
    /// Never fails; the length requirements only keep the length prefixes
    /// and the total size representable.
    pub fn encode(&self) -> (out: Vec<u8>)
        requires
            self@.name.len() <= u32::MAX,
            self@.message.len() <= u32::MAX,
            spec_size_of(self@.name, self@.message) <= usize::MAX,
        ensures
            out@ == spec_encoded(self@),
            out@.len() == spec_size_of(self@.name, self@.message),
    {
        proof {
            lemma_auto_spec_u32_to_from_le_bytes();
            lemma_auto_spec_u64_to_from_le_bytes();
        }
        let mut out: Vec<u8> = Vec::new();
        out.push(if self.is_initialized { 1 } else { 0 });
        let mut owner_bytes = slice_to_vec(self.owner.as_slice());
        out.append(&mut owner_bytes);
        let mut name_len_bytes = u32_to_le_bytes(self.name.len() as u32);
        out.append(&mut name_len_bytes);
        let mut name_bytes = slice_to_vec(self.name.as_slice());
        out.append(&mut name_bytes);
        let mut msg_len_bytes = u32_to_le_bytes(self.message.len() as u32);
        out.append(&mut msg_len_bytes);
        let mut msg_bytes = slice_to_vec(self.message.as_slice());
        out.append(&mut msg_bytes);
        let mut count_bytes = u64_to_le_bytes(self.update_count);
        out.append(&mut count_bytes);
        proof {
            assert(out@ =~= spec_encoded(self@));
        }
        out
    }

    /// Decodes a buffer into a record, rejecting anything [`spec_decode`]
    /// rejects with `DataTypeMismatch` and never panicking on arbitrary
    /// bytes.
    pub fn safe_deserialize(data: &[u8]) -> (r: Result<UserData, ProcessError>)
        ensures
            match r {
                Ok(d) => spec_decode(data@) == Some(d@),
                Err(e) => spec_decode(data@) is None && e == ProcessError::Custom(
                    AccountDemoError::DataTypeMismatch,
                ),
            },
    {
        if data.len() < 37 {
            return Err(ProcessError::Custom(AccountDemoError::DataTypeMismatch));
        }
        let flag = *slice_index_get(data, 0);
        if flag != 0 && flag != 1 {
            return Err(ProcessError::Custom(AccountDemoError::DataTypeMismatch));
        }
        let owner_slice = slice_subrange(data, 1, 33);
        let mut owner = [0u8; 32];
        let mut i: usize = 0;
        while i < 32
            invariant
                i <= 32,
                owner_slice@ == data@.subrange(1, 33),
                data@.len() >= 37,
                forall|j: int| 0 <= j < i ==> owner@[j] == owner_slice@[j],
            decreases 32 - i,
        {
            owner[i] = *slice_index_get(owner_slice, i);
            i += 1;
        }
        proof {
            assert(owner@ =~= data@.subrange(1, 33));
        }
        let name_len = u32_from_le_bytes(slice_subrange(data, 33, 37)) as usize;
        if data.len() < 41 || data.len() - 41 < name_len {
            return Err(ProcessError::Custom(AccountDemoError::DataTypeMismatch));
        }
        let name = slice_to_vec(slice_subrange(data, 37, 37 + name_len));
        let msg_len = u32_from_le_bytes(slice_subrange(data, 37 + name_len, 41 + name_len))
            as usize;
        let rem = data.len() - 41 - name_len;
        if rem < 8 || rem - 8 < msg_len {
            return Err(ProcessError::Custom(AccountDemoError::DataTypeMismatch));
        }
        let message = slice_to_vec(slice_subrange(data, 41 + name_len, 41 + name_len + msg_len));
        if !is_valid_utf8(name.as_slice()) || !is_valid_utf8(message.as_slice()) {
            return Err(ProcessError::Custom(AccountDemoError::DataTypeMismatch));
        }
        let update_count = u64_from_le_bytes(
            slice_subrange(data, 41 + name_len + msg_len, 49 + name_len + msg_len),
        );
        let d = UserData { is_initialized: flag == 1, owner, name, message, update_count };
        proof {
            let v = spec_decode(data@).unwrap();
            assert(v =~= d@);
        }
        Ok(d)
    }
}

/// The encoded length is exactly the size the store accounts with.
pub proof fn lemma_encoded_size(v: UserDataView)
    requires
        v.owner.len() == 32,
    ensures
        spec_encoded(v).len() == spec_size_of(v.name, v.message),
{
    lemma_auto_spec_u32_to_from_le_bytes();
    lemma_auto_spec_u64_to_from_le_bytes();
}

/// Trailing capacity is invisible to decoding: a slot holding a record's
/// encoding at its front — as a create or update leaves it — decodes to
/// exactly that record, whatever bytes fill the capacity beyond it.
pub proof fn lemma_decode_ignores_capacity(v: UserDataView, tail: Seq<u8>)
    requires
        v.owner.len() == 32,
        v.name.len() <= u32::MAX,
        v.message.len() <= u32::MAX,
        valid_utf8(v.name),
        valid_utf8(v.message),
    ensures
        spec_decode(spec_encoded(v) + tail) == Some(v),
{
    lemma_auto_spec_u32_to_from_le_bytes();
    lemma_auto_spec_u64_to_from_le_bytes();
    let b = spec_encoded(v) + tail;
    let nlen = v.name.len() as int;
    let mlen = v.message.len() as int;
    assert(b.len() == 49 + nlen + mlen + tail.len());
    assert(b.subrange(33, 37) =~= spec_u32_to_le_bytes(v.name.len() as u32));
    assert(spec_u32_from_le_bytes(b.subrange(33, 37)) as int == nlen);
    assert(b.subrange(37 + nlen, 41 + nlen) =~= spec_u32_to_le_bytes(v.message.len() as u32));
    assert(spec_u32_from_le_bytes(b.subrange(37 + nlen, 41 + nlen)) as int == mlen);
    assert(b.subrange(1, 33) =~= v.owner);
    assert(b.subrange(37, 37 + nlen) =~= v.name);
    assert(b.subrange(41 + nlen, 41 + nlen + mlen) =~= v.message);
    assert(b.subrange(41 + nlen + mlen, 49 + nlen + mlen) =~= spec_u64_to_le_bytes(
        v.update_count,
    ));
    assert(spec_decode(b).unwrap() =~= v);
}

/// The codec is lossless: decoding an encoded record gives the record back.
pub proof fn lemma_round_trip(v: UserDataView)
    requires
        v.owner.len() == 32,
        v.name.len() <= u32::MAX,
        v.message.len() <= u32::MAX,
        valid_utf8(v.name),
        valid_utf8(v.message),
    ensures
        spec_decode(spec_encoded(v)) == Some(v),
{
    lemma_decode_ignores_capacity(v, Seq::empty());
    assert(spec_encoded(v) + Seq::<u8>::empty() =~= spec_encoded(v));
}

/// Right-padding of a byte string up to a target length.
pub trait StringPad: View<V = Seq<u8>> {
    /// The value, extended with `pad_byte` until it is at least `length`
    /// bytes long; a value already that long comes back unchanged.
    fn pad_right(&self, length: usize, pad_byte: u8) -> (out: Vec<u8>)
        ensures
            self@.len() >= length ==> out@ == self@,
            self@.len() < length ==> out@ == self@ + Seq::new(
                (length - self@.len()) as nat,
                |i: int| pad_byte,
            ),
    ;
}

impl StringPad for Vec<u8> {
    fn pad_right(&self, length: usize, pad_byte: u8) -> (out: Vec<u8>) {
        let mut out = slice_to_vec(self.as_slice());
        while out.len() < length
            invariant
                out@.len() >= self@.len(),
                out@.len() <= vstd::math::max(self@.len() as int, length as int),
                out@.subrange(0, self@.len() as int) == self@,
                forall|j: int| self@.len() <= j < out@.len() ==> out@[j] == pad_byte,
            decreases length - out.len(),
        {
            out.push(pad_byte);
        }
        proof {
            if self@.len() >= length {
                assert(out@ =~= self@);
            } else {
                assert(out@ =~= self@ + Seq::new((length - self@.len()) as nat, |i: int| pad_byte));
            }
        }
        out
    }
}

} // verus!
