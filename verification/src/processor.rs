//! The lifecycle controller: the ordered gates of record creation and
//! mutation.
//!
//! Each operation checks its gates in a fixed order and the first failing
//! gate aborts the call before any mutation. Creation cannot allocate the
//! slot itself — allocation is the external allocator's job — so
//! [`Processor::process_initialize`] validates every gate and hands back a
//! plan: the fresh record and, for a not-yet-existing slot, the allocation
//! to perform at the derived address. Mutation needs no collaborator and
//! [`Processor::process_update_message`] carries it out in place.

use vstd::prelude::*;
use vstd::pervasive::VecAdditionalExecFns;

use crate::address::derived_record_address;
use crate::error::{AccountDemoError, ProcessError};
use crate::state::{
    lemma_decode_ignores_capacity, spec_decode, spec_encoded, spec_size_of, UserData, UserDataView,
    MAX_MESSAGE_LENGTH, MAX_NAME_LENGTH,
};
use vstd::utf8::valid_utf8;

verus! {

/// An allocation the external allocator must perform before the record can
/// be written: a slot of exactly `size` bytes at the derived `address`,
/// authorized by the `bump` nonce.
#[derive(Debug, PartialEq, Eq)]
pub struct AllocationRequest {
    /// The derived address at which the slot must be created.
    pub address: [u8; 32],
    /// The bump nonce with which the program authorizes the creation.
    pub bump: u8,
    /// The exact byte capacity to allocate.
    pub size: u64,
}

/// Mathematical view of an allocation request.
#[verifier::ext_equal]
pub ghost struct AllocationRequestView {
    pub address: Seq<u8>,
    pub bump: u8,
    pub size: u64,
}

impl View for AllocationRequest {
    type V = AllocationRequestView;

    open spec fn view(&self) -> AllocationRequestView {
        AllocationRequestView { address: self.address@, bump: self.bump, size: self.size }
    }
}

/// Outcome of a successful create call: the fresh record to write into the
/// slot and, where the slot does not exist yet, the allocation to perform
/// first.
#[derive(Debug, PartialEq, Eq)]
pub struct InitPlan {
    /// The record to encode and write, with `update_count` 1.
    pub record: UserData,
    /// `Some` exactly when the slot is still empty and must be allocated.
    pub allocation: Option<AllocationRequest>,
}

/// Mathematical view of an init plan.
#[verifier::ext_equal]
pub ghost struct InitPlanView {
    pub record: UserDataView,
    pub allocation: Option<AllocationRequestView>,
}

impl View for InitPlan {
    type V = InitPlanView;

    open spec fn view(&self) -> InitPlanView {
        InitPlanView {
            record: self.record@,
            allocation: match self.allocation {
                Some(a) => Some(a@),
                None => None,
            },
        }
    }
}

/// The record a create call stores: initialized, owned by its creator, with
/// the update counter starting at 1.
pub open spec fn spec_fresh_record(owner: Seq<u8>, name: Seq<u8>, message: Seq<u8>) -> UserDataView {
    UserDataView { is_initialized: true, owner, name, message, update_count: 1u64 }
}

/// The message replacement a successful update performs: `message` swapped
/// in, the counter one higher, every other field untouched.
pub open spec fn spec_updated(v: UserDataView, message: Seq<u8>) -> UserDataView {
    UserDataView { message, update_count: (v.update_count + 1) as u64, ..v }
}

/// The create gates in their fixed order, and the plan they yield when all
/// pass: slot-ownership, signature, the two length bounds, and — for an
/// empty slot — the address-integrity check against the derived address.
pub open spec fn spec_initialize_outcome(
    program_id: Seq<u8>,
    owner_key: Seq<u8>,
    owner_is_signer: bool,
    slot_key: Seq<u8>,
    slot_len: int,
    slot_owner_program: Seq<u8>,
    name: Seq<u8>,
    message: Seq<u8>,
) -> Result<InitPlanView, ProcessError> {
    if slot_len != 0 && slot_owner_program != program_id {
        Err(ProcessError::IncorrectProgramId)
    } else if !owner_is_signer {
        Err(ProcessError::MissingRequiredSignature)
    } else if name.len() > MAX_NAME_LENGTH {
        Err(ProcessError::Custom(AccountDemoError::NameTooLong))
    } else if message.len() > MAX_MESSAGE_LENGTH {
        Err(ProcessError::Custom(AccountDemoError::MessageTooLong))
    } else if slot_len == 0 {
        match derived_record_address(program_id, owner_key) {
            None => Err(ProcessError::InvalidArgument),
            Some((address, bump)) => {
                if address@ != slot_key {
                    Err(ProcessError::InvalidArgument)
                } else {
                    Ok(
                        InitPlanView {
                            record: spec_fresh_record(owner_key, name, message),
                            allocation: Some(
                                AllocationRequestView {
                                    address: address@,
                                    bump,
                                    size: spec_size_of(name, message) as u64,
                                },
                            ),
                        },
                    )
                }
            },
        }
    } else {
        Ok(InitPlanView { record: spec_fresh_record(owner_key, name, message), allocation: None })
    }
}

/// The update gates in their fixed order, and the slot bytes a successful
/// update leaves behind: signature, decodability, initialization, owner
/// authorization, the message length bound, and the capacity ceiling. The
/// new encoding overwrites the front of the slot; capacity beyond it keeps
/// its previous bytes.
pub open spec fn spec_update_outcome(
    slot: Seq<u8>,
    owner_key: Seq<u8>,
    owner_is_signer: bool,
    message: Seq<u8>,
) -> Result<Seq<u8>, ProcessError> {
    if !owner_is_signer {
        Err(ProcessError::MissingRequiredSignature)
    } else {
        match spec_decode(slot) {
            None => Err(ProcessError::Custom(AccountDemoError::DataTypeMismatch)),
            Some(v) => {
                if !v.is_initialized {
                    Err(ProcessError::Custom(AccountDemoError::NotInitialized))
                } else if v.owner != owner_key {
                    Err(ProcessError::Custom(AccountDemoError::NotOwner))
                } else if message.len() > MAX_MESSAGE_LENGTH {
                    Err(ProcessError::Custom(AccountDemoError::MessageTooLong))
                } else if spec_size_of(v.name, message) > slot.len() {
                    Err(ProcessError::AccountDataTooSmall)
                } else {
                    Ok(
                        spec_encoded(spec_updated(v, message)) + slot.skip(
                            spec_size_of(v.name, message),
                        ),
                    )
                }
            },
        }
    }
}

/// The record after a whole sequence of successful message replacements,
/// applied first to last.
pub open spec fn spec_after_updates(v: UserDataView, messages: Seq<Seq<u8>>) -> UserDataView
    decreases messages.len(),
{
    if messages.len() == 0 {
        v
    } else {
        spec_after_updates(spec_updated(v, messages[0]), messages.drop_first())
    }
}

/// Each successful update adds exactly 1 to the counter, so a sequence of
/// them adds its length.
proof fn lemma_counter_adds(v: UserDataView, messages: Seq<Seq<u8>>)
    requires
        v.update_count + messages.len() <= u64::MAX,
    ensures
        spec_after_updates(v, messages).update_count == v.update_count + messages.len(),
    decreases messages.len(),
{
    if messages.len() > 0 {
        lemma_counter_adds(spec_updated(v, messages[0]), messages.drop_first());
    }
}

/// Monotonic counter: a create call stores the counter at 1, and after `n`
/// successful updates of that record it reads exactly `n + 1`.
pub proof fn lemma_monotonic_counter(
    owner: Seq<u8>,
    name: Seq<u8>,
    message: Seq<u8>,
    updates: Seq<Seq<u8>>,
)
    requires
        updates.len() + 1 <= u64::MAX,
    ensures
        spec_after_updates(spec_fresh_record(owner, name, message), updates).update_count
            == updates.len() + 1,
{
    lemma_counter_adds(spec_fresh_record(owner, name, message), updates);
}

/// Immutability of name and owner: no sequence of successful updates
/// changes them, nor the initialization flag.
pub proof fn lemma_name_owner_immutable(v: UserDataView, messages: Seq<Seq<u8>>)
    ensures
        spec_after_updates(v, messages).name == v.name,
        spec_after_updates(v, messages).owner == v.owner,
        spec_after_updates(v, messages).is_initialized == v.is_initialized,
    decreases messages.len(),
{
    if messages.len() > 0 {
        lemma_name_owner_immutable(spec_updated(v, messages[0]), messages.drop_first());
    }
}

/// Capacity ceiling: an update whose message would push the encoded size
/// over the slot's fixed capacity fails with the capacity error even when
/// every other gate passes (and, by `process_update_message`'s contract, an
/// update that fails leaves the slot's bytes unchanged).
pub proof fn lemma_capacity_ceiling(
    slot: Seq<u8>,
    owner_key: Seq<u8>,
    message: Seq<u8>,
)
    requires
        spec_decode(slot) matches Some(v) && v.is_initialized && v.owner == owner_key
            && spec_size_of(v.name, message) > slot.len(),
        message.len() <= MAX_MESSAGE_LENGTH,
    ensures
        spec_update_outcome(slot, owner_key, true, message) == Err::<Seq<u8>, ProcessError>(
            ProcessError::AccountDataTooSmall,
        ),
{
}

/// A successful update leaves a slot that still decodes — to exactly the
/// updated record: the new message in place, the counter one higher, and
/// name and owner untouched, whatever capacity the slot has beyond the
/// encoding.
pub proof fn lemma_update_keeps_slot_decodable(slot: Seq<u8>, owner_key: Seq<u8>, message: Seq<u8>)
    requires
        valid_utf8(message),
        spec_update_outcome(slot, owner_key, true, message) is Ok,
    ensures
        spec_decode(slot) is Some,
        spec_decode(spec_update_outcome(slot, owner_key, true, message).unwrap()) == Some(
            spec_updated(spec_decode(slot).unwrap(), message),
        ),
{
    let v = spec_decode(slot).unwrap();
    assert(v.owner.len() == 32);
    assert(v.name.len() <= u32::MAX);
    assert(valid_utf8(v.name));
    lemma_decode_ignores_capacity(
        spec_updated(v, message),
        slot.skip(spec_size_of(v.name, message)),
    );
}

/// Equality of two 32-byte identities.
fn bytes32_eq(a: &[u8; 32], b: &[u8; 32]) -> (r: bool)
    ensures
        r <==> a@ == b@,
{
    let mut i: usize = 0;
    while i < 32
        invariant
            i <= 32,
            forall|j: int| 0 <= j < i ==> a@[j] == b@[j],
        decreases 32 - i,
    {
        if *vstd::array::array_index_get(a, i) != *vstd::array::array_index_get(b, i) {
            return false;
        }
        i += 1;
    }
    proof {
        assert(a@ =~= b@);
    }
    true
}

/// The lifecycle controller.
pub struct Processor;

impl Processor {
    /// Create gate: validates a create call against the slot's current
    /// state and, when every gate passes, yields the plan the caller must
    /// carry out — allocate where the slot is empty, then write the fresh
    /// record. The first failing gate is the whole result; nothing is
    /// mutated here. The field inputs must be UTF-8 bytes, as the data
    /// model demands of them.
    pub fn process_initialize(
        program_id: &[u8; 32],
        owner_key: &[u8; 32],
        owner_is_signer: bool,
        slot_key: &[u8; 32],
        slot_len: usize,
        slot_owner_program: &[u8; 32],
        name: Vec<u8>,
        message: Vec<u8>,
    ) -> (r: Result<InitPlan, ProcessError>)
        requires
            valid_utf8(name@),
            valid_utf8(message@),
        ensures
            match r {
                Ok(plan) => spec_initialize_outcome(
                    program_id@,
                    owner_key@,
                    owner_is_signer,
                    slot_key@,
                    slot_len as int,
                    slot_owner_program@,
                    name@,
                    message@,
                ) == Ok::<InitPlanView, ProcessError>(plan@),
                Err(e) => spec_initialize_outcome(
                    program_id@,
                    owner_key@,
                    owner_is_signer,
                    slot_key@,
                    slot_len as int,
                    slot_owner_program@,
                    name@,
                    message@,
                ) == Err::<InitPlanView, ProcessError>(e),
            },
    {
        if slot_len != 0 && !bytes32_eq(slot_owner_program, program_id) {
            return Err(ProcessError::IncorrectProgramId);
        }
        if !owner_is_signer {
            return Err(ProcessError::MissingRequiredSignature);
        }
        let record = match UserData::new(*owner_key, name, message) {
            Ok(record) => record,
            Err(e) => {
                return Err(e);
            },
        };
        if slot_len == 0 {
            match crate::address::derive(program_id, owner_key) {
                None => Err(ProcessError::InvalidArgument),
                Some((address, bump)) => {
                    if !bytes32_eq(&address, slot_key) {
                        Err(ProcessError::InvalidArgument)
                    } else {
                        let size = UserData::get_size(
                            record.name.as_slice(),
                            record.message.as_slice(),
                        );
                        let plan = InitPlan {
                            record,
                            allocation: Some(
                                AllocationRequest { address, bump, size: size as u64 },
                            ),
                        };
                        proof {
                            assert(spec_initialize_outcome(
                                program_id@,
                                owner_key@,
                                owner_is_signer,
                                slot_key@,
                                slot_len as int,
                                slot_owner_program@,
                                name@,
                                message@,
                            ).unwrap() =~= plan@);
                        }
                        Ok(plan)
                    }
                },
            }
        } else {
            let plan = InitPlan { record, allocation: None };
            proof {
                assert(spec_initialize_outcome(
                    program_id@,
                    owner_key@,
                    owner_is_signer,
                    slot_key@,
                    slot_len as int,
                    slot_owner_program@,
                    name@,
                    message@,
                ).unwrap() =~= plan@);
            }
            Ok(plan)
        }
    }

    /// Update gate: checks signature, decodability, initialization, owner,
    /// message length and the capacity ceiling, in that order, and only
    /// then replaces the message, bumps the counter by exactly 1 and
    /// re-encodes the record over the front of the slot. On any error the
    /// slot is left exactly as it was. The new message must be UTF-8 bytes,
    /// as the data model demands of the field.
    pub fn process_update_message(
        owner_key: &[u8; 32],
        owner_is_signer: bool,
        slot_data: &mut Vec<u8>,
        message: Vec<u8>,
    ) -> (r: Result<(), ProcessError>)
        requires
            valid_utf8(message@),
            spec_decode(old(slot_data)@) matches Some(v) ==> v.update_count < u64::MAX,
        ensures
            match r {
                Ok(()) => spec_update_outcome(
                    old(slot_data)@,
                    owner_key@,
                    owner_is_signer,
                    message@,
                ) == Ok::<Seq<u8>, ProcessError>(final(slot_data)@),
                Err(e) => spec_update_outcome(
                    old(slot_data)@,
                    owner_key@,
                    owner_is_signer,
                    message@,
                ) == Err::<Seq<u8>, ProcessError>(e) && final(slot_data)@ == old(slot_data)@,
            },
    {
        if !owner_is_signer {
            return Err(ProcessError::MissingRequiredSignature);
        }
        let mut user_data = match UserData::safe_deserialize(slot_data.as_slice()) {
            Ok(d) => d,
            Err(_) => {
                return Err(ProcessError::Custom(AccountDemoError::DataTypeMismatch));
            },
        };
        if !user_data.is_initialized {
            return Err(ProcessError::Custom(AccountDemoError::NotInitialized));
        }
        if !bytes32_eq(&user_data.owner, owner_key) {
            return Err(ProcessError::Custom(AccountDemoError::NotOwner));
        }
        if message.len() > MAX_MESSAGE_LENGTH {
            return Err(ProcessError::Custom(AccountDemoError::MessageTooLong));
        }
        proof {
            assert(slot_data@.len() >= 49 + user_data@.name.len() + user_data@.message.len());
        }
        let capacity_left = slot_data.len() - 49 - user_data.name.len();
        if message.len() > capacity_left {
            return Err(ProcessError::AccountDataTooSmall);
        }
        user_data.message = message;
        user_data.update_count = user_data.update_count + 1;
        match Self::write_record(slot_data, &user_data) {
            Ok(()) => Ok(()),
            Err(e) => Err(e),
        }
    }

    /// Writes the record's encoding over the front of the slot, leaving any
    /// capacity beyond it as it was; a record that no longer fits leaves the
    /// slot untouched and reports the capacity error.
    pub fn write_record(slot_data: &mut Vec<u8>, record: &UserData) -> (r: Result<
        (),
        ProcessError,
    >)
        requires
            record@.name.len() <= u32::MAX,
            record@.message.len() <= u32::MAX,
            spec_size_of(record@.name, record@.message) <= usize::MAX,
        ensures
            spec_size_of(record@.name, record@.message) <= old(slot_data)@.len() ==> (r
                == Ok::<(), ProcessError>(()) && final(slot_data)@ == spec_encoded(record@) + old(
                slot_data,
            )@.skip(spec_size_of(record@.name, record@.message))),
            spec_size_of(record@.name, record@.message) > old(slot_data)@.len() ==> (r
                == Err::<(), ProcessError>(ProcessError::AccountDataTooSmall) && final(slot_data)@
                == old(slot_data)@),
    {
        let size = UserData::get_size(record.name.as_slice(), record.message.as_slice());
        if size > slot_data.len() {
            return Err(ProcessError::AccountDataTooSmall);
        }
        let encoded = record.encode();
        let ghost orig = slot_data@;
        let mut i: usize = 0;
        while i < encoded.len()
            invariant
                i <= encoded@.len(),
                encoded@.len() <= slot_data@.len(),
                slot_data@.len() == orig.len(),
                forall|j: int| 0 <= j < i ==> slot_data@[j] == encoded@[j],
                forall|j: int| i <= j < orig.len() ==> slot_data@[j] == orig[j],
            decreases encoded@.len() - i,
        {
            let b = *vstd::slice::slice_index_get(encoded.as_slice(), i);
            slot_data.set(i, b);
            i += 1;
        }
        proof {
            assert(slot_data@ =~= encoded@ + orig.skip(encoded@.len() as int));
        }
        Ok(())
    }
}

} // verus!
