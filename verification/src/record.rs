//! The staging record and its lifecycle.
//!
//! A proof larger than one operation's payload limit is assembled across
//! multiple bounded append operations into an owner-scoped record. The
//! record is created empty with the evaluation point and value fixed up
//! front, grows append-only (never truncated, never reordered, never
//! patched in place), is read by verification without mutation, and is
//! reclaimed only by its owner.

use vstd::prelude::*;

use crate::field::{decode_elem_spec, point_decodes_to, CodecError};
use crate::params::ProofConfig;

verus! {

/// Failure taxonomy of the staging and verification operations. Each kind
/// is distinct and inspectable, never collapsed into a generic failure.
#[derive(Clone, Copy, PartialEq, Eq, Structural, Debug)]
pub enum WhirError {
    /// The staged proof bytes do not parse as a valid transcript prefix
    /// under the expected domain separator.
    CommitmentParseError,
    /// The staged evaluation point or value bytes are malformed.
    DeserializationError,
    /// The transcript parses but the cryptographic check rejects it.
    VerificationFailed,
    /// The commit step cannot run: the polynomial does not match the
    /// declared number of variables.
    CommitmentError,
    /// A mutating or closing operation was attempted by an identity other
    /// than the record's owner.
    NotOwner,
    /// The storage slot already holds a record.
    AlreadyInitialized,
    /// The storage slot holds no live record: never initialized, or
    /// already closed.
    NoRecord,
}

/// What the black-box commitment capability reported for a staged
/// transcript under a given parameter set.
#[derive(Clone, Copy, PartialEq, Eq, Structural, Debug)]
pub enum TranscriptReport {
    /// The transcript does not even parse as a commitment prefix.
    Malformed,
    /// The transcript parses but the cryptographic check rejects it.
    Rejected,
    /// The transcript parses and the cryptographic check accepts it.
    Accepted,
}

/// Proof data staged across multiple operations.
pub struct ProofData {
    /// Identity of the record's owner, fixed at initialization.
    pub payer: Vec<u8>,
    /// The proof bytes assembled so far, in arrival order.
    pub proof: Vec<u8>,
    /// Encoding of the evaluation point, fixed at initialization.
    pub eval_point: Vec<u8>,
    /// Encoding of the claimed evaluation value, fixed at initialization.
    pub eval_value: Vec<u8>,
}

/// Lifecycle stage of a storage slot.
#[derive(Clone, Copy, PartialEq, Eq, Structural, Debug)]
pub enum SlotState {
    /// No record was ever created in this slot.
    Uninitialized,
    /// The slot holds a live record.
    Active,
    /// The record was reclaimed; the slot can no longer be used.
    Closed,
}

/// A storage slot that can hold one staging record end to end:
/// `Uninitialized` to `Active` by `init_proof`, grown by `upload_chunk`,
/// read by `verify`, and `Active` to `Closed` by `close_proof`. Each
/// mutating operation takes the slot by exclusive reference, so
/// operations on one record are serialized while distinct records stay
/// independent.
pub struct ProofSlot {
    /// Lifecycle stage of the slot.
    pub state: SlotState,
    /// The staged record; meaningful only while the slot is `Active`.
    pub record: ProofData,
}

/// Two identities are the same exactly when their bytes are equal.
pub fn same_identity(a: &Vec<u8>, b: &Vec<u8>) -> (r: bool)
    ensures
        r == (a@ == b@),
{
    if a.len() != b.len() {
        return false;
    }
    let mut i: usize = 0;
    while i < a.len()
        invariant
            i <= a@.len(),
            a@.len() == b@.len(),
            forall|j: int| 0 <= j < i ==> a@[j] == b@[j],
        decreases a@.len() - i,
    {
        if a[i] != b[i] {
            return false;
        }
        i += 1;
    }
    proof {
        assert(a@ =~= b@);
    }
    true
}

impl ProofSlot {
    /// A fresh, never-initialized storage slot.
    pub fn new() -> (r: Self)
        ensures
            r.state == SlotState::Uninitialized,
    {
        ProofSlot {
            state: SlotState::Uninitialized,
            record: ProofData {
                payer: Vec::new(),
                proof: Vec::new(),
                eval_point: Vec::new(),
                eval_value: Vec::new(),
            },
        }
    }
}

/// Initializes a storage slot: records the caller as owner, fixes the
/// evaluation point and value, and starts from an empty proof buffer.
/// Callable only once per slot; a second call fails and changes nothing.
pub fn init_proof(
    slot: &mut ProofSlot,
    eval_point_bytes: Vec<u8>,
    eval_value_bytes: Vec<u8>,
    caller: Vec<u8>,
) -> (r: Result<(), WhirError>)
    ensures
        old(slot).state == SlotState::Uninitialized ==> r is Ok
            && final(slot).state == SlotState::Active
            && final(slot).record.payer@ == caller@
            && final(slot).record.proof@.len() == 0
            && final(slot).record.eval_point@ == eval_point_bytes@
            && final(slot).record.eval_value@ == eval_value_bytes@,
        old(slot).state != SlotState::Uninitialized ==> r == Err::<(), WhirError>(
            WhirError::AlreadyInitialized,
        )
            && final(slot).state == old(slot).state
            && final(slot).record.payer@ == old(slot).record.payer@
            && final(slot).record.proof@ == old(slot).record.proof@
            && final(slot).record.eval_point@ == old(slot).record.eval_point@
            && final(slot).record.eval_value@ == old(slot).record.eval_value@,
{
    match slot.state {
        SlotState::Uninitialized => {
            slot.state = SlotState::Active;
            slot.record = ProofData {
                payer: caller,
                proof: Vec::new(),
                eval_point: eval_point_bytes,
                eval_value: eval_value_bytes,
            };
            Ok(())
        },
        _ => Err(WhirError::AlreadyInitialized),
    }
}

/// Appends a chunk to the staged proof. Only the owner may append; the
/// buffer only ever grows, and arrival order defines final byte order.
pub fn upload_chunk(slot: &mut ProofSlot, chunk: &Vec<u8>, caller: &Vec<u8>) -> (r: Result<
    (),
    WhirError,
>)
    ensures
        old(slot).state == SlotState::Active && old(slot).record.payer@ == caller@ ==> r is Ok
            && final(slot).record.proof@ == old(slot).record.proof@ + chunk@,
        old(slot).state == SlotState::Active && old(slot).record.payer@ != caller@ ==> r
            == Err::<(), WhirError>(WhirError::NotOwner)
            && final(slot).record.proof@ == old(slot).record.proof@,
        old(slot).state != SlotState::Active ==> r == Err::<(), WhirError>(WhirError::NoRecord)
            && final(slot).record.proof@ == old(slot).record.proof@,
        final(slot).state == old(slot).state,
        final(slot).record.payer@ == old(slot).record.payer@,
        final(slot).record.eval_point@ == old(slot).record.eval_point@,
        final(slot).record.eval_value@ == old(slot).record.eval_value@,
{
    match slot.state {
        SlotState::Active => {
            if !same_identity(caller, &slot.record.payer) {
                return Err(WhirError::NotOwner);
            }
            let mut i: usize = 0;
            while i < chunk.len()
                invariant
                    i <= chunk@.len(),
                    slot.record.proof@ == old(slot).record.proof@ + chunk@.subrange(0, i as int),
                    slot.state == old(slot).state,
                    slot.record.payer@ == old(slot).record.payer@,
                    slot.record.eval_point@ == old(slot).record.eval_point@,
                    slot.record.eval_value@ == old(slot).record.eval_value@,
                decreases chunk@.len() - i,
            {
                slot.record.proof.push(chunk[i]);
                proof {
                    assert(chunk@.subrange(0, i as int + 1) =~= chunk@.subrange(0, i as int).push(
                        chunk@[i as int],
                    ));
                    assert(slot.record.proof@ =~= old(slot).record.proof@ + chunk@.subrange(
                        0,
                        i as int + 1,
                    ));
                }
                i += 1;
            }
            proof {
                assert(chunk@.subrange(0, chunk@.len() as int) =~= chunk@);
            }
            Ok(())
        },
        _ => Err(WhirError::NoRecord),
    }
}

/// Closes the slot and reclaims the record. Only the owner may close; a
/// closed slot can no longer be appended to, verified, or closed again.
pub fn close_proof(slot: &mut ProofSlot, caller: &Vec<u8>) -> (r: Result<(), WhirError>)
    ensures
        old(slot).state == SlotState::Active && old(slot).record.payer@ == caller@ ==> r is Ok
            && final(slot).state == SlotState::Closed,
        old(slot).state == SlotState::Active && old(slot).record.payer@ != caller@ ==> r
            == Err::<(), WhirError>(WhirError::NotOwner)
            && final(slot).state == old(slot).state
            && final(slot).record.proof@ == old(slot).record.proof@
            && final(slot).record.eval_point@ == old(slot).record.eval_point@
            && final(slot).record.eval_value@ == old(slot).record.eval_value@
            && final(slot).record.payer@ == old(slot).record.payer@,
        old(slot).state != SlotState::Active ==> r == Err::<(), WhirError>(WhirError::NoRecord)
            && final(slot).state == old(slot).state,
{
    match slot.state {
        SlotState::Active => {
            if !same_identity(caller, &slot.record.payer) {
                return Err(WhirError::NotOwner);
            }
            slot.state = SlotState::Closed;
            slot.record = ProofData {
                payer: Vec::new(),
                proof: Vec::new(),
                eval_point: Vec::new(),
                eval_value: Vec::new(),
            };
            Ok(())
        },
        _ => Err(WhirError::NoRecord),
    }
}

/// What `verify` returns, as a function of the slot, the staged bytes and
/// the capability's report: no live record fails with `NoRecord`; an
/// unparseable transcript with `CommitmentParseError`; malformed point or
/// value bytes with `DeserializationError`; a rejected transcript with
/// `VerificationFailed`; otherwise the verification succeeds.
pub open spec fn verify_spec(
    state: SlotState,
    eval_point: Seq<u8>,
    eval_value: Seq<u8>,
    report: TranscriptReport,
) -> Result<(), WhirError> {
    if state != SlotState::Active {
        Err(WhirError::NoRecord)
    } else if report == TranscriptReport::Malformed {
        Err(WhirError::CommitmentParseError)
    } else if eval_point.len() % 16 != 0 {
        Err(WhirError::DeserializationError)
    } else if exists|i: int|
        0 <= i < eval_point.len() / 16 && #[trigger] decode_elem_spec(
            eval_point.subrange(16 * i, 16 * i + 16),
        ) is None {
        Err(WhirError::DeserializationError)
    } else if decode_elem_spec(eval_value) is None {
        Err(WhirError::DeserializationError)
    } else if report == TranscriptReport::Rejected {
        Err(WhirError::VerificationFailed)
    } else {
        Ok(())
    }
}

/// Verifies the staged record under a configuration, given the black-box
/// capability's report on the staged transcript. Read-only: the record is
/// taken by shared reference and never mutated, and the result is a pure
/// function of the record, so re-running it is safe and idempotent.
pub fn verify(slot: &ProofSlot, config: &ProofConfig, report: TranscriptReport) -> (r: Result<
    (),
    WhirError,
>)
    requires
        config.valid(),
    ensures
        r == verify_spec(slot.state, slot.record.eval_point@, slot.record.eval_value@, report),
{
    match slot.state {
        SlotState::Active => {},
        _ => {
            return Err(WhirError::NoRecord);
        },
    }
    if let TranscriptReport::Malformed = report {
        return Err(WhirError::CommitmentParseError);
    }
    match crate::field::decode_point(&slot.record.eval_point) {
        Ok(_) => {},
        Err(_) => {
            return Err(WhirError::DeserializationError);
        },
    }
    match crate::field::decode_element(&slot.record.eval_value) {
        Ok(_) => {},
        Err(_) => {
            return Err(WhirError::DeserializationError);
        },
    }
    if let TranscriptReport::Rejected = report {
        return Err(WhirError::VerificationFailed);
    }
    Ok(())
}

/// Chunk-order sensitivity: appends assemble exactly the in-order
/// concatenation of the chunks, and staging the same two chunks in
/// swapped order assembles the same bytes only when the two
/// concatenations coincide. No ordering metadata is tracked: arrival
/// order alone defines final byte order.
pub proof fn lemma_chunk_order(base: Seq<u8>, a: Seq<u8>, b: Seq<u8>)
    ensures
        (base + a) + b == base + (a + b),
        ((base + a) + b == (base + b) + a) <==> a + b == b + a,
{
    assert((base + a) + b =~= base + (a + b));
    assert((base + b) + a =~= base + (b + a));
    if (base + a) + b == (base + b) + a {
        let n = base.len() as int;
        let t = (base + (a + b)).len() as int;
        assert((base + (a + b)).subrange(n, t) =~= a + b);
        assert((base + (b + a)).subrange(n, t) =~= b + a);
    }
}

/// Idempotent verification: on an unchanged record and an unchanged
/// capability report, every run of `verify` returns the same result.
pub proof fn lemma_verify_idempotent(
    s1: SlotState,
    p1: Seq<u8>,
    v1: Seq<u8>,
    s2: SlotState,
    p2: Seq<u8>,
    v2: Seq<u8>,
    report: TranscriptReport,
)
    requires
        s1 == s2,
        p1 == p2,
        v1 == v2,
    ensures
        verify_spec(s1, p1, v1, report) == verify_spec(s2, p2, v2, report),
{
}

} // verus!
