//! Tests of the staging record lifecycle: initialization, chunked
//! append, ownership enforcement, verification, and reclamation.

use whir_pcs::params::ProofConfig;
use whir_pcs::record::{
    close_proof, init_proof, upload_chunk, verify, ProofSlot, SlotState, TranscriptReport,
    WhirError,
};

fn owner() -> Vec<u8> {
    vec![0xaa; 32]
}

fn stranger() -> Vec<u8> {
    vec![0xbb; 32]
}

fn point_bytes() -> Vec<u8> {
    // one canonical element: both limbs small
    let mut b = vec![0u8; 16];
    b[0] = 3;
    b
}

fn value_bytes() -> Vec<u8> {
    let mut b = vec![0u8; 16];
    b[0] = 9;
    b
}

fn staged_slot() -> ProofSlot {
    let mut slot = ProofSlot::new();
    init_proof(&mut slot, point_bytes(), value_bytes(), owner()).unwrap();
    slot
}

#[test]
fn init_sets_owner_and_empty_proof() {
    let slot = staged_slot();
    assert_eq!(slot.state, SlotState::Active);
    assert_eq!(slot.record.payer, owner());
    assert!(slot.record.proof.is_empty());
    assert_eq!(slot.record.eval_point, point_bytes());
    assert_eq!(slot.record.eval_value, value_bytes());
}

#[test]
fn double_init_fails() {
    let mut slot = staged_slot();
    let r = init_proof(&mut slot, Vec::new(), Vec::new(), stranger());
    assert_eq!(r, Err(WhirError::AlreadyInitialized));
    // and the record is untouched
    assert_eq!(slot.record.payer, owner());
    assert_eq!(slot.record.eval_point, point_bytes());
}

#[test]
fn chunks_append_in_arrival_order() {
    let mut slot = staged_slot();
    upload_chunk(&mut slot, &vec![1, 2, 3], &owner()).unwrap();
    upload_chunk(&mut slot, &vec![4, 5], &owner()).unwrap();
    upload_chunk(&mut slot, &Vec::new(), &owner()).unwrap();
    upload_chunk(&mut slot, &vec![6], &owner()).unwrap();
    assert_eq!(slot.record.proof, vec![1, 2, 3, 4, 5, 6]);
}

#[test]
fn chunk_order_changes_assembled_bytes() {
    let mut a = staged_slot();
    upload_chunk(&mut a, &vec![1, 2, 3], &owner()).unwrap();
    upload_chunk(&mut a, &vec![4, 5], &owner()).unwrap();

    // same byte set, chunks staged in swapped order
    let mut b = staged_slot();
    upload_chunk(&mut b, &vec![4, 5], &owner()).unwrap();
    upload_chunk(&mut b, &vec![1, 2, 3], &owner()).unwrap();

    assert_eq!(a.record.proof, vec![1, 2, 3, 4, 5]);
    assert_eq!(b.record.proof, vec![4, 5, 1, 2, 3]);
    assert_ne!(a.record.proof, b.record.proof);

    // split points that reconstruct the original byte order agree
    let mut c = staged_slot();
    upload_chunk(&mut c, &vec![1], &owner()).unwrap();
    upload_chunk(&mut c, &vec![2, 3, 4], &owner()).unwrap();
    upload_chunk(&mut c, &vec![5], &owner()).unwrap();
    assert_eq!(a.record.proof, c.record.proof);
}

#[test]
fn append_by_stranger_fails_with_not_owner() {
    let mut slot = staged_slot();
    upload_chunk(&mut slot, &vec![1, 2], &owner()).unwrap();
    let r = upload_chunk(&mut slot, &vec![3, 4], &stranger());
    assert_eq!(r, Err(WhirError::NotOwner));
    // regardless of chunk content
    let r = upload_chunk(&mut slot, &Vec::new(), &stranger());
    assert_eq!(r, Err(WhirError::NotOwner));
    // and the staged bytes are untouched
    assert_eq!(slot.record.proof, vec![1, 2]);
}

#[test]
fn close_by_stranger_fails_with_not_owner() {
    let mut slot = staged_slot();
    let r = close_proof(&mut slot, &stranger());
    assert_eq!(r, Err(WhirError::NotOwner));
    assert_eq!(slot.state, SlotState::Active);
}

#[test]
fn close_then_use_fails() {
    let mut slot = staged_slot();
    close_proof(&mut slot, &owner()).unwrap();
    assert_eq!(slot.state, SlotState::Closed);
    assert_eq!(
        upload_chunk(&mut slot, &vec![1], &owner()),
        Err(WhirError::NoRecord)
    );
    assert_eq!(close_proof(&mut slot, &owner()), Err(WhirError::NoRecord));
    assert_eq!(
        verify(&slot, &ProofConfig::default(), TranscriptReport::Accepted),
        Err(WhirError::NoRecord)
    );
}

#[test]
fn operations_on_uninitialized_slot_fail() {
    let mut slot = ProofSlot::new();
    assert_eq!(
        upload_chunk(&mut slot, &vec![1], &owner()),
        Err(WhirError::NoRecord)
    );
    assert_eq!(close_proof(&mut slot, &owner()), Err(WhirError::NoRecord));
    assert_eq!(
        verify(&slot, &ProofConfig::default(), TranscriptReport::Accepted),
        Err(WhirError::NoRecord)
    );
}

#[test]
fn verify_maps_reports_to_error_kinds() {
    let config = ProofConfig::default();
    let mut slot = staged_slot();
    upload_chunk(&mut slot, &vec![1, 2, 3], &owner()).unwrap();
    assert_eq!(verify(&slot, &config, TranscriptReport::Accepted), Ok(()));
    assert_eq!(
        verify(&slot, &config, TranscriptReport::Rejected),
        Err(WhirError::VerificationFailed)
    );
    assert_eq!(
        verify(&slot, &config, TranscriptReport::Malformed),
        Err(WhirError::CommitmentParseError)
    );
}

#[test]
fn verify_rejects_malformed_staged_statement() {
    let config = ProofConfig::default();
    // point bytes not a multiple of the element size
    let mut slot = ProofSlot::new();
    init_proof(&mut slot, vec![0u8; 15], value_bytes(), owner()).unwrap();
    assert_eq!(
        verify(&slot, &config, TranscriptReport::Accepted),
        Err(WhirError::DeserializationError)
    );
    // value bytes out of the canonical range
    let mut slot = ProofSlot::new();
    init_proof(&mut slot, point_bytes(), vec![0xff; 16], owner()).unwrap();
    assert_eq!(
        verify(&slot, &config, TranscriptReport::Accepted),
        Err(WhirError::DeserializationError)
    );
    // a parse failure is reported before the statement is decoded
    assert_eq!(
        verify(&slot, &config, TranscriptReport::Malformed),
        Err(WhirError::CommitmentParseError)
    );
}

#[test]
fn verify_is_idempotent_and_read_only() {
    let config = ProofConfig::default();
    let mut slot = staged_slot();
    upload_chunk(&mut slot, &vec![7, 7, 7], &owner()).unwrap();
    let before_proof = slot.record.proof.clone();
    let r1 = verify(&slot, &config, TranscriptReport::Accepted);
    let r2 = verify(&slot, &config, TranscriptReport::Accepted);
    let r3 = verify(&slot, &config, TranscriptReport::Accepted);
    assert_eq!(r1, r2);
    assert_eq!(r2, r3);
    assert_eq!(slot.record.proof, before_proof);
    assert_eq!(slot.record.eval_point, point_bytes());
    assert_eq!(slot.record.eval_value, value_bytes());
    assert_eq!(slot.state, SlotState::Active);
}
