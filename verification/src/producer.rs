//! Proof artifacts and the producer-facing operations.
//!
//! The heavy cryptographic work — committing, proving, parsing a
//! commitment, checking a transcript — is an external capability. This
//! module holds what can be pinned down around it: packaging a produced
//! transcript and statement into a transportable artifact, and mapping the
//! capability's report on an artifact into the failure taxonomy.

use vstd::prelude::*;

use crate::field::{
    decode_elem_spec, elem_bytes, encode_element, encode_point, point_bytes, point_is_canonical,
    FieldElement, MODULUS,
};
use crate::params::ProofConfig;
use crate::record::{TranscriptReport, WhirError};

verus! {

/// A serializable proof artifact: the transcript bytes, the encoded
/// evaluation point and value, and the variable count.
#[derive(Clone, Debug)]
pub struct WhirProof {
    /// The serialized proof bytes.
    pub proof_bytes: Vec<u8>,
    /// The polynomial evaluation point.
    pub eval_point: Vec<u8>,
    /// The claimed evaluation value.
    pub eval_value: Vec<u8>,
    /// Number of variables in the polynomial.
    pub num_variables: usize,
}

impl WhirProof {
    /// A well-formed artifact: one fixed-width element encoding per
    /// variable in the point, and exactly one in the value.
    pub open spec fn wf(self) -> bool {
        &&& self.eval_point@.len() == 16 * self.num_variables
        &&& self.eval_value@.len() == 16
    }
}

/// Builds the coefficient list of the test polynomial: coefficient `i` of
/// the base prime field for each of the `2^num_variables` coefficients.
pub fn create_test_polynomial(num_variables: usize) -> (r: Vec<u64>)
    requires
        num_variables < 30,
    ensures
        r@.len() == 1usize << num_variables,
        forall|i: int| 0 <= i < r@.len() ==> r@[i] == i && r@[i] < MODULUS,
{
    proof {
        assert(1usize << num_variables < 0x40000000usize) by (bit_vector)
            requires
                num_variables < 30,
        ;
    }
    let num_coeffs: usize = 1usize << num_variables;
    let mut out: Vec<u64> = Vec::new();
    let mut i: usize = 0;
    while i < num_coeffs
        invariant
            i <= num_coeffs,
            num_coeffs < 0x40000000,
            out@.len() == i,
            forall|j: int| 0 <= j < i ==> out@[j] == j && out@[j] < MODULUS,
        decreases num_coeffs - i,
    {
        out.push(i as u64);
        i += 1;
    }
    out
}

/// Packages a produced transcript and its statement into a transportable
/// artifact: the proof bytes as produced, the point and value in their
/// canonical encodings, and the variable count.
pub fn package_proof(
    proof_bytes: Vec<u8>,
    eval_point: &Vec<FieldElement>,
    eval_value: &FieldElement,
    num_variables: usize,
) -> (r: WhirProof)
    requires
        eval_point@.len() == num_variables,
    ensures
        r.proof_bytes@ == proof_bytes@,
        r.eval_point@ == point_bytes(eval_point@),
        r.eval_value@ == elem_bytes(*eval_value),
        r.num_variables == num_variables,
        r.wf(),
{
    let eval_point_bytes = encode_point(eval_point);
    let eval_value_bytes = encode_element(eval_value);
    WhirProof {
        proof_bytes,
        eval_point: eval_point_bytes,
        eval_value: eval_value_bytes,
        num_variables,
    }
}

/// Produces a transportable proof artifact from the capability's output.
/// Committing and proving are the black-box capability's work; what can
/// be pinned down here stands before and after it: the commit step can
/// only run when the coefficient list matches the declared number of
/// variables, and on success the artifact carries the transcript bytes
/// as produced together with the canonical encodings of the statement.
pub fn generate_pcs_proof(
    config: &ProofConfig,
    polynomial: &Vec<u64>,
    eval_point: &Vec<FieldElement>,
    transcript: Vec<u8>,
    expected_value: &FieldElement,
) -> (r: Result<WhirProof, WhirError>)
    requires
        config.valid(),
        eval_point@.len() == config.num_variables,
    ensures
        r is Ok <==> config.num_variables < 30 && polynomial@.len() == 1usize
            << config.num_variables,
        r is Err ==> r->Err_0 == WhirError::CommitmentError,
        r is Ok ==> r->Ok_0.proof_bytes@ == transcript@ && r->Ok_0.eval_point@ == point_bytes(
            eval_point@,
        ) && r->Ok_0.eval_value@ == elem_bytes(*expected_value) && r->Ok_0.num_variables
            == config.num_variables && r->Ok_0.wf(),
{
    let nv: usize = config.num_variables;
    if nv >= 30 {
        return Err(WhirError::CommitmentError);
    }
    proof {
        assert(1usize << nv < 0x40000000usize) by (bit_vector)
            requires
                nv < 30,
        ;
    }
    let num_coeffs: usize = 1usize << nv;
    if polynomial.len() != num_coeffs {
        return Err(WhirError::CommitmentError);
    }
    Ok(package_proof(transcript, eval_point, expected_value, config.num_variables))
}

/// An artifact packaged from a canonical statement decodes back to that
/// statement: its staged bytes can never fail deserialization.
pub proof fn lemma_packaged_artifact_decodes(eval_point: Seq<FieldElement>, eval_value: FieldElement)
    requires
        point_is_canonical(eval_point),
        eval_value.is_canonical(),
    ensures
        crate::field::point_decodes_to(point_bytes(eval_point), eval_point),
        decode_elem_spec(elem_bytes(eval_value)) == Some(eval_value),
{
    crate::field::lemma_point_round_trip(eval_point);
    crate::field::lemma_element_round_trip(eval_value);
}

/// What the local verification of an artifact returns, as a function of
/// the artifact's bytes and the capability's report.
pub open spec fn verify_artifact_spec(
    eval_point: Seq<u8>,
    eval_value: Seq<u8>,
    report: TranscriptReport,
) -> Result<(), WhirError> {
    crate::record::verify_spec(crate::record::SlotState::Active, eval_point, eval_value, report)
}

/// Verifies an artifact under a configuration, given the capability's
/// report on its transcript: an unparseable transcript fails with
/// `CommitmentParseError`, malformed point or value bytes with
/// `DeserializationError`, a rejected transcript with
/// `VerificationFailed`, and otherwise verification succeeds. The
/// configuration must equal the producer's: a mismatch surfaces only as a
/// failing report, not as a distinct error.
pub fn verify_artifact(
    config: &ProofConfig,
    artifact: &WhirProof,
    report: TranscriptReport,
) -> (r: Result<(), WhirError>)
    requires
        config.valid(),
    ensures
        r == verify_artifact_spec(artifact.eval_point@, artifact.eval_value@, report),
{
    if let TranscriptReport::Malformed = report {
        return Err(WhirError::CommitmentParseError);
    }
    match crate::field::decode_point(&artifact.eval_point) {
        Ok(_) => {},
        Err(_) => {
            return Err(WhirError::DeserializationError);
        },
    }
    match crate::field::decode_element(&artifact.eval_value) {
        Ok(_) => {},
        Err(_) => {
            return Err(WhirError::DeserializationError);
        },
    }
    if let TranscriptReport::Rejected = report {
        return Err(WhirError::VerificationFailed);
    }
    Ok(())
}

/// Verifies a proof against an already-decoded statement, given the
/// capability's report: nothing is deserialized here, so the result is
/// the exact mapping of the report into the failure taxonomy.
pub fn verify_proof(
    config: &ProofConfig,
    proof: &WhirProof,
    eval_point: &Vec<FieldElement>,
    eval_value: &FieldElement,
    report: TranscriptReport,
) -> (r: Result<(), WhirError>)
    requires
        config.valid(),
    ensures
        report == TranscriptReport::Malformed <==> r == Err::<(), WhirError>(
            WhirError::CommitmentParseError,
        ),
        report == TranscriptReport::Rejected <==> r == Err::<(), WhirError>(
            WhirError::VerificationFailed,
        ),
        report == TranscriptReport::Accepted <==> r is Ok,
{
    match report {
        TranscriptReport::Malformed => Err(WhirError::CommitmentParseError),
        TranscriptReport::Rejected => Err(WhirError::VerificationFailed),
        TranscriptReport::Accepted => Ok(()),
    }
}

} // verus!
