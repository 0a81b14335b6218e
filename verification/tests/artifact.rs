//! Tests of artifact packaging, local verification, and the end-to-end
//! staging scenario.

use whir_pcs::field::{decode_element, decode_point, FieldElement};
use whir_pcs::params::{create_whir_params, derive_domain_separator, ProofConfig};
use whir_pcs::producer::{
    create_test_polynomial, generate_pcs_proof, package_proof, verify_artifact, verify_proof,
    WhirProof,
};
use whir_pcs::record::{init_proof, upload_chunk, verify, ProofSlot, TranscriptReport, WhirError};

fn scenario_config() -> ProofConfig {
    ProofConfig {
        num_variables: 6,
        security_level: 32,
        pow_bits: 5,
        starting_log_inv_rate: 1,
        folding_factor: 2,
    }
}

fn scenario_point() -> Vec<FieldElement> {
    (1..=6u64).map(|i| FieldElement { c0: i, c1: 0 }).collect()
}

#[test]
fn test_polynomial_coefficients() {
    let poly = create_test_polynomial(6);
    assert_eq!(poly.len(), 64);
    for (i, c) in poly.iter().enumerate() {
        assert_eq!(*c, i as u64);
    }
}

#[test]
fn packaged_artifact_is_well_formed() {
    let point = scenario_point();
    let value = FieldElement { c0: 42, c1: 7 };
    let artifact = package_proof(vec![9, 9, 9], &point, &value, 6);
    assert_eq!(artifact.proof_bytes, vec![9, 9, 9]);
    assert_eq!(artifact.num_variables, 6);
    assert_eq!(artifact.eval_point.len(), 6 * 16);
    assert_eq!(artifact.eval_value.len(), 16);
    // the staged statement decodes back to what was packaged
    assert_eq!(decode_point(&artifact.eval_point).unwrap(), point);
    assert_eq!(decode_element(&artifact.eval_value).unwrap(), value);
}

#[test]
fn generate_packages_matching_polynomial() {
    let config = scenario_config();
    let poly = create_test_polynomial(config.num_variables);
    let point = scenario_point();
    let value = FieldElement { c0: 11, c1: 0 };
    let artifact = generate_pcs_proof(&config, &poly, &point, vec![5, 6, 7], &value)
        .expect("matching polynomial must package");
    assert_eq!(artifact.proof_bytes, vec![5, 6, 7]);
    assert_eq!(artifact.num_variables, 6);
    assert_eq!(decode_point(&artifact.eval_point).unwrap(), point);
    assert_eq!(decode_element(&artifact.eval_value).unwrap(), value);
}

#[test]
fn generate_rejects_oversized_polynomial() {
    let config = scenario_config();
    // one coefficient too many for six variables
    let poly = vec![0u64; 65];
    let r = generate_pcs_proof(
        &config,
        &poly,
        &scenario_point(),
        Vec::new(),
        &FieldElement { c0: 0, c1: 0 },
    );
    assert_eq!(r.unwrap_err(), WhirError::CommitmentError);
}

#[test]
fn verify_artifact_maps_reports() {
    let config = scenario_config();
    let artifact = package_proof(
        vec![1, 2, 3],
        &scenario_point(),
        &FieldElement { c0: 5, c1: 0 },
        6,
    );
    assert_eq!(
        verify_artifact(&config, &artifact, TranscriptReport::Accepted),
        Ok(())
    );
    assert_eq!(
        verify_artifact(&config, &artifact, TranscriptReport::Rejected),
        Err(WhirError::VerificationFailed)
    );
    assert_eq!(
        verify_artifact(&config, &artifact, TranscriptReport::Malformed),
        Err(WhirError::CommitmentParseError)
    );
}

#[test]
fn verify_artifact_rejects_malformed_statement() {
    let config = scenario_config();
    let artifact = WhirProof {
        proof_bytes: vec![1],
        eval_point: vec![0u8; 15],
        eval_value: vec![0u8; 16],
        num_variables: 6,
    };
    assert_eq!(
        verify_artifact(&config, &artifact, TranscriptReport::Accepted),
        Err(WhirError::DeserializationError)
    );
}

#[test]
fn verify_proof_maps_reports() {
    let config = scenario_config();
    let point = scenario_point();
    let value = FieldElement { c0: 5, c1: 0 };
    let artifact = package_proof(vec![1, 2, 3], &point, &value, 6);
    assert_eq!(
        verify_proof(&config, &artifact, &point, &value, TranscriptReport::Accepted),
        Ok(())
    );
    assert_eq!(
        verify_proof(&config, &artifact, &point, &value, TranscriptReport::Rejected),
        Err(WhirError::VerificationFailed)
    );
    assert_eq!(
        verify_proof(&config, &artifact, &point, &value, TranscriptReport::Malformed),
        Err(WhirError::CommitmentParseError)
    );
}

#[test]
fn staged_scenario_end_to_end() {
    // the concrete scenario: six variables, coefficients 0..=63, point
    // (1, 2, 3, 4, 5, 6); the cryptographic transcript itself comes from
    // the external capability, stood in for here by its report
    let config = scenario_config();
    let poly = create_test_polynomial(config.num_variables);
    assert_eq!(poly.len(), 1 << config.num_variables);
    let point = scenario_point();
    let value = FieldElement { c0: 77, c1: 3 };
    let proof_bytes: Vec<u8> = (0u8..=200).collect();
    let artifact = package_proof(proof_bytes.clone(), &point, &value, config.num_variables);

    // both sides derive the same parameters and domain separator
    let producer_ds = derive_domain_separator(&create_whir_params(&config));
    let verifier_ds = derive_domain_separator(&create_whir_params(&config));
    assert_eq!(producer_ds, verifier_ds);

    // stage the artifact across several bounded appends
    let owner = vec![1u8; 32];
    let mut slot = ProofSlot::new();
    init_proof(
        &mut slot,
        artifact.eval_point.clone(),
        artifact.eval_value.clone(),
        owner.clone(),
    )
    .unwrap();
    for chunk in artifact.proof_bytes.chunks(64) {
        upload_chunk(&mut slot, &chunk.to_vec(), &owner).unwrap();
    }
    assert_eq!(slot.record.proof, proof_bytes);

    // a fully staged, well-formed record verifies once the capability
    // accepts, and the same record verifies the same way again
    assert_eq!(verify(&slot, &config, TranscriptReport::Accepted), Ok(()));
    assert_eq!(verify(&slot, &config, TranscriptReport::Accepted), Ok(()));

    // a transcript the capability cannot parse, or rejects, surfaces as
    // the matching distinct error
    assert_eq!(
        verify(&slot, &config, TranscriptReport::Malformed),
        Err(WhirError::CommitmentParseError)
    );
    assert_eq!(
        verify(&slot, &config, TranscriptReport::Rejected),
        Err(WhirError::VerificationFailed)
    );
}
