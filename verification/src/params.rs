//! Protocol configuration and the parameter codec.
//!
//! A [`ProofConfig`] is a small tuple of integers that fully determines the
//! protocol parameters. [`create_whir_params`] derives the round structure
//! from it, and [`derive_domain_separator`] renders the parameters into the
//! canonical, order-sensitive byte sequence that producer and consumer must
//! reproduce bit for bit: a 64-byte protocol tag squeezed from the fixed
//! label, then the statement-shape binding, then the proof-shape binding.

use vstd::prelude::*;

use spongefish::DuplexSpongeInterface;

use crate::field::{le_bytes, le_value, lemma_le_bytes_len, lemma_le_round_trip, pow256};

verus! {

/// Number of variables in the multilinear polynomial.
pub const NUM_VARIABLES: usize = 6;

/// Security level in bits.
pub const SECURITY_LEVEL_BITS: usize = 100;

/// Starting log inverse rate for Reed-Solomon encoding.
pub const STARTING_LOG_INV_RATE: usize = 1;

/// Folding factor for the protocol.
pub const FOLDING_FACTOR: usize = 4;

/// Default proof-of-work bits for the default number of variables and
/// starting rate.
pub const POW_BITS: usize = 4;

/// Length in bytes of the protocol tag squeezed from the label.
pub const PROTOCOL_TAG_BYTES: usize = 64;

/// Configuration for proof generation and verification. Producer and
/// verifier must be constructed from identical configurations, or the
/// derived domain separators diverge and every verification fails.
#[derive(Clone, Copy, PartialEq, Eq, Structural, Debug)]
pub struct ProofConfig {
    pub num_variables: usize,
    pub security_level: usize,
    pub pow_bits: usize,
    pub starting_log_inv_rate: usize,
    pub folding_factor: usize,
}

impl ProofConfig {
    /// Every field is validated into an eight-bit range instead of being
    /// silently truncated, and degenerate shapes (no variables, no
    /// folding, a fold wider than the polynomial) are rejected.
    pub open spec fn valid(self) -> bool {
        &&& 1 <= self.num_variables <= 255
        &&& 1 <= self.security_level <= 255
        &&& self.pow_bits <= 255
        &&& self.starting_log_inv_rate <= 255
        &&& 1 <= self.folding_factor <= self.num_variables
    }

    /// Checks that the configuration is within the validated ranges.
    pub fn validate(&self) -> (r: bool)
        ensures
            r == self.valid(),
    {
        1 <= self.num_variables && self.num_variables <= 255 && 1 <= self.security_level
            && self.security_level <= 255 && self.pow_bits <= 255 && self.starting_log_inv_rate
            <= 255 && 1 <= self.folding_factor && self.folding_factor <= self.num_variables
    }
}

impl Default for ProofConfig {
    /// The stock configuration.
    fn default() -> (r: Self)
        ensures
            r == (ProofConfig {
                num_variables: NUM_VARIABLES,
                security_level: SECURITY_LEVEL_BITS,
                pow_bits: POW_BITS,
                starting_log_inv_rate: STARTING_LOG_INV_RATE,
                folding_factor: FOLDING_FACTOR,
            }),
            r.valid(),
    {
        ProofConfig {
            num_variables: NUM_VARIABLES,
            security_level: SECURITY_LEVEL_BITS,
            pow_bits: POW_BITS,
            starting_log_inv_rate: STARTING_LOG_INV_RATE,
            folding_factor: FOLDING_FACTOR,
        }
    }
}

/// Protocol parameters derived from a configuration: the configuration
/// itself plus the folding-round structure it implies.
#[derive(Clone, Copy, PartialEq, Eq, Structural, Debug)]
pub struct WhirParams {
    pub num_variables: usize,
    pub security_level: usize,
    pub pow_bits: usize,
    pub starting_log_inv_rate: usize,
    pub folding_factor: usize,
    /// Number of full folding rounds, each reducing the variable count by
    /// the folding factor.
    pub n_rounds: usize,
    /// Variables left over after the last full folding round.
    pub final_num_variables: usize,
}

/// The parameters a configuration determines: a pure function of the
/// configuration, so two identical configurations always derive
/// byte-identical domain separators.
pub open spec fn params_spec(c: ProofConfig) -> WhirParams {
    WhirParams {
        num_variables: c.num_variables,
        security_level: c.security_level,
        pow_bits: c.pow_bits,
        starting_log_inv_rate: c.starting_log_inv_rate,
        folding_factor: c.folding_factor,
        n_rounds: (c.num_variables / c.folding_factor) as usize,
        final_num_variables: (c.num_variables % c.folding_factor) as usize,
    }
}

impl WhirParams {
    /// A well-formed parameter set is one derived from a valid
    /// configuration.
    pub open spec fn wf(self) -> bool {
        exists|c: ProofConfig| c.valid() && self == params_spec(c)
    }

    /// The configuration this parameter set was derived from.
    pub open spec fn config(self) -> ProofConfig {
        ProofConfig {
            num_variables: self.num_variables,
            security_level: self.security_level,
            pow_bits: self.pow_bits,
            starting_log_inv_rate: self.starting_log_inv_rate,
            folding_factor: self.folding_factor,
        }
    }
}

/// Builds the protocol parameters from a configuration. Deterministic and
/// side-effect-free: equal configurations give equal parameters.
pub fn create_whir_params(config: &ProofConfig) -> (r: WhirParams)
    requires
        config.valid(),
    ensures
        r == params_spec(*config),
        r.wf(),
        r.config() == *config,
{
    let r = WhirParams {
        num_variables: config.num_variables,
        security_level: config.security_level,
        pow_bits: config.pow_bits,
        starting_log_inv_rate: config.starting_log_inv_rate,
        folding_factor: config.folding_factor,
        n_rounds: config.num_variables / config.folding_factor,
        final_num_variables: config.num_variables % config.folding_factor,
    };
    proof {
        assert(r == params_spec(*config));
    }
    r
}

/// The fixed protocol label bound into every domain separator.
pub open spec fn label_seq() -> Seq<u8> {
    seq![119u8, 104u8, 105u8, 114u8, 45u8, 115u8, 111u8, 108u8, 97u8, 110u8, 97u8]
}

/// Builds the fixed protocol label, the ASCII bytes of `whir-solana`.
pub fn protocol_label() -> (r: Vec<u8>)
    ensures
        r@ == label_seq(),
{
    let mut out: Vec<u8> = Vec::new();
    out.push(119);
    out.push(104);
    out.push(105);
    out.push(114);
    out.push(45);
    out.push(115);
    out.push(111);
    out.push(108);
    out.push(97);
    out.push(110);
    out.push(97);
    proof {
        assert(out@ =~= label_seq());
    }
    out
}

/// The 64 bytes the duplex sponge squeezes after absorbing the given
/// bytes: a function of the absorbed bytes alone.
pub uninterp spec fn sponge_tag_of(input: Seq<u8>) -> Seq<u8>;

/// Relies on spongefish's standard duplex sponge (`StdHash`, a SHAKE128
/// extendable-output function): absorbing the input and squeezing fills
/// the 64-byte output buffer, and the squeezed bytes depend on the
/// absorbed bytes alone.
#[verifier::external_body]
fn sponge_tag(input: &Vec<u8>) -> (r: Vec<u8>)
    ensures
        r@ == sponge_tag_of(input@),
        r@.len() == PROTOCOL_TAG_BYTES,
{
    let mut sponge = spongefish::StdHash::default();
    sponge.absorb(input);
    let mut out = vec![0u8; 64];
    sponge.squeeze(&mut out);
    out
}

/// Binding of the statement and commitment shape: a marker byte, then the
/// number of variables as eight little-endian bytes.
pub open spec fn statement_binding(p: WhirParams) -> Seq<u8> {
    seq![83u8] + le_bytes(p.num_variables as nat, 8)
}

/// Binding of the proof shape: a marker byte, then the folding factor,
/// round count, final variable count, proof-of-work bits, security level
/// and starting rate, each as eight little-endian bytes.
pub open spec fn proof_binding(p: WhirParams) -> Seq<u8> {
    seq![80u8] + le_bytes(p.folding_factor as nat, 8) + le_bytes(p.n_rounds as nat, 8) + le_bytes(
        p.final_num_variables as nat,
        8,
    ) + le_bytes(p.pow_bits as nat, 8) + le_bytes(p.security_level as nat, 8) + le_bytes(
        p.starting_log_inv_rate as nat,
        8,
    )
}

/// The canonical domain separator of a parameter set: the protocol tag
/// squeezed from the label, then the statement-shape binding, then the
/// proof-shape binding, in that fixed, non-commutative order.
pub open spec fn domsep_spec(p: WhirParams) -> Seq<u8> {
    sponge_tag_of(label_seq()) + statement_binding(p) + proof_binding(p)
}

/// Appends the eight little-endian bytes of `v`, given as a `usize`.
fn push_usize_le(out: &mut Vec<u8>, v: usize)
    ensures
        final(out)@ == old(out)@ + le_bytes(v as nat, 8),
{
    crate::field::push_u64_le(out, v as u64);
}

/// Renders the parameters into the canonical domain separator. The
/// statement-shape transform is applied before the proof-shape transform;
/// the two do not commute, and swapping them changes the bytes.
pub fn derive_domain_separator(params: &WhirParams) -> (r: Vec<u8>)
    ensures
        r@ == domsep_spec(*params),
{
    let label = protocol_label();
    let mut out = sponge_tag(&label);
    let ghost tag = out@;
    out.push(83);
    push_usize_le(&mut out, params.num_variables);
    let ghost stmt = out@;
    proof {
        assert(stmt =~= tag + statement_binding(*params));
    }
    out.push(80);
    push_usize_le(&mut out, params.folding_factor);
    push_usize_le(&mut out, params.n_rounds);
    push_usize_le(&mut out, params.final_num_variables);
    push_usize_le(&mut out, params.pow_bits);
    push_usize_le(&mut out, params.security_level);
    push_usize_le(&mut out, params.starting_log_inv_rate);
    proof {
        assert(out@ =~= tag + statement_binding(*params) + proof_binding(*params));
    }
    out
}

/// Determinism of parameters: identical configurations derive identical
/// parameters and byte-identical domain separators.
pub proof fn lemma_parameters_deterministic(c1: ProofConfig, c2: ProofConfig)
    requires
        c1 == c2,
    ensures
        params_spec(c1) == params_spec(c2),
        domsep_spec(params_spec(c1)) == domsep_spec(params_spec(c2)),
{
}

/// Usize values fit in eight little-endian bytes.
proof fn lemma_usize_fits(v: usize)
    ensures
        (v as nat) < pow256(8),
{
    reveal_with_fuel(pow256, 9);
    assert(v as nat <= usize::MAX as nat);
}

/// The domain separator commits to the whole configuration: two valid
/// configurations with byte-identical domain separators are equal, so a
/// producer/verifier parameter mismatch always diverges the separators.
pub proof fn lemma_domain_separator_injective(c1: ProofConfig, c2: ProofConfig)
    requires
        c1.valid(),
        c2.valid(),
        domsep_spec(params_spec(c1)) == domsep_spec(params_spec(c2)),
    ensures
        c1 == c2,
{
    let p1 = params_spec(c1);
    let p2 = params_spec(c2);
    let t = sponge_tag_of(label_seq());
    let tl = t.len() as int;
    let d1 = domsep_spec(p1);
    let d2 = domsep_spec(p2);
    lemma_binding_lens(p1);
    lemma_binding_lens(p2);
    assert(d1.len() == t.len() + 9 + 49);
    // the statement binding occupies the nine bytes after the tag, and
    // the proof binding the forty-nine after that, in both separators
    assert(d1.subrange(tl, tl + 9) =~= statement_binding(p1));
    assert(d1.subrange(tl + 9, tl + 58) =~= proof_binding(p1));
    assert(d2.subrange(tl, tl + 9) =~= statement_binding(p2));
    assert(d2.subrange(tl + 9, tl + 58) =~= proof_binding(p2));
    assert(statement_binding(p1) == statement_binding(p2));
    assert(proof_binding(p1) == proof_binding(p2));
    lemma_statement_binding_fields(p1, p2);
    lemma_proof_binding_fields(p1, p2);
}

/// Lengths of the two binding transforms: nine bytes for the statement
/// shape, forty-nine for the proof shape.
proof fn lemma_binding_lens(p: WhirParams)
    ensures
        statement_binding(p).len() == 9,
        proof_binding(p).len() == 49,
{
    lemma_le_bytes_len(p.num_variables as nat, 8);
    lemma_le_bytes_len(p.folding_factor as nat, 8);
    lemma_le_bytes_len(p.n_rounds as nat, 8);
    lemma_le_bytes_len(p.final_num_variables as nat, 8);
    lemma_le_bytes_len(p.pow_bits as nat, 8);
    lemma_le_bytes_len(p.security_level as nat, 8);
    lemma_le_bytes_len(p.starting_log_inv_rate as nat, 8);
}

/// Equal statement bindings pin the variable count.
proof fn lemma_statement_binding_fields(p1: WhirParams, p2: WhirParams)
    requires
        statement_binding(p1) == statement_binding(p2),
    ensures
        p1.num_variables == p2.num_variables,
{
    lemma_binding_lens(p1);
    lemma_binding_lens(p2);
    let s1 = statement_binding(p1);
    let s2 = statement_binding(p2);
    assert(s1.subrange(1, 9) =~= le_bytes(p1.num_variables as nat, 8));
    assert(s2.subrange(1, 9) =~= le_bytes(p2.num_variables as nat, 8));
    lemma_usize_fits(p1.num_variables);
    lemma_usize_fits(p2.num_variables);
    lemma_le_round_trip(p1.num_variables as nat, 8);
    lemma_le_round_trip(p2.num_variables as nat, 8);
}

/// Equal proof bindings pin every remaining parameter field.
proof fn lemma_proof_binding_fields(p1: WhirParams, p2: WhirParams)
    requires
        proof_binding(p1) == proof_binding(p2),
    ensures
        p1.folding_factor == p2.folding_factor,
        p1.n_rounds == p2.n_rounds,
        p1.final_num_variables == p2.final_num_variables,
        p1.pow_bits == p2.pow_bits,
        p1.security_level == p2.security_level,
        p1.starting_log_inv_rate == p2.starting_log_inv_rate,
{
    lemma_binding_lens(p1);
    lemma_binding_lens(p2);
    let s1 = proof_binding(p1);
    let s2 = proof_binding(p2);
    lemma_proof_binding_field_at(p1, 1, p1.folding_factor);
    lemma_proof_binding_field_at(p2, 1, p2.folding_factor);
    lemma_proof_binding_field_at(p1, 9, p1.n_rounds);
    lemma_proof_binding_field_at(p2, 9, p2.n_rounds);
    lemma_proof_binding_field_at(p1, 17, p1.final_num_variables);
    lemma_proof_binding_field_at(p2, 17, p2.final_num_variables);
    lemma_proof_binding_field_at(p1, 25, p1.pow_bits);
    lemma_proof_binding_field_at(p2, 25, p2.pow_bits);
    lemma_proof_binding_field_at(p1, 33, p1.security_level);
    lemma_proof_binding_field_at(p2, 33, p2.security_level);
    lemma_proof_binding_field_at(p1, 41, p1.starting_log_inv_rate);
    lemma_proof_binding_field_at(p2, 41, p2.starting_log_inv_rate);
}

/// The eight bytes of the proof binding at `off` recover the parameter
/// field written there.
proof fn lemma_proof_binding_field_at(p: WhirParams, off: int, v: usize)
    requires
        proof_binding(p).len() == 49,
        off == 1 && v == p.folding_factor || off == 9 && v == p.n_rounds || off == 17 && v
            == p.final_num_variables || off == 25 && v == p.pow_bits || off == 33 && v
            == p.security_level || off == 41 && v == p.starting_log_inv_rate,
    ensures
        le_value(proof_binding(p).subrange(off, off + 8)) == v as nat,
{
    lemma_le_bytes_len(p.folding_factor as nat, 8);
    lemma_le_bytes_len(p.n_rounds as nat, 8);
    lemma_le_bytes_len(p.final_num_variables as nat, 8);
    lemma_le_bytes_len(p.pow_bits as nat, 8);
    lemma_le_bytes_len(p.security_level as nat, 8);
    lemma_le_bytes_len(p.starting_log_inv_rate as nat, 8);
    assert(proof_binding(p).subrange(off, off + 8) =~= le_bytes(v as nat, 8));
    lemma_usize_fits(v);
    lemma_le_round_trip(v as nat, 8);
}

} // verus!
