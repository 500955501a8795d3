//! Proof artifacts of the example circuit and their verification.
//!
//! Proving produces two byte strings — the serialized verifying key and the
//! serialized proof — which are bundled for transport as JSON byte arrays.
//! Verification consumes only those two byte strings and decides validity;
//! the decision is Groth16's over the BLS12-381 pairing, reached through
//! the proving library, and is a deterministic function of the bytes alone.

use crate::encoding::encode_bytes;
use crate::encoding::json_of_bytes;
use vstd::prelude::*;

verus! {

/// The serialized proof artifacts, each a JSON byte-array string: the
/// verifying key and the proof.
pub struct Output {
    pub verify_key: String,
    pub proof: String,
}

/// Bundles serialized verifying-key and proof bytes for transport.
pub fn output_from_parts(verify_key_bytes: &Vec<u8>, proof_bytes: &Vec<u8>) -> (out: Output)
    ensures
        out.verify_key@ == json_of_bytes(verify_key_bytes@),
        out.proof@ == json_of_bytes(proof_bytes@),
{
    Output { verify_key: encode_bytes(verify_key_bytes), proof: encode_bytes(proof_bytes) }
}

/// Why verification rejected.
#[derive(Debug, PartialEq, Eq, Structural)]
pub enum VerifyError {
    /// The verifying key or the proof bytes do not parse.
    MalformedInput,
    /// The pairing check rejected the proof.
    InvalidProof,
}

/// Whether these verifying-key and proof bytes both parse as the proving
/// library's fixed encodings: a deterministic function of the two byte
/// strings alone.
pub uninterp spec fn groth16_parses(verify_key: Seq<u8>, proof: Seq<u8>) -> bool;

/// What Groth16 verification decides for these verifying-key and proof
/// bytes, over the BLS12-381 pairing with no public inputs: a deterministic
/// function of the two byte strings alone.
pub uninterp spec fn groth16_accepts(verify_key: Seq<u8>, proof: Seq<u8>) -> bool;

/// Relies on bellman's groth16 module: VerifyingKey::read and Proof::read
/// parse the library's fixed encodings deterministically, failing with an
/// error exactly on malformed bytes; prepare_verifying_key and verify_proof
/// then decide validity from the parsed values alone, so both the parse
/// outcome and the decision are functions of the input bytes.
/// Returns None exactly when either byte string fails to parse.
#[verifier::external_body]
fn groth16_verify_bytes(verify_key: &[u8], proof: &[u8]) -> (r: Option<bool>)
    ensures
        r is Some <==> groth16_parses(verify_key@, proof@),
        r matches Some(valid) ==> valid == groth16_accepts(verify_key@, proof@),
{
    let vk = match bellman::groth16::VerifyingKey::<bls12_381::Bls12>::read(verify_key) {
        Ok(vk) => vk,
        Err(_) => return None,
    };
    let parsed = match bellman::groth16::Proof::<bls12_381::Bls12>::read(proof) {
        Ok(p) => p,
        Err(_) => return None,
    };
    let pvk = bellman::groth16::prepare_verifying_key(&vk);
    Some(bellman::groth16::verify_proof(&pvk, &parsed, &[]).is_ok())
}

/// Checks a serialized proof against a serialized verifying key: succeeds
/// exactly on the pairs of byte strings that parse and that Groth16 accepts,
/// and tells a rejected proof apart from bytes that do not parse.
pub fn verify(verify_key: &[u8], proof: &[u8]) -> (r: Result<(), VerifyError>)
    ensures
        r is Ok <==> groth16_parses(verify_key@, proof@) && groth16_accepts(
            verify_key@,
            proof@,
        ),
        r == Err::<(), VerifyError>(VerifyError::MalformedInput) <==> !groth16_parses(
            verify_key@,
            proof@,
        ),
        r == Err::<(), VerifyError>(VerifyError::InvalidProof) <==> groth16_parses(
            verify_key@,
            proof@,
        ) && !groth16_accepts(verify_key@, proof@),
{
    match groth16_verify_bytes(verify_key, proof) {
        Some(true) => Ok(()),
        Some(false) => Err(VerifyError::InvalidProof),
        None => Err(VerifyError::MalformedInput),
    }
}

} // verus!
