use bellman::groth16::create_random_proof;
use bellman::groth16::generate_random_parameters;
use bellman::Circuit;
use bellman::ConstraintSystem;
use bellman::SynthesisError;
use bls12_381::Bls12;
use bls12_381::Scalar;
use gossip_node::relation::satisfies_relation;
use gossip_node::zkp::output_from_parts;
use gossip_node::zkp::verify;
use gossip_node::zkp::VerifyError;

#[derive(Clone, Copy)]
struct DemoCircuit {
    x: Option<Scalar>,
}

impl Circuit<Scalar> for DemoCircuit {
    fn synthesize<CS: ConstraintSystem<Scalar>>(self, cs: &mut CS) -> Result<(), SynthesisError> {
        let x = cs.alloc(|| "x", || self.x.ok_or(SynthesisError::AssignmentMissing))?;
        let x_squared = cs.alloc(
            || "x_squared",
            || {
                let v = self.x.ok_or(SynthesisError::AssignmentMissing)?;
                Ok(v * v)
            },
        )?;
        let x_three = cs.alloc(
            || "3x",
            || {
                let v = self.x.ok_or(SynthesisError::AssignmentMissing)?;
                Ok(Scalar::from(3) * v)
            },
        )?;
        cs.enforce(
            || "x_squared constraint",
            |lc| lc + x,
            |lc| lc + x,
            |lc| lc + x_squared,
        );
        cs.enforce(
            || "three_x constraint",
            |lc| lc + (Scalar::from(3), CS::one()),
            |lc| lc + x,
            |lc| lc + x_three,
        );
        let result = cs.alloc(
            || "result",
            || {
                let v = self.x.ok_or(SynthesisError::AssignmentMissing)?;
                Ok(v * v + Scalar::from(3) * v - Scalar::from(4))
            },
        )?;
        cs.enforce(
            || "result link constraint",
            |lc| lc + x_squared + x_three - (Scalar::from(4), CS::one()),
            |lc| lc + CS::one(),
            |lc| lc + result,
        );
        cs.enforce(
            || "result constraint",
            |lc| lc + result,
            |lc| lc + CS::one(),
            |lc| lc,
        );
        Ok(())
    }
}

/// A dishonest prover for the same circuit shape: assigns zero to the
/// result wire whatever the witness, hoping to pass the zero constraint.
#[derive(Clone, Copy)]
struct CheatingCircuit {
    x: Option<Scalar>,
}

impl Circuit<Scalar> for CheatingCircuit {
    fn synthesize<CS: ConstraintSystem<Scalar>>(self, cs: &mut CS) -> Result<(), SynthesisError> {
        let x = cs.alloc(|| "x", || self.x.ok_or(SynthesisError::AssignmentMissing))?;
        let x_squared = cs.alloc(
            || "x_squared",
            || {
                let v = self.x.ok_or(SynthesisError::AssignmentMissing)?;
                Ok(v * v)
            },
        )?;
        let x_three = cs.alloc(
            || "3x",
            || {
                let v = self.x.ok_or(SynthesisError::AssignmentMissing)?;
                Ok(Scalar::from(3) * v)
            },
        )?;
        cs.enforce(
            || "x_squared constraint",
            |lc| lc + x,
            |lc| lc + x,
            |lc| lc + x_squared,
        );
        cs.enforce(
            || "three_x constraint",
            |lc| lc + (Scalar::from(3), CS::one()),
            |lc| lc + x,
            |lc| lc + x_three,
        );
        let result = cs.alloc(|| "result", || Ok(Scalar::from(0)))?;
        cs.enforce(
            || "result link constraint",
            |lc| lc + x_squared + x_three - (Scalar::from(4), CS::one()),
            |lc| lc + CS::one(),
            |lc| lc + result,
        );
        cs.enforce(
            || "result constraint",
            |lc| lc + result,
            |lc| lc + CS::one(),
            |lc| lc,
        );
        Ok(())
    }
}

/// A circuit of another shape: one squaring constraint only.
#[derive(Clone, Copy)]
struct OtherCircuit {
    x: Option<Scalar>,
}

impl Circuit<Scalar> for OtherCircuit {
    fn synthesize<CS: ConstraintSystem<Scalar>>(self, cs: &mut CS) -> Result<(), SynthesisError> {
        let x = cs.alloc(|| "x", || self.x.ok_or(SynthesisError::AssignmentMissing))?;
        let x_squared = cs.alloc(
            || "x_squared",
            || {
                let v = self.x.ok_or(SynthesisError::AssignmentMissing)?;
                Ok(v * v)
            },
        )?;
        cs.enforce(
            || "x_squared constraint",
            |lc| lc + x,
            |lc| lc + x,
            |lc| lc + x_squared,
        );
        Ok(())
    }
}

fn prove_demo(x: u64) -> (Vec<u8>, Vec<u8>) {
    let rng = &mut rand::thread_rng();
    let params = generate_random_parameters::<Bls12, _, _>(DemoCircuit { x: None }, rng)
        .expect("setup succeeds");
    let mut vk_bytes: Vec<u8> = Vec::new();
    params.vk.write(&mut vk_bytes).expect("writing the key succeeds");
    let circuit = DemoCircuit { x: Some(Scalar::from(x)) };
    let proof = create_random_proof(circuit, &params, rng).expect("proving succeeds");
    let mut proof_bytes: Vec<u8> = Vec::new();
    proof.write(&mut proof_bytes).expect("writing the proof succeeds");
    (vk_bytes, proof_bytes)
}

#[test]
fn honest_witness_proof_verifies() {
    let (vk, proof) = prove_demo(1);
    assert_eq!(verify(&vk, &proof), Ok(()));
}

#[test]
fn false_witness_proof_is_rejected() {
    let (vk, proof) = prove_demo(2);
    assert_eq!(verify(&vk, &proof), Err(VerifyError::InvalidProof));
}

#[test]
fn corrupted_proof_is_rejected() {
    let (vk, mut proof) = prove_demo(1);
    let middle = proof.len() / 2;
    proof[middle] ^= 0x01;
    assert!(verify(&vk, &proof).is_err());
}

#[test]
fn corrupted_verify_key_is_rejected() {
    let (mut vk, proof) = prove_demo(1);
    let middle = vk.len() / 2;
    vk[middle] ^= 0x01;
    assert!(verify(&vk, &proof).is_err());
}

#[test]
fn truncated_input_is_malformed() {
    let (vk, proof) = prove_demo(1);
    assert_eq!(verify(&vk[..vk.len() - 1], &proof), Err(VerifyError::MalformedInput));
    assert_eq!(verify(&vk, &proof[..3]), Err(VerifyError::MalformedInput));
    assert_eq!(verify(&[], &[]), Err(VerifyError::MalformedInput));
}

#[test]
fn mismatched_parameters_are_rejected() {
    let rng = &mut rand::thread_rng();
    let other_params = generate_random_parameters::<Bls12, _, _>(OtherCircuit { x: None }, rng)
        .expect("setup succeeds");
    let mut other_vk: Vec<u8> = Vec::new();
    other_params.vk.write(&mut other_vk).expect("writing the key succeeds");
    let (_, proof) = prove_demo(1);
    assert!(verify(&other_vk, &proof).is_err());
}

#[test]
fn dishonest_result_assignment_is_rejected() {
    let rng = &mut rand::thread_rng();
    let params = generate_random_parameters::<Bls12, _, _>(DemoCircuit { x: None }, rng)
        .expect("setup succeeds");
    let mut vk_bytes: Vec<u8> = Vec::new();
    params.vk.write(&mut vk_bytes).expect("writing the key succeeds");
    let cheat = CheatingCircuit { x: Some(Scalar::from(2)) };
    let proof = create_random_proof(cheat, &params, rng).expect("proving succeeds mechanically");
    let mut proof_bytes: Vec<u8> = Vec::new();
    proof.write(&mut proof_bytes).expect("writing the proof succeeds");
    assert_eq!(verify(&vk_bytes, &proof_bytes), Err(VerifyError::InvalidProof));
}

#[test]
fn relation_has_exactly_one_small_root() {
    assert!(satisfies_relation(1));
    assert!(!satisfies_relation(0));
    assert!(!satisfies_relation(2));
    assert!(!satisfies_relation(4));
    assert!(!satisfies_relation(u64::MAX));
}

#[test]
fn proof_artifacts_bundle_as_json() {
    let (vk, proof) = prove_demo(1);
    let out = output_from_parts(&vk, &proof);
    let vk_back: Vec<u8> = serde_json::from_str(&out.verify_key).expect("valid JSON");
    let proof_back: Vec<u8> = serde_json::from_str(&out.proof).expect("valid JSON");
    assert_eq!(vk_back, vk);
    assert_eq!(proof_back, proof);
    assert_eq!(verify(&vk_back, &proof_back), Ok(()));
}
