use gossip_node::zkp::output_from_parts;

#[test]
fn output_holds_json_byte_arrays() {
    let vk = vec![1u8, 2, 3];
    let proof = vec![255u8, 0];
    let out = output_from_parts(&vk, &proof);
    assert_eq!(out.verify_key, "[1,2,3]");
    assert_eq!(out.proof, "[255,0]");
}

#[test]
fn output_of_empty_bytes() {
    let out = output_from_parts(&vec![], &vec![0u8]);
    assert_eq!(out.verify_key, "[]");
    assert_eq!(out.proof, "[0]");
}

#[test]
fn output_round_trips_through_json() {
    let vk = vec![7u8, 42, 0, 200];
    let proof = vec![9u8];
    let out = output_from_parts(&vk, &proof);
    let vk_back: Vec<u8> = serde_json::from_str(&out.verify_key).expect("valid JSON");
    let proof_back: Vec<u8> = serde_json::from_str(&out.proof).expect("valid JSON");
    assert_eq!(vk_back, vk);
    assert_eq!(proof_back, proof);
}
