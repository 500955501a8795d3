use gossip_node::encoding::u64_to_decimal;
use gossip_node::ids::message_id;
use gossip_node::ids::node_id;

#[test]
fn decimal_of_small_numbers() {
    assert_eq!(u64_to_decimal(0), "0");
    assert_eq!(u64_to_decimal(7), "7");
    assert_eq!(u64_to_decimal(10), "10");
    assert_eq!(u64_to_decimal(12345), "12345");
}

#[test]
fn decimal_of_largest() {
    assert_eq!(u64_to_decimal(u64::MAX), "18446744073709551615");
}

#[test]
fn message_id_is_deterministic() {
    let payload = b"hello".to_vec();
    let a = message_id(&payload);
    let b = message_id(&payload);
    assert_eq!(a, b);
}

#[test]
fn message_id_depends_on_payload_only() {
    let a = message_id(b"same payload");
    let b = message_id(b"same payload");
    assert_eq!(a, b);
    let c = message_id(b"same payloae");
    assert_ne!(a, c);
}

#[test]
fn message_id_is_the_payload_hash_in_decimal() {
    let data = b"payload".to_vec();
    let mut hasher = std::collections::hash_map::DefaultHasher::new();
    std::hash::Hasher::write(&mut hasher, &data);
    let expected = std::hash::Hasher::finish(&hasher).to_string();
    assert_eq!(message_id(&data), expected);
}

#[test]
fn message_id_is_decimal() {
    let id = message_id(b"anything");
    assert!(!id.is_empty());
    assert!(id.chars().all(|c| c.is_ascii_digit()));
}

#[test]
fn node_id_is_stable() {
    let keypair = libp2p::identity::Keypair::generate_ed25519();
    let encoded = keypair.public().encode_protobuf();
    let first = node_id(&encoded).expect("valid key must derive an id");
    let second = node_id(&encoded).expect("valid key must derive an id");
    assert_eq!(first, second);
}

#[test]
fn node_id_matches_peer_id_derivation() {
    let keypair = libp2p::identity::Keypair::generate_ed25519();
    let public = keypair.public();
    let encoded = public.encode_protobuf();
    let derived = node_id(&encoded).expect("valid key must derive an id");
    let expected = libp2p::PeerId::from_public_key(&public).to_bytes();
    assert_eq!(derived, expected);
}

#[test]
fn node_id_distinct_keys_distinct_ids() {
    let a = libp2p::identity::Keypair::generate_ed25519();
    let b = libp2p::identity::Keypair::generate_ed25519();
    let id_a = node_id(&a.public().encode_protobuf()).expect("valid key");
    let id_b = node_id(&b.public().encode_protobuf()).expect("valid key");
    assert_ne!(id_a, id_b);
}

#[test]
fn node_id_rejects_malformed_key() {
    let garbage = vec![0xffu8, 0x01, 0x02];
    assert!(node_id(&garbage).is_none());
}
