//! Stable identifiers: the content-derived gossip message identifier and
//! the node identifier derived from a public key.
//!
//! A gossip message's identifier is a function of its payload bytes alone,
//! never of the sender or the time, so retransmissions of the same payload
//! collapse into one delivered message. The identifier is the payload's
//! 64-bit hash written in decimal. A node's identifier is a function of its
//! public key alone, so any process holding the same key derives the same
//! identifier.

use crate::encoding::decimal_of;
use crate::encoding::u64_to_decimal;
use std::collections::hash_map::DefaultHasher;
use std::hash::Hasher;
use vstd::prelude::*;
use vstd::std_specs::hash::DefaultHasherAdditionalSpecFns;

verus! {

/// The 64-bit hash of a payload: what the default hasher returns after one
/// write of the payload bytes.
pub open spec fn hash64_of(data: Seq<u8>) -> u64 {
    DefaultHasher::spec_finish(seq![data])
}

/// The identifier of a gossip message with payload `data`: its 64-bit hash,
/// in decimal.
pub open spec fn spec_message_id(data: Seq<u8>) -> Seq<char> {
    decimal_of(hash64_of(data) as nat)
}

/// Derives the identifier of a gossip message from its payload bytes.
pub fn message_id(data: &[u8]) -> (r: String)
    ensures
        r@ == spec_message_id(data@),
{
    let mut hasher = DefaultHasher::new();
    hasher.write(data);
    proof {
        assert(hasher@ =~= seq![data@]);
    }
    let h = hasher.finish();
    u64_to_decimal(h)
}

/// Message identifiers are deterministic: two messages with identical
/// payloads get the same identifier, whoever sends them and whenever.
pub proof fn lemma_message_id_deterministic(a: Seq<u8>, b: Seq<u8>)
    requires
        a == b,
    ensures
        spec_message_id(a) == spec_message_id(b),
{
}

/// Identifiers of two messages coincide only where their payloads' 64-bit
/// hashes collide: payloads with distinct hashes get distinct identifiers.
pub proof fn lemma_message_id_collision_is_hash_collision(a: Seq<u8>, b: Seq<u8>)
    requires
        spec_message_id(a) == spec_message_id(b),
    ensures
        hash64_of(a) == hash64_of(b),
{
    crate::encoding::lemma_decimal_injective(hash64_of(a) as nat, hash64_of(b) as nat);
}

/// The node identifier derived from a protobuf-encoded public key, or None
/// when the encoding does not parse: a deterministic function of the key
/// bytes alone, never of the time or the process.
pub uninterp spec fn node_id_of(public_key: Seq<u8>) -> Option<Seq<u8>>;

/// Relies on libp2p's identity::PublicKey::try_decode_protobuf,
/// PeerId::from_public_key and PeerId::to_bytes: the peer identifier is the
/// multihash of the protobuf-encoded public key, derived from the key bytes
/// alone, and decoding fails only on malformed encodings.
#[verifier::external_body]
fn derive_node_id(public_key: &Vec<u8>) -> (r: Option<Vec<u8>>)
    ensures
        match r {
            Some(id) => node_id_of(public_key@) == Some(id@),
            None => node_id_of(public_key@) is None,
        },
{
    match libp2p::identity::PublicKey::try_decode_protobuf(public_key) {
        Ok(pk) => Some(libp2p::PeerId::from_public_key(&pk).to_bytes()),
        Err(_) => None,
    }
}

/// Derives the node's stable identifier from its protobuf-encoded public
/// key; None when the encoding does not parse.
pub fn node_id(public_key: &Vec<u8>) -> (r: Option<Vec<u8>>)
    ensures
        match r {
            Some(id) => node_id_of(public_key@) == Some(id@),
            None => node_id_of(public_key@) is None,
        },
{
    derive_node_id(public_key)
}

/// Node identifiers are stable: re-deriving from the same public key always
/// yields the same identifier.
pub proof fn lemma_node_id_stable(k1: Seq<u8>, k2: Seq<u8>)
    requires
        k1 == k2,
    ensures
        node_id_of(k1) == node_id_of(k2),
{
}

} // verus!
