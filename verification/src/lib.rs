//! A minimal peer-to-peer gossip node library, together with a small
//! zero-knowledge-proof example domain.
//!
//! The library holds the logic of such a node: deriving stable identifiers
//! for nodes and gossip messages, the event-loop state machine that reacts
//! to discovery, gossip and console events, and the model of the example
//! arithmetic circuit (x^2 + 3x - 4 = 0 over the BLS12-381 scalar field)
//! with serialization of its proof artifacts.

pub mod encoding;
pub mod ids;
pub mod node;
pub mod relation;
pub mod zkp;
