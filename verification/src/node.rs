//! The gossip node's event loop as a state machine.
//!
//! The node owns a topic subscription and the set of explicitly-targeted
//! peers that local discovery has found. The event loop waits for one event
//! at a time — a console line, a discovery or expiry notice, an inbound
//! gossip message, a new listener address — and `handle_event` decides, for
//! each, the next state and the actions the network stack must perform.
//! The surrounding runtime performs the actions and hands the next event
//! back, so every effect is linearized through this single transition.

use vstd::prelude::*;
use vstd::string::StringExecFns;

verus! {

/// An event the loop waits on, with plain values for what it carries:
/// peers as their identifier bytes, payloads as bytes.
pub enum Event {
    /// A line of console input, to publish verbatim.
    StdinLine { line: String },
    /// Local discovery found a peer.
    PeerDiscovered { peer: Vec<u8> },
    /// A discovered peer's record expired.
    PeerExpired { peer: Vec<u8> },
    /// An inbound gossip message.
    MessageReceived { source: Vec<u8>, id: String, data: Vec<u8> },
    /// A listener came up on an address.
    NewListenAddr { address: String },
}

/// What the network stack is told to do in reaction to one event.
pub enum Action {
    /// Publish a console line to a topic.
    Publish { topic: String, line: String },
    /// Add a peer as an explicit gossip target.
    AddExplicitPeer { peer: Vec<u8> },
    /// Remove a peer from the explicit gossip targets.
    RemoveExplicitPeer { peer: Vec<u8> },
    /// Hand a received message to the local user.
    Deliver { source: Vec<u8>, id: String, data: Vec<u8> },
    /// Report the address a listener came up on.
    AnnounceListen { address: String },
}

/// The node's state: the subscribed topic and the explicit peer targets,
/// each peer held once.
pub struct NodeState {
    topic: String,
    explicit_peers: Vec<Vec<u8>>,
}

/// The mathematical value of an event.
#[verifier::ext_equal]
pub enum EventV {
    StdinLine { line: Seq<char> },
    PeerDiscovered { peer: Seq<u8> },
    PeerExpired { peer: Seq<u8> },
    MessageReceived { source: Seq<u8>, id: Seq<char>, data: Seq<u8> },
    NewListenAddr { address: Seq<char> },
}

/// The mathematical value of an action.
#[verifier::ext_equal]
pub enum ActionV {
    Publish { topic: Seq<char>, line: Seq<char> },
    AddExplicitPeer { peer: Seq<u8> },
    RemoveExplicitPeer { peer: Seq<u8> },
    Deliver { source: Seq<u8>, id: Seq<char>, data: Seq<u8> },
    AnnounceListen { address: Seq<char> },
}

/// The mathematical value of the node's state.
#[verifier::ext_equal]
pub struct StateV {
    pub topic: Seq<char>,
    pub peers: Seq<Seq<u8>>,
}

impl View for Event {
    type V = EventV;

    open spec fn view(&self) -> EventV {
        match self {
            Event::StdinLine { line } => EventV::StdinLine { line: line@ },
            Event::PeerDiscovered { peer } => EventV::PeerDiscovered { peer: peer@ },
            Event::PeerExpired { peer } => EventV::PeerExpired { peer: peer@ },
            Event::MessageReceived { source, id, data } => EventV::MessageReceived {
                source: source@,
                id: id@,
                data: data@,
            },
            Event::NewListenAddr { address } => EventV::NewListenAddr { address: address@ },
        }
    }
}

impl View for Action {
    type V = ActionV;

    open spec fn view(&self) -> ActionV {
        match self {
            Action::Publish { topic, line } => ActionV::Publish { topic: topic@, line: line@ },
            Action::AddExplicitPeer { peer } => ActionV::AddExplicitPeer { peer: peer@ },
            Action::RemoveExplicitPeer { peer } => ActionV::RemoveExplicitPeer { peer: peer@ },
            Action::Deliver { source, id, data } => ActionV::Deliver {
                source: source@,
                id: id@,
                data: data@,
            },
            Action::AnnounceListen { address } => ActionV::AnnounceListen { address: address@ },
        }
    }
}

impl View for NodeState {
    type V = StateV;

    closed spec fn view(&self) -> StateV {
        StateV { topic: self.topic@, peers: self.explicit_peers.deep_view() }
    }
}

/// The values of a sequence of actions.
pub open spec fn views_of(actions: Seq<Action>) -> Seq<ActionV> {
    actions.map_values(|a: Action| a@)
}

/// No peer identifier occurs twice.
pub open spec fn distinct_peers(peers: Seq<Seq<u8>>) -> bool {
    forall|i: int, j: int| 0 <= i < j < peers.len() ==> peers[i] != peers[j]
}

/// Adding a peer: kept as is when already a target, appended otherwise.
pub open spec fn insert_peer(peers: Seq<Seq<u8>>, p: Seq<u8>) -> Seq<Seq<u8>> {
    if peers.contains(p) {
        peers
    } else {
        peers.push(p)
    }
}

/// The predicate that keeps every peer but `p`.
pub open spec fn keeps(p: Seq<u8>) -> spec_fn(Seq<u8>) -> bool {
    |q: Seq<u8>| q != p
}

/// Removing a peer: every occurrence dropped, order otherwise kept.
pub open spec fn remove_peer(peers: Seq<Seq<u8>>, p: Seq<u8>) -> Seq<Seq<u8>> {
    peers.filter(keeps(p))
}

/// The element-wise view of a vector of byte strings is its deep view.
proof fn lemma_peers_deep_view(v: Vec<Vec<u8>>)
    ensures
        v.deep_view().len() == v@.len(),
        forall|i: int| 0 <= i < v@.len() ==> v.deep_view()[i] == (#[trigger] v@[i])@,
{
    assert forall|i: int| 0 <= i < v@.len() implies v.deep_view()[i] == (#[trigger] v@[i])@ by {
        assert(v.deep_view()[i] =~= (v@[i])@);
    }
}

/// The state after one event: discovery adds a peer target, expiry removes
/// one, and every other event leaves the state as it is.
pub open spec fn next_state(s: StateV, e: EventV) -> StateV {
    match e {
        EventV::PeerDiscovered { peer } => StateV { topic: s.topic, peers: insert_peer(s.peers, peer) },
        EventV::PeerExpired { peer } => StateV { topic: s.topic, peers: remove_peer(s.peers, peer) },
        _ => s,
    }
}

/// The actions one event demands: a console line is published to the
/// subscribed topic, discovery and expiry adjust the explicit targets,
/// an inbound message is delivered as it came, and a new listener address
/// is reported.
pub open spec fn actions_for(s: StateV, e: EventV) -> Seq<ActionV> {
    match e {
        EventV::StdinLine { line } => seq![ActionV::Publish { topic: s.topic, line }],
        EventV::PeerDiscovered { peer } => seq![ActionV::AddExplicitPeer { peer }],
        EventV::PeerExpired { peer } => seq![ActionV::RemoveExplicitPeer { peer }],
        EventV::MessageReceived { source, id, data } => seq![
            ActionV::Deliver { source, id, data },
        ],
        EventV::NewListenAddr { address } => seq![ActionV::AnnounceListen { address }],
    }
}

/// Whether two byte strings hold the same bytes.
fn bytes_eq(a: &Vec<u8>, b: &Vec<u8>) -> (r: bool)
    ensures
        r <==> a@ == b@,
{
    if a.len() != b.len() {
        return false;
    }
    let n = a.len();
    let mut i: usize = 0;
    while i < n
        invariant
            n == a.len() == b.len(),
            i <= n,
            forall|j: int| 0 <= j < i ==> a@[j] == b@[j],
        decreases n - i,
    {
        if a[i] != b[i] {
            return false;
        }
        i += 1;
    }
    proof {
        assert(a@ =~= b@);
    }
    true
}

/// Copies a byte string.
fn clone_bytes(a: &Vec<u8>) -> (r: Vec<u8>)
    ensures
        r@ == a@,
{
    let n = a.len();
    let mut r: Vec<u8> = Vec::new();
    let mut i: usize = 0;
    while i < n
        invariant
            n == a.len(),
            i <= n,
            r@ =~= a@.take(i as int),
        decreases n - i,
    {
        r.push(a[i]);
        proof {
            assert(a@.take(i + 1 as int) =~= a@.take(i as int).push(a@[i as int]));
        }
        i += 1;
    }
    proof {
        assert(a@.take(n as int) =~= a@);
    }
    r
}

/// Whether `p` is among the peer targets.
fn contains_peer(peers: &Vec<Vec<u8>>, p: &Vec<u8>) -> (r: bool)
    ensures
        r <==> peers.deep_view().contains(p@),
{
    let n = peers.len();
    let mut i: usize = 0;
    while i < n
        invariant
            n == peers.len(),
            i <= n,
            forall|j: int| 0 <= j < i ==> peers.deep_view()[j] != p@,
        decreases n - i,
    {
        proof {
            lemma_peers_deep_view(*peers);
        }
        if bytes_eq(&peers[i], p) {
            proof {
                assert(peers.deep_view()[i as int] == p@);
            }
            return true;
        }
        i += 1;
    }
    proof {
        if peers.deep_view().contains(p@) {
            let j = choose|j: int| 0 <= j < peers.deep_view().len() && peers.deep_view()[j] == p@;
            assert(peers.deep_view()[j] != p@);
        }
    }
    false
}

/// A distinct sequence stays distinct when filtered.
proof fn lemma_filter_keeps_distinct(s: Seq<Seq<u8>>, pred: spec_fn(Seq<u8>) -> bool)
    requires
        distinct_peers(s),
    ensures
        distinct_peers(s.filter(pred)),
    decreases s.len(),
{
    reveal(Seq::filter);
    if s.len() > 0 {
        let rest = s.drop_last();
        assert(distinct_peers(rest)) by {
            assert(forall|i: int, j: int|
                0 <= i < j < rest.len() ==> rest[i] == s[i] && rest[j] == s[j]);
        }
        lemma_filter_keeps_distinct(rest, pred);
        let sub = rest.filter(pred);
        if pred(s.last()) {
            assert forall|i: int| 0 <= i < sub.len() implies sub[i] != s.last() by {
                rest.lemma_filter_contains_rev(pred, sub[i]);
                let j = choose|j: int| 0 <= j < rest.len() && rest[j] == sub[i];
                assert(s[j] != s[s.len() - 1]);
            }
            assert(distinct_peers(sub.push(s.last())));
        }
    }
}

/// What the filtered sequence holds: exactly the elements the predicate keeps.
proof fn lemma_filter_membership(s: Seq<Seq<u8>>, pred: spec_fn(Seq<u8>) -> bool, q: Seq<u8>)
    ensures
        s.filter(pred).contains(q) <==> s.contains(q) && pred(q),
{
    if s.filter(pred).contains(q) {
        s.lemma_filter_contains_rev(pred, q);
        let i = choose|i: int| 0 <= i < s.filter(pred).len() && s.filter(pred)[i] == q;
        s.lemma_filter_pred(pred, i);
    }
    if s.contains(q) && pred(q) {
        let i = choose|i: int| 0 <= i < s.len() && s[i] == q;
        s.lemma_filter_contains(pred, i);
    }
}

impl NodeState {
    /// The state's invariant: no peer is targeted twice.
    pub open spec fn wf(self) -> bool {
        distinct_peers(self@.peers)
    }

    /// A fresh node subscribed to `topic`, with no peer targets yet.
    pub fn new(topic: String) -> (s: NodeState)
        ensures
            s@.topic == topic@,
            s@.peers =~= Seq::<Seq<u8>>::empty(),
            s.wf(),
    {
        let s = NodeState { topic, explicit_peers: Vec::new() };
        proof {
            assert(s@.peers =~= Seq::<Seq<u8>>::empty());
        }
        s
    }

    /// Reacts to one event: moves to the next state and returns the actions
    /// the network stack must perform, as `next_state` and `actions_for`
    /// prescribe.
    pub fn handle_event(&mut self, event: Event) -> (actions: Vec<Action>)
        requires
            old(self).wf(),
        ensures
            final(self).wf(),
            final(self)@ == next_state(old(self)@, event@),
            views_of(actions@) == actions_for(old(self)@, event@),
    {
        match event {
            Event::StdinLine { line } => {
                let topic = self.topic.clone();
                let actions = vec![Action::Publish { topic, line }];
                proof {
                    assert(views_of(actions@) =~= actions_for(self@, event@));
                }
                actions
            },
            Event::PeerDiscovered { peer } => {
                let ghost before = self@.peers;
                if !contains_peer(&self.explicit_peers, &peer) {
                    let copy = clone_bytes(&peer);
                    self.explicit_peers.push(copy);
                    proof {
                        lemma_peers_deep_view(old(self).explicit_peers);
                        lemma_peers_deep_view(self.explicit_peers);
                        assert(self@.peers =~= before.push(peer@));
                        assert forall|i: int, j: int|
                            0 <= i < j < self@.peers.len() implies self@.peers[i]
                            != self@.peers[j] by {
                            if j == self@.peers.len() - 1 {
                                assert(!before.contains(peer@));
                                assert(before[i] != peer@);
                            }
                        }
                    }
                }
                let actions = vec![Action::AddExplicitPeer { peer }];
                proof {
                    assert(self@ =~~= next_state(StateV { topic: self@.topic, peers: before }, event@));
                    assert(views_of(actions@) =~= actions_for(old(self)@, event@));
                }
                actions
            },
            Event::PeerExpired { peer } => {
                let ghost before = self@.peers;
                let ghost pred = keeps(peer@);
                let n = self.explicit_peers.len();
                let mut kept: Vec<Vec<u8>> = Vec::new();
                let mut i: usize = 0;
                while i < n
                    invariant
                        n == self.explicit_peers.len(),
                        i <= n,
                        self.explicit_peers.deep_view() == before,
                        kept.deep_view() =~= before.take(i as int).filter(pred),
                        pred == keeps(peer@),
                    decreases n - i,
                {
                    let ghost prefix = before.take(i as int);
                    let ghost prefix1 = before.take(i + 1 as int);
                    let ghost kept_before = kept.deep_view();
                    proof {
                        reveal(Seq::filter);
                        lemma_peers_deep_view(self.explicit_peers);
                        assert(prefix1.drop_last() =~= prefix);
                        assert(prefix1.last() == before[i as int]);
                    }
                    if !bytes_eq(&self.explicit_peers[i], &peer) {
                        let copy = clone_bytes(&self.explicit_peers[i]);
                        kept.push(copy);
                        proof {
                            lemma_peers_deep_view(kept);
                            assert(copy@ == before[i as int]);
                            assert(kept.deep_view() =~= kept_before.push(before[i as int]));
                            assert(pred(prefix1.last()));
                            assert(prefix1.filter(pred) == prefix.filter(pred).push(prefix1.last()));
                            assert(kept.deep_view() =~= prefix1.filter(pred));
                        }
                    } else {
                        proof {
                            assert(!pred(prefix1.last()));
                            assert(prefix1.filter(pred) == prefix.filter(pred));
                            assert(kept.deep_view() =~= prefix1.filter(pred));
                        }
                    }
                    i += 1;
                }
                proof {
                    assert(before.take(n as int) =~= before);
                }
                self.explicit_peers = kept;
                proof {
                    lemma_filter_keeps_distinct(before, pred);
                    assert(remove_peer(before, peer@) == before.filter(pred));
                    assert(self@ =~~= next_state(StateV { topic: self@.topic, peers: before }, event@));
                }
                let actions = vec![Action::RemoveExplicitPeer { peer }];
                proof {
                    assert(views_of(actions@) =~= actions_for(old(self)@, event@));
                }
                actions
            },
            Event::MessageReceived { source, id, data } => {
                let actions = vec![Action::Deliver { source, id, data }];
                proof {
                    assert(views_of(actions@) =~= actions_for(self@, event@));
                }
                actions
            },
            Event::NewListenAddr { address } => {
                let actions = vec![Action::AnnounceListen { address }];
                proof {
                    assert(views_of(actions@) =~= actions_for(self@, event@));
                }
                actions
            },
        }
    }

    /// Whether the node currently targets `peer` explicitly.
    pub fn targets_peer(&self, peer: &Vec<u8>) -> (r: bool)
        ensures
            r <==> self@.peers.contains(peer@),
    {
        contains_peer(&self.explicit_peers, peer)
    }

    /// How many peers the node currently targets explicitly.
    pub fn target_count(&self) -> (n: usize)
        ensures
            n == self@.peers.len(),
    {
        proof {
            lemma_peers_deep_view(self.explicit_peers);
        }
        self.explicit_peers.len()
    }
}

/// Discovery makes a peer a target and never drops one: after a discovery
/// event the explicit targets hold exactly the old ones and the new peer.
pub proof fn lemma_discovery_adds_target(s: StateV, p: Seq<u8>, q: Seq<u8>)
    ensures
        next_state(s, EventV::PeerDiscovered { peer: p }).peers.contains(q) <==> (s.peers.contains(
            q,
        ) || q == p),
{
    let after = next_state(s, EventV::PeerDiscovered { peer: p }).peers;
    if s.peers.contains(p) {
        assert(after == s.peers);
    } else {
        assert(after == s.peers.push(p));
        if q == p {
            assert(after[after.len() - 1] == p);
            assert(after.contains(q));
        }
        if after.contains(q) && q != p {
            let i = choose|i: int| 0 <= i < after.len() && after[i] == q;
            assert(s.peers[i] == q);
        }
        if s.peers.contains(q) {
            let i = choose|i: int| 0 <= i < s.peers.len() && s.peers[i] == q;
            assert(after[i] == q);
        }
    }
}

/// Expiry removes a peer from the targets and touches no other: after an
/// expiry event the explicit targets hold exactly the old ones but the
/// expired peer.
pub proof fn lemma_expiry_removes_target(s: StateV, p: Seq<u8>, q: Seq<u8>)
    ensures
        next_state(s, EventV::PeerExpired { peer: p }).peers.contains(q) <==> (s.peers.contains(q)
            && q != p),
{
    lemma_filter_membership(s.peers, keeps(p), q);
}

} // verus!
