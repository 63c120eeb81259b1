//! The event loop's decisions. The loop is the one place where the node's
//! state changes: every component reports to it by an event, and it answers
//! with what is to be done.

use vstd::prelude::*;
use crate::bytes::bytes_eq;
use crate::connections::Connections;
use crate::discovery::Announcement;
use crate::bytes::views;
use crate::gossip::followed;
use crate::gossip::handled;
use crate::gossip::sent;
use crate::gossip::Outbound;
use crate::gossip::PublishError;
use crate::gossip::Incoming;
use crate::gossip::Overlay;
use crate::mesh::upkeep;
use crate::message::GossipMessage;
use crate::transport::TransportKind;

verus! {

/// Where the node stands in its life.
#[derive(Debug, Clone, Copy, PartialEq, Eq, Structural)]
pub enum NodeState {
    /// Listen addresses are being bound.
    Starting,
    /// Every listen address is bound; the node lets things settle.
    Listening,
    /// The node takes events.
    Running,
    /// The node has closed its connections and listeners, and ends.
    ShuttingDown,
}

/// What the loop is told.
#[derive(Debug)]
pub enum Event {
    /// One of the listen addresses is bound.
    ListenerBound,
    /// The settle delay is over.
    Settled,
    /// It is time for the meshes' upkeep.
    Heartbeat,
    /// A handshake with `peer` is complete.
    ConnectionEstablished { peer: Vec<u8>, kind: TransportKind },
    /// A connection to `peer` is gone; `remaining` others to the same peer
    /// are still open on the wire.
    ConnectionClosed { peer: Vec<u8>, remaining: u32 },
    /// A peer announced itself on the local network.
    PeerDiscovered(Announcement),
    /// A peer has been silent for too long.
    PeerExpired { peer: Vec<u8> },
    /// A gossip message arrived.
    MessageReceived(GossipMessage),
    /// A listener failed; `fatal` where the node cannot go on without it.
    ListenError { fatal: bool },
    /// The node is asked to end.
    Shutdown,
}

/// What the loop asks for.
#[derive(Debug)]
pub enum Action {
    /// Nothing.
    Nothing,
    /// Dial the peer at the addresses it announced.
    Dial(Announcement),
    /// Do with the message what the overlay decided.
    Gossip { message: GossipMessage, outcome: Incoming },
    /// Close every connection and listener.
    CloseAll,
}

/// The node as the event loop holds it.
#[derive(Debug)]
pub struct Node {
    state: NodeState,
    unbound: usize,
    overlay: Overlay,
    connections: Connections,
}

/// How far a state is along the node's life.
pub open spec fn rank(state: NodeState) -> nat {
    match state {
        NodeState::Starting => 0,
        NodeState::Listening => 1,
        NodeState::Running => 2,
        NodeState::ShuttingDown => 3,
    }
}

impl Node {
    /// The state.
    pub closed spec fn phase(&self) -> NodeState {
        self.state
    }

    /// How many listen addresses are not bound yet.
    pub closed spec fn waiting(&self) -> nat {
        self.unbound as nat
    }

    /// The gossip overlay.
    pub closed spec fn gossip(&self) -> Overlay {
        self.overlay
    }

    /// The peers that the node is connected to, each with its transport.
    pub closed spec fn links(&self) -> Map<Seq<u8>, TransportKind> {
        self.connections@
    }

    /// The order in which the connected peers are offered to the meshes.
    pub closed spec fn roster(&self) -> Seq<Seq<u8>> {
        self.connections.roster()
    }

    /// Overlay and connections are sound, and a starting node waits for a
    /// listener.
    pub closed spec fn wf(&self) -> bool {
        &&& self.overlay.wf()
        &&& self.connections.wf()
        &&& self.state == NodeState::Starting ==> self.unbound >= 1
    }

    /// What soundness means to a caller: the overlay is sound, and the
    /// roster, from which a heartbeat fills the meshes, names each connected
    /// peer once and nobody else.
    pub proof fn lemma_wf(&self)
        requires
            self.wf(),
        ensures
            self.gossip().wf(),
            self.roster().no_duplicates(),
            forall|p: Seq<u8>| #[trigger] self.roster().contains(p) <==> self.links().dom().contains(p),
    {
        self.connections.lemma_roster();
    }

    /// The event changes nothing and asks for nothing.
    pub open spec fn idle(pre: Node, post: Node, action: Action) -> bool {
        post == pre && action is Nothing
    }

    /// The node ends: its connections are gone, and the caller is to close
    /// what is open.
    pub open spec fn halted(pre: Node, post: Node, action: Action) -> bool {
        &&& post.phase() == NodeState::ShuttingDown
        &&& post.links() == Map::<Seq<u8>, TransportKind>::empty()
        &&& post.gossip() == pre.gossip()
        &&& action is CloseAll
    }

    /// State and connections stay, whatever else happens.
    pub open spec fn steady(pre: Node, post: Node) -> bool {
        &&& post.phase() == pre.phase()
        &&& post.waiting() == pre.waiting()
        &&& post.links() == pre.links()
    }

    /// How `step` takes the node from `pre` to `post`, and what it asks for.
    pub open spec fn stepped(pre: Node, event: Event, now: u64, post: Node, action: Action) -> bool {
        match pre.phase() {
            NodeState::Starting => match event {
                Event::ListenerBound => {
                    &&& action is Nothing
                    &&& post.gossip() == pre.gossip()
                    &&& post.links() == pre.links()
                    &&& post.waiting() == pre.waiting() - 1
                    &&& post.phase() == if pre.waiting() == 1 {
                        NodeState::Listening
                    } else {
                        NodeState::Starting
                    }
                },
                Event::ListenError { fatal } => Node::halted(pre, post, action),
                Event::Shutdown => Node::halted(pre, post, action),
                _ => Node::idle(pre, post, action),
            },
            NodeState::Listening => match event {
                Event::Settled => {
                    &&& action is Nothing
                    &&& post.gossip() == pre.gossip()
                    &&& post.links() == pre.links()
                    &&& post.waiting() == pre.waiting()
                    &&& post.phase() == NodeState::Running
                },
                Event::ListenError { fatal } => if fatal {
                    Node::halted(pre, post, action)
                } else {
                    Node::idle(pre, post, action)
                },
                Event::Shutdown => Node::halted(pre, post, action),
                _ => Node::idle(pre, post, action),
            },
            NodeState::Running => match event {
                Event::Heartbeat => {
                    &&& action is Nothing
                    &&& Node::steady(pre, post)
                    &&& post.gossip().local() == pre.gossip().local()
                    &&& post.gossip().secret() == pre.gossip().secret()
                    &&& post.gossip().cache() == pre.gossip().cache()
                    &&& post.gossip().next_sequence() == pre.gossip().next_sequence()
                    &&& post.gossip().degree() == pre.gossip().degree()
                    &&& post.gossip().topics() == upkeep(
                        pre.gossip().topics(),
                        pre.roster(),
                        pre.gossip().local().id(),
                        pre.gossip().degree(),
                    )
                },
                Event::ConnectionEstablished { peer, kind } => {
                    &&& action is Nothing
                    &&& post.phase() == pre.phase()
                    &&& post.waiting() == pre.waiting()
                    &&& post.gossip() == pre.gossip()
                    &&& post.links() == pre.links().insert(peer@, kind)
                },
                Event::ConnectionClosed { peer, remaining } => {
                    &&& action is Nothing
                    &&& post.phase() == pre.phase()
                    &&& post.waiting() == pre.waiting()
                    &&& post.gossip() == pre.gossip()
                    &&& post.links() == if remaining == 0 {
                        pre.links().remove(peer@)
                    } else {
                        pre.links()
                    }
                },
                Event::PeerDiscovered(found) => {
                    &&& post == pre
                    &&& if pre.links().dom().contains(found.peer@) || found.peer@
                        == pre.gossip().local().id() {
                        action is Nothing
                    } else {
                        action == Action::Dial(found)
                    }
                },
                Event::MessageReceived(message) => {
                    &&& Node::steady(pre, post)
                    &&& action matches Action::Gossip { message: m, outcome }
                    &&& action->message == message
                    &&& handled(
                        pre.gossip(),
                        message,
                        message.authentic(),
                        now,
                        post.gossip(),
                        action->outcome,
                    )
                },
                Event::ListenError { fatal } => if fatal {
                    Node::halted(pre, post, action)
                } else {
                    Node::idle(pre, post, action)
                },
                Event::Shutdown => Node::halted(pre, post, action),
                _ => Node::idle(pre, post, action),
            },
            NodeState::ShuttingDown => Node::idle(pre, post, action),
        }
    }

    /// A node that waits for `listeners` listen addresses to be bound; with
    /// none to wait for it is listening at once.
    pub fn new(overlay: Overlay, listeners: usize) -> (node: Node)
        requires
            overlay.wf(),
        ensures
            node.wf(),
            node.gossip() == overlay,
            node.links() == Map::<Seq<u8>, TransportKind>::empty(),
            node.waiting() == listeners,
            node.phase() == if listeners == 0 {
                NodeState::Listening
            } else {
                NodeState::Starting
            },
    {
        let state = if listeners == 0 {
            NodeState::Listening
        } else {
            NodeState::Starting
        };
        Node { state, unbound: listeners, overlay, connections: Connections::new() }
    }

    /// The state.
    pub fn state(&self) -> (state: NodeState)
        ensures
            state == self.phase(),
    {
        self.state
    }

    /// Whether the node is connected to `peer`.
    pub fn is_connected(&self, peer: &Vec<u8>) -> (yes: bool)
        requires
            self.wf(),
        ensures
            yes == self.links().dom().contains(peer@),
    {
        self.connections.is_connected(peer)
    }

    /// Follows `topic`: see `Overlay::subscribe`. State and connections stay.
    pub fn subscribe(&mut self, topic: &Vec<u8>) -> (added: bool)
        requires
            old(self).wf(),
        ensures
            final(self).wf(),
            Node::steady(*old(self), *final(self)),
            final(self).roster() == old(self).roster(),
            followed(old(self).gossip(), topic@, final(self).gossip(), added),
    {
        self.overlay.subscribe(topic)
    }

    /// Publishes a payload on a topic: see `Overlay::publish`. State and
    /// connections stay.
    pub fn publish(&mut self, topic: &Vec<u8>, payload: &Vec<u8>, now: u64) -> (result: Result<
        Outbound,
        PublishError,
    >)
        requires
            old(self).wf(),
        ensures
            final(self).wf(),
            Node::steady(*old(self), *final(self)),
            final(self).roster() == old(self).roster(),
            sent(old(self).gossip(), topic@, payload@, now, final(self).gossip(), result),
    {
        self.overlay.publish(topic, payload, now)
    }

    /// The peers of a topic's mesh.
    pub fn mesh_of(&self, topic: &Vec<u8>) -> (peers: Vec<Vec<u8>>)
        requires
            self.wf(),
        ensures
            views(peers@) == self.gossip().mesh(topic@),
    {
        self.overlay.mesh_of(topic)
    }

    /// Ends the node.
    fn halt(&mut self) -> (action: Action)
        requires
            old(self).wf(),
        ensures
            final(self).wf(),
            Node::halted(*old(self), *final(self), action),
    {
        self.connections.clear();
        self.state = NodeState::ShuttingDown;
        Action::CloseAll
    }

    /// Takes one event at time `now`, changes the node accordingly and says
    /// what is to be done.
    pub fn step(&mut self, event: Event, now: u64) -> (action: Action)
        requires
            old(self).wf(),
        ensures
            final(self).wf(),
            Node::stepped(*old(self), event, now, *final(self), action),
    {
        match self.state {
            NodeState::Starting => match event {
                Event::ListenerBound => {
                    self.unbound = self.unbound - 1;
                    if self.unbound == 0 {
                        self.state = NodeState::Listening;
                    }
                    Action::Nothing
                },
                Event::ListenError { fatal } => self.halt(),
                Event::Shutdown => self.halt(),
                _ => Action::Nothing,
            },
            NodeState::Listening => match event {
                Event::Settled => {
                    self.state = NodeState::Running;
                    Action::Nothing
                },
                Event::ListenError { fatal } => {
                    if fatal {
                        self.halt()
                    } else {
                        Action::Nothing
                    }
                },
                Event::Shutdown => self.halt(),
                _ => Action::Nothing,
            },
            NodeState::Running => match event {
                Event::Heartbeat => {
                    let reachable = self.connections.peers();
                    self.overlay.heartbeat(&reachable);
                    Action::Nothing
                },
                Event::ConnectionEstablished { peer, kind } => {
                    self.connections.open(&peer, kind);
                    Action::Nothing
                },
                Event::ConnectionClosed { peer, remaining } => {
                    if remaining == 0 {
                        self.connections.close(&peer);
                    }
                    Action::Nothing
                },
                Event::PeerDiscovered(found) => {
                    if self.connections.is_connected(&found.peer) || bytes_eq(
                        &found.peer,
                        self.overlay.local_id(),
                    ) {
                        Action::Nothing
                    } else {
                        Action::Dial(found)
                    }
                },
                Event::MessageReceived(message) => {
                    let outcome = self.overlay.handle_incoming(&message, now);
                    Action::Gossip { message, outcome }
                },
                Event::ListenError { fatal } => {
                    if fatal {
                        self.halt()
                    } else {
                        Action::Nothing
                    }
                },
                Event::Shutdown => self.halt(),
                _ => Action::Nothing,
            },
            NodeState::ShuttingDown => Action::Nothing,
        }
    }
}

/// The node's identity never changes: whatever the event, the node is
/// afterwards who it was before.
pub proof fn lemma_identity_is_stable(pre: Node, event: Event, now: u64, post: Node, action: Action)
    requires
        Node::stepped(pre, event, now, post, action),
    ensures
        post.gossip().local() == pre.gossip().local(),
{
}

/// A connection is touched only by the event that speaks of its peer: any
/// other peer is connected after a step of a running node exactly if it was
/// before, and on the same transport.
pub proof fn lemma_connections_change_one_by_one(
    pre: Node,
    event: Event,
    now: u64,
    post: Node,
    action: Action,
    other: Seq<u8>,
)
    requires
        Node::stepped(pre, event, now, post, action),
        post.phase() == NodeState::Running,
        event matches Event::ConnectionEstablished { peer, kind } ==> peer@ != other,
        event matches Event::ConnectionClosed { peer, remaining } ==> peer@ != other,
    ensures
        post.links().dom().contains(other) == pre.links().dom().contains(other),
        pre.links().dom().contains(other) ==> post.links()[other] == pre.links()[other],
{
}

/// Two running nodes that each hear of a completed handshake with the other
/// are then connected to each other, each by one connection, and stay
/// running.
pub proof fn lemma_both_sides_connected(
    a_pre: Node,
    b_pre: Node,
    a_event: Event,
    b_event: Event,
    now: u64,
    a_post: Node,
    b_post: Node,
    a_action: Action,
    b_action: Action,
)
    requires
        a_pre.phase() == NodeState::Running,
        b_pre.phase() == NodeState::Running,
        a_event matches Event::ConnectionEstablished { peer, kind } && peer@
            == b_pre.gossip().local().id(),
        b_event matches Event::ConnectionEstablished { peer, kind } && peer@
            == a_pre.gossip().local().id(),
        Node::stepped(a_pre, a_event, now, a_post, a_action),
        Node::stepped(b_pre, b_event, now, b_post, b_action),
    ensures
        a_post.links().dom().contains(b_pre.gossip().local().id()),
        b_post.links().dom().contains(a_pre.gossip().local().id()),
        a_post.links()[b_pre.gossip().local().id()] == a_event->kind,
        b_post.links()[a_pre.gossip().local().id()] == b_event->kind,
        a_post.phase() == NodeState::Running,
        b_post.phase() == NodeState::Running,
        a_action is Nothing,
        b_action is Nothing,
{
}

/// A closed connection is forgotten only when it was the last one to its
/// peer: while others remain, the peer stays connected.
pub proof fn lemma_peer_stays_while_connections_remain(
    pre: Node,
    peer: Vec<u8>,
    remaining: u32,
    now: u64,
    post: Node,
    action: Action,
)
    requires
        pre.phase() == NodeState::Running,
        Node::stepped(pre, Event::ConnectionClosed { peer, remaining }, now, post, action),
    ensures
        remaining > 0 ==> post.links() == pre.links(),
        remaining == 0 ==> !post.links().dom().contains(peer@),
{
}

/// The node's life only goes forward: no event takes it back to an earlier
/// state.
pub proof fn lemma_never_backwards(pre: Node, event: Event, now: u64, post: Node, action: Action)
    requires
        Node::stepped(pre, event, now, post, action),
    ensures
        rank(post.phase()) >= rank(pre.phase()),
{
}

/// A node that is shutting down stays so: no event changes it or asks for
/// anything.
pub proof fn lemma_shutdown_is_final(pre: Node, event: Event, now: u64, post: Node, action: Action)
    requires
        pre.phase() == NodeState::ShuttingDown,
        Node::stepped(pre, event, now, post, action),
    ensures
        post == pre,
        action is Nothing,
{
}

/// A node enters shutdown without a connection left, and asks the caller to
/// close what is open.
pub proof fn lemma_shutdown_closes_all(
    pre: Node,
    event: Event,
    now: u64,
    post: Node,
    action: Action,
)
    requires
        pre.phase() != NodeState::ShuttingDown,
        post.phase() == NodeState::ShuttingDown,
        Node::stepped(pre, event, now, post, action),
    ensures
        post.links() == Map::<Seq<u8>, TransportKind>::empty(),
        action is CloseAll,
{
}

/// The node dials only a peer that it has just discovered, that it is not
/// connected to, and that is not itself; and only while it is running.
pub proof fn lemma_dials_only_strangers(
    pre: Node,
    event: Event,
    now: u64,
    post: Node,
    action: Action,
)
    requires
        Node::stepped(pre, event, now, post, action),
        action is Dial,
    ensures
        pre.phase() == NodeState::Running,
        event matches Event::PeerDiscovered(found) && action == Action::Dial(found)
            && !pre.links().dom().contains(found.peer@) && found.peer@
            != pre.gossip().local().id(),
        post == pre,
{
}

/// Only a running node touches its connections or its overlay without
/// ending: until then, and afterwards, events of the network change nothing.
pub proof fn lemma_only_running_works(
    pre: Node,
    event: Event,
    now: u64,
    post: Node,
    action: Action,
)
    requires
        pre.phase() != NodeState::Running,
        Node::stepped(pre, event, now, post, action),
        !(event is ListenerBound),
        !(event is Settled),
        !(event is ListenError),
        !(event is Shutdown),
    ensures
        post == pre,
        action is Nothing,
{
}

} // verus!
