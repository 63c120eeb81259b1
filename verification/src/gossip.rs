//! The gossip overlay: which topics the node follows, which peers it
//! exchanges each topic's messages with, and what it does with a message that
//! it publishes or receives.

use vstd::prelude::*;
use crate::bytes::bytes_eq;
use crate::bytes::copy_bytes;
use crate::bytes::copy_list;
use crate::bytes::other_than;
use crate::bytes::others;
use crate::bytes::views;
use crate::identity::NodeKey;
use crate::identity::PeerIdentity;
use crate::identity::signature_of;
use crate::identity::signature_valid;
use crate::mesh::maintain;
use crate::mesh::maintained;
use crate::mesh::mesh_ok;
use crate::mesh::upkeep;
use crate::message::signed_bytes;
use crate::message::signing_input;
use crate::message::GossipMessage;
use crate::seen::inserted;
use crate::seen::SeenCache;

verus! {

/// How many peers a topic's mesh is filled up to, unless the caller says
/// otherwise.
pub const DEFAULT_FANOUT: usize = 6;

/// Seconds between two rounds of the meshes' upkeep.
pub const HEARTBEAT_INTERVAL: u64 = 1;

/// Whether a node whose meshes were kept up last at `last` is to keep them
/// up at `now`: at once where it never did, else after the interval.
pub open spec fn upkeep_due(last: Option<u64>, now: u64) -> bool {
    match last {
        None => true,
        Some(at) => now >= at && now - at >= HEARTBEAT_INTERVAL,
    }
}

/// Whether it is time for the meshes' upkeep.
pub fn heartbeat_due(last: Option<u64>, now: u64) -> (due: bool)
    ensures
        due == upkeep_due(last, now),
{
    match last {
        None => true,
        Some(at) => now >= at && now - at >= HEARTBEAT_INTERVAL,
    }
}

/// How many message identifiers the cache holds, unless the caller says
/// otherwise.
pub const DEFAULT_SEEN_CAPACITY: usize = 4096;

/// For how many seconds the cache remembers a message, unless the caller
/// says otherwise.
pub const DEFAULT_SEEN_WINDOW: u64 = 60;

/// Why a message was not sent.
#[derive(Debug, Clone, Copy, PartialEq, Eq, Structural)]
pub enum PublishError {
    /// The node does not follow the topic.
    NotSubscribed,
    /// The topic's mesh is empty.
    NoPeers,
    /// The node's key did not sign the message. A sound key always signs:
    /// no sound node gives this answer.
    SigningFailed,
}

/// A topic that the node follows, with the peers of its mesh.
#[derive(Debug)]
pub struct TopicMesh {
    topic: Vec<u8>,
    peers: Vec<Vec<u8>>,
}

/// A message to send, and the peers to send it to.
#[derive(Debug)]
pub struct Outbound {
    pub message: GossipMessage,
    pub recipients: Vec<Vec<u8>>,
}

/// What became of a message that arrived.
#[derive(Debug)]
pub enum Incoming {
    /// The signature is not one by the sender over the message: dropped.
    InvalidSignature,
    /// The node has handled the message before: dropped.
    Duplicate,
    /// The message is new: hand it to the local subscriber where `deliver`
    /// says so, and send it on to `forward_to`.
    Accepted { deliver: bool, forward_to: Vec<Vec<u8>> },
}

/// The sequence number that follows `n`.
pub open spec fn following(n: u64) -> u64 {
    if n == u64::MAX {
        0
    } else {
        (n + 1) as u64
    }
}

/// Whether a list of meshes holds `topic` at `i`.
pub closed spec fn stands(meshes: Seq<TopicMesh>, topic: Seq<u8>, i: int) -> bool {
    0 <= i < meshes.len() && meshes[i].topic@ == topic
}

/// The topics of a list of meshes, each with its mesh.
pub closed spec fn listing(meshes: Seq<TopicMesh>) -> Map<Seq<u8>, Seq<Seq<u8>>> {
    Map::new(
        |t: Seq<u8>| exists|i: int| stands(meshes, t, i),
        |t: Seq<u8>| views(meshes[choose|i: int| stands(meshes, t, i)].peers@),
    )
}

/// The overlay's state. Only the event loop holds and changes it.
#[derive(Debug)]
pub struct Overlay {
    key: NodeKey,
    sequence: u64,
    meshes: Vec<TopicMesh>,
    seen: SeenCache,
    fanout: usize,
}

impl Overlay {
    /// This node's identity.
    pub closed spec fn local(&self) -> PeerIdentity {
        self.key.public()
    }

    /// The node's encoded key pair.
    pub closed spec fn secret(&self) -> Seq<u8> {
        self.key.secret_bytes()
    }

    /// The cache of handled messages.
    pub closed spec fn cache(&self) -> SeenCache {
        self.seen
    }

    /// The number that the next published message gets.
    pub closed spec fn next_sequence(&self) -> u64 {
        self.sequence
    }

    /// How many peers a mesh is filled up to.
    pub closed spec fn degree(&self) -> nat {
        self.fanout as nat
    }

    /// The topics that the node follows, each with its mesh.
    pub closed spec fn topics(&self) -> Map<Seq<u8>, Seq<Seq<u8>>> {
        listing(self.meshes@)
    }

    /// Whether the node follows `topic`.
    pub open spec fn subscribed(&self, topic: Seq<u8>) -> bool {
        self.topics().dom().contains(topic)
    }

    /// The mesh of `topic`; empty where the node does not follow it.
    pub open spec fn mesh(&self, topic: Seq<u8>) -> Seq<Seq<u8>> {
        if self.subscribed(topic) {
            self.topics()[topic]
        } else {
            Seq::empty()
        }
    }

    /// The state is sound: key and cache are, a mesh is filled up to one
    /// peer at least, no topic stands twice, and every mesh is in order.
    pub closed spec fn wf(&self) -> bool {
        &&& self.key.wf()
        &&& self.seen.wf()
        &&& self.fanout >= 1
        &&& forall|i: int, j: int|
            0 <= i < j < self.meshes.len() ==> self.meshes[i].topic@ != self.meshes[j].topic@
        &&& forall|i: int|
            0 <= i < self.meshes.len() ==> mesh_ok(
                views((#[trigger] self.meshes[i]).peers@),
                self.key.public().id(),
            )
    }

    /// The mesh that stands at `i` is the mesh of its topic.
    proof fn lemma_slot(&self, i: int)
        requires
            self.wf(),
            0 <= i < self.meshes.len(),
        ensures
            self.subscribed(self.meshes[i].topic@),
            self.mesh(self.meshes[i].topic@) == views(self.meshes[i].peers@),
    {
        let t = self.meshes[i].topic@;
        assert(stands(self.meshes@, t, i));
        let k = choose|k: int| stands(self.meshes@, t, k);
        assert(stands(self.meshes@, t, k));
        assert(k == i);
    }

    /// A topic that stands nowhere in the list is not followed.
    proof fn lemma_absent(&self, topic: Seq<u8>)
        requires
            forall|k: int| 0 <= k < self.meshes.len() ==> self.meshes[k].topic@ != topic,
        ensures
            !self.subscribed(topic),
    {
        if self.subscribed(topic) {
            let k = choose|k: int| stands(self.meshes@, topic, k);
            assert(stands(self.meshes@, topic, k));
        }
    }

    /// What soundness means to a caller: identity and cache are sound, and
    /// every mesh names each peer once and never the node itself.
    pub proof fn lemma_wf(&self, topic: Seq<u8>)
        requires
            self.wf(),
        ensures
            self.local().wf(),
            self.cache().wf(),
            self.degree() >= 1,
            mesh_ok(self.mesh(topic), self.local().id()),
    {
        if self.subscribed(topic) {
            let k = choose|k: int| stands(self.meshes@, topic, k);
            assert(stands(self.meshes@, topic, k));
            self.lemma_slot(k);
        }
    }

    /// Two states with the same list of meshes follow the same topics with
    /// the same meshes.
    proof fn lemma_same_topics(&self, other: Overlay)
        requires
            self.meshes == other.meshes,
        ensures
            self.topics() == other.topics(),
    {
    }

    /// Where `topic` stands in the list of meshes.
    fn slot(&self, topic: &Vec<u8>) -> (at: Option<usize>)
        ensures
            match at {
                Some(i) => i < self.meshes.len() && self.meshes[i as int].topic@ == topic@,
                None => forall|k: int|
                    0 <= k < self.meshes.len() ==> self.meshes[k].topic@ != topic@,
            },
    {
        let mut i: usize = 0;
        while i < self.meshes.len()
            invariant
                i <= self.meshes.len(),
                forall|k: int| 0 <= k < i ==> self.meshes[k].topic@ != topic@,
            decreases self.meshes.len() - i,
        {
            if bytes_eq(&self.meshes[i].topic, topic) {
                return Some(i);
            }
            i += 1;
        }
        None
    }

    /// An overlay that follows no topic and has seen no message, or `None`
    /// where the cache could hold or remember nothing, or a mesh no peer.
    pub fn new(key: NodeKey, capacity: usize, window: u64, fanout: usize) -> (overlay: Option<
        Overlay,
    >)
        requires
            key.wf(),
        ensures
            overlay is Some <==> capacity >= 1 && window >= 1 && fanout >= 1,
            overlay matches Some(o) ==> {
                &&& o.wf()
                &&& o.local() == key.public()
                &&& o.secret() == key.secret_bytes()
                &&& o.topics() == Map::<Seq<u8>, Seq<Seq<u8>>>::empty()
                &&& o.next_sequence() == 0
                &&& o.degree() == fanout
                &&& o.cache()@.len() == 0
                &&& o.cache().limit() == capacity
                &&& o.cache().span() == window
            },
    {
        if fanout < 1 {
            return None;
        }
        match SeenCache::new(capacity, window) {
            Some(seen) => {
                let o = Overlay { key, sequence: 0, meshes: Vec::new(), seen, fanout };
                proof {
                    assert forall|t: Seq<u8>| !o.topics().dom().contains(t) by {
                        o.lemma_absent(t);
                    }
                    assert(o.topics() =~= Map::<Seq<u8>, Seq<Seq<u8>>>::empty());
                }
                Some(o)
            },
            None => None,
        }
    }

    /// This node's identifier.
    pub fn local_id(&self) -> (id: &Vec<u8>)
        ensures
            id@ == self.local().id(),
    {
        self.key.identity().identifier()
    }

    /// The peers of a topic's mesh; none where the node does not follow it.
    pub fn mesh_of(&self, topic: &Vec<u8>) -> (peers: Vec<Vec<u8>>)
        requires
            self.wf(),
        ensures
            views(peers@) == self.mesh(topic@),
    {
        match self.slot(topic) {
            Some(i) => {
                proof {
                    self.lemma_slot(i as int);
                }
                copy_list(&self.meshes[i].peers)
            },
            None => {
                proof {
                    self.lemma_absent(topic@);
                }
                let peers: Vec<Vec<u8>> = Vec::new();
                assert(views(peers@) =~= Seq::<Seq<u8>>::empty());
                peers
            },
        }
    }

    /// Whether the node follows `topic`.
    pub fn is_subscribed(&self, topic: &Vec<u8>) -> (yes: bool)
        ensures
            yes == self.subscribed(topic@),
    {
        match self.slot(topic) {
            Some(i) => {
                proof {
                    assert(stands(self.meshes@, topic@, i as int));
                }
                true
            },
            None => {
                proof {
                    self.lemma_absent(topic@);
                }
                false
            },
        }
    }

    /// Follows `topic`. A topic that is new gets an empty mesh, which the
    /// next heartbeat fills; one that the node follows already keeps its
    /// mesh. Says whether the topic is new.
    pub fn subscribe(&mut self, topic: &Vec<u8>) -> (added: bool)
        requires
            old(self).wf(),
        ensures
            final(self).wf(),
            followed(*old(self), topic@, *final(self), added),
    {
        if self.is_subscribed(topic) {
            return false;
        }
        let ghost before = *self;
        let name = copy_bytes(topic);
        self.meshes.push(TopicMesh { topic: name, peers: Vec::new() });
        proof {
            let n = before.meshes.len() as int;
            assert forall|k: int| 0 <= k < n implies before.meshes[k].topic@ != topic@ by {
                if before.meshes[k].topic@ == topic@ {
                    assert(stands(before.meshes@, topic@, k));
                }
            }
            assert(self.meshes[n].topic@ == topic@);
            assert(views(self.meshes[n].peers@) =~= Seq::<Seq<u8>>::empty());
            assert forall|i: int| 0 <= i < n implies self.meshes[i] == before.meshes[i] by {}
            assert forall|i: int| 0 <= i < self.meshes.len() implies mesh_ok(
                views((#[trigger] self.meshes[i]).peers@),
                self.key.public().id(),
            ) by {
                if i < n {
                    assert(self.meshes[i] == before.meshes[i]);
                }
            }
            assert(self.wf());
            let want = before.topics().insert(topic@, Seq::<Seq<u8>>::empty());
            assert forall|t: Seq<u8>| self.topics().dom().contains(t) <==> want.dom().contains(
                t,
            ) by {
                if self.topics().dom().contains(t) {
                    let k = choose|k: int| stands(self.meshes@, t, k);
                    assert(stands(self.meshes@, t, k));
                    if k < n {
                        assert(stands(before.meshes@, t, k));
                    }
                }
                if want.dom().contains(t) {
                    if t == topic@ {
                        assert(stands(self.meshes@, t, n));
                    } else {
                        let k = choose|k: int| stands(before.meshes@, t, k);
                        assert(stands(before.meshes@, t, k));
                        assert(stands(self.meshes@, t, k));
                    }
                }
            }
            assert forall|t: Seq<u8>| self.topics().dom().contains(t) implies self.topics()[t]
                == want[t] by {
                let k = choose|k: int| stands(self.meshes@, t, k);
                assert(stands(self.meshes@, t, k));
                self.lemma_slot(k);
                if k < n {
                    assert(stands(before.meshes@, t, k));
                    before.lemma_slot(k);
                }
            }
            assert(self.topics() =~= want);
        }
        true
    }

    /// The upkeep of every mesh: peers that are not among `reachable` leave,
    /// and reachable peers fill each mesh up to the overlay's degree. The
    /// topics stay the same.
    pub fn heartbeat(&mut self, reachable: &Vec<Vec<u8>>)
        requires
            old(self).wf(),
        ensures
            final(self).wf(),
            final(self).local() == old(self).local(),
            final(self).secret() == old(self).secret(),
            final(self).cache() == old(self).cache(),
            final(self).next_sequence() == old(self).next_sequence(),
            final(self).degree() == old(self).degree(),
            final(self).topics() == upkeep(
                old(self).topics(),
                views(reachable@),
                old(self).local().id(),
                old(self).degree(),
            ),
    {
        let ghost before = *self;
        let ghost near = views(reachable@);
        let ghost me = self.key.public().id();
        let ghost degree = self.fanout as nat;
        let mut next: Vec<TopicMesh> = Vec::new();
        let mut i: usize = 0;
        while i < self.meshes.len()
            invariant
                i <= self.meshes.len(),
                *self == before,
                before.wf(),
                near == views(reachable@),
                me == self.key.public().id(),
                degree == self.fanout as nat,
                next.len() == i,
                forall|k: int|
                    0 <= k < i ==> (#[trigger] next[k]).topic@ == self.meshes[k].topic@ && views(
                        next[k].peers@,
                    ) == maintained(views(self.meshes[k].peers@), near, me, degree) && mesh_ok(
                        views(next[k].peers@),
                        me,
                    ),
            decreases self.meshes.len() - i,
        {
            let topic = copy_bytes(&self.meshes[i].topic);
            let peers = maintain(
                &self.meshes[i].peers,
                reachable,
                self.key.identity().identifier(),
                self.fanout,
            );
            next.push(TopicMesh { topic, peers });
            i += 1;
        }
        self.meshes = next;
        proof {
            assert(self.wf());
            let want = upkeep(before.topics(), near, me, degree);
            assert forall|t: Seq<u8>| self.topics().dom().contains(t) <==> want.dom().contains(
                t,
            ) by {
                if self.topics().dom().contains(t) {
                    let k = choose|k: int| stands(self.meshes@, t, k);
                    assert(stands(self.meshes@, t, k));
                    assert(stands(before.meshes@, t, k));
                }
                if want.dom().contains(t) {
                    let k = choose|k: int| stands(before.meshes@, t, k);
                    assert(stands(before.meshes@, t, k));
                    assert(stands(self.meshes@, t, k));
                }
            }
            assert forall|t: Seq<u8>| self.topics().dom().contains(t) implies self.topics()[t]
                == want[t] by {
                let k = choose|k: int| stands(self.meshes@, t, k);
                assert(stands(self.meshes@, t, k));
                self.lemma_slot(k);
                assert(stands(before.meshes@, t, k));
                before.lemma_slot(k);
            }
            assert(self.topics() =~= want);
        }
    }

    /// Handles a message of which the caller knows whether it is authentic.
    /// One that is not is dropped. One that the node has handled within the
    /// cache's window is dropped too. Any other is remembered, delivered
    /// where the node follows its topic, and forwarded to that topic's mesh
    /// without the sender.
    pub fn handle_checked(&mut self, message: &GossipMessage, valid: bool, now: u64) -> (outcome:
        Incoming)
        requires
            old(self).wf(),
        ensures
            final(self).wf(),
            handled(*old(self), *message, valid, now, *final(self), outcome),
    {
        if !valid {
            return Incoming::InvalidSignature;
        }
        let id = message.id();
        if self.seen.contains(&id, now) {
            return Incoming::Duplicate;
        }
        let deliver: bool;
        let forward_to: Vec<Vec<u8>>;
        match self.slot(&message.topic) {
            Some(i) => {
                proof {
                    self.lemma_slot(i as int);
                }
                deliver = true;
                forward_to = others(&self.meshes[i].peers, &message.sender);
            },
            None => {
                proof {
                    self.lemma_absent(message.topic@);
                    reveal(Seq::filter);
                }
                deliver = false;
                forward_to = Vec::new();
                assert(views(forward_to@) =~= Seq::<Seq<u8>>::empty());
            },
        }
        self.seen.insert(&id, now);
        proof {
            self.lemma_same_topics(*old(self));
        }
        Incoming::Accepted { deliver, forward_to }
    }

    /// Checks a message that arrived and handles it: see `handle_checked`.
    pub fn handle_incoming(&mut self, message: &GossipMessage, now: u64) -> (outcome: Incoming)
        requires
            old(self).wf(),
        ensures
            final(self).wf(),
            handled(*old(self), *message, message.authentic(), now, *final(self), outcome),
    {
        let valid = message.verify();
        self.handle_checked(message, valid, now)
    }

    /// Publishes a payload under a signature that the caller has made over
    /// `signing_input` of this node's identifier, the topic, the payload and
    /// the next sequence number. Where the node follows the topic, the
    /// message is remembered as handled and the sequence number moves on;
    /// it goes out to the topic's mesh unless that is empty.
    pub fn publish_signed(
        &mut self,
        topic: &Vec<u8>,
        payload: &Vec<u8>,
        signature: Vec<u8>,
        now: u64,
    ) -> (result: Result<Outbound, PublishError>)
        requires
            old(self).wf(),
        ensures
            final(self).wf(),
            published(*old(self), topic@, payload@, signature@, now, *final(self), result),
    {
        let i = match self.slot(topic) {
            Some(i) => i,
            None => {
                proof {
                    self.lemma_absent(topic@);
                }
                return Err(PublishError::NotSubscribed);
            },
        };
        proof {
            self.lemma_slot(i as int);
        }
        let message = GossipMessage {
            sender: copy_bytes(self.key.identity().identifier()),
            sender_key: copy_bytes(self.key.identity().public_key()),
            topic: copy_bytes(topic),
            payload: copy_bytes(payload),
            sequence: self.sequence,
            signature,
        };
        let id = message.id();
        self.seen.insert(&id, now);
        self.sequence = if self.sequence == u64::MAX {
            0
        } else {
            self.sequence + 1
        };
        proof {
            self.lemma_same_topics(*old(self));
        }
        if self.meshes[i].peers.len() == 0 {
            return Err(PublishError::NoPeers);
        }
        let recipients = copy_list(&self.meshes[i].peers);
        Ok(Outbound { message, recipients })
    }

    /// Publishes a payload on a topic: signs it with the node's key and goes
    /// on as `publish_signed` does. Nothing changes where the node does not
    /// follow the topic.
    pub fn publish(&mut self, topic: &Vec<u8>, payload: &Vec<u8>, now: u64) -> (result: Result<
        Outbound,
        PublishError,
    >)
        requires
            old(self).wf(),
        ensures
            final(self).wf(),
            sent(*old(self), topic@, payload@, now, *final(self), result),
    {
        if !self.is_subscribed(topic) {
            return Err(PublishError::NotSubscribed);
        }
        let input = signed_bytes(self.key.identity().identifier(), topic, payload, self.sequence);
        match self.key.sign(&input) {
            Some(signature) => self.publish_signed(topic, payload, signature, now),
            None => Err(PublishError::SigningFailed),
        }
    }
}

/// How `subscribe` takes the node from `pre` to `post`: a topic that is new
/// is followed with an empty mesh, and nothing else changes.
pub open spec fn followed(pre: Overlay, topic: Seq<u8>, post: Overlay, added: bool) -> bool {
    &&& added == !pre.subscribed(topic)
    &&& post.topics() == if pre.subscribed(topic) {
        pre.topics()
    } else {
        pre.topics().insert(topic, Seq::<Seq<u8>>::empty())
    }
    &&& post.local() == pre.local()
    &&& post.secret() == pre.secret()
    &&& post.cache() == pre.cache()
    &&& post.next_sequence() == pre.next_sequence()
    &&& post.degree() == pre.degree()
}

/// The bytes that the node signs when it publishes next on `topic`.
pub open spec fn next_input(pre: Overlay, topic: Seq<u8>, payload: Seq<u8>) -> Seq<u8> {
    signing_input(pre.local().id(), topic, payload, pre.next_sequence())
}

/// How `publish` takes the node from `pre` to `post`, and with which result.
/// Where the node does not follow the topic, nothing changes. Otherwise the
/// message goes the way of `published`, under the signature that the node's
/// key makes over `next_input`, which the node's own identity verifies.
pub open spec fn sent(
    pre: Overlay,
    topic: Seq<u8>,
    payload: Seq<u8>,
    now: u64,
    post: Overlay,
    result: Result<Outbound, PublishError>,
) -> bool {
    if !pre.subscribed(topic) {
        result == Err::<Outbound, PublishError>(PublishError::NotSubscribed) && post == pre
    } else {
        &&& signature_of(pre.secret(), next_input(pre, topic, payload)) matches Some(signature)
        &&& signature_valid(pre.local().key(), next_input(pre, topic, payload), signature)
        &&& published(pre, topic, payload, signature, now, post, result)
    }
}

/// How `handle_checked` takes the node from `pre` to `post`, and with which
/// outcome.
pub open spec fn handled(
    pre: Overlay,
    message: GossipMessage,
    valid: bool,
    now: u64,
    post: Overlay,
    outcome: Incoming,
) -> bool {
    if !valid {
        outcome is InvalidSignature && post == pre
    } else if pre.cache().seen(message.ident(), now) {
        outcome is Duplicate && post == pre
    } else {
        &&& outcome matches Incoming::Accepted { deliver, forward_to }
        &&& outcome->deliver == pre.subscribed(message.topic@)
        &&& views(outcome->forward_to@) == pre.mesh(message.topic@).filter(
            other_than(message.sender@),
        )
        &&& post.topics() == pre.topics()
        &&& post.local() == pre.local()
        &&& post.secret() == pre.secret()
        &&& post.next_sequence() == pre.next_sequence()
        &&& post.degree() == pre.degree()
        &&& post.cache().limit() == pre.cache().limit()
        &&& post.cache().span() == pre.cache().span()
        &&& post.cache()@ == inserted(
            pre.cache()@,
            pre.cache().limit(),
            pre.cache().span(),
            message.ident(),
            now,
        )
    }
}

/// How `publish_signed` takes the node from `pre` to `post`, and with which
/// result.
pub open spec fn published(
    pre: Overlay,
    topic: Seq<u8>,
    payload: Seq<u8>,
    signature: Seq<u8>,
    now: u64,
    post: Overlay,
    result: Result<Outbound, PublishError>,
) -> bool {
    if !pre.subscribed(topic) {
        result == Err::<Outbound, PublishError>(PublishError::NotSubscribed) && post == pre
    } else {
        &&& post.topics() == pre.topics()
        &&& post.local() == pre.local()
        &&& post.secret() == pre.secret()
        &&& post.degree() == pre.degree()
        &&& post.next_sequence() == following(pre.next_sequence())
        &&& post.cache().limit() == pre.cache().limit()
        &&& post.cache().span() == pre.cache().span()
        &&& post.cache()@ == inserted(
            pre.cache()@,
            pre.cache().limit(),
            pre.cache().span(),
            (pre.local().id(), signature),
            now,
        )
        &&& if pre.mesh(topic).len() == 0 {
            result == Err::<Outbound, PublishError>(PublishError::NoPeers)
        } else {
            &&& result matches Ok(out)
            &&& out.message.sender@ == pre.local().id()
            &&& out.message.sender_key@ == pre.local().key()
            &&& out.message.topic@ == topic
            &&& out.message.payload@ == payload
            &&& out.message.sequence == pre.next_sequence()
            &&& out.message.signature@ == signature
            &&& views(out.recipients@) == pre.mesh(topic)
        }
    }
}

} // verus!
