//! What the overlay promises of every message, whatever the node's state:
//! a forged message goes nowhere, a message seen before changes nothing, and
//! a new one reaches the local subscriber and the mesh once.

use vstd::prelude::*;
use crate::bytes::lemma_others;
use crate::bytes::views;
use crate::gossip::handled;
use crate::gossip::next_input;
use crate::gossip::sent;
use crate::gossip::published;
use crate::gossip::Incoming;
use crate::gossip::Outbound;
use crate::gossip::Overlay;
use crate::gossip::PublishError;
use crate::identity::signature_of;
use crate::identity::signature_valid;
use crate::message::signing_input;
use crate::message::GossipMessage;
use crate::seen::fresh;
use crate::seen::inserted;
use crate::seen::remembered;
use crate::seen::IdView;
use crate::seen::SeenView;

verus! {

/// An identifier that was just inserted is remembered from then on until the
/// window has passed.
pub proof fn lemma_inserted_is_remembered(
    entries: Seq<SeenView>,
    capacity: nat,
    window: u64,
    id: IdView,
    now: u64,
    later: u64,
)
    requires
        window >= 1,
        now <= later,
        later - now < window,
    ensures
        remembered(inserted(entries, capacity, window, id, now), window, id, later),
{
    let after = inserted(entries, capacity, window, id, now);
    let last = after.len() - 1;
    assert(after[last] == (id, now));
    assert(after[last].0 == id && fresh(after[last].1, later, window));
}

/// A message whose signature is not one by its sender over its content is
/// dropped: the node does not deliver it, forwards it to nobody, and stays as
/// it was.
pub proof fn lemma_forged_is_dropped(
    pre: Overlay,
    message: GossipMessage,
    now: u64,
    post: Overlay,
    outcome: Incoming,
)
    requires
        !message.authentic(),
        handled(pre, message, message.authentic(), now, post, outcome),
    ensures
        outcome is InvalidSignature,
        post == pre,
{
}

/// A message whose identifier the cache still remembers is handled as if it
/// had not arrived: the node does not deliver it, forwards it to nobody, and
/// stays as it was.
pub proof fn lemma_seen_is_ignored(
    pre: Overlay,
    message: GossipMessage,
    valid: bool,
    now: u64,
    post: Overlay,
    outcome: Incoming,
)
    requires
        pre.cache().seen(message.ident(), now),
        handled(pre, message, valid, now, post, outcome),
    ensures
        !(outcome is Accepted),
        post == pre,
{
}

/// An authentic message that the node has not seen is accepted. It is
/// delivered exactly where the node follows its topic. It is forwarded to
/// every peer of that topic's mesh but the sender, to each once and to nobody
/// else. From then on the cache remembers it until the window has passed.
pub proof fn lemma_new_is_accepted(
    pre: Overlay,
    message: GossipMessage,
    now: u64,
    post: Overlay,
    outcome: Incoming,
)
    requires
        pre.wf(),
        message.authentic(),
        !pre.cache().seen(message.ident(), now),
        handled(pre, message, message.authentic(), now, post, outcome),
    ensures
        outcome is Accepted,
        outcome->deliver == pre.subscribed(message.topic@),
        views(outcome->forward_to@).no_duplicates(),
        forall|p: Seq<u8>| #[trigger]
            views(outcome->forward_to@).contains(p) <==> pre.mesh(message.topic@).contains(p) && p
                != message.sender@,
        forall|later: u64|
            now <= later && later - now < pre.cache().span() ==> #[trigger] post.cache().seen(
                message.ident(),
                later,
            ),
{
    pre.lemma_wf(message.topic@);
    lemma_others(pre.mesh(message.topic@), message.sender@);
    assert forall|later: u64|
        now <= later && later - now < pre.cache().span() implies #[trigger] post.cache().seen(
        message.ident(),
        later,
    ) by {
        lemma_inserted_is_remembered(
            pre.cache()@,
            pre.cache().limit(),
            pre.cache().span(),
            message.ident(),
            now,
            later,
        );
    }
}

/// A message that was accepted is not accepted again while the window lasts:
/// when it arrives once more, the node neither delivers nor forwards it, and
/// stays as it was.
pub proof fn lemma_delivered_once(
    pre: Overlay,
    message: GossipMessage,
    now: u64,
    mid: Overlay,
    first: Incoming,
    again_valid: bool,
    later: u64,
    post: Overlay,
    second: Incoming,
)
    requires
        pre.wf(),
        handled(pre, message, true, now, mid, first),
        first is Accepted,
        now <= later,
        later - now < pre.cache().span(),
        handled(mid, message, again_valid, later, post, second),
    ensures
        !(second is Accepted),
        post == mid,
{
    pre.lemma_wf(message.topic@);
    lemma_inserted_is_remembered(
        pre.cache()@,
        pre.cache().limit(),
        pre.cache().span(),
        message.ident(),
        now,
        later,
    );
}

/// What the node publishes under a signature that its own key verifies is a
/// message that every peer finds authentic.
pub proof fn lemma_published_is_authentic(
    pre: Overlay,
    topic: Seq<u8>,
    payload: Seq<u8>,
    signature: Seq<u8>,
    now: u64,
    post: Overlay,
    result: Result<Outbound, PublishError>,
)
    requires
        pre.wf(),
        signature_valid(
            pre.local().key(),
            signing_input(pre.local().id(), topic, payload, pre.next_sequence()),
            signature,
        ),
        published(pre, topic, payload, signature, now, post, result),
    ensures
        result matches Ok(out) ==> out.message.authentic(),
{
    pre.lemma_wf(topic);
}

/// The node remembers what it has published: the same message, coming back
/// from a peer while the window lasts, is neither delivered nor forwarded.
pub proof fn lemma_own_message_is_ignored(
    pre: Overlay,
    topic: Seq<u8>,
    payload: Seq<u8>,
    signature: Seq<u8>,
    now: u64,
    mid: Overlay,
    result: Result<Outbound, PublishError>,
    echo: GossipMessage,
    valid: bool,
    later: u64,
    post: Overlay,
    outcome: Incoming,
)
    requires
        pre.wf(),
        pre.subscribed(topic),
        published(pre, topic, payload, signature, now, mid, result),
        echo.ident() == (pre.local().id(), signature),
        now <= later,
        later - now < pre.cache().span(),
        handled(mid, echo, valid, later, post, outcome),
    ensures
        !(outcome is Accepted),
        post == mid,
{
    pre.lemma_wf(topic);
    lemma_inserted_is_remembered(
        pre.cache()@,
        pre.cache().limit(),
        pre.cache().span(),
        echo.ident(),
        now,
        later,
    );
}

/// What publishing gives, by the node's state alone. On a topic that the
/// node does not follow it fails with `NotSubscribed` and changes nothing.
/// On a followed topic with an empty mesh it fails with `NoPeers`. On a
/// followed topic with peers it succeeds, and the message, which every peer
/// finds authentic, goes to the whole mesh. On a followed topic the message
/// is remembered either way, until the window has passed.
pub proof fn lemma_publish_outcomes(
    pre: Overlay,
    topic: Seq<u8>,
    payload: Seq<u8>,
    now: u64,
    post: Overlay,
    result: Result<Outbound, PublishError>,
)
    requires
        pre.wf(),
        sent(pre, topic, payload, now, post, result),
    ensures
        result == Err::<Outbound, PublishError>(PublishError::NotSubscribed) <==> !pre.subscribed(
            topic,
        ),
        result == Err::<Outbound, PublishError>(PublishError::NoPeers) <==> pre.subscribed(topic)
            && pre.mesh(topic).len() == 0,
        result is Ok <==> pre.subscribed(topic) && pre.mesh(topic).len() > 0,
        result matches Ok(out) ==> {
            &&& views(out.recipients@) == pre.mesh(topic)
            &&& out.message.topic@ == topic
            &&& out.message.payload@ == payload
            &&& out.message.sender@ == pre.local().id()
            &&& out.message.sequence == pre.next_sequence()
            &&& out.message.authentic()
        },
        !pre.subscribed(topic) ==> post == pre,
        pre.subscribed(topic) ==> forall|later: u64|
            now <= later && later - now < pre.cache().span() ==> #[trigger] post.cache().seen(
                (pre.local().id(), signature_of(pre.secret(), next_input(pre, topic, payload))->0),
                later,
            ),
{
    pre.lemma_wf(topic);
    if pre.subscribed(topic) {
        let signature = signature_of(pre.secret(), next_input(pre, topic, payload))->0;
        assert forall|later: u64|
            now <= later && later - now < pre.cache().span() implies #[trigger] post.cache().seen(
            (pre.local().id(), signature),
            later,
        ) by {
            lemma_inserted_is_remembered(
                pre.cache()@,
                pre.cache().limit(),
                pre.cache().span(),
                (pre.local().id(), signature),
                now,
                later,
            );
        }
    }
}

/// From one node to another: what node A publishes on a topic reaches a
/// node B that follows the topic and has not seen it. A sends it to B where
/// B is in A's mesh; B accepts it and hands the payload that A published to
/// its subscriber; and when the message arrives at B again while B's window
/// lasts, B neither delivers nor forwards it.
pub proof fn lemma_published_is_delivered_once(
    a_pre: Overlay,
    topic: Seq<u8>,
    payload: Seq<u8>,
    now: u64,
    a_post: Overlay,
    result: Result<Outbound, PublishError>,
    b_pre: Overlay,
    arrival: u64,
    b_mid: Overlay,
    first: Incoming,
    again_valid: bool,
    again: u64,
    b_post: Overlay,
    second: Incoming,
)
    requires
        a_pre.wf(),
        b_pre.wf(),
        sent(a_pre, topic, payload, now, a_post, result),
        result is Ok,
        b_pre.subscribed(topic),
        !b_pre.cache().seen(result->Ok_0.message.ident(), arrival),
        handled(
            b_pre,
            result->Ok_0.message,
            result->Ok_0.message.authentic(),
            arrival,
            b_mid,
            first,
        ),
        arrival <= again,
        again - arrival < b_pre.cache().span(),
        handled(b_mid, result->Ok_0.message, again_valid, again, b_post, second),
    ensures
        a_pre.mesh(topic).contains(b_pre.local().id()) ==> views(
            result->Ok_0.recipients@,
        ).contains(b_pre.local().id()),
        result->Ok_0.message.payload@ == payload,
        first is Accepted,
        first->deliver,
        !(second is Accepted),
        b_post == b_mid,
{
    lemma_publish_outcomes(a_pre, topic, payload, now, a_post, result);
    let message = result->Ok_0.message;
    lemma_new_is_accepted(b_pre, message, arrival, b_mid, first);
    lemma_delivered_once(b_pre, message, arrival, b_mid, first, again_valid, again, b_post, second);
}

} // verus!
