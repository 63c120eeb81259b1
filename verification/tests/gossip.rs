use grid_node::gossip::Incoming;
use grid_node::gossip::Overlay;
use grid_node::gossip::PublishError;
use grid_node::gossip::DEFAULT_FANOUT;
use grid_node::identity::NodeKey;
use grid_node::message::signed_bytes;
use grid_node::message::GossipMessage;

fn fresh(capacity: usize, window: u64) -> (Overlay, Vec<u8>) {
    let key = NodeKey::generate().unwrap();
    let id = key.identity().identifier().clone();
    (Overlay::new(key, capacity, window, DEFAULT_FANOUT).unwrap(), id)
}

fn topic() -> Vec<u8> {
    b"grid_topic".to_vec()
}

fn signed_by(key: &NodeKey, topic: &[u8], payload: &[u8], sequence: u64) -> GossipMessage {
    let sender = key.identity().identifier().clone();
    let input = signed_bytes(&sender, &topic.to_vec(), &payload.to_vec(), sequence);
    GossipMessage {
        sender,
        sender_key: key.identity().public_key().clone(),
        topic: topic.to_vec(),
        payload: payload.to_vec(),
        sequence,
        signature: key.sign(&input).unwrap(),
    }
}

fn accepted(outcome: Incoming) -> (bool, Vec<Vec<u8>>) {
    match outcome {
        Incoming::Accepted { deliver, forward_to } => (deliver, forward_to),
        other => panic!("not accepted: {:?}", other),
    }
}

#[test]
fn default_fanout_is_six() {
    assert_eq!(DEFAULT_FANOUT, 6);
}

#[test]
fn overlay_needs_room_window_and_degree() {
    assert!(Overlay::new(NodeKey::generate().unwrap(), 0, 60, 6).is_none());
    assert!(Overlay::new(NodeKey::generate().unwrap(), 8, 0, 6).is_none());
    assert!(Overlay::new(NodeKey::generate().unwrap(), 8, 60, 0).is_none());
    assert!(Overlay::new(NodeKey::generate().unwrap(), 1, 1, 1).is_some());
}

#[test]
fn subscribe_adds_a_topic_once() {
    let (mut overlay, _) = fresh(8, 60);
    assert!(!overlay.is_subscribed(&topic()));
    assert!(overlay.subscribe(&topic()));
    assert!(overlay.is_subscribed(&topic()));
    assert!(overlay.mesh_of(&topic()).is_empty());
    assert!(!overlay.subscribe(&topic()));
    assert!(!overlay.is_subscribed(&b"other".to_vec()));
}

#[test]
fn subscribe_keeps_the_mesh() {
    let (mut overlay, _) = fresh(8, 60);
    overlay.subscribe(&topic());
    overlay.heartbeat(&vec![vec![1u8], vec![2u8]]);
    assert_eq!(overlay.mesh_of(&topic()), vec![vec![1u8], vec![2u8]]);
    assert!(!overlay.subscribe(&topic()));
    assert_eq!(overlay.mesh_of(&topic()), vec![vec![1u8], vec![2u8]]);
}

#[test]
fn publish_without_subscription_fails() {
    let (mut overlay, _) = fresh(8, 60);
    let result = overlay.publish(&topic(), &b"hello".to_vec(), 0);
    assert_eq!(result.err(), Some(PublishError::NotSubscribed));
}

#[test]
fn publish_without_peers_fails_but_is_remembered() {
    let key = NodeKey::generate().unwrap();
    let copy = NodeKey::from_secret(key.secret().clone()).unwrap();
    let mut overlay = Overlay::new(key, 8, 60, 6).unwrap();
    overlay.subscribe(&topic());
    let result = overlay.publish(&topic(), &b"hello".to_vec(), 5);
    assert_eq!(result.err(), Some(PublishError::NoPeers));
    let echo = signed_by(&copy, b"grid_topic", b"hello", 0);
    assert!(matches!(overlay.handle_incoming(&echo, 6), Incoming::Duplicate));
    let next = signed_by(&copy, b"grid_topic", b"hello", 1);
    overlay.heartbeat(&vec![vec![7u8]]);
    let out = overlay.publish(&topic(), &b"hello".to_vec(), 7).unwrap();
    assert_eq!(out.message.sequence, 1);
    assert_eq!(out.message.signature, next.signature);
}

#[test]
fn publish_goes_to_the_whole_mesh() {
    let (mut overlay, id) = fresh(8, 60);
    overlay.subscribe(&topic());
    overlay.heartbeat(&vec![vec![1u8], vec![2u8], vec![3u8]]);
    let out = overlay.publish(&topic(), &b"hello".to_vec(), 0).unwrap();
    assert_eq!(out.recipients, vec![vec![1u8], vec![2u8], vec![3u8]]);
    assert_eq!(out.message.sender, id);
    assert_eq!(out.message.topic, topic());
    assert_eq!(out.message.payload, b"hello".to_vec());
    assert_eq!(out.message.sequence, 0);
    assert!(out.message.verify());
    let second = overlay.publish(&topic(), &b"again".to_vec(), 1).unwrap();
    assert_eq!(second.message.sequence, 1);
    assert_ne!(second.message.signature, out.message.signature);
}

#[test]
fn hello_reaches_the_subscriber_exactly_once() {
    let (mut a, a_id) = fresh(64, 60);
    let (mut b, b_id) = fresh(64, 60);
    a.subscribe(&topic());
    b.subscribe(&topic());
    a.heartbeat(&vec![b_id.clone()]);
    b.heartbeat(&vec![a_id.clone()]);
    let out = a.publish(&topic(), &b"hello".to_vec(), 10).unwrap();
    assert_eq!(out.recipients, vec![b_id.clone()]);
    let (deliver, forward_to) = accepted(b.handle_incoming(&out.message, 10));
    assert!(deliver);
    assert_eq!(out.message.payload, b"hello".to_vec());
    assert!(forward_to.is_empty());
    assert!(matches!(b.handle_incoming(&out.message, 11), Incoming::Duplicate));
    assert!(matches!(b.handle_incoming(&out.message, 69), Incoming::Duplicate));
    assert!(matches!(a.handle_incoming(&out.message, 11), Incoming::Duplicate));
}

#[test]
fn new_message_is_forwarded_to_the_mesh_without_the_sender() {
    let author = NodeKey::generate().unwrap();
    let author_id = author.identity().identifier().clone();
    let (mut node, _) = fresh(64, 60);
    node.subscribe(&topic());
    node.heartbeat(&vec![vec![1u8], author_id.clone(), vec![2u8]]);
    assert_eq!(node.mesh_of(&topic()), vec![vec![1u8], author_id.clone(), vec![2u8]]);
    let message = signed_by(&author, b"grid_topic", b"news", 3);
    let (deliver, forward_to) = accepted(node.handle_incoming(&message, 0));
    assert!(deliver);
    assert_eq!(forward_to, vec![vec![1u8], vec![2u8]]);
}

#[test]
fn message_on_a_topic_not_followed_is_remembered_but_goes_nowhere() {
    let author = NodeKey::generate().unwrap();
    let (mut node, _) = fresh(64, 60);
    node.subscribe(&topic());
    node.heartbeat(&vec![vec![1u8]]);
    let message = signed_by(&author, b"elsewhere", b"news", 0);
    let (deliver, forward_to) = accepted(node.handle_incoming(&message, 0));
    assert!(!deliver);
    assert!(forward_to.is_empty());
    assert!(matches!(node.handle_incoming(&message, 1), Incoming::Duplicate));
}

#[test]
fn forged_message_is_dropped() {
    let author = NodeKey::generate().unwrap();
    let other = NodeKey::generate().unwrap();
    let (mut node, _) = fresh(64, 60);
    node.subscribe(&topic());
    node.heartbeat(&vec![vec![1u8]]);
    let good = signed_by(&author, b"grid_topic", b"news", 0);

    let mut payload = signed_by(&author, b"grid_topic", b"news", 0);
    payload.payload = b"fake".to_vec();
    assert!(matches!(node.handle_incoming(&payload, 0), Incoming::InvalidSignature));

    let mut sequence = signed_by(&author, b"grid_topic", b"news", 0);
    sequence.sequence = 1;
    assert!(matches!(node.handle_incoming(&sequence, 0), Incoming::InvalidSignature));

    let mut moved = signed_by(&author, b"grid_topic", b"news", 0);
    moved.topic = b"grid_topi".to_vec();
    assert!(matches!(node.handle_incoming(&moved, 0), Incoming::InvalidSignature));

    let mut key = signed_by(&author, b"grid_topic", b"news", 0);
    key.sender_key = other.identity().public_key().clone();
    assert!(matches!(node.handle_incoming(&key, 0), Incoming::InvalidSignature));

    let mut claimed = signed_by(&other, b"grid_topic", b"news", 0);
    claimed.sender = author.identity().identifier().clone();
    assert!(matches!(node.handle_incoming(&claimed, 0), Incoming::InvalidSignature));

    let mut unsigned = signed_by(&author, b"grid_topic", b"news", 0);
    unsigned.signature = Vec::new();
    assert!(matches!(node.handle_incoming(&unsigned, 0), Incoming::InvalidSignature));

    let (deliver, forward_to) = accepted(node.handle_incoming(&good, 0));
    assert!(deliver);
    assert_eq!(forward_to, vec![vec![1u8]]);
}

#[test]
fn handle_checked_goes_by_what_the_caller_found() {
    let author = NodeKey::generate().unwrap();
    let (mut node, _) = fresh(64, 60);
    node.subscribe(&topic());
    let message = signed_by(&author, b"grid_topic", b"news", 0);
    assert!(matches!(node.handle_checked(&message, false, 0), Incoming::InvalidSignature));
    let (deliver, _) = accepted(node.handle_checked(&message, true, 0));
    assert!(deliver);
    assert!(matches!(node.handle_checked(&message, true, 0), Incoming::Duplicate));
    assert!(matches!(node.handle_checked(&message, false, 0), Incoming::InvalidSignature));
}

#[test]
fn message_is_accepted_again_once_the_window_has_passed() {
    let author = NodeKey::generate().unwrap();
    let (mut node, _) = fresh(64, 60);
    node.subscribe(&topic());
    let message = signed_by(&author, b"grid_topic", b"news", 0);
    accepted(node.handle_incoming(&message, 100));
    assert!(matches!(node.handle_incoming(&message, 159), Incoming::Duplicate));
    let (deliver, _) = accepted(node.handle_incoming(&message, 160));
    assert!(deliver);
}

#[test]
fn publish_signed_takes_the_callers_signature() {
    let key = NodeKey::generate().unwrap();
    let copy = NodeKey::from_secret(key.secret().clone()).unwrap();
    let mut overlay = Overlay::new(key, 8, 60, 6).unwrap();
    overlay.subscribe(&topic());
    overlay.heartbeat(&vec![vec![1u8]]);
    let expected = signed_by(&copy, b"grid_topic", b"hello", 0);
    let out = overlay
        .publish_signed(&topic(), &b"hello".to_vec(), expected.signature.clone(), 0)
        .unwrap();
    assert_eq!(out.message.signature, expected.signature);
    assert!(out.message.verify());
    assert_eq!(out.recipients, vec![vec![1u8]]);
    let unfollowed = overlay.publish_signed(&b"other".to_vec(), &b"x".to_vec(), vec![1], 0);
    assert_eq!(unfollowed.err(), Some(PublishError::NotSubscribed));
}

#[test]
fn heartbeat_prunes_and_fills() {
    let key = NodeKey::generate().unwrap();
    let me = key.identity().identifier().clone();
    let mut overlay = Overlay::new(key, 8, 60, 3).unwrap();
    overlay.subscribe(&topic());
    overlay.heartbeat(&vec![vec![1u8], vec![2u8], me.clone(), vec![3u8], vec![4u8]]);
    assert_eq!(overlay.mesh_of(&topic()), vec![vec![1u8], vec![2u8], vec![3u8]]);
    overlay.heartbeat(&vec![vec![4u8], vec![3u8], vec![1u8], vec![5u8]]);
    assert_eq!(overlay.mesh_of(&topic()), vec![vec![1u8], vec![3u8], vec![4u8]]);
    overlay.heartbeat(&Vec::new());
    assert!(overlay.mesh_of(&topic()).is_empty());
    assert!(overlay.is_subscribed(&topic()));
}

#[test]
fn signed_bytes_frame_each_field() {
    let input = signed_bytes(&vec![0xaa], &b"t".to_vec(), &b"hi".to_vec(), 0x0102030405060708);
    let expected: Vec<u8> = vec![
        0, 0, 0, 0, 0, 0, 0, 1, 0xaa, 0, 0, 0, 0, 0, 0, 0, 1, b't', 0, 0, 0, 0, 0, 0, 0, 2, b'h',
        b'i', 1, 2, 3, 4, 5, 6, 7, 8,
    ];
    assert_eq!(input, expected);
    assert_eq!(signed_bytes(&Vec::new(), &Vec::new(), &Vec::new(), u64::MAX), {
        let mut v = vec![0u8; 24];
        v.extend_from_slice(&[0xff; 8]);
        v
    });
}

#[test]
fn message_identifier_is_sender_and_signature() {
    let author = NodeKey::generate().unwrap();
    let message = signed_by(&author, b"grid_topic", b"news", 0);
    let id = message.id();
    assert_eq!(id.sender, message.sender);
    assert_eq!(id.signature, message.signature);
    assert!(id.same(&id.copy()));
    let other = signed_by(&author, b"grid_topic", b"news", 1);
    assert!(!id.same(&other.id()));
}
