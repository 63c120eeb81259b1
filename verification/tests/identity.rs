use grid_node::behaviour::init_gossipsub;
use grid_node::identity::identifier_matches;
use grid_node::identity::signature_matches;
use grid_node::identity::NodeKey;
use grid_node::identity::PeerIdentity;

#[test]
fn two_generations_give_two_identifiers() {
    let a = NodeKey::generate().unwrap();
    let b = NodeKey::generate().unwrap();
    assert_ne!(a.identity().identifier(), b.identity().identifier());
    assert_ne!(a.identity().public_key(), b.identity().public_key());
    assert_ne!(a.secret(), b.secret());
}

#[test]
fn every_generated_key_is_a_key() {
    for _ in 0..20 {
        let key = NodeKey::generate().unwrap();
        let again = NodeKey::from_secret(key.secret().clone()).unwrap();
        assert_eq!(again.identity().identifier(), key.identity().identifier());
        assert!(PeerIdentity::from_public_key(key.identity().public_key().clone()).is_some());
        assert!(key.sign(&Vec::new()).is_some());
    }
}

#[test]
fn identifier_is_the_one_libp2p_derives() {
    let pair = libp2p::identity::Keypair::generate_ed25519();
    let public_key = pair.public().encode_protobuf();
    let identity = PeerIdentity::from_public_key(public_key.clone()).unwrap();
    assert_eq!(identity.public_key(), &public_key);
    assert_eq!(identity.identifier(), &libp2p::PeerId::from(pair.public()).to_bytes());
    assert_ne!(identity.identifier(), &public_key);
    assert!(identifier_matches(&public_key, identity.identifier()));
    assert!(!identifier_matches(&public_key, &public_key));
}

#[test]
fn identity_is_a_function_of_the_key() {
    let key = NodeKey::generate().unwrap();
    let again = NodeKey::from_secret(key.secret().clone()).unwrap();
    assert_eq!(key.identity().identifier(), again.identity().identifier());
    assert_eq!(key.identity().public_key(), again.identity().public_key());
    let pair = libp2p::identity::Keypair::from_protobuf_encoding(key.secret()).unwrap();
    assert_eq!(key.identity().public_key(), &pair.public().encode_protobuf());
    assert_ne!(key.identity().public_key(), key.secret());
}

#[test]
fn bytes_that_are_no_key_give_no_identity() {
    assert!(PeerIdentity::from_public_key(vec![1, 2, 3]).is_none());
    assert!(PeerIdentity::from_public_key(Vec::new()).is_none());
    assert!(NodeKey::from_secret(vec![9, 9, 9]).is_none());
    assert!(!identifier_matches(&vec![1, 2, 3], &vec![1, 2, 3]));
}

#[test]
fn signature_verifies_under_the_signers_key_only() {
    let a = NodeKey::generate().unwrap();
    let b = NodeKey::generate().unwrap();
    let message = b"hello".to_vec();
    let signature = a.sign(&message).unwrap();
    assert_ne!(signature, message);
    assert!(a.identity().verifies(&message, &signature));
    assert!(signature_matches(a.identity().public_key(), &message, &signature));
    assert!(!b.identity().verifies(&message, &signature));
    assert!(!a.identity().verifies(&b"hellp".to_vec(), &signature));
    let mut forged = signature.clone();
    forged[0] ^= 1;
    assert!(!a.identity().verifies(&message, &forged));
    assert!(!a.identity().verifies(&message, &Vec::new()));
    assert!(!signature_matches(&vec![1, 2, 3], &message, &signature));
}

#[test]
fn same_key_and_message_give_the_same_signature() {
    let key = NodeKey::generate().unwrap();
    let again = NodeKey::from_secret(key.secret().clone()).unwrap();
    let message = b"payload".to_vec();
    let first = key.sign(&message).unwrap();
    assert_eq!(key.sign(&message).unwrap(), first);
    assert_eq!(again.sign(&message).unwrap(), first);
    assert_ne!(key.sign(&b"payloae".to_vec()).unwrap(), first);
    assert_ne!(NodeKey::generate().unwrap().sign(&message).unwrap(), first);
}

#[test]
fn signature_is_the_one_libp2p_accepts() {
    let key = NodeKey::generate().unwrap();
    let message = b"payload".to_vec();
    let signature = key.sign(&message).unwrap();
    let pair = libp2p::identity::Keypair::from_protobuf_encoding(key.secret()).unwrap();
    assert!(pair.public().verify(&message, &signature));
    let theirs = pair.sign(&message).unwrap();
    assert!(key.identity().verifies(&message, &theirs));
}

#[test]
fn gossip_behaviour_is_built_from_a_key() {
    let pair = libp2p::identity::Keypair::generate_ed25519();
    assert!(init_gossipsub(pair).is_some());
}
