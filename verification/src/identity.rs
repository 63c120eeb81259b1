//! A node's identity: a key pair made once at start, and the identifier that
//! every other part of the node knows it by.

use vstd::prelude::*;
use libp2p::identity::Keypair;
use libp2p::identity::PublicKey;
use crate::bytes::bytes_eq;

verus! {

/// The identifier that `libp2p` derives from an encoded public key, or `None`
/// where the bytes are no public key.
pub uninterp spec fn peer_identifier(public_key: Seq<u8>) -> Option<Seq<u8>>;

/// The encoded public key that belongs to an encoded key pair, or `None`
/// where the bytes are no key pair.
pub uninterp spec fn public_key_of(secret: Seq<u8>) -> Option<Seq<u8>>;

/// Whether `libp2p` accepts `signature` as one made over `message` with the
/// private key that belongs to the encoded public key. Bytes that are no
/// public key accept nothing.
pub uninterp spec fn signature_valid(
    public_key: Seq<u8>,
    message: Seq<u8>,
    signature: Seq<u8>,
) -> bool;

/// Whether the bytes are an encoded key pair whose public half has an
/// identifier: whether they make a node key.
pub open spec fn has_identity(secret: Seq<u8>) -> bool {
    public_key_of(secret) matches Some(p) && peer_identifier(p) is Some
}

/// The view of a byte string that may be absent.
pub open spec fn view_of(bytes: Option<Vec<u8>>) -> Option<Seq<u8>> {
    match bytes {
        Some(b) => Some(b@),
        None => None,
    }
}

/// Calls `Keypair::generate_ed25519` and encodes the fresh key pair with
/// `Keypair::to_protobuf_encoding`. Which bytes come back is a matter of the
/// system's randomness, and the contract claims none. It claims what holds
/// of every draw: an Ed25519 pair always encodes, its encoding is one of a
/// key pair, and that pair's public half has an identifier. Where the system
/// has no randomness to give, the generator ends the process and nothing
/// comes back.
#[verifier::external_body]
fn fresh_secret() -> (secret: Option<Vec<u8>>)
    ensures
        secret is Some,
        secret matches Some(s) ==> has_identity(s@),
{
    Keypair::generate_ed25519().to_protobuf_encoding().ok()
}

/// Decodes a key pair with `Keypair::from_protobuf_encoding` and encodes its
/// public half with `PublicKey::encode_protobuf`. The contract names the
/// result.
#[verifier::external_body]
fn derive_public_key(secret: &Vec<u8>) -> (public_key: Option<Vec<u8>>)
    ensures
        view_of(public_key) == public_key_of(secret@),
{
    match Keypair::from_protobuf_encoding(secret) {
        Ok(pair) => Some(pair.public().encode_protobuf()),
        Err(_) => None,
    }
}

/// Decodes a public key with `PublicKey::try_decode_protobuf` and gives the
/// bytes of `PublicKey::to_peer_id`. The contract names the result.
#[verifier::external_body]
fn derive_identifier(public_key: &Vec<u8>) -> (identifier: Option<Vec<u8>>)
    ensures
        view_of(identifier) == peer_identifier(public_key@),
{
    match PublicKey::try_decode_protobuf(public_key) {
        Ok(key) => Some(key.to_peer_id().to_bytes()),
        Err(_) => None,
    }
}

/// Decodes a public key with `PublicKey::try_decode_protobuf` and asks
/// `PublicKey::verify` whether the signature is one over the message. The
/// contract names the answer; bytes that do not decode answer `false`.
#[verifier::external_body]
fn verify_signature(public_key: &Vec<u8>, message: &Vec<u8>, signature: &Vec<u8>) -> (valid: bool)
    ensures
        valid == signature_valid(public_key@, message@, signature@),
{
    match PublicKey::try_decode_protobuf(public_key) {
        Ok(key) => key.verify(message, signature),
        Err(_) => false,
    }
}

/// Decodes a key pair with `Keypair::from_protobuf_encoding` and signs the
/// message with `Keypair::sign`. The contract names what comes back: the
/// signature, and whether there is one. There is one exactly where the
/// bytes decode: the key pairs that decode here are Ed25519 pairs, which
/// sign whatever they are given. It also claims what that method's
/// documentation promises: a signature that comes back is one that the key
/// pair's public half verifies over the message.
#[verifier::external_body]
fn sign_message(secret: &Vec<u8>, message: &Vec<u8>) -> (signature: Option<Vec<u8>>)
    ensures
        view_of(signature) == signature_of(secret@, message@),
        signature is Some <==> public_key_of(secret@) is Some,
        signature matches Some(s) ==> (public_key_of(secret@) matches Some(p)
            && signature_valid(p, message@, s@)),
{
    match Keypair::from_protobuf_encoding(secret) {
        Ok(pair) => pair.sign(message).ok(),
        Err(_) => None,
    }
}

/// Whether `identifier` is the one that belongs to the encoded public key.
pub fn identifier_matches(public_key: &Vec<u8>, identifier: &Vec<u8>) -> (matches: bool)
    ensures
        matches == (peer_identifier(public_key@) == Some(identifier@)),
{
    match derive_identifier(public_key) {
        Some(derived) => bytes_eq(&derived, identifier),
        None => false,
    }
}

/// Whether `signature` is one over `message` by the holder of the encoded
/// public key.
pub fn signature_matches(public_key: &Vec<u8>, message: &Vec<u8>, signature: &Vec<u8>) -> (valid:
    bool)
    ensures
        valid == signature_valid(public_key@, message@, signature@),
{
    verify_signature(public_key, message, signature)
}

/// A peer as others know it: its public key and the identifier derived from
/// that key.
#[derive(Debug)]
pub struct PeerIdentity {
    public_key: Vec<u8>,
    identifier: Vec<u8>,
}

impl PeerIdentity {
    /// The encoded public key.
    pub closed spec fn key(&self) -> Seq<u8> {
        self.public_key@
    }

    /// The identifier.
    pub closed spec fn id(&self) -> Seq<u8> {
        self.identifier@
    }

    /// The identifier is the one that belongs to the public key.
    pub open spec fn wf(&self) -> bool {
        peer_identifier(self.key()) == Some(self.id())
    }

    /// The identity that belongs to an encoded public key, or `None` where
    /// the bytes are no public key.
    pub fn from_public_key(public_key: Vec<u8>) -> (identity: Option<PeerIdentity>)
        ensures
            identity is Some <==> peer_identifier(public_key@) is Some,
            identity matches Some(p) ==> p.wf() && p.key() == public_key@,
    {
        match derive_identifier(&public_key) {
            Some(identifier) => Some(PeerIdentity { public_key, identifier }),
            None => None,
        }
    }

    /// The encoded public key.
    pub fn public_key(&self) -> (key: &Vec<u8>)
        ensures
            key@ == self.key(),
    {
        &self.public_key
    }

    /// The identifier.
    pub fn identifier(&self) -> (id: &Vec<u8>)
        ensures
            id@ == self.id(),
    {
        &self.identifier
    }

    /// Whether `signature` is one that this peer made over `message`.
    pub fn verifies(&self, message: &Vec<u8>, signature: &Vec<u8>) -> (valid: bool)
        ensures
            valid == signature_valid(self.key(), message@, signature@),
    {
        verify_signature(&self.public_key, message, signature)
    }
}

/// This node's own key pair, with the identity that it gives the node.
#[derive(Debug)]
pub struct NodeKey {
    secret: Vec<u8>,
    identity: PeerIdentity,
}

impl NodeKey {
    /// The encoded key pair.
    pub closed spec fn secret_bytes(&self) -> Seq<u8> {
        self.secret@
    }

    /// The identity that the key pair gives.
    pub closed spec fn public(&self) -> PeerIdentity {
        self.identity
    }

    /// The identity is the one of the key pair's public half.
    pub open spec fn wf(&self) -> bool {
        &&& self.public().wf()
        &&& public_key_of(self.secret_bytes()) == Some(self.public().key())
    }

    /// The node key that an encoded key pair gives, or `None` where the bytes
    /// are no key pair.
    pub fn from_secret(secret: Vec<u8>) -> (key: Option<NodeKey>)
        ensures
            key matches Some(k) ==> k.wf() && k.secret_bytes() == secret@,
            key is Some <==> has_identity(secret@),
    {
        match derive_public_key(&secret) {
            Some(public_key) => match PeerIdentity::from_public_key(public_key) {
                Some(identity) => Some(NodeKey { secret, identity }),
                None => None,
            },
            None => None,
        }
    }

    /// A fresh key pair and its identity. A key always comes back, and it is
    /// sound; where the system has no randomness to give, the generator ends
    /// the process instead.
    pub fn generate() -> (key: Option<NodeKey>)
        ensures
            key matches Some(k) && k.wf(),
    {
        match fresh_secret() {
            Some(secret) => NodeKey::from_secret(secret),
            None => None,
        }
    }

    /// The identity that the key pair gives.
    pub fn identity(&self) -> (identity: &PeerIdentity)
        ensures
            *identity == self.public(),
    {
        &self.identity
    }

    /// The encoded key pair.
    pub fn secret(&self) -> (secret: &Vec<u8>)
        ensures
            secret@ == self.secret_bytes(),
    {
        &self.secret
    }

    /// The signature over `message` with the private key. A sound key always
    /// signs, and this node's identity verifies what it signed.
    pub fn sign(&self, message: &Vec<u8>) -> (signature: Option<Vec<u8>>)
        requires
            self.wf(),
        ensures
            view_of(signature) == signature_of(self.secret_bytes(), message@),
            signature matches Some(s) && signature_valid(self.public().key(), message@, s@),
    {
        sign_message(&self.secret, message)
    }
}

/// The signature that `libp2p` makes over `message` with an encoded key
/// pair, or `None` where the bytes are no key pair. Signing draws on no
/// randomness: the same key and message give the same signature.
pub uninterp spec fn signature_of(secret: Seq<u8>, message: Seq<u8>) -> Option<Seq<u8>>;

} // verus!
