//! A gossip message, the bytes that its signature covers, and what makes it
//! authentic.

use vstd::prelude::*;
use crate::bytes::copy_bytes;
use crate::identity::identifier_matches;
use crate::identity::peer_identifier;
use crate::identity::signature_matches;
use crate::identity::signature_valid;
use crate::seen::IdView;
use crate::seen::MessageId;

verus! {

/// The eight bytes of `n`, highest first.
pub open spec fn be64(n: u64) -> Seq<u8> {
    seq![
        (n / 0x100000000000000) as u8,
        ((n / 0x1000000000000) % 256) as u8,
        ((n / 0x10000000000) % 256) as u8,
        ((n / 0x100000000) % 256) as u8,
        ((n / 0x1000000) % 256) as u8,
        ((n / 0x10000) % 256) as u8,
        ((n / 0x100) % 256) as u8,
        (n % 256) as u8,
    ]
}

/// A field of the signed bytes: its length in eight bytes, then the field.
pub open spec fn framed(field: Seq<u8>) -> Seq<u8> {
    be64(field.len() as u64) + field
}

/// The bytes that a message's signature covers: sender, topic and payload,
/// each behind its length, then the sequence number.
pub open spec fn signing_input(
    sender: Seq<u8>,
    topic: Seq<u8>,
    payload: Seq<u8>,
    sequence: u64,
) -> Seq<u8> {
    framed(sender) + framed(topic) + framed(payload) + be64(sequence)
}

/// Appends the eight bytes of `n`, highest first.
fn push_be64(out: &mut Vec<u8>, n: u64)
    ensures
        final(out)@ == old(out)@ + be64(n),
{
    out.push((n / 0x100000000000000) as u8);
    out.push(((n / 0x1000000000000) % 256) as u8);
    out.push(((n / 0x10000000000) % 256) as u8);
    out.push(((n / 0x100000000) % 256) as u8);
    out.push(((n / 0x1000000) % 256) as u8);
    out.push(((n / 0x10000) % 256) as u8);
    out.push(((n / 0x100) % 256) as u8);
    out.push((n % 256) as u8);
    assert(out@ =~= old(out)@ + be64(n));
}

/// Appends a field behind its length.
fn push_framed(out: &mut Vec<u8>, field: &Vec<u8>)
    ensures
        final(out)@ == old(out)@ + framed(field@),
{
    push_be64(out, field.len() as u64);
    let ghost mid = out@;
    let mut i: usize = 0;
    while i < field.len()
        invariant
            i <= field.len(),
            out@ == mid + field@.take(i as int),
        decreases field.len() - i,
    {
        out.push(field[i]);
        assert(field@.take(i + 1) =~= field@.take(i as int).push(field@[i as int]));
        i += 1;
    }
    assert(field@.take(field.len() as int) =~= field@);
    assert(out@ =~= old(out)@ + framed(field@));
}

/// The bytes that a signature over these four covers.
pub fn signed_bytes(sender: &Vec<u8>, topic: &Vec<u8>, payload: &Vec<u8>, sequence: u64) -> (input:
    Vec<u8>)
    ensures
        input@ == signing_input(sender@, topic@, payload@, sequence),
{
    let mut out: Vec<u8> = Vec::new();
    push_framed(&mut out, sender);
    push_framed(&mut out, topic);
    push_framed(&mut out, payload);
    push_be64(&mut out, sequence);
    assert(out@ =~= signing_input(sender@, topic@, payload@, sequence));
    out
}

/// A message as it travels: who says to have sent it and under which key, on
/// which topic, what it carries, its number in the sender's count, and the
/// signature over all of that.
#[derive(Debug)]
pub struct GossipMessage {
    pub sender: Vec<u8>,
    pub sender_key: Vec<u8>,
    pub topic: Vec<u8>,
    pub payload: Vec<u8>,
    pub sequence: u64,
    pub signature: Vec<u8>,
}

impl GossipMessage {
    /// The message's identifier: its sender and its signature.
    pub open spec fn ident(&self) -> IdView {
        (self.sender@, self.signature@)
    }

    /// The bytes that the signature has to cover.
    pub open spec fn signed(&self) -> Seq<u8> {
        signing_input(self.sender@, self.topic@, self.payload@, self.sequence)
    }

    /// The sender's identifier belongs to the key that the message names, and
    /// the signature is one by that key over the message.
    pub open spec fn authentic(&self) -> bool {
        &&& peer_identifier(self.sender_key@) == Some(self.sender@)
        &&& signature_valid(self.sender_key@, self.signed(), self.signature@)
    }

    /// The message's identifier.
    pub fn id(&self) -> (id: MessageId)
        ensures
            id@ == self.ident(),
    {
        MessageId { sender: copy_bytes(&self.sender), signature: copy_bytes(&self.signature) }
    }

    /// Whether the message is authentic.
    pub fn verify(&self) -> (valid: bool)
        ensures
            valid == self.authentic(),
    {
        if !identifier_matches(&self.sender_key, &self.sender) {
            return false;
        }
        let input = signed_bytes(&self.sender, &self.topic, &self.payload, self.sequence);
        signature_matches(&self.sender_key, &input, &self.signature)
    }
}

} // verus!
