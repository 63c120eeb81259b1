//! The table of connections: one peer, one connection. A new connection to
//! a peer that has one takes the old one's place.

use vstd::prelude::*;
use crate::bytes::bytes_eq;
use crate::bytes::copy_bytes;
use crate::bytes::views;
use crate::transport::TransportKind;

verus! {

/// A connection: who is at the other end, and on which transport.
#[derive(Debug)]
pub struct Connection {
    remote: Vec<u8>,
    kind: TransportKind,
}

/// Whether a list of connections holds the one to `peer` at `i`.
pub closed spec fn stands(links: Seq<Connection>, peer: Seq<u8>, i: int) -> bool {
    0 <= i < links.len() && links[i].remote@ == peer
}

/// The peers of a list of connections, each with its transport.
pub closed spec fn listing(links: Seq<Connection>) -> Map<Seq<u8>, TransportKind> {
    Map::new(
        |p: Seq<u8>| exists|i: int| stands(links, p, i),
        |p: Seq<u8>| links[choose|i: int| stands(links, p, i)].kind,
    )
}

/// The connections that the node holds.
#[derive(Debug)]
pub struct Connections {
    links: Vec<Connection>,
}

impl View for Connections {
    type V = Map<Seq<u8>, TransportKind>;

    closed spec fn view(&self) -> Map<Seq<u8>, TransportKind> {
        listing(self.links@)
    }
}

impl Connections {
    /// The connected peers in the order in which the table names them.
    pub closed spec fn roster(&self) -> Seq<Seq<u8>> {
        Seq::new(self.links@.len(), |i: int| self.links@[i].remote@)
    }

    /// No peer has two connections.
    pub closed spec fn wf(&self) -> bool {
        forall|i: int, j: int|
            0 <= i < j < self.links.len() ==> self.links[i].remote@ != self.links[j].remote@
    }

    /// The connection that stands at `i` is the one to its peer.
    proof fn lemma_slot(&self, i: int)
        requires
            self.wf(),
            0 <= i < self.links.len(),
        ensures
            self@.dom().contains(self.links[i].remote@),
            self@[self.links[i].remote@] == self.links[i].kind,
    {
        let p = self.links[i].remote@;
        assert(stands(self.links@, p, i));
        let k = choose|k: int| stands(self.links@, p, k);
        assert(stands(self.links@, p, k));
        assert(k == i);
    }

    /// The roster names each connected peer once, and nobody else.
    pub proof fn lemma_roster(&self)
        requires
            self.wf(),
        ensures
            self.roster().no_duplicates(),
            forall|p: Seq<u8>| #[trigger] self.roster().contains(p) <==> self@.dom().contains(p),
    {
        let names = self.roster();
        assert forall|p: Seq<u8>| #[trigger] names.contains(p) <==> self@.dom().contains(p) by {
            if names.contains(p) {
                let k = choose|k: int| 0 <= k < names.len() && names[k] == p;
                self.lemma_slot(k);
            }
            if self@.dom().contains(p) {
                let k = choose|k: int| stands(self.links@, p, k);
                assert(stands(self.links@, p, k));
                assert(names[k] == p);
            }
        }
    }

    /// A table without links connects nobody.
    proof fn lemma_empty(&self)
        requires
            self.links.len() == 0,
        ensures
            self@ == Map::<Seq<u8>, TransportKind>::empty(),
    {
        assert forall|p: Seq<u8>| !self@.dom().contains(p) by {
            if self@.dom().contains(p) {
                let k = choose|k: int| stands(self.links@, p, k);
                assert(stands(self.links@, p, k));
            }
        }
        assert(self@ =~= Map::<Seq<u8>, TransportKind>::empty());
    }

    /// Where the connection to `peer` stands.
    fn slot(&self, peer: &Vec<u8>) -> (at: Option<usize>)
        ensures
            match at {
                Some(i) => i < self.links.len() && self.links[i as int].remote@ == peer@,
                None => !self@.dom().contains(peer@),
            },
    {
        let mut i: usize = 0;
        while i < self.links.len()
            invariant
                i <= self.links.len(),
                forall|k: int| 0 <= k < i ==> self.links[k].remote@ != peer@,
            decreases self.links.len() - i,
        {
            if bytes_eq(&self.links[i].remote, peer) {
                return Some(i);
            }
            i += 1;
        }
        proof {
            if self@.dom().contains(peer@) {
                let k = choose|k: int| stands(self.links@, peer@, k);
                assert(stands(self.links@, peer@, k));
            }
        }
        None
    }

    /// A table without connections.
    pub fn new() -> (table: Connections)
        ensures
            table.wf(),
            table@ == Map::<Seq<u8>, TransportKind>::empty(),
    {
        let t = Connections { links: Vec::new() };
        proof {
            t.lemma_empty();
        }
        t
    }

    /// The transport of the connection to `peer`, if there is one.
    pub fn kind_of(&self, peer: &Vec<u8>) -> (kind: Option<TransportKind>)
        requires
            self.wf(),
        ensures
            kind is Some <==> self@.dom().contains(peer@),
            kind matches Some(k) ==> k == self@[peer@],
    {
        match self.slot(peer) {
            Some(i) => {
                proof {
                    self.lemma_slot(i as int);
                }
                Some(self.links[i].kind)
            },
            None => None,
        }
    }

    /// Whether the node is connected to `peer`.
    pub fn is_connected(&self, peer: &Vec<u8>) -> (yes: bool)
        requires
            self.wf(),
        ensures
            yes == self@.dom().contains(peer@),
    {
        self.kind_of(peer).is_some()
    }

    /// Records a connection to `peer`. One that the peer had before is
    /// replaced; says whether there was one.
    pub fn open(&mut self, peer: &Vec<u8>, kind: TransportKind) -> (replaced: bool)
        requires
            old(self).wf(),
        ensures
            final(self).wf(),
            replaced == old(self)@.dom().contains(peer@),
            final(self)@ == old(self)@.insert(peer@, kind),
    {
        let ghost before = *self;
        let ghost p = peer@;
        let ghost want = before@.insert(p, kind);
        let link = Connection { remote: copy_bytes(peer), kind };
        let at = self.slot(peer);
        let ghost n = match at {
            Some(i) => i as int,
            None => before.links.len() as int,
        };
        let replaced = match at {
            Some(i) => {
                proof {
                    before.lemma_slot(i as int);
                }
                self.links.set(i, link);
                true
            },
            None => {
                self.links.push(link);
                false
            },
        };
        proof {
            assert forall|k: int| 0 <= k < before.links.len() && k != n implies self.links[k]
                == before.links[k] by {}
            assert forall|k: int| 0 <= k < before.links.len() && k != n implies before.links[k].remote@
                != p by {
                if before.links[k].remote@ == p {
                    assert(stands(before.links@, p, k));
                    if at is Some {
                        assert(before.links[n].remote@ == p);
                    }
                }
            }
            assert(self.links[n].remote@ == p);
            assert(self.wf());
            assert forall|t: Seq<u8>| self@.dom().contains(t) <==> want.dom().contains(t) by {
                if self@.dom().contains(t) {
                    let k = choose|k: int| stands(self.links@, t, k);
                    assert(stands(self.links@, t, k));
                    if k != n {
                        assert(stands(before.links@, t, k));
                    }
                }
                if want.dom().contains(t) {
                    if t == p {
                        assert(stands(self.links@, t, n));
                    } else {
                        let k = choose|k: int| stands(before.links@, t, k);
                        assert(stands(before.links@, t, k));
                        assert(stands(self.links@, t, k));
                    }
                }
            }
            assert forall|t: Seq<u8>| self@.dom().contains(t) implies self@[t] == want[t] by {
                let k = choose|k: int| stands(self.links@, t, k);
                assert(stands(self.links@, t, k));
                self.lemma_slot(k);
                if k != n {
                    assert(stands(before.links@, t, k));
                    before.lemma_slot(k);
                }
            }
            assert(self@ =~= want);
        }
        replaced
    }

    /// Forgets the connection to `peer`; says whether there was one.
    pub fn close(&mut self, peer: &Vec<u8>) -> (closed: bool)
        requires
            old(self).wf(),
        ensures
            final(self).wf(),
            closed == old(self)@.dom().contains(peer@),
            final(self)@ == old(self)@.remove(peer@),
    {
        let ghost before = *self;
        let ghost p = peer@;
        let ghost want = before@.remove(p);
        match self.slot(peer) {
            Some(i) => {
                self.links.remove(i);
                proof {
                    let n = i as int;
                    before.lemma_slot(n);
                    assert forall|k: int| 0 <= k < self.links.len() implies self.links[k] == (if k
                        < n {
                        before.links[k]
                    } else {
                        before.links[k + 1]
                    }) by {}
                    assert(self.wf());
                    assert forall|t: Seq<u8>| self@.dom().contains(t) <==> want.dom().contains(
                        t,
                    ) by {
                        if self@.dom().contains(t) {
                            let k = choose|k: int| stands(self.links@, t, k);
                            assert(stands(self.links@, t, k));
                            let j = if k < n {
                                k
                            } else {
                                k + 1
                            };
                            assert(stands(before.links@, t, j));
                            assert(j != n);
                        }
                        if want.dom().contains(t) {
                            let j = choose|j: int| stands(before.links@, t, j);
                            assert(stands(before.links@, t, j));
                            let k = if j < n {
                                j
                            } else {
                                j - 1
                            };
                            assert(stands(self.links@, t, k));
                        }
                    }
                    assert forall|t: Seq<u8>| self@.dom().contains(t) implies self@[t]
                        == want[t] by {
                        let k = choose|k: int| stands(self.links@, t, k);
                        assert(stands(self.links@, t, k));
                        self.lemma_slot(k);
                        let j = if k < n {
                            k
                        } else {
                            k + 1
                        };
                        assert(stands(before.links@, t, j));
                        before.lemma_slot(j);
                    }
                    assert(self@ =~= want);
                }
                true
            },
            None => {
                assert(self@ =~= want);
                false
            },
        }
    }

    /// Forgets every connection.
    pub fn clear(&mut self)
        ensures
            final(self).wf(),
            final(self)@ == Map::<Seq<u8>, TransportKind>::empty(),
    {
        self.links = Vec::new();
        proof {
            self.lemma_empty();
        }
    }

    /// The peers that the node is connected to, each once.
    pub fn peers(&self) -> (peers: Vec<Vec<u8>>)
        requires
            self.wf(),
        ensures
            views(peers@) == self.roster(),
            views(peers@).no_duplicates(),
            forall|p: Seq<u8>| #[trigger] views(peers@).contains(p) <==> self@.dom().contains(p),
    {
        let mut out: Vec<Vec<u8>> = Vec::new();
        let mut i: usize = 0;
        while i < self.links.len()
            invariant
                i <= self.links.len(),
                out.len() == i,
                forall|k: int| 0 <= k < i ==> (#[trigger] out[k])@ == self.links[k].remote@,
            decreases self.links.len() - i,
        {
            out.push(copy_bytes(&self.links[i].remote));
            i += 1;
        }
        proof {
            let names = views(out@);
            assert(names =~= self.roster());
            assert forall|a: int, b: int| 0 <= a < b < names.len() implies names[a] != names[b] by {
                assert(out[a]@ == self.links[a].remote@);
                assert(out[b]@ == self.links[b].remote@);
            }
            assert forall|p: Seq<u8>| #[trigger] names.contains(p) <==> self@.dom().contains(p) by {
                if names.contains(p) {
                    let k = choose|k: int| 0 <= k < names.len() && names[k] == p;
                    assert(out[k]@ == self.links[k].remote@);
                    self.lemma_slot(k);
                }
                if self@.dom().contains(p) {
                    let k = choose|k: int| stands(self.links@, p, k);
                    assert(stands(self.links@, p, k));
                    assert(out[k]@ == self.links[k].remote@);
                    assert(names[k] == p);
                }
            }
        }
        out
    }
}

} // verus!
