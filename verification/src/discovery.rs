//! The table of peers that announced themselves on the local network. An
//! announcement puts a peer in or refreshes it; a peer that was not
//! refreshed in time leaves. The table never connects to anybody: it only
//! tells the event loop whom it could.

use vstd::prelude::*;
use crate::bytes::bytes_eq;
use crate::bytes::copy_bytes;
use crate::bytes::views;
use crate::transport::Address;

verus! {

/// What a node tells the local network of itself, and what the event loop
/// learns of a peer: its identifier and where it listens.
#[derive(Debug)]
pub struct Announcement {
    pub peer: Vec<u8>,
    pub addresses: Vec<Address>,
}

/// What the table knows of a peer: its addresses, and when it last
/// announced itself.
pub type Entry = (Seq<Address>, u64);

/// One peer in the table.
#[derive(Debug)]
pub struct PeerRecord {
    peer: Vec<u8>,
    addresses: Vec<Address>,
    refreshed: u64,
}

/// Whether a peer that last announced itself at `refreshed` has been silent
/// for too long at `now`.
pub open spec fn stale(refreshed: u64, now: u64, timeout: u64) -> bool {
    now >= refreshed && now - refreshed >= timeout
}

/// Whether a list of records holds `peer` at `i`.
pub closed spec fn stands(records: Seq<PeerRecord>, peer: Seq<u8>, i: int) -> bool {
    0 <= i < records.len() && records[i].peer@ == peer
}

/// What a record says of its peer.
pub closed spec fn entry(record: PeerRecord) -> Entry {
    (record.addresses@, record.refreshed)
}

/// The peers of a list of records, each with what is known of it.
pub closed spec fn listing(records: Seq<PeerRecord>) -> Map<Seq<u8>, Entry> {
    Map::new(
        |p: Seq<u8>| exists|i: int| stands(records, p, i),
        |p: Seq<u8>| entry(records[choose|i: int| stands(records, p, i)]),
    )
}

/// A copy of a list of addresses.
pub fn copy_addresses(addresses: &Vec<Address>) -> (copy: Vec<Address>)
    ensures
        copy@ == addresses@,
{
    let mut out: Vec<Address> = Vec::new();
    let mut i: usize = 0;
    while i < addresses.len()
        invariant
            i <= addresses.len(),
            out@ == addresses@.take(i as int),
        decreases addresses.len() - i,
    {
        out.push(addresses[i]);
        assert(addresses@.take(i + 1) =~= addresses@.take(i as int).push(addresses@[i as int]));
        i += 1;
    }
    assert(addresses@.take(addresses.len() as int) =~= addresses@);
    out
}

/// The peers known from their announcements.
#[derive(Debug)]
pub struct AddressTable {
    records: Vec<PeerRecord>,
    timeout: u64,
}

impl View for AddressTable {
    type V = Map<Seq<u8>, Entry>;

    closed spec fn view(&self) -> Map<Seq<u8>, Entry> {
        listing(self.records@)
    }
}

impl AddressTable {
    /// How long a peer may stay silent.
    pub closed spec fn patience(&self) -> u64 {
        self.timeout
    }

    /// The table forgets no peer at once and holds none twice.
    pub closed spec fn wf(&self) -> bool {
        &&& self.timeout >= 1
        &&& forall|i: int, j: int|
            0 <= i < j < self.records.len() ==> self.records[i].peer@ != self.records[j].peer@
    }

    /// The record that stands at `i` is what the table knows of its peer.
    proof fn lemma_slot(&self, i: int)
        requires
            self.wf(),
            0 <= i < self.records.len(),
        ensures
            self@.dom().contains(self.records[i].peer@),
            self@[self.records[i].peer@] == entry(self.records[i]),
    {
        let p = self.records[i].peer@;
        assert(stands(self.records@, p, i));
        let k = choose|k: int| stands(self.records@, p, k);
        assert(stands(self.records@, p, k));
        assert(k == i);
    }

    /// Where `peer` stands in the list of records.
    fn slot(&self, peer: &Vec<u8>) -> (at: Option<usize>)
        ensures
            match at {
                Some(i) => i < self.records.len() && self.records[i as int].peer@ == peer@,
                None => !self@.dom().contains(peer@),
            },
    {
        let mut i: usize = 0;
        while i < self.records.len()
            invariant
                i <= self.records.len(),
                forall|k: int| 0 <= k < i ==> self.records[k].peer@ != peer@,
            decreases self.records.len() - i,
        {
            if bytes_eq(&self.records[i].peer, peer) {
                return Some(i);
            }
            i += 1;
        }
        proof {
            if self@.dom().contains(peer@) {
                let k = choose|k: int| stands(self.records@, peer@, k);
                assert(stands(self.records@, peer@, k));
            }
        }
        None
    }

    /// An empty table, or `None` where it would forget every peer at once.
    pub fn new(timeout: u64) -> (table: Option<AddressTable>)
        ensures
            table is Some <==> timeout >= 1,
            table matches Some(t) ==> t.wf() && t@ == Map::<Seq<u8>, Entry>::empty()
                && t.patience() == timeout,
    {
        if timeout < 1 {
            return None;
        }
        let t = AddressTable { records: Vec::new(), timeout };
        proof {
            assert forall|p: Seq<u8>| !t@.dom().contains(p) by {
                if t@.dom().contains(p) {
                    let k = choose|k: int| stands(t.records@, p, k);
                    assert(stands(t.records@, p, k));
                }
            }
            assert(t@ =~= Map::<Seq<u8>, Entry>::empty());
        }
        Some(t)
    }

    /// The addresses that `peer` announced last, if the table knows it.
    pub fn addresses_of(&self, peer: &Vec<u8>) -> (found: Option<Vec<Address>>)
        requires
            self.wf(),
        ensures
            found is Some <==> self@.dom().contains(peer@),
            found matches Some(a) ==> a@ == self@[peer@].0,
    {
        match self.slot(peer) {
            Some(i) => {
                proof {
                    self.lemma_slot(i as int);
                }
                Some(copy_addresses(&self.records[i].addresses))
            },
            None => None,
        }
    }

    /// Takes an announcement that arrived at `now`: the peer is in the table
    /// from now on, with the addresses of this announcement. Gives back what
    /// the event loop is to hear of it.
    pub fn receive(&mut self, announcement: &Announcement, now: u64) -> (discovered: Announcement)
        requires
            old(self).wf(),
        ensures
            final(self).wf(),
            final(self).patience() == old(self).patience(),
            final(self)@ == old(self)@.insert(announcement.peer@, (announcement.addresses@, now)),
            discovered.peer@ == announcement.peer@,
            discovered.addresses@ == announcement.addresses@,
    {
        let ghost before = *self;
        let ghost p = announcement.peer@;
        let ghost want = before@.insert(p, (announcement.addresses@, now));
        let record = PeerRecord {
            peer: copy_bytes(&announcement.peer),
            addresses: copy_addresses(&announcement.addresses),
            refreshed: now,
        };
        let at = self.slot(&announcement.peer);
        let ghost n = match at {
            Some(i) => i as int,
            None => before.records.len() as int,
        };
        match at {
            Some(i) => {
                self.records.set(i, record);
            },
            None => {
                self.records.push(record);
            },
        }
        proof {
            assert forall|k: int| 0 <= k < before.records.len() && k != n implies self.records[k]
                == before.records[k] by {}
            assert forall|k: int| 0 <= k < before.records.len() && k != n implies before.records[k].peer@
                != p by {
                if before.records[k].peer@ == p {
                    assert(stands(before.records@, p, k));
                    if at is Some {
                        assert(before.records[n].peer@ == p);
                    }
                }
            }
            assert(self.records[n].peer@ == p);
            assert(self.wf());
            assert forall|t: Seq<u8>| self@.dom().contains(t) <==> want.dom().contains(t) by {
                if self@.dom().contains(t) {
                    let k = choose|k: int| stands(self.records@, t, k);
                    assert(stands(self.records@, t, k));
                    if k != n {
                        assert(stands(before.records@, t, k));
                    }
                }
                if want.dom().contains(t) {
                    if t == p {
                        assert(stands(self.records@, t, n));
                    } else {
                        let k = choose|k: int| stands(before.records@, t, k);
                        assert(stands(before.records@, t, k));
                        assert(stands(self.records@, t, k));
                    }
                }
            }
            assert forall|t: Seq<u8>| self@.dom().contains(t) implies self@[t] == want[t] by {
                let k = choose|k: int| stands(self.records@, t, k);
                assert(stands(self.records@, t, k));
                self.lemma_slot(k);
                if k != n {
                    assert(stands(before.records@, t, k));
                    before.lemma_slot(k);
                }
            }
            assert(self@ =~= want);
        }
        Announcement {
            peer: copy_bytes(&announcement.peer),
            addresses: copy_addresses(&announcement.addresses),
        }
    }

    /// Drops the peers that have been silent for too long at `now`, and
    /// names them, each once: of each the event loop is to hear that it
    /// expired.
    pub fn expire(&mut self, now: u64) -> (expired: Vec<Vec<u8>>)
        requires
            old(self).wf(),
        ensures
            final(self).wf(),
            final(self).patience() == old(self).patience(),
            final(self)@ == old(self)@.remove_keys(
                stale_peers(old(self)@, now, old(self).patience()),
            ),
            views(expired@).no_duplicates(),
            forall|p: Seq<u8>| #[trigger]
                views(expired@).contains(p) <==> stale_peers(
                    old(self)@,
                    now,
                    old(self).patience(),
                ).contains(p),
    {
        let ghost before = *self;
        let ghost limit = self.timeout;
        let mut rest: Vec<PeerRecord> = Vec::new();
        let mut gone: Vec<Vec<u8>> = Vec::new();
        let ghost mut origin: Seq<int> = Seq::empty();
        let ghost mut source: Seq<int> = Seq::empty();
        let mut i: usize = 0;
        while i < self.records.len()
            invariant
                i <= self.records.len(),
                *self == before,
                before.wf(),
                limit == self.timeout,
                origin.len() == rest.len(),
                source.len() == gone.len(),
                forall|k: int|
                    0 <= k < rest.len() ==> 0 <= #[trigger] origin[k] < i && rest[k].peer@
                        == self.records[origin[k]].peer@ && entry(rest[k]) == entry(
                        self.records[origin[k]],
                    ) && !stale(self.records[origin[k]].refreshed, now, limit),
                forall|a: int, b: int| 0 <= a < b < rest.len() ==> origin[a] < origin[b],
                forall|k: int|
                    0 <= k < gone.len() ==> 0 <= #[trigger] source[k] < i && gone[k]@
                        == self.records[source[k]].peer@ && stale(
                        self.records[source[k]].refreshed,
                        now,
                        limit,
                    ),
                forall|a: int, b: int| 0 <= a < b < gone.len() ==> source[a] < source[b],
                forall|j: int|
                    0 <= j < i ==> if stale(self.records[j].refreshed, now, limit) {
                        exists|k: int| 0 <= k < gone.len() && #[trigger] source[k] == j
                    } else {
                        exists|k: int| 0 <= k < rest.len() && #[trigger] origin[k] == j
                    },
            decreases self.records.len() - i,
        {
            let r = &self.records[i];
            let ghost source0 = source;
            let ghost origin0 = origin;
            if now >= r.refreshed && now - r.refreshed >= self.timeout {
                gone.push(copy_bytes(&r.peer));
                proof {
                    source = source.push(i as int);
                    assert(source[gone.len() - 1] == i);
                }
            } else {
                rest.push(
                    PeerRecord {
                        peer: copy_bytes(&r.peer),
                        addresses: copy_addresses(&r.addresses),
                        refreshed: r.refreshed,
                    },
                );
                proof {
                    origin = origin.push(i as int);
                    assert(origin[rest.len() - 1] == i);
                }
            }
            proof {
                assert forall|j: int| 0 <= j < i + 1 implies if stale(
                    self.records[j].refreshed,
                    now,
                    limit,
                ) {
                    exists|k: int| 0 <= k < gone.len() && #[trigger] source[k] == j
                } else {
                    exists|k: int| 0 <= k < rest.len() && #[trigger] origin[k] == j
                } by {
                    if j < i {
                        if stale(self.records[j].refreshed, now, limit) {
                            let k = choose|k: int|
                                0 <= k < source0.len() && #[trigger] source0[k] == j;
                            assert(source[k] == j);
                        } else {
                            let k = choose|k: int|
                                0 <= k < origin0.len() && #[trigger] origin0[k] == j;
                            assert(origin[k] == j);
                        }
                    }
                }
            }
            i += 1;
        }
        self.records = rest;
        proof {
            let want = before@.remove_keys(stale_peers(before@, now, limit));
            assert forall|a: int, b: int| 0 <= a < b < self.records.len() implies self.records[a].peer@
                != self.records[b].peer@ by {
                assert(origin[a] < origin[b]);
            }
            assert(self.wf());
            assert forall|k: int| 0 <= k < self.records.len() implies before@.dom().contains(
                #[trigger] self.records[k].peer@,
            ) && before@[self.records[k].peer@] == entry(self.records[k]) && !stale(
                entry(self.records[k]).1,
                now,
                limit,
            ) by {
                before.lemma_slot(origin[k]);
            }
            assert forall|t: Seq<u8>| self@.dom().contains(t) <==> want.dom().contains(t) by {
                if self@.dom().contains(t) {
                    let k = choose|k: int| stands(self.records@, t, k);
                    assert(stands(self.records@, t, k));
                    assert(self.records[k].peer@ == t);
                }
                if want.dom().contains(t) {
                    let j = choose|j: int| stands(before.records@, t, j);
                    assert(stands(before.records@, t, j));
                    before.lemma_slot(j);
                    let k = choose|k: int| 0 <= k < origin.len() && #[trigger] origin[k] == j;
                    assert(stands(self.records@, t, k));
                }
            }
            assert forall|t: Seq<u8>| self@.dom().contains(t) implies self@[t] == want[t] by {
                let k = choose|k: int| stands(self.records@, t, k);
                assert(stands(self.records@, t, k));
                self.lemma_slot(k);
                assert(self.records[k].peer@ == t);
            }
            assert(self@ =~= want);
            let names = views(gone@);
            assert forall|a: int, b: int| 0 <= a < b < names.len() implies names[a] != names[b] by {
                assert(source[a] < source[b]);
            }
            assert forall|p: Seq<u8>| #[trigger]
                names.contains(p) <==> before@.dom().contains(p) && stale(
                    before@[p].1,
                    now,
                    limit,
                ) by {
                if names.contains(p) {
                    let k = choose|k: int| 0 <= k < names.len() && names[k] == p;
                    before.lemma_slot(source[k]);
                }
                if before@.dom().contains(p) && stale(before@[p].1, now, limit) {
                    let j = choose|j: int| stands(before.records@, p, j);
                    assert(stands(before.records@, p, j));
                    before.lemma_slot(j);
                    let k = choose|k: int| 0 <= k < source.len() && #[trigger] source[k] == j;
                    assert(names[k] == p);
                }
            }
        }
        gone
    }
}

/// What the discovery service asks for after a look at the clock.
#[derive(Debug)]
pub struct Round {
    /// Whether it is time to announce this node on the local network.
    pub announce: bool,
    /// The peers that have been silent for too long, each once.
    pub expired: Vec<Vec<u8>>,
}

/// The stale peers of a table at `now`.
pub open spec fn stale_peers(table: Map<Seq<u8>, Entry>, now: u64, timeout: u64) -> Set<Seq<u8>> {
    Set::new(|p: Seq<u8>| table.dom().contains(p) && stale(table[p].1, now, timeout))
}

/// Whether a service that announced itself last at `last` is to announce
/// itself at `now`: at once where it never did, else after the interval.
pub open spec fn announce_due(last: Option<u64>, now: u64, interval: u64) -> bool {
    match last {
        None => true,
        Some(at) => now >= at && now - at >= interval,
    }
}

/// The discovery service: announces this node every interval, and keeps the
/// table of the peers that announce themselves. While it is stopped it does
/// neither.
#[derive(Debug)]
pub struct Discovery {
    table: AddressTable,
    interval: u64,
    running: bool,
    announced: Option<u64>,
}

impl Discovery {
    /// Whether the service runs.
    pub closed spec fn active(&self) -> bool {
        self.running
    }

    /// The peers that the service knows.
    pub closed spec fn known(&self) -> Map<Seq<u8>, Entry> {
        self.table@
    }

    /// When the service announced this node last.
    pub closed spec fn last(&self) -> Option<u64> {
        self.announced
    }

    /// The time between two announcements.
    pub closed spec fn pace(&self) -> u64 {
        self.interval
    }

    /// How long a peer may stay silent.
    pub closed spec fn patience(&self) -> u64 {
        self.table.patience()
    }

    /// The table is sound and the interval is not zero.
    pub closed spec fn wf(&self) -> bool {
        self.table.wf() && self.interval >= 1
    }

    /// A service that is stopped and knows nobody, or `None` where it would
    /// announce without pause or forget every peer at once.
    pub fn new(interval: u64, timeout: u64) -> (service: Option<Discovery>)
        ensures
            service is Some <==> interval >= 1 && timeout >= 1,
            service matches Some(d) ==> d.wf() && !d.active() && d.known() == Map::<
                Seq<u8>,
                Entry,
            >::empty() && d.last() is None && d.pace() == interval && d.patience() == timeout,
    {
        if interval < 1 {
            return None;
        }
        match AddressTable::new(timeout) {
            Some(table) => Some(Discovery { table, interval, running: false, announced: None }),
            None => None,
        }
    }

    /// Starts the service. Its next round announces this node.
    pub fn start(&mut self)
        requires
            old(self).wf(),
        ensures
            final(self).wf(),
            final(self).active(),
            final(self).known() == old(self).known(),
            final(self).last() == if old(self).active() {
                old(self).last()
            } else {
                None
            },
            final(self).pace() == old(self).pace(),
            final(self).patience() == old(self).patience(),
    {
        if !self.running {
            self.running = true;
            self.announced = None;
        }
    }

    /// Stops the service. It keeps what it knows.
    pub fn stop(&mut self)
        requires
            old(self).wf(),
        ensures
            final(self).wf(),
            !final(self).active(),
            final(self).known() == old(self).known(),
            final(self).last() == old(self).last(),
            final(self).pace() == old(self).pace(),
            final(self).patience() == old(self).patience(),
    {
        self.running = false;
    }

    /// Whether the service runs.
    pub fn is_running(&self) -> (yes: bool)
        ensures
            yes == self.active(),
    {
        self.running
    }

    /// One round at `now`. A running service says whether this node is to be
    /// announced, and drops and names the peers that have been silent for too
    /// long. A stopped one does nothing.
    pub fn round(&mut self, now: u64) -> (round: Round)
        requires
            old(self).wf(),
        ensures
            final(self).wf(),
            final(self).active() == old(self).active(),
            final(self).pace() == old(self).pace(),
            final(self).patience() == old(self).patience(),
            !old(self).active() ==> *final(self) == *old(self) && !round.announce && views(
                round.expired@,
            ).len() == 0,
            old(self).active() ==> {
                &&& round.announce == announce_due(old(self).last(), now, old(self).pace())
                &&& final(self).last() == if round.announce {
                    Some(now)
                } else {
                    old(self).last()
                }
                &&& final(self).known() == old(self).known().remove_keys(
                    stale_peers(old(self).known(), now, old(self).patience()),
                )
                &&& views(round.expired@).no_duplicates()
                &&& forall|p: Seq<u8>| #[trigger]
                    views(round.expired@).contains(p) <==> stale_peers(
                        old(self).known(),
                        now,
                        old(self).patience(),
                    ).contains(p)
            },
    {
        if !self.running {
            return Round { announce: false, expired: Vec::new() };
        }
        let announce = match self.announced {
            None => true,
            Some(at) => now >= at && now - at >= self.interval,
        };
        if announce {
            self.announced = Some(now);
        }
        let expired = self.table.expire(now);
        Round { announce, expired }
    }

    /// Takes an announcement that arrived at `now`. A running service puts
    /// the peer into its table and gives back what the event loop is to hear;
    /// a stopped one hears nothing.
    pub fn hear(&mut self, announcement: &Announcement, now: u64) -> (discovered: Option<
        Announcement,
    >)
        requires
            old(self).wf(),
        ensures
            final(self).wf(),
            heard(*old(self), *announcement, now, *final(self), discovered),
    {
        if !self.running {
            return None;
        }
        Some(self.table.receive(announcement, now))
    }

    /// The addresses that `peer` announced last, if the service knows it.
    pub fn addresses_of(&self, peer: &Vec<u8>) -> (found: Option<Vec<Address>>)
        requires
            self.wf(),
        ensures
            found is Some <==> self.known().dom().contains(peer@),
            found matches Some(a) ==> a@ == self.known()[peer@].0,
    {
        self.table.addresses_of(peer)
    }
}

/// How `hear` takes the service from `pre` to `post`, and what it tells the
/// event loop. A stopped service stays as it is and tells nothing. A running
/// one knows the peer afterwards, with the addresses of the announcement,
/// and tells the event loop of exactly that peer and those addresses.
pub open spec fn heard(
    pre: Discovery,
    announcement: Announcement,
    now: u64,
    post: Discovery,
    discovered: Option<Announcement>,
) -> bool {
    if !pre.active() {
        post == pre && discovered is None
    } else {
        &&& post.active()
        &&& post.last() == pre.last()
        &&& post.pace() == pre.pace()
        &&& post.patience() == pre.patience()
        &&& post.known() == pre.known().insert(
            announcement.peer@,
            (announcement.addresses@, now),
        )
        &&& discovered matches Some(d)
        &&& d.peer@ == announcement.peer@
        &&& d.addresses@ == announcement.addresses@
    }
}

/// Two running services that each hear the other's announcement both tell
/// their event loop of the other, with the other's addresses, and know the
/// other afterwards. A running service announces itself at its first round,
/// and again whenever a whole interval has passed since it did.
pub proof fn lemma_mutual_discovery(
    a_pre: Discovery,
    b_pre: Discovery,
    from_a: Announcement,
    from_b: Announcement,
    now: u64,
    a_post: Discovery,
    b_post: Discovery,
    at_a: Option<Announcement>,
    at_b: Option<Announcement>,
)
    requires
        a_pre.active(),
        b_pre.active(),
        heard(a_pre, from_b, now, a_post, at_a),
        heard(b_pre, from_a, now, b_post, at_b),
    ensures
        at_a matches Some(d) && d.peer@ == from_b.peer@ && d.addresses@ == from_b.addresses@,
        at_b matches Some(d) && d.peer@ == from_a.peer@ && d.addresses@ == from_a.addresses@,
        a_post.known().dom().contains(from_b.peer@),
        b_post.known().dom().contains(from_a.peer@),
        a_post.known()[from_b.peer@].0 == from_b.addresses@,
        b_post.known()[from_a.peer@].0 == from_a.addresses@,
        announce_due(None, now, a_pre.pace()),
        forall|last: u64, later: u64|
            later >= last && later - last >= a_pre.pace() ==> announce_due(
                Some(last),
                later,
                a_pre.pace(),
            ),
{
}

/// What a node announces of itself: its identifier and where it listens.
pub fn announcement_of(identifier: &Vec<u8>, addresses: &Vec<Address>) -> (own: Announcement)
    ensures
        own.peer@ == identifier@,
        own.addresses@ == addresses@,
{
    Announcement { peer: copy_bytes(identifier), addresses: copy_addresses(addresses) }
}

/// A peer that announces itself in time is never dropped: one heard at
/// `heard` is still known after a round at `now`, as long as `now` comes
/// before its patience has run out.
pub proof fn lemma_refreshed_peer_stays(
    known: Map<Seq<u8>, Entry>,
    peer: Seq<u8>,
    addresses: Seq<Address>,
    heard: u64,
    now: u64,
    timeout: u64,
)
    requires
        now < heard || now - heard < timeout,
    ensures
        ({
            let after = known.insert(peer, (addresses, heard));
            let left = after.remove_keys(stale_peers(after, now, timeout));
            left.dom().contains(peer) && left[peer] == (addresses, heard)
        }),
{
}

/// A peer that stays silent for its whole patience is dropped by the next
/// round.
pub proof fn lemma_silent_peer_expires(
    known: Map<Seq<u8>, Entry>,
    peer: Seq<u8>,
    now: u64,
    timeout: u64,
)
    requires
        known.dom().contains(peer),
        now >= known[peer].1,
        now - known[peer].1 >= timeout,
    ensures
        stale_peers(known, now, timeout).contains(peer),
        !known.remove_keys(stale_peers(known, now, timeout)).dom().contains(peer),
{
}

} // verus!
