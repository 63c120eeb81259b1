//! The cache of message identifiers that the node has already handled:
//! bounded in size, and forgetting each identifier after a window of time.

use vstd::prelude::*;
use crate::bytes::bytes_eq;
use crate::bytes::copy_bytes;

verus! {

/// A message identifier as a value: the sender's identifier and the
/// signature.
pub type IdView = (Seq<u8>, Seq<u8>);

/// What the cache remembers of one message: its identifier, and when it was
/// handled.
pub type SeenView = (IdView, u64);

/// The identifier of a message: who sent it, and the signature on it.
#[derive(Debug)]
pub struct MessageId {
    pub sender: Vec<u8>,
    pub signature: Vec<u8>,
}

impl View for MessageId {
    type V = IdView;

    open spec fn view(&self) -> IdView {
        (self.sender@, self.signature@)
    }
}

impl MessageId {
    /// Whether two identifiers name the same message.
    pub fn same(&self, other: &MessageId) -> (same: bool)
        ensures
            same == (self@ == other@),
    {
        bytes_eq(&self.sender, &other.sender) && bytes_eq(&self.signature, &other.signature)
    }

    /// A copy of the identifier.
    pub fn copy(&self) -> (copy: MessageId)
        ensures
            copy@ == self@,
    {
        MessageId { sender: copy_bytes(&self.sender), signature: copy_bytes(&self.signature) }
    }
}

/// One remembered message.
#[derive(Debug)]
pub struct SeenEntry {
    id: MessageId,
    at: u64,
}

/// Whether something handled at time `at` is still remembered at time `now`
/// by a cache with this window. A clock that went backwards forgets nothing.
pub open spec fn fresh(at: u64, now: u64, window: u64) -> bool {
    now < at || now - at < window
}

/// The entries that an insertion of `id` at `now` keeps: those of other
/// messages that are still remembered.
pub open spec fn kept(id: IdView, now: u64, window: u64) -> spec_fn(SeenView) -> bool {
    |e: SeenView| e.0 != id && fresh(e.1, now, window)
}

/// The cache's entries after `id` was inserted at `now`: the expired ones and
/// any earlier one of `id` are gone, the oldest have made room where the
/// cache was full, and `id` stands last.
pub open spec fn inserted(
    entries: Seq<SeenView>,
    capacity: nat,
    window: u64,
    id: IdView,
    now: u64,
) -> Seq<SeenView> {
    let rest = entries.filter(kept(id, now, window));
    let room = if rest.len() >= capacity {
        rest.skip(rest.len() + 1 - capacity)
    } else {
        rest
    };
    room.push((id, now))
}

/// Whether `entries` remember `id` at `now`.
pub open spec fn remembered(entries: Seq<SeenView>, window: u64, id: IdView, now: u64) -> bool {
    exists|i: int| 0 <= i < entries.len() && (#[trigger] entries[i]).0 == id && fresh(
        entries[i].1,
        now,
        window,
    )
}

/// The entries of a list, each as a value.
pub closed spec fn records(entries: Seq<SeenEntry>) -> Seq<SeenView> {
    Seq::new(entries.len(), |i: int| (entries[i].id@, entries[i].at))
}

/// The identifiers of the messages handled within the last `window` units of
/// time, at most `capacity` of them.
#[derive(Debug)]
pub struct SeenCache {
    entries: Vec<SeenEntry>,
    capacity: usize,
    window: u64,
}

impl View for SeenCache {
    type V = Seq<SeenView>;

    closed spec fn view(&self) -> Seq<SeenView> {
        records(self.entries@)
    }
}

impl SeenCache {
    /// How many identifiers the cache holds at most.
    pub closed spec fn limit(&self) -> nat {
        self.capacity as nat
    }

    /// For how long the cache remembers an identifier.
    pub closed spec fn span(&self) -> u64 {
        self.window
    }

    /// The cache has room for an identifier, remembers it for a while, and
    /// holds no more than it may.
    pub open spec fn wf(&self) -> bool {
        &&& self.limit() >= 1
        &&& self.span() >= 1
        &&& self@.len() <= self.limit()
    }

    /// Whether the cache remembers `id` at `now`.
    pub open spec fn seen(&self, id: IdView, now: u64) -> bool {
        remembered(self@, self.span(), id, now)
    }

    /// An empty cache, or `None` where it could hold nothing or would
    /// remember nothing.
    pub fn new(capacity: usize, window: u64) -> (cache: Option<SeenCache>)
        ensures
            cache is Some <==> capacity >= 1 && window >= 1,
            cache matches Some(c) ==> c.wf() && c@ == Seq::<SeenView>::empty() && c.limit()
                == capacity && c.span() == window,
    {
        if capacity >= 1 && window >= 1 {
            let c = SeenCache { entries: Vec::new(), capacity, window };
            assert(c@ =~= Seq::<SeenView>::empty());
            Some(c)
        } else {
            None
        }
    }

    /// How many identifiers the cache holds.
    pub fn len(&self) -> (n: usize)
        ensures
            n == self@.len(),
    {
        self.entries.len()
    }

    /// Whether the cache remembers `id` at `now`.
    pub fn contains(&self, id: &MessageId, now: u64) -> (found: bool)
        ensures
            found == self.seen(id@, now),
    {
        let mut i: usize = 0;
        while i < self.entries.len()
            invariant
                i <= self.entries.len(),
                forall|k: int|
                    0 <= k < i ==> !((#[trigger] self@[k]).0 == id@ && fresh(
                        self@[k].1,
                        now,
                        self.window,
                    )),
            decreases self.entries.len() - i,
        {
            let e = &self.entries[i];
            if e.id.same(id) && (now < e.at || now - e.at < self.window) {
                assert(self@[i as int].0 == id@ && fresh(self@[i as int].1, now, self.window));
                return true;
            }
            i += 1;
        }
        false
    }

    /// Remembers `id` as handled at `now`.
    pub fn insert(&mut self, id: &MessageId, now: u64)
        requires
            old(self).wf(),
        ensures
            final(self).wf(),
            final(self).limit() == old(self).limit(),
            final(self).span() == old(self).span(),
            final(self)@ == inserted(old(self)@, old(self).limit(), old(self).span(), id@, now),
    {
        let ghost pred = kept(id@, now, self.window);
        let ghost before = self@;
        let mut rest: Vec<SeenEntry> = Vec::new();
        let mut i: usize = 0;
        while i < self.entries.len()
            invariant
                i <= self.entries.len(),
                before == records(self.entries@),
                pred == kept(id@, now, self.window),
                records(rest@) == before.take(i as int).filter(pred),
            decreases self.entries.len() - i,
        {
            let e = &self.entries[i];
            proof {
                reveal(Seq::filter);
                assert(before.take(i + 1).drop_last() =~= before.take(i as int));
                assert(before.take(i + 1).last() == before[i as int]);
            }
            if !e.id.same(id) && (now < e.at || now - e.at < self.window) {
                let ghost prev = rest@;
                rest.push(SeenEntry { id: e.id.copy(), at: e.at });
                assert(records(rest@) =~= records(prev).push(before[i as int]));
            }
            i += 1;
        }
        proof {
            assert(before.take(self.entries.len() as int) =~= before);
            before.lemma_filter_len(pred);
        }
        let ghost filtered = records(rest@);
        let mut room: Vec<SeenEntry> = Vec::new();
        let start: usize = if rest.len() >= self.capacity {
            rest.len() - self.capacity + 1
        } else {
            0
        };
        let mut j: usize = start;
        while j < rest.len()
            invariant
                start <= j <= rest.len(),
                filtered == records(rest@),
                records(room@) == filtered.subrange(start as int, j as int),
            decreases rest.len() - j,
        {
            let e = &rest[j];
            let ghost prev = room@;
            room.push(SeenEntry { id: e.id.copy(), at: e.at });
            assert(records(room@) =~= records(prev).push(filtered[j as int]));
            assert(filtered.subrange(start as int, j + 1) =~= filtered.subrange(
                start as int,
                j as int,
            ).push(filtered[j as int]));
            j += 1;
        }
        let ghost trimmed = records(room@);
        assert(trimmed =~= if filtered.len() >= self.capacity {
            filtered.skip(filtered.len() + 1 - self.capacity)
        } else {
            filtered
        });
        room.push(SeenEntry { id: id.copy(), at: now });
        assert(records(room@) =~= trimmed.push((id@, now)));
        self.entries = room;
    }
}

} // verus!
