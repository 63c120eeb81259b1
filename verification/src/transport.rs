//! What the transport negotiator decides: which addresses a dial tries, and
//! how the race between the two transports ends. Opening sockets and
//! shaking hands is the caller's work; it reports what happened.

use vstd::prelude::*;

verus! {

/// Seconds after which a connection that is still being set up is given up.
pub const SETUP_TIMEOUT: u64 = 20;

/// The two transports.
#[derive(Debug, Clone, Copy, PartialEq, Eq, Structural)]
pub enum TransportKind {
    /// A reliable byte stream.
    ReliableStream,
    /// Encrypted datagrams.
    SecureDatagram,
}

/// Where a peer can be reached: transport, IPv4 host and port.
#[derive(Debug, Clone, Copy, PartialEq, Eq, Structural)]
pub struct Address {
    pub kind: TransportKind,
    pub host: u32,
    pub port: u16,
}

/// Why an attempt to connect ended without a connection.
#[derive(Debug, Clone, Copy, PartialEq, Eq, Structural)]
pub enum TransportError {
    /// The handshake was refused or went wrong.
    HandshakeFailed,
    /// The connection was not set up in time.
    TransportTimeout,
}

/// The other transport.
pub open spec fn rival(kind: TransportKind) -> TransportKind {
    match kind {
        TransportKind::ReliableStream => TransportKind::SecureDatagram,
        TransportKind::SecureDatagram => TransportKind::ReliableStream,
    }
}

/// The other transport.
pub fn other_kind(kind: TransportKind) -> (other: TransportKind)
    ensures
        other == rival(kind),
{
    match kind {
        TransportKind::ReliableStream => TransportKind::SecureDatagram,
        TransportKind::SecureDatagram => TransportKind::ReliableStream,
    }
}

/// Whether `found` is the first address of `kind` in the list, or `None`
/// where the list has no address of that kind.
pub open spec fn is_first_of(
    addresses: Seq<Address>,
    kind: TransportKind,
    found: Option<Address>,
) -> bool {
    match found {
        Some(a) => exists|i: int|
            0 <= i < addresses.len() && #[trigger] addresses[i] == a && a.kind == kind
                && forall|k: int| 0 <= k < i ==> (#[trigger] addresses[k]).kind != kind,
        None => forall|k: int| 0 <= k < addresses.len() ==> (#[trigger] addresses[k]).kind != kind,
    }
}

/// The first address of `kind` that a peer advertises.
pub fn first_of_kind(addresses: &Vec<Address>, kind: TransportKind) -> (found: Option<Address>)
    ensures
        is_first_of(addresses@, kind, found),
{
    let mut i: usize = 0;
    while i < addresses.len()
        invariant
            i <= addresses.len(),
            forall|k: int| 0 <= k < i ==> (#[trigger] addresses@[k]).kind != kind,
        decreases addresses.len() - i,
    {
        if addresses[i].kind == kind {
            return Some(addresses[i]);
        }
        i += 1;
    }
    None
}

/// One transport's part in an attempt to connect.
#[derive(Debug, Clone, Copy, PartialEq, Eq, Structural)]
pub enum Lane {
    /// Not tried, or no longer of interest.
    Idle,
    /// Being set up.
    Pending,
    /// Ended with an error.
    Failed(TransportError),
}

/// An attempt to connect to one peer: both transports race, and the first
/// that completes its handshake wins.
#[derive(Debug, Clone, Copy, PartialEq, Eq, Structural)]
pub struct Attempt {
    pub stream: Lane,
    pub datagram: Lane,
    pub started: u64,
}

/// What the caller reports of an attempt.
#[derive(Debug, Clone, Copy, PartialEq, Eq, Structural)]
pub enum AttemptEvent {
    /// The handshake on this transport is complete.
    Completed(TransportKind),
    /// The handshake on this transport went wrong.
    Refused(TransportKind),
    /// The clock shows this time.
    Tick(u64),
}

/// What the caller has to do next.
#[derive(Debug, Clone, Copy, PartialEq, Eq, Structural)]
pub enum Verdict {
    /// Nothing yet.
    Wait,
    /// The connection stands on `kind`; where `abort` is set, the other
    /// transport is still being set up and has to be aborted.
    Established { kind: TransportKind, abort: bool },
    /// The attempt is over without a connection.
    GiveUp(TransportError),
}

impl Attempt {
    /// The lane of a transport.
    pub open spec fn lane(&self, kind: TransportKind) -> Lane {
        match kind {
            TransportKind::ReliableStream => self.stream,
            TransportKind::SecureDatagram => self.datagram,
        }
    }

    /// The attempt with the lane of a transport set.
    pub open spec fn with_lane(&self, kind: TransportKind, lane: Lane) -> Attempt {
        match kind {
            TransportKind::ReliableStream => Attempt { stream: lane, ..*self },
            TransportKind::SecureDatagram => Attempt { datagram: lane, ..*self },
        }
    }

    /// An attempt of which nothing is to come.
    pub open spec fn over(&self) -> bool {
        self.stream != Lane::Pending && self.datagram != Lane::Pending
    }

    /// The attempt with nothing left to come.
    pub open spec fn closed(&self) -> Attempt {
        Attempt { stream: Lane::Idle, datagram: Lane::Idle, started: self.started }
    }

    /// Whether an attempt that began at `started` has run out of time at
    /// `now`.
    pub open spec fn late(&self, now: u64) -> bool {
        now >= self.started && now - self.started >= SETUP_TIMEOUT
    }

    /// The attempt and the verdict after an event. A completed handshake on
    /// a pending transport wins and ends the attempt. A refused handshake
    /// ends it only where the other transport is not pending. Time ends it
    /// where anything is still pending. Whatever comes after the end is
    /// ignored.
    pub open spec fn after(&self, event: AttemptEvent) -> (Attempt, Verdict) {
        match event {
            AttemptEvent::Completed(kind) => if self.lane(kind) == Lane::Pending {
                (
                    self.closed(),
                    Verdict::Established { kind, abort: self.lane(rival(kind)) == Lane::Pending },
                )
            } else {
                (*self, Verdict::Wait)
            },
            AttemptEvent::Refused(kind) => if self.lane(kind) == Lane::Pending {
                let next = self.with_lane(kind, Lane::Failed(TransportError::HandshakeFailed));
                if self.lane(rival(kind)) == Lane::Pending {
                    (next, Verdict::Wait)
                } else {
                    (next, Verdict::GiveUp(TransportError::HandshakeFailed))
                }
            } else {
                (*self, Verdict::Wait)
            },
            AttemptEvent::Tick(now) => if !self.over() && self.late(now) {
                (self.closed(), Verdict::GiveUp(TransportError::TransportTimeout))
            } else {
                (*self, Verdict::Wait)
            },
        }
    }

    /// Begins an attempt at `now` on the transports for which the peer
    /// advertises an address.
    pub fn begin(addresses: &Vec<Address>, now: u64) -> (attempt: Attempt)
        ensures
            attempt.started == now,
            attempt.stream == if is_first_of(addresses@, TransportKind::ReliableStream, None) {
                Lane::Idle
            } else {
                Lane::Pending
            },
            attempt.datagram == if is_first_of(addresses@, TransportKind::SecureDatagram, None) {
                Lane::Idle
            } else {
                Lane::Pending
            },
    {
        let stream = match first_of_kind(addresses, TransportKind::ReliableStream) {
            Some(_) => Lane::Pending,
            None => Lane::Idle,
        };
        let datagram = match first_of_kind(addresses, TransportKind::SecureDatagram) {
            Some(_) => Lane::Pending,
            None => Lane::Idle,
        };
        Attempt { stream, datagram, started: now }
    }

    /// The lane of a transport.
    pub fn lane_of(&self, kind: TransportKind) -> (lane: Lane)
        ensures
            lane == self.lane(kind),
    {
        match kind {
            TransportKind::ReliableStream => self.stream,
            TransportKind::SecureDatagram => self.datagram,
        }
    }

    /// Takes an event and says what to do.
    pub fn step(&mut self, event: AttemptEvent) -> (verdict: Verdict)
        ensures
            (*final(self), verdict) == old(self).after(event),
    {
        match event {
            AttemptEvent::Completed(kind) => {
                if self.lane_of(kind) == Lane::Pending {
                    let abort = self.lane_of(other_kind(kind)) == Lane::Pending;
                    self.stream = Lane::Idle;
                    self.datagram = Lane::Idle;
                    Verdict::Established { kind, abort }
                } else {
                    Verdict::Wait
                }
            },
            AttemptEvent::Refused(kind) => {
                if self.lane_of(kind) == Lane::Pending {
                    let rival_pending = self.lane_of(other_kind(kind)) == Lane::Pending;
                    match kind {
                        TransportKind::ReliableStream => {
                            self.stream = Lane::Failed(TransportError::HandshakeFailed);
                        },
                        TransportKind::SecureDatagram => {
                            self.datagram = Lane::Failed(TransportError::HandshakeFailed);
                        },
                    }
                    if rival_pending {
                        Verdict::Wait
                    } else {
                        Verdict::GiveUp(TransportError::HandshakeFailed)
                    }
                } else {
                    Verdict::Wait
                }
            },
            AttemptEvent::Tick(now) => {
                let pending = self.stream == Lane::Pending || self.datagram == Lane::Pending;
                if pending && now >= self.started && now - self.started >= SETUP_TIMEOUT {
                    self.stream = Lane::Idle;
                    self.datagram = Lane::Idle;
                    Verdict::GiveUp(TransportError::TransportTimeout)
                } else {
                    Verdict::Wait
                }
            },
        }
    }
}

/// Once an attempt has a winner or has been given up, it is over: no later
/// event brings a second connection or changes it.
pub proof fn lemma_attempt_ends_once(attempt: Attempt, first: AttemptEvent, second: AttemptEvent)
    requires
        !(attempt.after(first).1 is Wait),
    ensures
        attempt.after(first).0.over(),
        attempt.after(first).0.after(second) == (attempt.after(first).0, Verdict::Wait),
{
}

/// An event on one transport never fails the other: as long as the other
/// transport is pending, a refusal only waits.
pub proof fn lemma_refusal_spares_rival(attempt: Attempt, kind: TransportKind)
    requires
        attempt.lane(rival(kind)) == Lane::Pending,
    ensures
        attempt.after(AttemptEvent::Refused(kind)).1 is Wait,
        attempt.after(AttemptEvent::Refused(kind)).0.lane(rival(kind)) == Lane::Pending,
{
}

} // verus!
