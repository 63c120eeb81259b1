//! What the node is started with: the port on its command line, the
//! addresses it listens on, the seed it dials and the topic it follows.

use vstd::prelude::*;
use crate::bytes::append;
use crate::bytes::bytes_eq;
use crate::bytes::views;
use crate::decimal::all_digits;
use crate::decimal::decimal;
use crate::decimal::number;
use crate::decimal::parse_number;
use crate::decimal::push_decimal;
use crate::transport::Address;
use crate::transport::TransportKind;

verus! {

/// The host `127.0.0.1`.
pub const LOOPBACK: u32 = 0x7f000001;

/// The host `0.0.0.0`: every interface.
pub const ANY_HOST: u32 = 0;

/// The port of the seed peer.
pub const SEED_PORT: u16 = 3330;

/// Why the node cannot start. Each of these ends the process.
#[derive(Debug, Clone, Copy, PartialEq, Eq, Structural)]
pub enum StartupError {
    /// The command line is not `-p` and a port.
    Usage,
    /// The port is missing or is no number that a port can be.
    InvalidPort,
    /// A listen address could not be bound.
    BindError,
    /// The node's identity could not be generated.
    RandomnessUnavailable,
}

/// The status with which the process ends after a startup error.
pub const EXIT_FAILURE: i32 = 1;

impl StartupError {
    /// The words in which the failure is reported on the console.
    pub fn diagnostic(&self) -> (text: &'static str)
        ensures
            text@ == match *self {
                StartupError::Usage => "Usage: cargo run -- -p <port>"@,
                StartupError::InvalidPort => "Invalid port number."@,
                StartupError::BindError => "Cannot bind the listen address."@,
                StartupError::RandomnessUnavailable => "Cannot generate the node's identity."@,
            },
    {
        match self {
            StartupError::Usage => "Usage: cargo run -- -p <port>",
            StartupError::InvalidPort => "Invalid port number.",
            StartupError::BindError => "Cannot bind the listen address.",
            StartupError::RandomnessUnavailable => "Cannot generate the node's identity.",
        }
    }
}

/// The bytes `-p`.
pub open spec fn port_flag() -> Seq<u8> {
    seq![0x2du8, 0x70u8]
}

/// The port that a text writes: digits behind an optional `+`, as long as
/// the number fits a port.
pub open spec fn port_of(text: Seq<u8>) -> Option<u16> {
    let digits = if text.len() > 0 && text[0] == 0x2b {
        text.skip(1)
    } else {
        text
    };
    if digits.len() > 0 && all_digits(digits) && number(digits) <= 0xffff {
        Some(number(digits) as u16)
    } else {
        None
    }
}

/// What a command line asks for. It holds the program's name, `-p` and the
/// port, and nothing else.
pub open spec fn parsed(args: Seq<Seq<u8>>) -> Result<u16, StartupError> {
    if args.len() < 2 || args.len() > 3 || args[1] != port_flag() {
        Err(StartupError::Usage)
    } else if args.len() == 2 {
        Err(StartupError::InvalidPort)
    } else {
        match port_of(args[2]) {
            Some(port) => Ok(port),
            None => Err(StartupError::InvalidPort),
        }
    }
}

/// Reads a port.
pub fn parse_port(text: &Vec<u8>) -> (port: Option<u16>)
    ensures
        port == port_of(text@),
{
    let start: usize = if text.len() > 0 && text[0] == 0x2b {
        1
    } else {
        assert(text@.skip(0) =~= text@);
        0
    };
    match parse_number(text, start, 0xffff) {
        Some(v) => Some(v as u16),
        None => None,
    }
}

/// Reads the command line.
pub fn parse_args(args: &Vec<Vec<u8>>) -> (port: Result<u16, StartupError>)
    ensures
        port == parsed(views(args@)),
{
    if args.len() < 2 || args.len() > 3 {
        return Err(StartupError::Usage);
    }
    let flag: Vec<u8> = vec![0x2du8, 0x70u8];
    assert(flag@ =~= port_flag());
    assert(views(args@)[1] == args@[1]@);
    if !bytes_eq(&args[1], &flag) {
        return Err(StartupError::Usage);
    }
    if args.len() == 2 {
        return Err(StartupError::InvalidPort);
    }
    assert(views(args@)[2] == args@[2]@);
    match parse_port(&args[2]) {
        Some(port) => Ok(port),
        None => Err(StartupError::InvalidPort),
    }
}

/// Where the node listens for streams: the loopback host, on the port of
/// the command line.
pub fn stream_address(port: u16) -> (address: Address)
    ensures
        address == (Address { kind: TransportKind::ReliableStream, host: LOOPBACK, port }),
{
    Address { kind: TransportKind::ReliableStream, host: LOOPBACK, port }
}

/// Where the node listens for datagrams: every interface, on a port that
/// the system picks.
pub fn datagram_address() -> (address: Address)
    ensures
        address == (Address { kind: TransportKind::SecureDatagram, host: ANY_HOST, port: 0 }),
{
    Address { kind: TransportKind::SecureDatagram, host: ANY_HOST, port: 0 }
}

/// The seed peer that the node dials at start.
pub fn seed_address() -> (address: Address)
    ensures
        address == (Address {
            kind: TransportKind::ReliableStream,
            host: LOOPBACK,
            port: SEED_PORT,
        }),
{
    Address { kind: TransportKind::ReliableStream, host: LOOPBACK, port: SEED_PORT }
}

/// The bytes `grid_topic`: the one topic of this deployment.
pub open spec fn topic_name() -> Seq<u8> {
    seq![0x67u8, 0x72u8, 0x69u8, 0x64u8, 0x5fu8, 0x74u8, 0x6fu8, 0x70u8, 0x69u8, 0x63u8]
}

/// The topic that the node follows.
pub fn topic() -> (name: Vec<u8>)
    ensures
        name@ == topic_name(),
{
    let name: Vec<u8> = vec![
        0x67u8,
        0x72u8,
        0x69u8,
        0x64u8,
        0x5fu8,
        0x74u8,
        0x6fu8,
        0x70u8,
        0x69u8,
        0x63u8,
    ];
    assert(name@ =~= topic_name());
    name
}

/// A host as text: its four bytes in decimal, with dots between them.
pub open spec fn host_text(host: u32) -> Seq<u8> {
    decimal((host / 0x1000000) as nat) + seq![0x2eu8] + decimal(((host / 0x10000) % 256) as nat)
        + seq![0x2eu8] + decimal(((host / 0x100) % 256) as nat) + seq![0x2eu8] + decimal(
        (host % 256) as nat,
    )
}

/// An address as text: `/ip4/`, the host, then `/tcp/` and the port for a
/// stream, or `/udp/`, the port and `/quic-v1` for datagrams.
pub open spec fn multiaddr_text(address: Address) -> Seq<u8> {
    let head = seq![0x2fu8, 0x69u8, 0x70u8, 0x34u8, 0x2fu8] + host_text(address.host);
    match address.kind {
        TransportKind::ReliableStream => head + seq![0x2fu8, 0x74u8, 0x63u8, 0x70u8, 0x2fu8]
            + decimal(address.port as nat),
        TransportKind::SecureDatagram => head + seq![0x2fu8, 0x75u8, 0x64u8, 0x70u8, 0x2fu8]
            + decimal(address.port as nat) + seq![
            0x2fu8,
            0x71u8,
            0x75u8,
            0x69u8,
            0x63u8,
            0x2du8,
            0x76u8,
            0x31u8,
        ],
    }
}

/// Appends a host as text.
pub fn push_host(out: &mut Vec<u8>, host: u32)
    ensures
        final(out)@ == old(out)@ + host_text(host),
{
    push_decimal(out, (host / 0x1000000) as u64);
    out.push(0x2eu8);
    push_decimal(out, ((host / 0x10000) % 256) as u64);
    out.push(0x2eu8);
    push_decimal(out, ((host / 0x100) % 256) as u64);
    out.push(0x2eu8);
    push_decimal(out, (host % 256) as u64);
    assert(out@ =~= old(out)@ + host_text(host));
}

/// An address as the text that `libp2p` reads.
pub fn multiaddr(address: &Address) -> (text: Vec<u8>)
    ensures
        text@ == multiaddr_text(*address),
{
    let mut out: Vec<u8> = vec![0x2fu8, 0x69u8, 0x70u8, 0x34u8, 0x2fu8];
    push_host(&mut out, address.host);
    match address.kind {
        TransportKind::ReliableStream => {
            let tcp: Vec<u8> = vec![0x2fu8, 0x74u8, 0x63u8, 0x70u8, 0x2fu8];
            append(&mut out, &tcp);
            push_decimal(&mut out, address.port as u64);
            assert(out@ =~= multiaddr_text(*address));
        },
        TransportKind::SecureDatagram => {
            let udp: Vec<u8> = vec![0x2fu8, 0x75u8, 0x64u8, 0x70u8, 0x2fu8];
            let quic: Vec<u8> = vec![
                0x2fu8,
                0x71u8,
                0x75u8,
                0x69u8,
                0x63u8,
                0x2du8,
                0x76u8,
                0x31u8,
            ];
            append(&mut out, &udp);
            push_decimal(&mut out, address.port as u64);
            append(&mut out, &quic);
            assert(out@ =~= multiaddr_text(*address));
        },
    }
    out
}

} // verus!
