use grid_node::config::datagram_address;
use grid_node::config::multiaddr;
use grid_node::config::parse_args;
use grid_node::config::parse_port;
use grid_node::config::seed_address;
use grid_node::config::stream_address;
use grid_node::config::topic;
use grid_node::config::StartupError;
use grid_node::transport::first_of_kind;
use grid_node::transport::other_kind;
use grid_node::transport::Address;
use grid_node::transport::Attempt;
use grid_node::transport::AttemptEvent;
use grid_node::transport::Lane;
use grid_node::transport::TransportError;
use grid_node::transport::TransportKind;
use grid_node::transport::Verdict;
use grid_node::transport::SETUP_TIMEOUT;

fn args(words: &[&str]) -> Vec<Vec<u8>> {
    words.iter().map(|w| w.as_bytes().to_vec()).collect()
}

fn both() -> Vec<Address> {
    vec![
        Address { kind: TransportKind::SecureDatagram, host: 1, port: 10 },
        Address { kind: TransportKind::ReliableStream, host: 1, port: 20 },
        Address { kind: TransportKind::ReliableStream, host: 1, port: 30 },
    ]
}

#[test]
fn command_line_gives_the_port() {
    assert_eq!(parse_args(&args(&["node", "-p", "4001"])), Ok(4001));
    assert_eq!(parse_args(&args(&["node", "-p", "0"])), Ok(0));
    assert_eq!(parse_args(&args(&["node", "-p", "65535"])), Ok(65535));
    assert_eq!(parse_args(&args(&["node", "-p", "+80"])), Ok(80));
    assert_eq!(parse_args(&args(&["node", "-p", "0080"])), Ok(80));
}

#[test]
fn command_line_without_a_good_port_is_refused() {
    assert_eq!(parse_args(&args(&["node", "-p", "65536"])), Err(StartupError::InvalidPort));
    assert_eq!(parse_args(&args(&["node", "-p", "abc"])), Err(StartupError::InvalidPort));
    assert_eq!(parse_args(&args(&["node", "-p", ""])), Err(StartupError::InvalidPort));
    assert_eq!(parse_args(&args(&["node", "-p", "-1"])), Err(StartupError::InvalidPort));
    assert_eq!(parse_args(&args(&["node", "-p", "+"])), Err(StartupError::InvalidPort));
    assert_eq!(parse_args(&args(&["node", "-p", "12 "])), Err(StartupError::InvalidPort));
    assert_eq!(parse_args(&args(&["node", "-p"])), Err(StartupError::InvalidPort));
}

#[test]
fn command_line_of_another_shape_is_refused() {
    assert_eq!(parse_args(&args(&["node"])), Err(StartupError::Usage));
    assert_eq!(parse_args(&args(&[])), Err(StartupError::Usage));
    assert_eq!(parse_args(&args(&["node", "-P", "4001"])), Err(StartupError::Usage));
    assert_eq!(parse_args(&args(&["node", "4001", "-p"])), Err(StartupError::Usage));
    assert_eq!(parse_args(&args(&["node", "-p", "4001", "x"])), Err(StartupError::Usage));
}

#[test]
fn startup_errors_have_their_words() {
    assert_eq!(StartupError::Usage.diagnostic(), "Usage: cargo run -- -p <port>");
    assert_eq!(StartupError::InvalidPort.diagnostic(), "Invalid port number.");
    assert_eq!(StartupError::BindError.diagnostic(), "Cannot bind the listen address.");
    assert_eq!(
        StartupError::RandomnessUnavailable.diagnostic(),
        "Cannot generate the node's identity."
    );
    assert_ne!(grid_node::config::EXIT_FAILURE, 0);
}

#[test]
fn port_is_read_as_a_whole() {
    assert_eq!(parse_port(&b"3330".to_vec()), Some(3330));
    assert_eq!(parse_port(&b"99999999999999999999999".to_vec()), None);
    assert_eq!(parse_port(&b"000000000000000000000001".to_vec()), Some(1));
    assert_eq!(parse_port(&b"1+".to_vec()), None);
}

#[test]
fn addresses_are_written_as_multiaddrs() {
    assert_eq!(multiaddr(&stream_address(4001)), b"/ip4/127.0.0.1/tcp/4001".to_vec());
    assert_eq!(multiaddr(&datagram_address()), b"/ip4/0.0.0.0/udp/0/quic-v1".to_vec());
    assert_eq!(multiaddr(&seed_address()), b"/ip4/127.0.0.1/tcp/3330".to_vec());
    let far = Address { kind: TransportKind::SecureDatagram, host: 0xc0a801cb, port: 65535 };
    assert_eq!(multiaddr(&far), b"/ip4/192.168.1.203/udp/65535/quic-v1".to_vec());
    let text = String::from_utf8(multiaddr(&stream_address(4001))).unwrap();
    let parsed: libp2p::Multiaddr = text.parse().unwrap();
    assert_eq!(parsed.to_string(), "/ip4/127.0.0.1/tcp/4001");
    let text = String::from_utf8(multiaddr(&datagram_address())).unwrap();
    let parsed: libp2p::Multiaddr = text.parse().unwrap();
    assert_eq!(parsed.to_string(), "/ip4/0.0.0.0/udp/0/quic-v1");
}

#[test]
fn the_topic_is_fixed() {
    assert_eq!(topic(), b"grid_topic".to_vec());
}

#[test]
fn first_address_of_each_kind_is_dialled() {
    assert_eq!(
        first_of_kind(&both(), TransportKind::ReliableStream),
        Some(Address { kind: TransportKind::ReliableStream, host: 1, port: 20 })
    );
    assert_eq!(
        first_of_kind(&both(), TransportKind::SecureDatagram),
        Some(Address { kind: TransportKind::SecureDatagram, host: 1, port: 10 })
    );
    assert_eq!(first_of_kind(&Vec::new(), TransportKind::ReliableStream), None);
    assert_eq!(other_kind(TransportKind::ReliableStream), TransportKind::SecureDatagram);
    assert_eq!(other_kind(TransportKind::SecureDatagram), TransportKind::ReliableStream);
}

#[test]
fn first_handshake_wins_the_race() {
    let mut attempt = Attempt::begin(&both(), 100);
    assert_eq!(attempt.lane_of(TransportKind::ReliableStream), Lane::Pending);
    assert_eq!(attempt.lane_of(TransportKind::SecureDatagram), Lane::Pending);
    assert_eq!(
        attempt.step(AttemptEvent::Completed(TransportKind::SecureDatagram)),
        Verdict::Established { kind: TransportKind::SecureDatagram, abort: true }
    );
    assert_eq!(attempt.step(AttemptEvent::Completed(TransportKind::ReliableStream)), Verdict::Wait);
    assert_eq!(attempt.step(AttemptEvent::Refused(TransportKind::ReliableStream)), Verdict::Wait);
    assert_eq!(attempt.step(AttemptEvent::Tick(1000)), Verdict::Wait);
}

#[test]
fn one_refusal_leaves_the_other_transport_running() {
    let mut attempt = Attempt::begin(&both(), 100);
    assert_eq!(attempt.step(AttemptEvent::Refused(TransportKind::ReliableStream)), Verdict::Wait);
    assert_eq!(
        attempt.lane_of(TransportKind::ReliableStream),
        Lane::Failed(TransportError::HandshakeFailed)
    );
    assert_eq!(
        attempt.step(AttemptEvent::Completed(TransportKind::SecureDatagram)),
        Verdict::Established { kind: TransportKind::SecureDatagram, abort: false }
    );
}

#[test]
fn two_refusals_fail_the_attempt() {
    let mut attempt = Attempt::begin(&both(), 100);
    assert_eq!(attempt.step(AttemptEvent::Refused(TransportKind::ReliableStream)), Verdict::Wait);
    assert_eq!(
        attempt.step(AttemptEvent::Refused(TransportKind::SecureDatagram)),
        Verdict::GiveUp(TransportError::HandshakeFailed)
    );
    assert_eq!(attempt.step(AttemptEvent::Tick(1000)), Verdict::Wait);
}

#[test]
fn attempt_times_out_after_twenty_seconds() {
    assert_eq!(SETUP_TIMEOUT, 20);
    let only_stream = vec![Address { kind: TransportKind::ReliableStream, host: 1, port: 20 }];
    let mut attempt = Attempt::begin(&only_stream, 100);
    assert_eq!(attempt.lane_of(TransportKind::SecureDatagram), Lane::Idle);
    assert_eq!(attempt.step(AttemptEvent::Tick(119)), Verdict::Wait);
    assert_eq!(attempt.step(AttemptEvent::Tick(50)), Verdict::Wait);
    assert_eq!(
        attempt.step(AttemptEvent::Tick(120)),
        Verdict::GiveUp(TransportError::TransportTimeout)
    );
    assert_eq!(attempt.step(AttemptEvent::Completed(TransportKind::ReliableStream)), Verdict::Wait);
    let mut single = Attempt::begin(&only_stream, 0);
    assert_eq!(
        single.step(AttemptEvent::Refused(TransportKind::ReliableStream)),
        Verdict::GiveUp(TransportError::HandshakeFailed)
    );
}
