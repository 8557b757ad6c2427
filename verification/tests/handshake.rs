use cft_tcp::checksum::checksum_validates;
use cft_tcp::header::{Ipv4Fields, TcpFields};
use cft_tcp::tcp::{Connection, Outcome, State, TcpError, INITIAL_SEND_SEQUENCE};
use etherparse::{Ipv4HeaderSlice, TcpHeaderSlice};

const PEER: u32 = 0xC0A8_0002;
const HERE: u32 = 0xC0A8_0001;

fn ip() -> Ipv4Fields {
    Ipv4Fields { source: PEER, destination: HERE, protocol: 6, header_len: 20 }
}

fn segment(seq: u32, ackn: u32, window: u16, syn: bool, ack: bool) -> TcpFields {
    TcpFields {
        source_port: 51000,
        destination_port: 443,
        sequence_number: seq,
        acknowledgment_number: ackn,
        window_size: window,
        syn,
        ack,
        header_len: 20,
    }
}

fn opened() -> Connection {
    Connection::accept(&ip(), &segment(1000, 0, 4096, true, false)).unwrap().unwrap()
}

#[test]
fn first_segment_without_syn_opens_nothing() {
    let result = Connection::accept(&ip(), &segment(1000, 1, 4096, false, true));
    assert!(matches!(result, Ok(None)));
}

#[test]
fn empty_first_segment_opens_nothing() {
    let result = Connection::accept(&ip(), &segment(0, 0, 0, false, false));
    assert!(matches!(result, Ok(None)));
}

#[test]
fn syn_opens_connection_in_syn_rcvd() {
    let c = opened();
    assert_eq!(c.state, State::SynRcvd);
    assert_eq!(c.rx.irs, 1000);
    assert_eq!(c.rx.nxt, 1001);
    assert_eq!(c.rx.wnd, 4096);
    assert!(!c.rx.up);
}

#[test]
fn syn_reserves_one_sequence_number_for_the_answer() {
    let c = opened();
    assert_eq!(INITIAL_SEND_SEQUENCE, 0);
    assert_eq!(c.tx.iss, 0);
    assert_eq!(c.tx.una, 0);
    assert_eq!(c.tx.nxt, 1);
    assert_eq!(c.tx.wnd, 4096);
    assert_eq!((c.tx.up, c.tx.wl1, c.tx.wl2), (false, 0, 0));
}

#[test]
fn syn_at_the_top_of_the_circle_expects_zero() {
    let c = Connection::accept(&ip(), &segment(0xFFFF_FFFF, 0, 1, true, false)).unwrap().unwrap();
    assert_eq!(c.rx.irs, 0xFFFF_FFFF);
    assert_eq!(c.rx.nxt, 0);
}

#[test]
fn syn_is_answered_with_syn_ack() {
    let c = opened();
    let packet = c.out.as_slice();
    assert_eq!(packet.len(), 40);
    let ip = Ipv4HeaderSlice::from_slice(packet).unwrap();
    assert_eq!(ip.source(), HERE.to_be_bytes());
    assert_eq!(ip.destination(), PEER.to_be_bytes());
    assert_eq!(ip.protocol(), 6);
    assert_eq!(ip.ttl(), 64);
    assert_eq!(ip.total_len(), 40);
    let tcp = TcpHeaderSlice::from_slice(&packet[20..]).unwrap();
    assert!(tcp.syn());
    assert!(tcp.ack());
    assert!(!tcp.rst());
    assert!(!tcp.fin());
    assert_eq!(tcp.acknowledgment_number(), 1001);
    assert_eq!(tcp.sequence_number(), 0);
    assert_eq!(tcp.window_size(), 4096);
    assert_eq!(tcp.source_port(), 443);
    assert_eq!(tcp.destination_port(), 51000);
}

#[test]
fn syn_ack_carries_a_checksum_that_validates() {
    let c = opened();
    let packet = c.out.as_slice();
    assert!(checksum_validates(HERE, PEER, &packet[20..]));
    let ip = Ipv4HeaderSlice::from_slice(packet).unwrap();
    let tcp = TcpHeaderSlice::from_slice(&packet[20..]).unwrap();
    assert_eq!(tcp.calc_checksum_ipv4(&ip, &[]).unwrap(), tcp.checksum());
    assert_eq!(c.tcp.checksum, tcp.checksum());
}

#[test]
fn template_holds_what_was_sent() {
    let c = opened();
    assert!(c.tcp.syn && c.tcp.ack && !c.tcp.rst && !c.tcp.fin);
    assert_eq!(c.tcp.sequence_number, 0);
    assert_eq!(c.tcp.acknowledgment_number, 1001);
    assert_eq!(c.ip.payload_len, 20);
    assert_eq!((c.ip.source, c.ip.destination), (HERE, PEER));
}

#[test]
fn ack_of_the_syn_establishes() {
    let mut c = opened();
    let result = c.on_packet(&ip(), &segment(1001, 1, 4096, false, true), &[]);
    assert_eq!(result, Ok(Outcome::Established));
    assert_eq!(c.state, State::Established);
    assert_eq!((c.tx.una, c.tx.nxt), (0, 1));
    assert_eq!((c.rx.irs, c.rx.nxt), (1000, 1001));
}

#[test]
fn segment_without_ack_breaks_the_handshake() {
    let mut c = opened();
    let result = c.on_packet(&ip(), &segment(1001, 1, 4096, false, false), &[]);
    assert_eq!(result, Err(TcpError::ConnectionReset));
    assert_eq!(c.state, State::SynRcvd);
}

#[test]
fn wrong_acknowledgment_is_dropped_during_the_handshake() {
    let mut c = opened();
    let before = c.out.as_slice().to_vec();
    let result = c.on_packet(&ip(), &segment(1001, 2, 4096, false, true), &[]);
    assert_eq!(result, Ok(Outcome::Dropped));
    assert_eq!(c.state, State::SynRcvd);
    assert_eq!((c.tx.una, c.tx.nxt), (0, 1));
    assert!(!c.tcp.rst);
    assert_eq!(c.out.as_slice(), &before[..]);
}

#[test]
fn handshake_with_closed_window() {
    let mut c = Connection::accept(&ip(), &segment(5, 0, 0, true, false)).unwrap().unwrap();
    assert_eq!(c.rx.wnd, 0);
    assert_eq!(c.on_packet(&ip(), &segment(7, 1, 0, false, true), &[]), Ok(Outcome::Dropped));
    assert_eq!(c.on_packet(&ip(), &segment(6, 1, 0, false, true), &[1]), Ok(Outcome::Dropped));
    assert_eq!(c.on_packet(&ip(), &segment(6, 1, 0, false, true), &[]), Ok(Outcome::Established));
}
