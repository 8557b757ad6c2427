use cft_tcp::header::{Ipv4Fields, TcpFields};
use cft_tcp::seqnum::advance;
use cft_tcp::tcp::{Connection, Outcome, SegmentError, State, TcpError};
use etherparse::{Ipv4HeaderSlice, TcpHeaderSlice};

const PEER: u32 = 0x0A00_0002;
const HERE: u32 = 0x0A00_0001;

fn ip() -> Ipv4Fields {
    Ipv4Fields { source: PEER, destination: HERE, protocol: 6, header_len: 20 }
}

fn segment(seq: u32, ackn: u32) -> TcpFields {
    TcpFields {
        source_port: 40000,
        destination_port: 80,
        sequence_number: seq,
        acknowledgment_number: ackn,
        window_size: 1024,
        syn: false,
        ack: true,
        header_len: 20,
    }
}

/// A connection in `state` with the given corners of both sequence spaces.
fn connection(state: State, una: u32, nxt: u32, rcv_nxt: u32, rcv_wnd: u16) -> Connection {
    let syn = TcpFields { syn: true, ack: false, ..segment(0, 0) };
    let mut c = Connection::accept(&ip(), &syn).unwrap().unwrap();
    c.state = state;
    c.tx.una = una;
    c.tx.nxt = nxt;
    c.rx.nxt = rcv_nxt;
    c.rx.wnd = rcv_wnd;
    c
}

#[test]
fn acknowledgments_of_sent_data_are_acceptable() {
    let c = connection(State::Established, 5, 10, 0, 10);
    for ackn in 6..=10 {
        assert_eq!(c.check_acceptable_ack(ackn), Ok(()));
    }
}

#[test]
fn acknowledgment_of_nothing_new_is_rejected() {
    let c = connection(State::Established, 5, 10, 0, 10);
    assert_eq!(c.check_acceptable_ack(5), Err(SegmentError::AckOutOfRange));
}

#[test]
fn acknowledgment_of_unsent_data_is_rejected() {
    let c = connection(State::Established, 5, 10, 0, 10);
    assert_eq!(c.check_acceptable_ack(11), Err(SegmentError::AckOutOfRange));
    assert_eq!(c.check_acceptable_ack(0x8000_0000), Err(SegmentError::AckOutOfRange));
}

#[test]
fn acknowledgment_test_is_the_same_through_zero() {
    let shift: usize = 0xFFFF_FFF9;
    let c = connection(State::Established, advance(5, shift), advance(10, shift), 0, 10);
    assert_eq!((c.tx.una, c.tx.nxt), (0xFFFF_FFFE, 3));
    for ackn in 6..=10 {
        assert_eq!(c.check_acceptable_ack(advance(ackn, shift)), Ok(()));
    }
    assert_eq!(c.check_acceptable_ack(advance(5, shift)), Err(SegmentError::AckOutOfRange));
    assert_eq!(c.check_acceptable_ack(advance(11, shift)), Err(SegmentError::AckOutOfRange));
}

#[test]
fn acknowledgment_test_with_una_at_the_top() {
    let c = connection(State::Established, 0xFFFF_FFFF, 2, 0, 10);
    assert_eq!(c.check_acceptable_ack(0), Ok(()));
    assert_eq!(c.check_acceptable_ack(2), Ok(()));
    assert_eq!(c.check_acceptable_ack(0xFFFF_FFFF), Err(SegmentError::AckOutOfRange));
    assert_eq!(c.check_acceptable_ack(3), Err(SegmentError::AckOutOfRange));
}

#[test]
fn empty_segment_and_closed_window_at_next() {
    let c = connection(State::Established, 5, 10, 300, 0);
    assert_eq!(c.check_valid_segment(&segment(300, 6), 0), Ok(()));
}

#[test]
fn empty_segment_and_closed_window_elsewhere() {
    let c = connection(State::Established, 5, 10, 300, 0);
    assert_eq!(c.check_valid_segment(&segment(301, 6), 0), Err(SegmentError::SeqNotNext));
    assert_eq!(c.check_valid_segment(&segment(299, 6), 0), Err(SegmentError::SeqNotNext));
}

#[test]
fn data_and_closed_window() {
    let c = connection(State::Established, 5, 10, 300, 0);
    for seq in [300, 301, 299, 0, 0xFFFF_FFFF] {
        assert_eq!(c.check_valid_segment(&segment(seq, 6), 1), Err(SegmentError::WindowClosed));
        assert_eq!(c.check_valid_segment(&segment(seq, 6), 1460), Err(SegmentError::WindowClosed));
    }
}

#[test]
fn the_window_of_the_segment_does_not_count() {
    let c = connection(State::Established, 5, 10, 300, 0);
    let open = TcpFields { window_size: 65535, ..segment(301, 6) };
    assert_eq!(c.check_valid_segment(&open, 0), Err(SegmentError::SeqNotNext));
    let c = connection(State::Established, 5, 10, 300, 8);
    let closed = TcpFields { window_size: 0, ..segment(301, 6) };
    assert_eq!(c.check_valid_segment(&closed, 4), Ok(()));
}

#[test]
fn empty_segment_and_open_window() {
    let c = connection(State::Established, 5, 10, 300, 8);
    assert_eq!(c.check_valid_segment(&segment(300, 6), 0), Ok(()));
    assert_eq!(c.check_valid_segment(&segment(307, 6), 0), Ok(()));
    assert_eq!(c.check_valid_segment(&segment(308, 6), 0), Err(SegmentError::SeqOutOfRange));
    assert_eq!(c.check_valid_segment(&segment(299, 6), 0), Err(SegmentError::SeqOutOfRange));
}

#[test]
fn data_that_starts_or_ends_in_the_window() {
    let c = connection(State::Established, 5, 10, 300, 8);
    assert_eq!(c.check_valid_segment(&segment(307, 6), 100), Ok(()));
    assert_eq!(c.check_valid_segment(&segment(295, 6), 6), Ok(()));
    assert_eq!(c.check_valid_segment(&segment(295, 6), 5), Err(SegmentError::SeqOutOfRange));
    assert_eq!(c.check_valid_segment(&segment(308, 6), 5), Err(SegmentError::SeqOutOfRange));
    assert_eq!(c.check_valid_segment(&segment(290, 6), 100), Err(SegmentError::SeqOutOfRange));
}

#[test]
fn window_through_zero() {
    let c = connection(State::Established, 5, 10, 0xFFFF_FFFC, 8);
    assert_eq!(c.check_valid_segment(&segment(0xFFFF_FFFC, 6), 0), Ok(()));
    assert_eq!(c.check_valid_segment(&segment(3, 6), 0), Ok(()));
    assert_eq!(c.check_valid_segment(&segment(4, 6), 0), Err(SegmentError::SeqOutOfRange));
    assert_eq!(c.check_valid_segment(&segment(0xFFFF_FFF0, 6), 13), Ok(()));
    assert_eq!(c.check_valid_segment(&segment(0xFFFF_FFF0, 6), 12), Err(SegmentError::SeqOutOfRange));
}

#[test]
fn synchronized_connection_answers_bad_segment_with_reset() {
    let mut c = connection(State::Established, 5, 10, 300, 8);
    let result = c.on_packet(&ip(), &segment(500, 6), &[]);
    assert_eq!(result, Ok(Outcome::Reset));
    assert_eq!(c.state, State::Established);
    assert!(c.tcp.rst);
    let packet = c.out.as_slice();
    assert_eq!(packet.len(), 40);
    let ip = Ipv4HeaderSlice::from_slice(packet).unwrap();
    assert_eq!((ip.source(), ip.destination()), (HERE.to_be_bytes(), PEER.to_be_bytes()));
    let tcp = TcpHeaderSlice::from_slice(&packet[20..]).unwrap();
    assert!(tcp.rst());
    assert_eq!(tcp.sequence_number(), 10);
    assert_eq!(tcp.acknowledgment_number(), 300);
    assert_eq!(tcp.calc_checksum_ipv4(&ip, &[]).unwrap(), tcp.checksum());
}

#[test]
fn synchronized_connection_answers_bad_acknowledgment_with_reset() {
    let mut c = connection(State::Established, 5, 10, 300, 8);
    let result = c.on_packet(&ip(), &segment(300, 11), &[]);
    assert_eq!(result, Ok(Outcome::Reset));
    assert!(c.tcp.rst);
    assert!(TcpHeaderSlice::from_slice(&c.out.as_slice()[20..]).unwrap().rst());
}

#[test]
fn closed_connection_counts_as_synchronized() {
    let mut c = connection(State::Closed, 5, 10, 300, 8);
    assert_eq!(c.on_packet(&ip(), &segment(500, 6), &[]), Ok(Outcome::Reset));
    assert_eq!(c.state, State::Closed);
}

#[test]
fn unsynchronized_connection_drops_bad_segment() {
    for state in [State::SynRcvd, State::SynSent, State::Listen] {
        let mut c = connection(state, 5, 10, 300, 8);
        let before = c.out.as_slice().to_vec();
        let result = c.on_packet(&ip(), &segment(500, 6), &[]);
        assert_eq!(result, Ok(Outcome::Dropped));
        assert_eq!(c.state, state);
        assert_eq!((c.tx.una, c.tx.nxt, c.rx.nxt, c.rx.wnd), (5, 10, 300, 8));
        assert!(!c.tcp.rst);
        assert_eq!(c.out.as_slice(), &before[..]);
    }
}

#[test]
fn unsynchronized_connection_drops_bad_acknowledgment() {
    let mut c = connection(State::SynRcvd, 5, 10, 300, 8);
    assert_eq!(c.on_packet(&ip(), &segment(300, 11), &[]), Ok(Outcome::Dropped));
    assert_eq!(c.state, State::SynRcvd);
    assert!(!c.tcp.rst);
}

#[test]
fn acknowledgment_is_tested_before_the_segment() {
    let mut c = connection(State::SynRcvd, 5, 10, 300, 0);
    let plain = TcpFields { ack: false, ..segment(300, 5) };
    assert_eq!(c.on_packet(&ip(), &plain, &[]), Ok(Outcome::Dropped));
    let plain = TcpFields { ack: false, ..segment(300, 6) };
    assert_eq!(c.on_packet(&ip(), &plain, &[]), Err(TcpError::ConnectionReset));
}

#[test]
fn listen_and_closed_take_no_segments() {
    for state in [State::Listen, State::Closed] {
        let mut c = connection(state, 5, 10, 300, 8);
        assert_eq!(c.on_packet(&ip(), &segment(300, 6), &[]), Ok(Outcome::Ignored));
        assert_eq!(c.state, state);
    }
}

#[test]
fn states_beyond_the_handshake_are_reported_unsupported() {
    let states = [
        State::SynSent,
        State::Established,
        State::FinWait1,
        State::FinWait2,
        State::Closing,
        State::TimeWait,
        State::CloseWait,
        State::LastAck,
    ];
    for state in states {
        let mut c = connection(state, 5, 10, 300, 8);
        assert_eq!(c.on_packet(&ip(), &segment(300, 6), &[1, 2, 3]), Ok(Outcome::Unsupported));
        assert_eq!(c.state, state);
        assert_eq!((c.tx.una, c.tx.nxt, c.rx.nxt), (5, 10, 300));
    }
}

#[test]
fn states_before_the_handshake_ends_are_not_synchronized() {
    assert!(!State::Listen.is_sync());
    assert!(!State::SynSent.is_sync());
    assert!(!State::SynRcvd.is_sync());
    let synchronized = [
        State::Closed,
        State::Established,
        State::FinWait1,
        State::FinWait2,
        State::Closing,
        State::TimeWait,
        State::CloseWait,
        State::LastAck,
    ];
    for state in synchronized {
        assert!(state.is_sync());
    }
}

#[test]
fn reset_takes_the_sequence_number_of_its_syn_bit() {
    let mut c = connection(State::Established, 5, 10, 300, 8);
    assert!(c.tcp.syn);
    assert_eq!(c.on_packet(&ip(), &segment(500, 6), &[]), Ok(Outcome::Reset));
    assert_eq!(c.tx.nxt, 11);
    assert_eq!(c.tx.una, 5);
}
