//! The state machine of one TCP connection: the passive open, the two
//! admission tests that every later segment has to pass, and the building of
//! the segments the connection answers with.
//!
//! A connection never touches the link. Whatever it has to say is left in
//! its scratch region, and the result of each operation tells the caller
//! whether there is a segment to transmit.

use crate::checksum::{checksum_validates, tcp_checksum_validates};
use crate::codec::{
    compute_tcp_checksum, encode_ipv4_header, encode_tcp_header, ipv4_header_image,
    tcp_checksum_of, tcp_header_image,
};
use crate::header::{
    Ipv4Fields, Ipv4Template, TcpFields, TcpTemplate, DEFAULT_TIME_TO_LIVE, IPV4_MAX_PAYLOAD_LEN,
    IP_PROTOCOL_TCP, TCP_HEADER_LEN,
};
use crate::scratch::{Scratch, SCRATCH_CAPACITY};
use crate::seqnum::{
    advance, is_between, is_between_wrapped, lemma_arc_is_rotation_invariant,
    lemma_distance_is_rotation_invariant, lemma_seq_add_adds_up, seq_add,
};
use vstd::prelude::*;

verus! {

/// The initial send sequence number of every connection.
pub const INITIAL_SEND_SEQUENCE: u32 = 0;

/// The states of a connection.
#[derive(Clone, Copy, Debug, PartialEq, Eq, Structural)]
pub enum State {
    Closed,
    Listen,
    SynRcvd,
    SynSent,
    Established,
    FinWait1,
    FinWait2,
    Closing,
    TimeWait,
    CloseWait,
    LastAck,
}

impl State {
    /// A connection is synchronized once its handshake is behind it: in
    /// every state but `Listen`, `SynSent` and `SynRcvd`.
    pub open spec fn synchronized(self) -> bool {
        !(self is SynRcvd || self is SynSent || self is Listen)
    }

    /// Whether the handshake is behind the connection.
    pub fn is_sync(&self) -> (sync: bool)
        ensures
            sync == self.synchronized(),
    {
        match self {
            State::SynRcvd | State::SynSent | State::Listen => false,
            _ => true,
        }
    }
}

/// The send sequence space.
///
/// ```text
///            1         2          3          4
///       ----------|----------|----------|----------
///              SND.UNA    SND.NXT    SND.UNA
///                                   +SND.WND
/// ```
///
/// 1 is acknowledged, 2 is sent and not yet acknowledged, 3 may be sent, 4
/// may not be sent yet.
#[derive(Clone, Copy, Debug, PartialEq, Eq, Structural)]
pub struct SendSequence {
    /// Oldest sequence number not yet acknowledged.
    pub una: u32,
    /// Next sequence number to send.
    pub nxt: u32,
    /// Window that the peer advertised.
    pub wnd: u16,
    /// Urgent pointer in use.
    pub up: bool,
    /// Sequence number of the segment that last updated the window.
    pub wl1: usize,
    /// Acknowledgment number of the segment that last updated the window.
    pub wl2: usize,
    /// Initial send sequence number.
    pub iss: u32,
}

impl SendSequence {
    /// An acknowledgment is acceptable when it acknowledges something new
    /// that has in fact been sent: `una < ackn <= nxt` on the circle.
    pub open spec fn acceptable_ack(self, ackn: u32) -> bool {
        is_between_wrapped(seq_add(self.una, 1), self.nxt, ackn)
    }
}

/// The receive sequence space.
///
/// ```text
///                1          2          3
///            ----------|----------|----------
///                   RCV.NXT    RCV.NXT
///                             +RCV.WND
/// ```
///
/// 1 is received and acknowledged, 2 may be received, 3 may not be received
/// yet.
#[derive(Clone, Copy, Debug, PartialEq, Eq, Structural)]
pub struct ReceiveSequence {
    /// Next sequence number expected.
    pub nxt: u32,
    /// Window advertised to the peer.
    pub wnd: u16,
    /// Urgent pointer in use.
    pub up: bool,
    /// Initial receive sequence number.
    pub irs: u32,
}

/// Why a segment failed an admission test.
#[derive(Clone, Copy, Debug, PartialEq, Eq, Structural)]
pub enum SegmentError {
    /// The acknowledgment number is not in `una < ackn <= nxt`.
    AckOutOfRange,
    /// With an empty segment and a closed window, the sequence number is
    /// not the next one expected.
    SeqNotNext,
    /// The segment carries data and the window is closed.
    WindowClosed,
    /// Neither end of the segment falls into the window.
    SeqOutOfRange,
}

impl ReceiveSequence {
    /// Last sequence number of the receive window. Meant for an open
    /// window.
    pub open spec fn window_end(self) -> u32 {
        seq_add(self.nxt, (self.wnd - 1) as nat)
    }

    /// The segment receive test for a segment of `len` bytes that starts at
    /// `seqn`:
    ///
    /// | length | window | accepted when                                  |
    /// |--------|--------|------------------------------------------------|
    /// | 0      | 0      | `seqn` is `nxt`                                |
    /// | 0      | > 0    | `seqn` is in the window                        |
    /// | > 0    | 0      | never                                          |
    /// | > 0    | > 0    | first or last byte of the segment is in the window |
    pub open spec fn segment_verdict(self, seqn: u32, len: nat) -> Result<(), SegmentError> {
        if self.wnd == 0 {
            if len > 0 {
                Err(SegmentError::WindowClosed)
            } else if seqn == self.nxt {
                Ok(())
            } else {
                Err(SegmentError::SeqNotNext)
            }
        } else if is_between_wrapped(self.nxt, self.window_end(), seqn) {
            Ok(())
        } else if len > 0 && is_between_wrapped(
            self.nxt,
            self.window_end(),
            seq_add(seqn, (len - 1) as nat),
        ) {
            Ok(())
        } else {
            Err(SegmentError::SeqOutOfRange)
        }
    }
}

/// Why an operation on a connection failed.
#[derive(Clone, Copy, Debug, PartialEq, Eq, Structural)]
pub enum TcpError {
    /// The peer answered the SYN+ACK with a segment that acknowledges
    /// nothing: the handshake is broken.
    ConnectionReset,
    /// Header and payload do not fit the length field of an IPv4 packet.
    PayloadTooLarge,
    /// The encoder gave no checksum or no header.
    Encode,
    /// The packet does not fit the scratch region.
    ScratchFull,
    /// The assembled segment does not validate under its own checksum.
    BadChecksum,
}

/// What a connection made of an inbound segment.
#[derive(Clone, Copy, Debug, PartialEq, Eq, Structural)]
pub enum Outcome {
    /// The segment failed an admission test before the connection was
    /// synchronized. Nothing changed and there is nothing to transmit.
    Dropped,
    /// The segment failed an admission test on a synchronized connection. A
    /// reset segment is waiting in the scratch region.
    Reset,
    /// The connection is in a state that takes no segments.
    Ignored,
    /// The segment completed the handshake.
    Established,
    /// The segment was admitted in a state whose handling is not part of
    /// this engine.
    Unsupported,
}

/// The mathematical picture of a connection: its plain fields, and the
/// bytes written to its scratch region.
pub struct ConnectionModel {
    pub state: State,
    pub tx: SendSequence,
    pub rx: ReceiveSequence,
    pub ip: Ipv4Template,
    pub tcp: TcpTemplate,
    pub out: Seq<u8>,
}

impl ConnectionModel {
    /// The same connection with nothing left to transmit.
    pub open spec fn idle(self) -> ConnectionModel {
        ConnectionModel { out: Seq::empty(), ..self }
    }

    /// IPv4 header of the next segment, for a payload of `payload_len`
    /// bytes.
    pub open spec fn next_ip(self, payload_len: nat) -> Ipv4Template {
        Ipv4Template { payload_len: (TCP_HEADER_LEN + payload_len) as u16, ..self.ip }
    }

    /// TCP header of the next segment, its checksum not yet filled in: the
    /// template with the sequence number `tx.nxt` and the acknowledgment
    /// number `rx.nxt`.
    pub open spec fn next_tcp(self) -> TcpTemplate {
        TcpTemplate {
            sequence_number: self.tx.nxt,
            acknowledgment_number: self.rx.nxt,
            ..self.tcp
        }
    }

    /// The connection after it has been handed the encoded headers of a
    /// segment, and what it reports.
    ///
    /// Where the packet fits the scratch region and the segment validates
    /// under its checksum, the packet is IPv4 header, TCP header and
    /// payload in this order, both templates are the ones encoded, and
    /// `tx.nxt` has moved past the segment. Otherwise nothing but the
    /// scratch region changes, which is left empty.
    pub open spec fn emit(
        self,
        ip: Ipv4Template,
        tcp: TcpTemplate,
        ip_image: Seq<u8>,
        tcp_image: Seq<u8>,
        payload: Seq<u8>,
    ) -> (ConnectionModel, Result<usize, TcpError>) {
        if ip_image.len() + tcp_image.len() + payload.len() > SCRATCH_CAPACITY {
            (self.idle(), Err(TcpError::ScratchFull))
        } else if !tcp_checksum_validates(ip.source, ip.destination, tcp_image + payload) {
            (self.idle(), Err(TcpError::BadChecksum))
        } else {
            (
                ConnectionModel {
                    ip,
                    tcp,
                    tx: SendSequence {
                        nxt: seq_add(self.tx.nxt, tcp.sequence_len(payload.len())),
                        ..self.tx
                    },
                    out: ip_image + tcp_image + payload,
                    ..self
                },
                Ok(payload.len() as usize),
            )
        }
    }

    /// The connection after sending `payload`, and what it reports.
    pub open spec fn send(self, payload: Seq<u8>) -> (ConnectionModel, Result<usize, TcpError>) {
        let ip = self.next_ip(payload.len());
        let bare = self.next_tcp();
        if TCP_HEADER_LEN + payload.len() > IPV4_MAX_PAYLOAD_LEN {
            (self.idle(), Err(TcpError::PayloadTooLarge))
        } else {
            match tcp_checksum_of(ip, bare, payload) {
                None => (self.idle(), Err(TcpError::Encode)),
                Some(checksum) => {
                    let tcp = TcpTemplate { checksum, ..bare };
                    match (ipv4_header_image(ip), tcp_header_image(tcp)) {
                        (Some(ip_image), Some(tcp_image)) => self.emit(
                            ip,
                            tcp,
                            ip_image,
                            tcp_image,
                            payload,
                        ),
                        _ => (self.idle(), Err(TcpError::Encode)),
                    }
                },
            }
        }
    }

    /// The connection after sending a reset, and what it reports: the RST
    /// bit stays set in the template, and an empty segment is sent.
    pub open spec fn send_rst(self) -> (ConnectionModel, Result<(), TcpError>) {
        let armed = ConnectionModel { tcp: TcpTemplate { rst: true, ..self.tcp }, ..self };
        let (after, sent) = armed.send(Seq::empty());
        (
            after,
            match sent {
                Ok(_) => Ok(()),
                Err(e) => Err(e),
            },
        )
    }

    /// What becomes of a segment that failed an admission test: a
    /// synchronized connection answers with a reset, any other drops the
    /// segment and stays as it is.
    pub open spec fn refuse(self) -> (ConnectionModel, Result<Outcome, TcpError>) {
        if self.state.synchronized() {
            let (after, sent) = self.send_rst();
            (
                after,
                match sent {
                    Ok(_) => Ok(Outcome::Reset),
                    Err(e) => Err(e),
                },
            )
        } else {
            (self, Ok(Outcome::Dropped))
        }
    }

    /// Whether a segment with the header `tcp` and `len` bytes of payload
    /// passes both admission tests.
    pub open spec fn admits(self, tcp: TcpFields, len: nat) -> bool {
        &&& self.tx.acceptable_ack(tcp.acknowledgment_number)
        &&& self.rx.segment_verdict(tcp.sequence_number, len) is Ok
    }

    /// The connection after a segment with the header `tcp` and `len` bytes
    /// of payload has arrived, and what it reports.
    pub open spec fn on_packet(self, tcp: TcpFields, len: nat) -> (
        ConnectionModel,
        Result<Outcome, TcpError>,
    ) {
        if !self.admits(tcp, len) {
            self.refuse()
        } else {
            match self.state {
                State::Closed | State::Listen => (self, Ok(Outcome::Ignored)),
                State::SynRcvd => if tcp.ack {
                    (ConnectionModel { state: State::Established, ..self }, Ok(Outcome::Established))
                } else {
                    (self, Err(TcpError::ConnectionReset))
                },
                _ => (self, Ok(Outcome::Unsupported)),
            }
        }
    }

    /// The connection that a first segment with the headers `ip` and `tcp`
    /// opens, before it has answered: it waits in `SynRcvd`, expects the
    /// byte after the peer's SYN, and holds a template for segments back to
    /// the peer with SYN and ACK set.
    pub open spec fn opening(ip: Ipv4Fields, tcp: TcpFields) -> ConnectionModel {
        ConnectionModel {
            state: State::SynRcvd,
            tx: SendSequence {
                una: INITIAL_SEND_SEQUENCE,
                nxt: INITIAL_SEND_SEQUENCE,
                wnd: tcp.window_size,
                up: false,
                wl1: 0,
                wl2: 0,
                iss: INITIAL_SEND_SEQUENCE,
            },
            rx: ReceiveSequence {
                nxt: seq_add(tcp.sequence_number, 1),
                wnd: tcp.window_size,
                up: false,
                irs: tcp.sequence_number,
            },
            ip: Ipv4Template {
                payload_len: TCP_HEADER_LEN as u16,
                time_to_live: DEFAULT_TIME_TO_LIVE,
                protocol: IP_PROTOCOL_TCP,
                source: ip.destination,
                destination: ip.source,
            },
            tcp: TcpTemplate {
                source_port: tcp.destination_port,
                destination_port: tcp.source_port,
                sequence_number: INITIAL_SEND_SEQUENCE,
                acknowledgment_number: 0,
                window_size: tcp.window_size,
                syn: true,
                ack: true,
                rst: false,
                fin: false,
                checksum: 0,
            },
            out: Seq::empty(),
        }
    }

    /// What a first segment with the headers `ip` and `tcp` leads to: no
    /// connection unless it is a SYN, and else the opening connection after
    /// it has sent its SYN+ACK.
    pub open spec fn accept(ip: Ipv4Fields, tcp: TcpFields) -> Result<
        Option<ConnectionModel>,
        TcpError,
    > {
        if !tcp.syn {
            Ok(None)
        } else {
            let (after, sent) = Self::opening(ip, tcp).send(Seq::empty());
            match sent {
                Ok(_) => Ok(Some(after)),
                Err(e) => Err(e),
            }
        }
    }
}

/// One TCP connection.
pub struct Connection {
    pub state: State,
    pub tx: SendSequence,
    pub rx: ReceiveSequence,
    /// Template of the IPv4 header of outbound segments.
    pub ip: Ipv4Template,
    /// Template of the TCP header of outbound segments.
    pub tcp: TcpTemplate,
    /// The packet to transmit next, if any.
    pub out: Scratch,
}

impl View for Connection {
    type V = ConnectionModel;

    open spec fn view(&self) -> ConnectionModel {
        ConnectionModel {
            state: self.state,
            tx: self.tx,
            rx: self.rx,
            ip: self.ip,
            tcp: self.tcp,
            out: self.out@,
        }
    }
}

/// The picture of what `accept` returns.
pub open spec fn accepted(result: Result<Option<Connection>, TcpError>) -> Result<
    Option<ConnectionModel>,
    TcpError,
> {
    match result {
        Ok(Some(c)) => Ok(Some(c@)),
        Ok(None) => Ok(None),
        Err(e) => Err(e),
    }
}

impl Connection {
    /// Answers a first segment, one that belongs to no connection yet.
    ///
    /// A segment without SYN is ignored. A SYN opens a connection in
    /// `SynRcvd`, which leaves its SYN+ACK in `out` for the caller to
    /// transmit.
    pub fn accept(ip: &Ipv4Fields, tcp: &TcpFields) -> (result: Result<Option<Connection>, TcpError>)
        ensures
            accepted(result) == ConnectionModel::accept(*ip, *tcp),
            !tcp.syn ==> result matches Ok(None),
            result matches Ok(Some(c)) ==> ({
                &&& tcp.syn
                &&& c.state == State::SynRcvd
                &&& c.rx.irs == tcp.sequence_number
                &&& c.rx.nxt == seq_add(tcp.sequence_number, 1)
                &&& c.tx.una == c.tx.iss
                &&& c.tx.nxt == seq_add(c.tx.iss, 1)
                &&& c.tcp.syn && c.tcp.ack
                &&& c.tcp.sequence_number == c.tx.iss
                &&& c.tcp.acknowledgment_number == c.rx.nxt
            }),
    {
        if !tcp.syn {
            return Ok(None);
        }
        let iss = INITIAL_SEND_SEQUENCE;
        let wnd = tcp.window_size;
        let mut template = TcpTemplate::new(tcp.destination_port, tcp.source_port, iss, wnd);
        template.syn = true;
        template.ack = true;
        let mut c = Connection {
            state: State::SynRcvd,
            tx: SendSequence { una: iss, nxt: iss, wnd, up: false, wl1: 0, wl2: 0, iss },
            rx: ReceiveSequence {
                nxt: advance(tcp.sequence_number, 1),
                wnd,
                up: false,
                irs: tcp.sequence_number,
            },
            ip: Ipv4Template::new(
                template.header_len(),
                DEFAULT_TIME_TO_LIVE,
                IP_PROTOCOL_TCP,
                ip.destination,
                ip.source,
            ),
            tcp: template,
            out: Scratch::new(),
        };
        assert(c@ == ConnectionModel::opening(*ip, *tcp));
        let nothing: [u8; 0] = [];
        assert(nothing@ =~= Seq::<u8>::empty());
        match c.send(nothing.as_slice()) {
            Ok(_) => Ok(Some(c)),
            Err(e) => Err(e),
        }
    }

    /// Hands the connection the encoded headers of its next segment.
    ///
    /// The packet is assembled in `out`: `ip_image`, `tcp_image`, `payload`.
    /// It is kept only if it fits and if the segment, `tcp_image` with
    /// `payload`, validates under its checksum for the addresses of `ip`.
    /// The connection then takes `ip` and `tcp` for its templates and moves
    /// `tx.nxt` past the segment.
    pub fn emit(
        &mut self,
        ip: Ipv4Template,
        tcp: TcpTemplate,
        ip_image: &[u8],
        tcp_image: &[u8],
        payload: &[u8],
    ) -> (sent: Result<usize, TcpError>)
        ensures
            (final(self)@, sent) == old(self)@.emit(ip, tcp, ip_image@, tcp_image@, payload@),
    {
        self.out.clear();
        if self.out.append(ip_image).is_err() {
            return Err(TcpError::ScratchFull);
        }
        if self.out.append(tcp_image).is_err() {
            self.out.clear();
            return Err(TcpError::ScratchFull);
        }
        if self.out.append(payload).is_err() {
            self.out.clear();
            return Err(TcpError::ScratchFull);
        }
        let packet = self.out.as_slice();
        let segment = &packet[ip_image.len()..packet.len()];
        assert(segment@ =~= tcp_image@ + payload@);
        if !checksum_validates(ip.source, ip.destination, segment) {
            self.out.clear();
            return Err(TcpError::BadChecksum);
        }
        let syn: usize = if tcp.syn { 1 } else { 0 };
        let fin: usize = if tcp.fin { 1 } else { 0 };
        self.ip = ip;
        self.tcp = tcp;
        self.tx.nxt = advance(self.tx.nxt, payload.len() + syn + fin);
        Ok(payload.len())
    }

    /// Builds the next segment around `payload` and leaves the packet in
    /// `out`.
    ///
    /// The segment carries the sequence number `tx.nxt` and the
    /// acknowledgment number `rx.nxt`. Once it is built, `tx.nxt` moves on
    /// by the length of the payload, by one more for a SYN and by one more
    /// for a FIN. Returns the number of payload bytes sent.
    pub fn send(&mut self, payload: &[u8]) -> (sent: Result<usize, TcpError>)
        ensures
            (final(self)@, sent) == old(self)@.send(payload@),
    {
        self.out.clear();
        let mut tcp = self.tcp;
        tcp.sequence_number = self.tx.nxt;
        tcp.acknowledgment_number = self.rx.nxt;
        let mut ip = self.ip;
        let header_len = tcp.header_len() as usize;
        if payload.len() > IPV4_MAX_PAYLOAD_LEN - header_len || ip.set_payload_len(
            header_len + payload.len(),
        ).is_err() {
            return Err(TcpError::PayloadTooLarge);
        }
        let checksum = match compute_tcp_checksum(&ip, &tcp, payload) {
            Some(checksum) => checksum,
            None => {
                return Err(TcpError::Encode);
            },
        };
        tcp.checksum = checksum;
        let ip_image = match encode_ipv4_header(&ip) {
            Some(image) => image,
            None => {
                return Err(TcpError::Encode);
            },
        };
        let tcp_image = match encode_tcp_header(&tcp) {
            Some(image) => image,
            None => {
                return Err(TcpError::Encode);
            },
        };
        self.emit(ip, tcp, ip_image.as_slice(), tcp_image.as_slice(), payload)
    }

    /// Answers with a reset: sets the RST bit of the template and sends an
    /// empty segment.
    pub fn send_rst(&mut self) -> (sent: Result<(), TcpError>)
        ensures
            (final(self)@, sent) == old(self)@.send_rst(),
    {
        self.tcp.rst = true;
        let nothing: [u8; 0] = [];
        assert(nothing@ =~= Seq::<u8>::empty());
        match self.send(nothing.as_slice()) {
            Ok(_) => Ok(()),
            Err(e) => Err(e),
        }
    }

    /// Settles a segment that failed an admission test.
    fn refuse(&mut self) -> (result: Result<Outcome, TcpError>)
        ensures
            (final(self)@, result) == old(self)@.refuse(),
    {
        if self.state.is_sync() {
            match self.send_rst() {
                Ok(_) => Ok(Outcome::Reset),
                Err(e) => Err(e),
            }
        } else {
            Ok(Outcome::Dropped)
        }
    }

    /// Takes a segment that belongs to this connection.
    ///
    /// The segment first has to pass the acceptable-acknowledgment test and
    /// the segment receive test, in this order and in every state. One that
    /// fails either is answered with a reset by a synchronized connection
    /// and dropped by any other. One that passes completes the handshake in
    /// `SynRcvd` if it carries ACK, and breaks it if it does not.
    pub fn on_packet(&mut self, _ip: &Ipv4Fields, tcp: &TcpFields, data: &[u8]) -> (result: Result<
        Outcome,
        TcpError,
    >)
        ensures
            (final(self)@, result) == old(self)@.on_packet(*tcp, data@.len()),
            !old(self)@.admits(*tcp, data@.len()) && !old(self).state.synchronized() ==> ({
                &&& result == Ok::<Outcome, TcpError>(Outcome::Dropped)
                &&& final(self)@ == old(self)@
            }),
            !old(self)@.admits(*tcp, data@.len()) && old(self).state.synchronized() ==> ({
                &&& final(self).tcp.rst
                &&& final(self).state == old(self).state
                &&& result is Ok ==> result == Ok::<Outcome, TcpError>(Outcome::Reset)
            }),
    {
        if self.check_acceptable_ack(tcp.acknowledgment_number).is_err() {
            return self.refuse();
        }
        if self.check_valid_segment(tcp, data.len()).is_err() {
            return self.refuse();
        }
        match self.state {
            State::Closed => Ok(Outcome::Ignored),
            State::Listen => Ok(Outcome::Ignored),
            State::SynRcvd => {
                if !tcp.ack {
                    return Err(TcpError::ConnectionReset);
                }
                self.state = State::Established;
                Ok(Outcome::Established)
            },
            State::SynSent => Ok(Outcome::Unsupported),
            State::Established => Ok(Outcome::Unsupported),
            State::FinWait1 => Ok(Outcome::Unsupported),
            State::FinWait2 => Ok(Outcome::Unsupported),
            State::Closing => Ok(Outcome::Unsupported),
            State::TimeWait => Ok(Outcome::Unsupported),
            State::CloseWait => Ok(Outcome::Unsupported),
            State::LastAck => Ok(Outcome::Unsupported),
        }
    }

    /// The acceptable-acknowledgment test: `SND.UNA < SEG.ACK =< SND.NXT`.
    pub fn check_acceptable_ack(&self, ackn: u32) -> (verdict: Result<(), SegmentError>)
        ensures
            self.tx.acceptable_ack(ackn) ==> verdict == Ok::<(), SegmentError>(()),
            !self.tx.acceptable_ack(ackn) ==> verdict == Err::<(), SegmentError>(
                SegmentError::AckOutOfRange,
            ),
    {
        if is_between(advance(self.tx.una, 1), self.tx.nxt, ackn) {
            Ok(())
        } else {
            Err(SegmentError::AckOutOfRange)
        }
    }

    /// The segment receive test, on the sequence number of `tcp`, the
    /// length `slen` of the segment and the window this side advertises.
    pub fn check_valid_segment(&self, tcp: &TcpFields, slen: usize) -> (verdict: Result<
        (),
        SegmentError,
    >)
        ensures
            verdict == self.rx.segment_verdict(tcp.sequence_number, slen as nat),
            self.rx.wnd == 0 && slen == 0 ==> (verdict is Ok <==> tcp.sequence_number
                == self.rx.nxt),
            self.rx.wnd == 0 && slen > 0 ==> verdict is Err,
    {
        let seqn = tcp.sequence_number;
        if self.rx.wnd == 0 {
            if slen > 0 {
                return Err(SegmentError::WindowClosed);
            }
            if seqn != self.rx.nxt {
                return Err(SegmentError::SeqNotNext);
            }
            return Ok(());
        }
        let end = advance(self.rx.nxt, (self.rx.wnd - 1) as usize);
        if is_between(self.rx.nxt, end, seqn) {
            Ok(())
        } else if slen > 0 && is_between(self.rx.nxt, end, advance(seqn, slen - 1)) {
            Ok(())
        } else {
            Err(SegmentError::SeqOutOfRange)
        }
    }
}

/// An acknowledgment number passes or fails the acceptable-acknowledgment
/// test no matter where on the circle the connection stands: the verdict is
/// the same after `una`, `nxt` and the acknowledgment number have all moved
/// on by the same number of steps.
pub proof fn lemma_acceptable_ack_is_rotation_invariant(tx: SendSequence, ackn: u32, steps: nat)
    ensures
        (SendSequence {
            una: seq_add(tx.una, steps),
            nxt: seq_add(tx.nxt, steps),
            ..tx
        }).acceptable_ack(seq_add(ackn, steps)) == tx.acceptable_ack(ackn),
{
    lemma_seq_add_adds_up(tx.una, steps, 1);
    lemma_seq_add_adds_up(tx.una, 1, steps);
    lemma_arc_is_rotation_invariant(seq_add(tx.una, 1), tx.nxt, ackn, steps);
}

/// The segment receive test gives the same verdict no matter where on the
/// circle the connection stands.
pub proof fn lemma_segment_verdict_is_rotation_invariant(
    rx: ReceiveSequence,
    seqn: u32,
    len: nat,
    steps: nat,
)
    ensures
        (ReceiveSequence { nxt: seq_add(rx.nxt, steps), ..rx }).segment_verdict(
            seq_add(seqn, steps),
            len,
        ) == rx.segment_verdict(seqn, len),
{
    let moved = ReceiveSequence { nxt: seq_add(rx.nxt, steps), ..rx };
    lemma_distance_is_rotation_invariant(rx.nxt, seqn, steps);
    if rx.wnd > 0 {
        lemma_seq_add_adds_up(rx.nxt, steps, (rx.wnd - 1) as nat);
        lemma_seq_add_adds_up(rx.nxt, (rx.wnd - 1) as nat, steps);
        lemma_arc_is_rotation_invariant(rx.nxt, rx.window_end(), seqn, steps);
        if len > 0 {
            lemma_seq_add_adds_up(seqn, steps, (len - 1) as nat);
            lemma_seq_add_adds_up(seqn, (len - 1) as nat, steps);
            lemma_arc_is_rotation_invariant(
                rx.nxt,
                rx.window_end(),
                seq_add(seqn, (len - 1) as nat),
                steps,
            );
        }
    }
}

/// With a closed window an empty segment is admitted exactly at `rx.nxt`,
/// and a segment that carries data is never admitted.
pub proof fn lemma_closed_window(rx: ReceiveSequence, seqn: u32, len: nat)
    requires
        rx.wnd == 0,
    ensures
        len == 0 ==> (rx.segment_verdict(seqn, len) is Ok <==> seqn == rx.nxt),
        len > 0 ==> rx.segment_verdict(seqn, len) is Err,
{
}

/// A first segment without SYN opens nothing.
pub proof fn lemma_first_segment_without_syn(ip: Ipv4Fields, tcp: TcpFields)
    requires
        !tcp.syn,
    ensures
        ConnectionModel::accept(ip, tcp) == Ok::<Option<ConnectionModel>, TcpError>(None),
{
}

/// What a SYN opens: a connection in `SynRcvd` that has taken the peer's
/// sequence number for `irs`, expects the one after it, has used up one
/// sequence number of its own for its SYN, and has a SYN+ACK segment for
/// the peer in its scratch region that acknowledges the peer's SYN.
pub proof fn lemma_syn_opens_connection(ip: Ipv4Fields, tcp: TcpFields)
    requires
        ConnectionModel::accept(ip, tcp) matches Ok(Some(_)),
    ensures
        ({
            let c = ConnectionModel::accept(ip, tcp)->Ok_0->Some_0;
            &&& tcp.syn
            &&& c.state == State::SynRcvd
            &&& c.rx.irs == tcp.sequence_number
            &&& c.rx.nxt == seq_add(tcp.sequence_number, 1)
            &&& c.rx.wnd == tcp.window_size
            &&& c.tx.iss == INITIAL_SEND_SEQUENCE
            &&& c.tx.una == c.tx.iss
            &&& c.tx.nxt == seq_add(c.tx.iss, 1)
            &&& c.tx.wnd == tcp.window_size
            &&& c.tcp.syn && c.tcp.ack && !c.tcp.rst && !c.tcp.fin
            &&& c.tcp.sequence_number == c.tx.iss
            &&& c.tcp.acknowledgment_number == c.rx.nxt
            &&& c.tcp.window_size == c.tx.wnd
            &&& c.tcp.source_port == tcp.destination_port
            &&& c.tcp.destination_port == tcp.source_port
            &&& c.ip.source == ip.destination
            &&& c.ip.destination == ip.source
            &&& ipv4_header_image(c.ip) is Some
            &&& tcp_header_image(c.tcp) is Some
            &&& c.out == ipv4_header_image(c.ip)->Some_0 + tcp_header_image(c.tcp)->Some_0
        }),
{
    let opening = ConnectionModel::opening(ip, tcp);
    let empty = Seq::<u8>::empty();
    let ip_image = ipv4_header_image(opening.next_ip(0))->Some_0;
    let checksum = tcp_checksum_of(opening.next_ip(0), opening.next_tcp(), empty)->Some_0;
    let tcp_image = tcp_header_image(TcpTemplate { checksum, ..opening.next_tcp() })->Some_0;
    assert(ip_image + tcp_image + empty =~= ip_image + tcp_image);
}

/// The handshake completes: a connection that waits in `SynRcvd` becomes
/// `Established`, and nothing else of it changes, when a segment arrives
/// that carries ACK, acknowledges the connection's SYN, starts at `rx.nxt`
/// and has no payload.
pub proof fn lemma_handshake_completes(c: ConnectionModel, tcp: TcpFields)
    requires
        c.state == State::SynRcvd,
        c.tx.nxt == seq_add(c.tx.una, 1),
        tcp.ack,
        tcp.acknowledgment_number == c.tx.nxt,
        tcp.sequence_number == c.rx.nxt,
    ensures
        c.on_packet(tcp, 0) == (
            ConnectionModel { state: State::Established, ..c },
            Ok::<Outcome, TcpError>(Outcome::Established),
        ),
{
}

/// No segment moves the receive side, or what counts as acknowledged: a
/// segment changes the state, only from `SynRcvd` to `Established`, or it
/// is answered with a reset, which alone moves `tx.nxt`.
pub proof fn lemma_on_packet_keeps_sequence_spaces(c: ConnectionModel, tcp: TcpFields, len: nat)
    ensures
        ({
            let (after, result) = c.on_packet(tcp, len);
            &&& after.rx == c.rx
            &&& after.tx.una == c.tx.una
            &&& after.tx.iss == c.tx.iss
            &&& after.tx.wnd == c.tx.wnd
            &&& result != Ok::<Outcome, TcpError>(Outcome::Reset) ==> after.tx == c.tx
            &&& after.state != c.state ==> {
                &&& c.state == State::SynRcvd
                &&& after.state == State::Established
                &&& result == Ok::<Outcome, TcpError>(Outcome::Established)
            }
        }),
{
}

/// A segment that fails an admission test leaves a connection that is not
/// yet synchronized exactly as it was, with nothing to transmit for it.
pub proof fn lemma_refused_before_synchronized(c: ConnectionModel, tcp: TcpFields, len: nat)
    requires
        !c.state.synchronized(),
        !c.admits(tcp, len),
    ensures
        c.on_packet(tcp, len) == (c, Ok::<Outcome, TcpError>(Outcome::Dropped)),
{
}

/// A segment that fails an admission test on a synchronized connection is
/// answered with a reset. The connection stays in its state, keeps the RST
/// bit in its template as the record of the reset and, where the reset
/// could be built, reports `Reset` and holds in its scratch region a
/// segment without payload whose header has the RST bit set.
pub proof fn lemma_refused_when_synchronized(c: ConnectionModel, tcp: TcpFields, len: nat)
    requires
        c.state.synchronized(),
        !c.admits(tcp, len),
    ensures
        ({
            let (after, result) = c.on_packet(tcp, len);
            &&& after.state == c.state
            &&& after.rx == c.rx
            &&& after.tcp.rst
            &&& result is Ok ==> {
                &&& result == Ok::<Outcome, TcpError>(Outcome::Reset)
                &&& after.tcp.sequence_number == c.tx.nxt
                &&& after.tcp.acknowledgment_number == c.rx.nxt
                &&& ipv4_header_image(after.ip) is Some
                &&& tcp_header_image(after.tcp) is Some
                &&& after.out == ipv4_header_image(after.ip)->Some_0 + tcp_header_image(
                    after.tcp,
                )->Some_0
            }
            &&& result is Err ==> after.out == Seq::<u8>::empty() && after.tx == c.tx
        }),
{
    let armed = ConnectionModel { tcp: TcpTemplate { rst: true, ..c.tcp }, ..c };
    let empty = Seq::<u8>::empty();
    let ip_image = ipv4_header_image(armed.next_ip(0))->Some_0;
    let checksum = tcp_checksum_of(armed.next_ip(0), armed.next_tcp(), empty)->Some_0;
    let tcp_image = tcp_header_image(TcpTemplate { checksum, ..armed.next_tcp() })->Some_0;
    assert(ip_image + tcp_image + empty =~= ip_image + tcp_image);
}

/// Every packet that a connection builds validates: behind the IPv4 header
/// that the encoder gives for the connection's template stands a segment
/// whose checksum is right for the addresses of that header.
pub proof fn lemma_sent_segment_validates(c: ConnectionModel, payload: Seq<u8>)
    requires
        c.send(payload).1 is Ok,
    ensures
        ({
            let after = c.send(payload).0;
            let header = ipv4_header_image(after.ip)->Some_0;
            &&& ipv4_header_image(after.ip) is Some
            &&& after.out.subrange(0, header.len() as int) == header
            &&& tcp_checksum_validates(
                after.ip.source,
                after.ip.destination,
                after.out.subrange(header.len() as int, after.out.len() as int),
            )
        }),
{
    let ip = c.next_ip(payload.len());
    let checksum = tcp_checksum_of(ip, c.next_tcp(), payload)->Some_0;
    let tcp = TcpTemplate { checksum, ..c.next_tcp() };
    let header = ipv4_header_image(ip)->Some_0;
    let segment = tcp_header_image(tcp)->Some_0 + payload;
    let out = c.send(payload).0.out;
    assert(out =~= header + segment);
    assert(out.subrange(0, header.len() as int) =~= header);
    assert(out.subrange(header.len() as int, out.len() as int) =~= segment);
}

/// Sending moves `tx.nxt` on by what the segment takes up of the sequence
/// space (its payload, one for SYN, one for FIN) and leaves `tx.una`, the
/// receive side and the state alone.
pub proof fn lemma_send_advances_next(c: ConnectionModel, payload: Seq<u8>)
    requires
        c.send(payload).1 is Ok,
    ensures
        ({
            let (after, sent) = c.send(payload);
            &&& sent == Ok::<usize, TcpError>(payload.len() as usize)
            &&& after.tx == (SendSequence {
                nxt: seq_add(c.tx.nxt, c.tcp.sequence_len(payload.len())),
                ..c.tx
            })
            &&& after.tcp.sequence_number == c.tx.nxt
            &&& after.tcp.acknowledgment_number == c.rx.nxt
            &&& after.ip.payload_len == TCP_HEADER_LEN + payload.len()
            &&& after.rx == c.rx
            &&& after.state == c.state
        }),
{
}

} // verus!
