//! The connection table: routes each inbound segment to the connection of
//! its flow, and opens a connection where a SYN arrives for a flow that has
//! none.

use crate::codec::{decode_ipv4_header, decode_tcp_header, ipv4_header_of, tcp_header_of};
use crate::header::{Ipv4Fields, TcpFields, IP_PROTOCOL_TCP};
use crate::tcp::{Connection, ConnectionModel, Outcome, TcpError};
use std::collections::hash_map::{Entry, HashMap};
use vstd::prelude::*;

verus! {

/// The identity of a flow, as an inbound segment shows it: the address and
/// port that the segment comes from, and the address and port that it goes
/// to.
#[derive(Clone, Copy, Debug, PartialEq, Eq, PartialOrd, Ord, Hash)]
pub struct Quad {
    pub src: (u32, u16),
    pub dst: (u32, u16),
}

impl Quad {
    /// The flow of a segment with the headers `ip` and `tcp`.
    pub open spec fn of_headers(ip: Ipv4Fields, tcp: TcpFields) -> Quad {
        Quad { src: (ip.source, tcp.source_port), dst: (ip.destination, tcp.destination_port) }
    }

    /// The flow of a segment with the headers `ip` and `tcp`.
    pub fn of(ip: &Ipv4Fields, tcp: &TcpFields) -> (quad: Quad)
        ensures
            quad == Quad::of_headers(*ip, *tcp),
    {
        Quad { src: (ip.source, tcp.source_port), dst: (ip.destination, tcp.destination_port) }
    }

    /// The four parts of the flow side by side in one number of 96 bits.
    pub open spec fn packed(self) -> u128 {
        (self.src.0 as nat * 0x1_0000_0000_0000_0000 + self.src.1 as nat * 0x1_0000_0000_0000
            + self.dst.0 as nat * 0x1_0000 + self.dst.1 as nat) as u128
    }

    /// The number under which the table files the flow.
    pub fn key(&self) -> (key: u128)
        ensures
            key == self.packed(),
    {
        let src_addr: u128 = self.src.0 as u128 * 0x1_0000_0000_0000_0000;
        let src_port: u128 = self.src.1 as u128 * 0x1_0000_0000_0000;
        let dst_addr: u128 = self.dst.0 as u128 * 0x1_0000;
        src_addr + src_port + dst_addr + self.dst.1 as u128
    }

    /// Two flows that are filed under the same number are the same flow.
    pub proof fn lemma_packed_is_injective(a: Quad, b: Quad)
        requires
            a.packed() == b.packed(),
        ensures
            a == b,
    {
        let low_a = a.dst.0 as int * 0x1_0000 + a.dst.1 as int;
        let low_b = b.dst.0 as int * 0x1_0000 + b.dst.1 as int;
        let mid_a = a.src.1 as int * 0x1_0000_0000_0000 + low_a;
        let mid_b = b.src.1 as int * 0x1_0000_0000_0000 + low_b;
        assert(0 <= low_a < 0x1_0000_0000_0000 && 0 <= low_b < 0x1_0000_0000_0000);
        assert(0 <= mid_a < 0x1_0000_0000_0000_0000 && 0 <= mid_b < 0x1_0000_0000_0000_0000);
        assert(a.packed() as int == a.src.0 as int * 0x1_0000_0000_0000_0000 + mid_a);
        assert(b.packed() as int == b.src.0 as int * 0x1_0000_0000_0000_0000 + mid_b);
        assert(a.src.0 == b.src.0);
        assert(a.src.1 == b.src.1);
        assert(a.dst.0 == b.dst.0);
    }
}

/// What the table did with a segment.
#[derive(Clone, Copy, Debug, PartialEq, Eq, Structural)]
pub enum Routed {
    /// The flow had no connection and the segment was not a SYN: nothing
    /// was created and there is nothing to transmit.
    Refused,
    /// The flow had no connection and the segment was a SYN: a connection
    /// was opened, and its SYN+ACK waits in its scratch region.
    Opened,
    /// The connection of the flow took the segment.
    Handled(Outcome),
}

/// What the table did with a frame.
#[derive(Clone, Copy, Debug, PartialEq, Eq)]
pub enum FrameOutcome {
    /// The frame does not start with an IPv4 header.
    CorruptedIp,
    /// The packet carries another protocol than TCP.
    NotTcp,
    /// The IPv4 header is not followed by a TCP header.
    CorruptedTcp,
    /// The frame held a segment of the given flow, which was routed.
    Segment(Quad, Routed),
}

impl FrameOutcome {
    /// The flow whose connection has a segment to transmit once a frame has
    /// ended this way: the one that was opened, or the one that answered
    /// with a reset.
    pub open spec fn replying_flow(self) -> Option<Quad> {
        match self {
            FrameOutcome::Segment(quad, Routed::Opened) => Some(quad),
            FrameOutcome::Segment(quad, Routed::Handled(Outcome::Reset)) => Some(quad),
            _ => None,
        }
    }
}

/// The table after a segment of the flow `quad`, with the header fields
/// `ip` and `tcp` and `len` bytes of payload, and what it reports.
///
/// A flow that has a connection hands it the segment, and the connection
/// stays in the table as the segment left it, also where it failed. A flow
/// that has none gets one if the segment opens one.
pub open spec fn demuxed(
    table: Map<Quad, ConnectionModel>,
    quad: Quad,
    ip: Ipv4Fields,
    tcp: TcpFields,
    len: nat,
) -> (Map<Quad, ConnectionModel>, Result<Routed, TcpError>) {
    if table.contains_key(quad) {
        let (after, result) = table[quad].on_packet(tcp, len);
        (
            table.insert(quad, after),
            match result {
                Ok(outcome) => Ok(Routed::Handled(outcome)),
                Err(e) => Err(e),
            },
        )
    } else {
        match ConnectionModel::accept(ip, tcp) {
            Ok(Some(opened)) => (table.insert(quad, opened), Ok(Routed::Opened)),
            Ok(None) => (table, Ok(Routed::Refused)),
            Err(e) => (table, Err(e)),
        }
    }
}

/// A segment without SYN for a flow that has no connection changes nothing
/// and calls for no answer.
pub proof fn lemma_unknown_flow_without_syn(
    table: Map<Quad, ConnectionModel>,
    quad: Quad,
    ip: Ipv4Fields,
    tcp: TcpFields,
    len: nat,
)
    requires
        !table.contains_key(quad),
        !tcp.syn,
    ensures
        demuxed(table, quad, ip, tcp, len) == (table, Ok::<Routed, TcpError>(Routed::Refused)),
        (FrameOutcome::Segment(quad, Routed::Refused)).replying_flow() is None,
{
}

/// A segment touches the connection of its own flow and no other: every
/// other flow has a connection after the segment exactly if it had one
/// before, and that connection is as it was.
pub proof fn lemma_demux_keeps_other_flows(
    table: Map<Quad, ConnectionModel>,
    quad: Quad,
    ip: Ipv4Fields,
    tcp: TcpFields,
    len: nat,
    other: Quad,
)
    requires
        other != quad,
    ensures
        demuxed(table, quad, ip, tcp, len).0.contains_key(other) == table.contains_key(other),
        table.contains_key(other) ==> demuxed(table, quad, ip, tcp, len).0[other] == table[other],
{
}

/// No segment removes a connection from the table.
pub proof fn lemma_demux_never_evicts(
    table: Map<Quad, ConnectionModel>,
    quad: Quad,
    ip: Ipv4Fields,
    tcp: TcpFields,
    len: nat,
    flow: Quad,
)
    requires
        table.contains_key(flow),
    ensures
        demuxed(table, quad, ip, tcp, len).0.contains_key(flow),
{
}

/// What a frame holds.
pub enum Decoded {
    /// No IPv4 header at the start of the frame.
    CorruptedIp,
    /// An IPv4 packet of another protocol than TCP.
    NotTcp,
    /// An IPv4 header with no TCP header behind it.
    CorruptedTcp,
    /// A TCP segment: both headers and the payload.
    Segment(Ipv4Fields, TcpFields, Seq<u8>),
}

/// What a frame holds: the IPv4 header at its start, the TCP header in what
/// follows the IPv4 header, and for payload what follows the TCP header, up
/// to the end of the frame.
pub open spec fn decoded(frame: Seq<u8>) -> Decoded {
    match ipv4_header_of(frame) {
        None => Decoded::CorruptedIp,
        Some(ip) => if ip.protocol != IP_PROTOCOL_TCP {
            Decoded::NotTcp
        } else {
            let rest = frame.subrange(ip.header_len as int, frame.len() as int);
            match tcp_header_of(rest) {
                None => Decoded::CorruptedTcp,
                Some(tcp) => Decoded::Segment(
                    ip,
                    tcp,
                    rest.subrange(tcp.header_len as int, rest.len() as int),
                ),
            }
        },
    }
}

/// The table after a frame, and what it reports: a frame that holds no
/// segment leaves the table alone, and a frame that holds one is routed.
pub open spec fn framed(table: Map<Quad, ConnectionModel>, frame: Seq<u8>) -> (
    Map<Quad, ConnectionModel>,
    Result<FrameOutcome, TcpError>,
) {
    match decoded(frame) {
        Decoded::CorruptedIp => (table, Ok(FrameOutcome::CorruptedIp)),
        Decoded::NotTcp => (table, Ok(FrameOutcome::NotTcp)),
        Decoded::CorruptedTcp => (table, Ok(FrameOutcome::CorruptedTcp)),
        Decoded::Segment(ip, tcp, payload) => {
            let quad = Quad::of_headers(ip, tcp);
            let (after, routed) = demuxed(table, quad, ip, tcp, payload.len());
            (
                after,
                match routed {
                    Ok(r) => Ok(FrameOutcome::Segment(quad, r)),
                    Err(e) => Err(e),
                },
            )
        },
    }
}

/// The connections of all flows.
pub struct ConnectionTable {
    connections: HashMap<u128, Connection>,
}

impl View for ConnectionTable {
    type V = Map<Quad, ConnectionModel>;

    /// The flows that have a connection, each with the picture of its
    /// connection.
    closed spec fn view(&self) -> Map<Quad, ConnectionModel> {
        Map::new(
            |quad: Quad| self.connections@.contains_key(quad.packed()),
            |quad: Quad| self.connections@[quad.packed()]@,
        )
    }
}

impl ConnectionTable {
    /// A table without connections.
    pub fn new() -> (table: ConnectionTable)
        ensures
            table@ == Map::<Quad, ConnectionModel>::empty(),
    {
        let table = ConnectionTable { connections: HashMap::new() };
        assert(table@ =~= Map::<Quad, ConnectionModel>::empty());
        table
    }

    /// The connection of a flow, if it has one.
    pub fn get(&self, quad: &Quad) -> (found: Option<&Connection>)
        ensures
            found matches Some(c) ==> self@.contains_key(*quad) && self@[*quad] == c@,
            found is None ==> !self@.contains_key(*quad),
    {
        let key = quad.key();
        self.connections.get(&key)
    }

    /// The packet to transmit after a frame has ended with `outcome`, if
    /// there is one.
    pub fn reply(&self, outcome: &FrameOutcome) -> (packet: Option<&[u8]>)
        ensures
            packet matches Some(bytes) ==> outcome.replying_flow() matches Some(quad)
                && self@.contains_key(quad) && bytes@ == self@[quad].out,
            packet is None ==> (outcome.replying_flow() matches Some(quad) ==> !self@.contains_key(
                quad,
            )),
    {
        let quad = match outcome {
            FrameOutcome::Segment(quad, Routed::Opened) => quad,
            FrameOutcome::Segment(quad, Routed::Handled(Outcome::Reset)) => quad,
            _ => {
                return None;
            },
        };
        match self.get(quad) {
            Some(c) => Some(c.out.as_slice()),
            None => None,
        }
    }

    /// Routes a decoded segment: to the connection of its flow where there
    /// is one, and else to `Connection::accept`, whose connection, if it
    /// opens one, is filed under the flow.
    pub fn demux(&mut self, ip: &Ipv4Fields, tcp: &TcpFields, payload: &[u8]) -> (result: Result<
        Routed,
        TcpError,
    >)
        ensures
            (final(self)@, result) == demuxed(
                old(self)@,
                Quad::of_headers(*ip, *tcp),
                *ip,
                *tcp,
                payload@.len(),
            ),
    {
        let quad = Quad::of(ip, tcp);
        let key = quad.key();
        let result = match self.connections.entry(key) {
            Entry::Occupied(mut occupied) => {
                match occupied.get_mut().on_packet(ip, tcp, payload) {
                    Ok(outcome) => Ok(Routed::Handled(outcome)),
                    Err(e) => Err(e),
                }
            },
            Entry::Vacant(vacant) => {
                match Connection::accept(ip, tcp) {
                    Ok(Some(c)) => {
                        vacant.insert(c);
                        Ok(Routed::Opened)
                    },
                    Ok(None) => Ok(Routed::Refused),
                    Err(e) => Err(e),
                }
            },
        };
        proof {
            let expected = demuxed(old(self)@, quad, *ip, *tcp, payload@.len()).0;
            assert forall|other: Quad| other.packed() == key implies other == quad by {
                Quad::lemma_packed_is_injective(other, quad);
            }
            assert(self@ =~= expected);
        }
        result
    }

    /// Takes a frame as it was read off the link: decodes its headers and
    /// routes the segment, if there is one.
    pub fn on_frame(&mut self, frame: &[u8]) -> (result: Result<FrameOutcome, TcpError>)
        ensures
            (final(self)@, result) == framed(old(self)@, frame@),
    {
        let ip = match decode_ipv4_header(frame) {
            Some(ip) => ip,
            None => {
                return Ok(FrameOutcome::CorruptedIp);
            },
        };
        if ip.protocol != IP_PROTOCOL_TCP {
            return Ok(FrameOutcome::NotTcp);
        }
        let rest = &frame[ip.header_len..frame.len()];
        let tcp = match decode_tcp_header(rest) {
            Some(tcp) => tcp,
            None => {
                return Ok(FrameOutcome::CorruptedTcp);
            },
        };
        let data = &rest[tcp.header_len..rest.len()];
        match self.demux(&ip, &tcp, data) {
            Ok(routed) => Ok(FrameOutcome::Segment(Quad::of(&ip, &tcp), routed)),
            Err(e) => Err(e),
        }
    }
}

} // verus!
