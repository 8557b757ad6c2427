//! Plain-value pictures of IPv4 and TCP headers: what the engine reads of an
//! inbound header, and the templates from which it builds outbound ones.

use vstd::prelude::*;

verus! {

/// Length in bytes of an IPv4 header without options.
pub const IPV4_HEADER_LEN: usize = 20;

/// Length in bytes of a TCP header without options.
pub const TCP_HEADER_LEN: usize = 20;

/// Largest payload an IPv4 header without options can announce.
pub const IPV4_MAX_PAYLOAD_LEN: usize = 65515;

/// The IPv4 protocol number of TCP.
pub const IP_PROTOCOL_TCP: u8 = 6;

/// Hop limit given to every outbound packet.
pub const DEFAULT_TIME_TO_LIVE: u8 = 64;

/// The fields of a decoded inbound IPv4 header that the engine reads.
/// Addresses are held as the 32-bit number that their four bytes spell in
/// network order.
#[derive(Clone, Copy, Debug, PartialEq, Eq, Structural)]
pub struct Ipv4Fields {
    pub source: u32,
    pub destination: u32,
    pub protocol: u8,
    /// Length of the header, options included, in bytes.
    pub header_len: usize,
}

/// The fields of a decoded inbound TCP header that the engine reads.
#[derive(Clone, Copy, Debug, PartialEq, Eq, Structural)]
pub struct TcpFields {
    pub source_port: u16,
    pub destination_port: u16,
    pub sequence_number: u32,
    pub acknowledgment_number: u32,
    pub window_size: u16,
    pub syn: bool,
    pub ack: bool,
    /// Length of the header, options included, in bytes.
    pub header_len: usize,
}

/// Why a payload length was not taken.
#[derive(Clone, Copy, Debug, PartialEq, Eq, Structural)]
pub struct PayloadTooLarge;

/// Template of an outbound IPv4 header without options.
#[derive(Clone, Copy, Debug, PartialEq, Eq, Structural)]
pub struct Ipv4Template {
    pub payload_len: u16,
    pub time_to_live: u8,
    pub protocol: u8,
    pub source: u32,
    pub destination: u32,
}

impl Ipv4Template {
    /// A template for `payload_len` bytes of the given protocol.
    pub fn new(payload_len: u16, time_to_live: u8, protocol: u8, source: u32, destination: u32) -> (ip:
        Ipv4Template)
        ensures
            ip == (Ipv4Template { payload_len, time_to_live, protocol, source, destination }),
    {
        Ipv4Template { payload_len, time_to_live, protocol, source, destination }
    }

    /// Records the length of the payload, unless header and payload together
    /// would not fit the 16-bit total length of an IPv4 packet.
    pub fn set_payload_len(&mut self, value: usize) -> (taken: Result<(), PayloadTooLarge>)
        ensures
            value <= IPV4_MAX_PAYLOAD_LEN ==> taken is Ok,
            value <= IPV4_MAX_PAYLOAD_LEN ==> *final(self) == (Ipv4Template {
                payload_len: value as u16,
                ..*old(self)
            }),
            value > IPV4_MAX_PAYLOAD_LEN ==> taken is Err,
            value > IPV4_MAX_PAYLOAD_LEN ==> *final(self) == *old(self),
    {
        if value > IPV4_MAX_PAYLOAD_LEN {
            Err(PayloadTooLarge)
        } else {
            self.payload_len = value as u16;
            Ok(())
        }
    }
}

/// Template of an outbound TCP header without options. The control bits it
/// does not name, the urgent pointer included, are never set.
#[derive(Clone, Copy, Debug, PartialEq, Eq, Structural)]
pub struct TcpTemplate {
    pub source_port: u16,
    pub destination_port: u16,
    pub sequence_number: u32,
    pub acknowledgment_number: u32,
    pub window_size: u16,
    pub syn: bool,
    pub ack: bool,
    pub rst: bool,
    pub fin: bool,
    pub checksum: u16,
}

impl TcpTemplate {
    /// A template with the given ports, sequence number and window, no
    /// control bit set, and acknowledgment number and checksum zero.
    pub fn new(source_port: u16, destination_port: u16, sequence_number: u32, window_size: u16) -> (tcp:
        TcpTemplate)
        ensures
            tcp == (TcpTemplate {
                source_port,
                destination_port,
                sequence_number,
                acknowledgment_number: 0,
                window_size,
                syn: false,
                ack: false,
                rst: false,
                fin: false,
                checksum: 0,
            }),
    {
        TcpTemplate {
            source_port,
            destination_port,
            sequence_number,
            acknowledgment_number: 0,
            window_size,
            syn: false,
            ack: false,
            rst: false,
            fin: false,
            checksum: 0,
        }
    }

    /// Length of the encoded header in bytes.
    pub fn header_len(&self) -> (len: u16)
        ensures
            len == TCP_HEADER_LEN,
    {
        TCP_HEADER_LEN as u16
    }

    /// Sequence numbers that a segment with this header and `payload_len`
    /// bytes of payload takes up: one for each byte, one for SYN, one for
    /// FIN.
    pub open spec fn sequence_len(self, payload_len: nat) -> nat {
        payload_len + (if self.syn {
            1nat
        } else {
            0nat
        }) + (if self.fin {
            1nat
        } else {
            0nat
        })
    }
}

} // verus!
