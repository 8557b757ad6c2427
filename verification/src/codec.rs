//! The boundary to the `etherparse` crate, which decodes inbound headers,
//! encodes outbound ones and computes the TCP checksum.
//!
//! Nothing here is proved. Each function hands plain values to `etherparse`
//! and plain values back, and what `etherparse` makes of them is given a
//! name: the contracts of the engine speak of these names, and say nothing
//! of what a name is on given values.

use crate::header::{
    Ipv4Fields, Ipv4Template, TcpFields, TcpTemplate, IPV4_HEADER_LEN, TCP_HEADER_LEN,
};
use etherparse::{Ipv4Header, Ipv4HeaderSlice, TcpHeader, TcpHeaderSlice};
use vstd::prelude::*;

verus! {

/// What `etherparse::Ipv4HeaderSlice::from_slice` makes of `bytes`: the
/// fields of the IPv4 header at their start, or `None` where it reports an
/// error.
pub uninterp spec fn ipv4_header_of(bytes: Seq<u8>) -> Option<Ipv4Fields>;

/// What `etherparse::TcpHeaderSlice::from_slice` makes of `bytes`: the
/// fields of the TCP header at their start, or `None` where it reports an
/// error.
pub uninterp spec fn tcp_header_of(bytes: Seq<u8>) -> Option<TcpFields>;

/// What `etherparse::TcpHeader::calc_checksum_ipv4` returns for the header
/// `tcp`, the addresses of `ip` and `payload`, or `None` where it reports an
/// error.
pub uninterp spec fn tcp_checksum_of(ip: Ipv4Template, tcp: TcpTemplate, payload: Seq<u8>) -> Option<
    u16,
>;

/// The bytes that `etherparse::Ipv4Header::write` writes for `ip`, or `None`
/// where it reports an error.
pub uninterp spec fn ipv4_header_image(ip: Ipv4Template) -> Option<Seq<u8>>;

/// The bytes that `etherparse::TcpHeader::write` writes for `tcp`, or `None`
/// where it reports an error.
pub uninterp spec fn tcp_header_image(tcp: TcpTemplate) -> Option<Seq<u8>>;

/// Calls `etherparse::Ipv4HeaderSlice::from_slice` and reads addresses,
/// protocol and length off the slice it returns. Trusted: the result is the
/// named one, and a header that was found is at least 20 bytes long and no
/// longer than `bytes`, as `from_slice` checks before it returns a slice.
#[verifier::external_body]
pub(crate) fn decode_ipv4_header(bytes: &[u8]) -> (decoded: Option<Ipv4Fields>)
    ensures
        decoded == ipv4_header_of(bytes@),
        decoded matches Some(ip) ==> IPV4_HEADER_LEN <= ip.header_len <= bytes@.len(),
{
    let h = Ipv4HeaderSlice::from_slice(bytes).ok()?;
    let source = u32::from_be_bytes(h.source());
    let destination = u32::from_be_bytes(h.destination());
    Some(Ipv4Fields { source, destination, protocol: h.protocol(), header_len: h.slice().len() })
}

/// Calls `etherparse::TcpHeaderSlice::from_slice` and reads ports, numbers,
/// window, the SYN and ACK bits and the length off the slice it returns.
/// Trusted: the result is the named one, and a header that was found is at
/// least 20 bytes long and no longer than `bytes`, as `from_slice` checks
/// before it returns a slice.
#[verifier::external_body]
pub(crate) fn decode_tcp_header(bytes: &[u8]) -> (decoded: Option<TcpFields>)
    ensures
        decoded == tcp_header_of(bytes@),
        decoded matches Some(tcp) ==> TCP_HEADER_LEN <= tcp.header_len <= bytes@.len(),
{
    let h = TcpHeaderSlice::from_slice(bytes).ok()?;
    Some(TcpFields {
        source_port: h.source_port(),
        destination_port: h.destination_port(),
        sequence_number: h.sequence_number(),
        acknowledgment_number: h.acknowledgment_number(),
        window_size: h.window_size(),
        syn: h.syn(),
        ack: h.ack(),
        header_len: h.slice().len(),
    })
}

/// Builds both headers with `etherparse::Ipv4Header::new` and
/// `etherparse::TcpHeader::new`, gives the TCP header the acknowledgment
/// number, the four control bits and the checksum of its template, and
/// calls `etherparse::TcpHeader::calc_checksum_ipv4`. Trusted: the result
/// is the named one.
#[verifier::external_body]
pub(crate) fn compute_tcp_checksum(ip: &Ipv4Template, tcp: &TcpTemplate, payload: &[u8]) -> (sum:
    Option<u16>)
    ensures
        sum == tcp_checksum_of(*ip, *tcp, payload@),
{
    let (from, to) = (ip.source.to_be_bytes(), ip.destination.to_be_bytes());
    let ip = Ipv4Header::new(ip.payload_len, ip.time_to_live, ip.protocol, from, to);
    let (from, to) = (tcp.source_port, tcp.destination_port);
    let mut h = TcpHeader::new(from, to, tcp.sequence_number, tcp.window_size);
    h.acknowledgment_number = tcp.acknowledgment_number;
    (h.syn, h.ack, h.rst, h.fin) = (tcp.syn, tcp.ack, tcp.rst, tcp.fin);
    h.checksum = tcp.checksum;
    h.calc_checksum_ipv4(&ip, payload).ok()
}

/// Builds the header with `etherparse::Ipv4Header::new` and calls
/// `etherparse::Ipv4Header::write` with twenty bytes to write to. Trusted:
/// the result is the named one.
#[verifier::external_body]
pub(crate) fn encode_ipv4_header(ip: &Ipv4Template) -> (image: Option<[u8; 20]>)
    ensures
        image matches Some(bytes) ==> ipv4_header_image(*ip) == Some(bytes@),
        image is None ==> ipv4_header_image(*ip) is None,
{
    let (from, to) = (ip.source.to_be_bytes(), ip.destination.to_be_bytes());
    let h = Ipv4Header::new(ip.payload_len, ip.time_to_live, ip.protocol, from, to);
    let mut out = [0u8;20];
    match h.write(&mut &mut out[..]) {
        Ok(()) => Some(out),
        Err(_) => None,
    }
}

/// Builds the header with `etherparse::TcpHeader::new`, gives it the
/// acknowledgment number, the four control bits and the checksum of the
/// template, and calls `etherparse::TcpHeader::write` with twenty bytes to
/// write to. Trusted: the result is the named one.
#[verifier::external_body]
pub(crate) fn encode_tcp_header(tcp: &TcpTemplate) -> (image: Option<[u8; 20]>)
    ensures
        image matches Some(bytes) ==> tcp_header_image(*tcp) == Some(bytes@),
        image is None ==> tcp_header_image(*tcp) is None,
{
    let (from, to) = (tcp.source_port, tcp.destination_port);
    let mut h = TcpHeader::new(from, to, tcp.sequence_number, tcp.window_size);
    h.acknowledgment_number = tcp.acknowledgment_number;
    (h.syn, h.ack, h.rst, h.fin) = (tcp.syn, tcp.ack, tcp.rst, tcp.fin);
    h.checksum = tcp.checksum;
    let mut out = [0u8;20];
    match h.write(&mut &mut out[..]) {
        Ok(()) => Some(out),
        Err(_) => None,
    }
}

} // verus!
