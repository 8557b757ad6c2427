//! The Internet checksum of a TCP segment under its IPv4 pseudo-header.
//!
//! A segment validates when the one's-complement sum of the pseudo-header
//! and of every 16-bit word of the segment, the checksum field included,
//! has all sixteen bits set.

use crate::header::IP_PROTOCOL_TCP;
use vstd::prelude::*;

verus! {

/// Sum of the big-endian 16-bit words of `bytes`. A last byte without a
/// partner is the high byte of a word whose low byte is zero.
pub open spec fn word_sum(bytes: Seq<u8>) -> nat
    decreases bytes.len(),
{
    if bytes.len() == 0 {
        0
    } else if bytes.len() % 2 == 1 {
        word_sum(bytes.drop_last()) + bytes.last() as nat * 256
    } else {
        word_sum(bytes.subrange(0, bytes.len() - 2)) + bytes[bytes.len() - 2] as nat * 256
            + bytes[bytes.len() - 1] as nat
    }
}

/// Sum of the 16-bit words of the pseudo-header: both addresses, the
/// protocol number and the length of the segment.
pub open spec fn pseudo_header_sum(source: u32, destination: u32, segment_len: nat) -> nat {
    (source / 0x1_0000) as nat + (source % 0x1_0000) as nat + (destination / 0x1_0000) as nat + (
    destination % 0x1_0000) as nat + IP_PROTOCOL_TCP as nat + segment_len
}

/// The 16-bit one's-complement value of a sum of words: every carry out of
/// the low sixteen bits is added back in. Zero stays zero; any other sum
/// lands in `1 ..= 0xFFFF`.
pub open spec fn fold_carries(sum: nat) -> nat {
    if sum == 0 {
        0
    } else {
        ((sum - 1) % 0xFFFF + 1) as nat
    }
}

/// Whether `segment`, a TCP header followed by its payload, carries a
/// checksum that is right for the two addresses.
pub open spec fn tcp_checksum_validates(source: u32, destination: u32, segment: Seq<u8>) -> bool {
    &&& segment.len() <= 0xFFFF
    &&& fold_carries(pseudo_header_sum(source, destination, segment.len()) + word_sum(segment))
        == 0xFFFF
}

/// Adding a whole word to the end of a sequence adds that word to its sum.
proof fn lemma_word_sum_step(bytes: Seq<u8>, upto: int)
    requires
        0 <= upto,
        upto + 2 <= bytes.len(),
        upto % 2 == 0,
    ensures
        word_sum(bytes.subrange(0, upto + 2)) == word_sum(bytes.subrange(0, upto)) + bytes[upto]
            * 256 + bytes[upto + 1],
{
    let longer = bytes.subrange(0, upto + 2);
    assert(longer.subrange(0, longer.len() - 2) =~= bytes.subrange(0, upto));
}

/// Sums the 16-bit words of `bytes`.
fn sum_words(bytes: &[u8]) -> (sum: u64)
    requires
        bytes.len() <= 0xFFFF,
    ensures
        sum == word_sum(bytes@),
        sum <= 0xFFFF * 0x1_0000,
{
    let n = bytes.len();
    let mut sum: u64 = 0;
    let mut i: usize = 0;
    while i + 1 < n
        invariant
            n == bytes.len(),
            n <= 0xFFFF,
            i <= n,
            i % 2 == 0,
            sum == word_sum(bytes@.subrange(0, i as int)),
            sum <= i * 0x1_0000,
        decreases n - i,
    {
        proof {
            lemma_word_sum_step(bytes@, i as int);
        }
        sum = sum + (bytes[i] as u64) * 256 + (bytes[i + 1] as u64);
        i = i + 2;
    }
    if i < n {
        proof {
            assert(bytes@.drop_last() =~= bytes@.subrange(0, i as int));
        }
        sum = sum + (bytes[i] as u64) * 256;
    } else {
        proof {
            assert(bytes@.subrange(0, i as int) =~= bytes@);
        }
    }
    sum
}

/// Adds the carries of `sum` back into its low sixteen bits until none is
/// left.
fn fold(sum: u64) -> (folded: u16)
    ensures
        folded == fold_carries(sum as nat),
{
    let mut rest: u64 = sum;
    while rest > 0xFFFF
        invariant
            fold_carries(rest as nat) == fold_carries(sum as nat),
        decreases rest,
    {
        rest = rest % 0x1_0000 + rest / 0x1_0000;
    }
    rest as u16
}

/// Checks the checksum of a TCP segment that travels from `source` to
/// `destination`. A segment too long for the 16-bit length of the
/// pseudo-header never validates.
pub fn checksum_validates(source: u32, destination: u32, segment: &[u8]) -> (valid: bool)
    ensures
        valid == tcp_checksum_validates(source, destination, segment@),
{
    if segment.len() > 0xFFFF {
        return false;
    }
    let header: u64 = (source / 0x1_0000) as u64 + (source % 0x1_0000) as u64 + (destination
        / 0x1_0000) as u64 + (destination % 0x1_0000) as u64 + IP_PROTOCOL_TCP as u64
        + segment.len() as u64;
    let total: u64 = header + sum_words(segment);
    fold(total) == 0xFFFF
}

} // verus!
