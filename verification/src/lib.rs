//! A user-space TCP engine for a point-to-point IPv4 link.
//!
//! The engine takes the frames that were read off a virtual network
//! interface, one at a time, and says what to write back. It covers the
//! passive open of a connection, from the first SYN to `Established`, and
//! the two admission tests that every later segment has to pass.
//!
//! - [`seqnum`]: arithmetic on the circle of 32-bit sequence numbers.
//! - [`checksum`]: the Internet checksum of a segment under its
//!   pseudo-header.
//! - [`header`]: plain-value pictures of IPv4 and TCP headers.
//! - [`codec`]: the calls into `etherparse`, which decodes and encodes the
//!   headers.
//! - [`scratch`]: the fixed region in which a packet is assembled.
//! - [`tcp`]: the state machine of one connection.
//! - [`table`]: the table of connections, keyed by flow.
//!
//! The engine does no input or output. A caller reads a frame, hands it to
//! [`table::ConnectionTable::on_frame`], and transmits what
//! [`table::ConnectionTable::reply`] returns for the outcome.

pub mod checksum;
pub mod codec;
pub mod header;
pub mod scratch;
pub mod seqnum;
pub mod table;
pub mod tcp;
