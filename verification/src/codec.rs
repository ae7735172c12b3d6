//! The two-byte packet header: a fixed key in the top seven bits, a port
//! selector in the next four, and the payload length minus one in the low
//! bits, stored big-endian on the wire.

use vstd::prelude::*;

verus! {

/// Fixed key carried in the top seven bits of every packet header.
pub const HEADER_KEY: u16 = 0b100_1011;

/// Largest payload one framed packet may carry.
pub const MAX_PACKET_SIZE: usize = 16;

/// The sixteen-bit header value for a packet on `port` carrying `len`
/// payload bytes. Ports above fifteen bleed into neighbouring bits and are
/// thereby truncated; that is the caller's contract, not validated here.
pub open spec fn spec_header(port: u8, len: int) -> u16 {
    (HEADER_KEY << 9) | ((port as u16) << 4) | ((len - 1) as u16)
}

/// The header as it appears on the wire: high byte first.
pub open spec fn spec_header_bytes(port: u8, len: int) -> Seq<u8> {
    seq![(spec_header(port, len) >> 8) as u8, spec_header(port, len) as u8]
}

/// The port a received header selects.
pub open spec fn spec_header_port(h: u16) -> u8 {
    ((h >> 4) & 0xF) as u8
}

/// The payload length a received header announces.
pub open spec fn spec_header_len(h: u16) -> int {
    (h & 0xF) + 1
}

/// The key bits of a received header.
pub open spec fn spec_header_key(h: u16) -> u16 {
    h >> 9
}

/// The sixteen-bit value split across two big-endian bytes.
pub open spec fn spec_word(hi: u8, lo: u8) -> u16 {
    ((hi as u16) << 8) | (lo as u16)
}

/// One whole packet as it is rendered into the transmit buffer and sent on
/// the wire: the big-endian header, then the payload.
pub open spec fn spec_packet(port: u8, chunk: Seq<u8>) -> Seq<u8> {
    spec_header_bytes(port, chunk.len() as int) + chunk
}

/// Builds the header for a packet on `port` carrying `len` payload bytes.
pub fn encode_header(port: u8, len: usize) -> (h: u16)
    requires
        1 <= len <= MAX_PACKET_SIZE,
    ensures
        h == spec_header(port, len as int),
{
    (HEADER_KEY << 9) | ((port as u16) << 4) | ((len - 1) as u16)
}

/// Reads a received header back: its key, the port it selects, and the
/// payload length it announces.
pub fn decode_header(hi: u8, lo: u8) -> (r: (u16, u8, usize))
    ensures
        r.0 == spec_header_key(spec_word(hi, lo)),
        r.1 == spec_header_port(spec_word(hi, lo)),
        r.2 == spec_header_len(spec_word(hi, lo)),
{
    let h: u16 = ((hi as u16) << 8) | (lo as u16);
    (h >> 9, ((h >> 4) & 0xF) as u8, (h & 0xF) as usize + 1)
}

/// Law: decoding a header built for a four-bit port and a payload of one to
/// sixteen bytes recovers exactly that port and that length, and the key
/// bits survive untouched.
pub proof fn lemma_header_round_trip(port: u8, len: int)
    requires
        port < 16,
        1 <= len <= 16,
    ensures
        spec_header_port(spec_header(port, len)) == port,
        spec_header_len(spec_header(port, len)) == len,
        spec_header_key(spec_header(port, len)) == HEADER_KEY,
{
    let lm1: u16 = (len - 1) as u16;
    assert(lm1 == len - 1);
    assert((((HEADER_KEY << 9) | ((port as u16) << 4) | lm1) >> 4) & 0xF == port) by (bit_vector)
        requires
            port < 16,
            lm1 < 16,
    ;
    assert((((HEADER_KEY << 9) | ((port as u16) << 4) | lm1) & 0xF) == lm1) by (bit_vector)
        requires
            port < 16,
            lm1 < 16,
    ;
    assert((((HEADER_KEY << 9) | ((port as u16) << 4) | lm1) >> 9) == HEADER_KEY) by (bit_vector)
        requires
            port < 16,
            lm1 < 16,
    ;
}

/// Law: splitting a header into its big-endian bytes and reading the pair
/// back gives the original header value.
pub proof fn lemma_header_bytes_word(h: u16)
    ensures
        spec_word((h >> 8) as u8, h as u8) == h,
{
    assert((((((h >> 8) as u8) as u16) << 8) | ((h as u8) as u16)) == h) by (bit_vector);
}

} // verus!
