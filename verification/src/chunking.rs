//! Splitting a write request into bounded packets: a byte sequence is cut
//! into chunks of at most `min(buffer size - 2, 16)` bytes, and each chunk
//! travels as one independent packet.

use vstd::prelude::*;
use crate::codec::{spec_packet, MAX_PACKET_SIZE};

verus! {

/// Payload capacity of one packet when the transmit buffer holds `buf_size`
/// bytes: two bytes go to the header, and no packet carries more than
/// [`MAX_PACKET_SIZE`] payload bytes.
pub open spec fn spec_chunk_max(buf_size: int) -> int {
    if buf_size - 2 <= MAX_PACKET_SIZE { buf_size - 2 } else { MAX_PACKET_SIZE as int }
}

/// Computes the payload capacity of one packet for a `buf_size`-byte buffer.
pub fn chunk_max(buf_size: usize) -> (r: usize)
    requires
        buf_size >= 3,
    ensures
        r == spec_chunk_max(buf_size as int),
        1 <= r <= MAX_PACKET_SIZE,
{
    let cap = buf_size - 2;
    if cap <= MAX_PACKET_SIZE {
        cap
    } else {
        MAX_PACKET_SIZE
    }
}

/// The chunks a byte sequence is cut into, in order: every chunk but the
/// last holds exactly `cm` bytes, and the last holds the remainder.
pub open spec fn spec_chunks(bytes: Seq<u8>, cm: int) -> Seq<Seq<u8>>
    decreases bytes.len() when cm >= 1
{
    if bytes.len() == 0 {
        Seq::empty()
    } else if bytes.len() <= cm {
        seq![bytes]
    } else {
        seq![bytes.take(cm)] + spec_chunks(bytes.skip(cm), cm)
    }
}

/// The chunks of a sequence, concatenated back in order.
pub open spec fn spec_concat(chunks: Seq<Seq<u8>>) -> Seq<u8>
    decreases chunks.len()
{
    if chunks.len() == 0 {
        Seq::empty()
    } else {
        chunks.first() + spec_concat(chunks.drop_first())
    }
}

/// The bytes the wire sees for a run of chunks: one framed packet per chunk,
/// in emission order.
pub open spec fn spec_frame(port: u8, chunks: Seq<Seq<u8>>) -> Seq<u8>
    decreases chunks.len()
{
    if chunks.len() == 0 {
        Seq::empty()
    } else {
        spec_packet(port, chunks.first()) + spec_frame(port, chunks.drop_first())
    }
}

/// Law: cutting a byte sequence of length `L` into chunks of capacity `cm`
/// yields exactly `ceil(L / cm)` chunks, each of one to `cm` bytes, and
/// concatenating them in emission order reproduces the original sequence.
pub proof fn lemma_chunks_reassemble(bytes: Seq<u8>, cm: int)
    requires
        cm >= 1,
    ensures
        spec_concat(spec_chunks(bytes, cm)) == bytes,
        spec_chunks(bytes, cm).len() == (bytes.len() + cm - 1) / cm,
        forall|i: int|
            0 <= i < spec_chunks(bytes, cm).len() ==> 1 <= (
            #[trigger] spec_chunks(bytes, cm)[i]).len() <= cm,
    decreases bytes.len(),
{
    let chunks = spec_chunks(bytes, cm);
    if bytes.len() == 0 {
        assert(spec_concat(chunks) =~= bytes);
        vstd::arithmetic::div_mod::lemma_basic_div_specific_divisor(cm);
        assert((bytes.len() + cm - 1) / cm == 0);
    } else if bytes.len() <= cm {
        assert(chunks == seq![bytes]);
        assert(chunks.drop_first() =~~= Seq::<Seq<u8>>::empty());
        assert(spec_concat(Seq::<Seq<u8>>::empty()) == Seq::<u8>::empty());
        assert(chunks.first() == bytes);
        assert(spec_concat(chunks) =~= bytes);
        vstd::arithmetic::div_mod::lemma_div_plus_one(bytes.len() - 1, cm);
        vstd::arithmetic::div_mod::lemma_basic_div_specific_divisor(cm);
        assert((bytes.len() + cm - 1) / cm == 1);
    } else {
        let head = bytes.take(cm);
        let tail = bytes.skip(cm);
        lemma_chunks_reassemble(tail, cm);
        assert(chunks.first() == head);
        assert(chunks.drop_first() =~~= spec_chunks(tail, cm));
        assert(spec_concat(chunks) == head + spec_concat(spec_chunks(tail, cm)));
        assert(head + tail =~= bytes);
        vstd::arithmetic::div_mod::lemma_div_plus_one(bytes.len() - 1, cm);
        assert(chunks.len() == 1 + spec_chunks(tail, cm).len());
        assert forall|i: int| 0 <= i < chunks.len() implies 1 <= (#[trigger] chunks[i]).len()
            <= cm by {
            if i > 0 {
                assert(chunks[i] == spec_chunks(tail, cm)[i - 1]);
            }
        }
    }
}

/// Law: when the byte sequence is not empty, neither is its chunk list, and
/// the chunk list of the part past the first chunk is the rest of the list;
/// in particular both lists end in the same final chunk.
pub proof fn lemma_chunks_last(bytes: Seq<u8>, cm: int)
    requires
        cm >= 1,
        bytes.len() > 0,
    ensures
        spec_chunks(bytes, cm).len() > 0,
        bytes.len() > cm ==> spec_chunks(bytes, cm).last() == spec_chunks(
            bytes.skip(cm),
            cm,
        ).last(),
        bytes.len() <= cm ==> spec_chunks(bytes, cm).last() == bytes,
{
    if bytes.len() > cm {
        let tail = bytes.skip(cm);
        let chunks = spec_chunks(bytes, cm);
        assert(tail.len() > 0);
        assert(spec_chunks(tail, cm).len() > 0);
        assert(chunks.last() == spec_chunks(tail, cm).last());
    }
}

} // verus!
