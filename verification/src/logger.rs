//! The log transport: a fixed transmit buffer, a one-way initialization
//! flag, and the modelled UARTE peripheral, with `write_bytes`, `flush` and
//! `is_enabled` as the entry points.

use vstd::prelude::*;
use crate::chunking::{
    chunk_max, lemma_chunks_last, lemma_chunks_reassemble, spec_chunk_max, spec_chunks, spec_frame,
};
use crate::codec::{encode_header, spec_header, spec_packet, MAX_PACKET_SIZE};
use crate::uarte::{spec_uarte_reset, Uarte, UarteState, ENABLE_UARTE};

verus! {

/// Whether the peripheral's static configuration has been written. Created
/// `Uninit`; moves once, irreversibly, to `Init` on the first write.
#[derive(Clone, Copy, Debug, PartialEq, Eq)]
pub enum State {
    /// The configuration sequence has not run yet.
    Uninit,
    /// The configuration sequence has completed.
    Init,
}

/// The whole transport as contracts speak of it: configuration, the
/// initialization flag, the register model, the transmit buffer's bytes, and
/// the externally written port-enable mask.
#[verifier::ext_equal]
pub ghost struct LogState {
    pub pin_number: u32,
    pub baud_value: u32,
    pub init: bool,
    pub uarte: UarteState,
    pub buf: Seq<u8>,
    pub ports: u32,
}

impl LogState {
    /// Validity of a transport state: the buffer can hold a header and at
    /// least one payload byte; the flag and the enable register agree; the
    /// started and ended events move together (the modelled transmitter
    /// finishes what it starts); and the wire carries at least a whole
    /// packet — three bytes — per firing of the start task.
    pub open spec fn wf(self) -> bool {
        &&& self.buf.len() >= 3
        &&& self.init <==> self.uarte.enable == ENABLE_UARTE
        &&& self.uarte.events_txstarted == self.uarte.events_endtx
        &&& 0 <= self.uarte.starttx_count
        &&& 3 * self.uarte.starttx_count <= self.uarte.wire.len()
    }

    /// The packet payload capacity this state's buffer allows.
    pub open spec fn chunk_capacity(self) -> int {
        spec_chunk_max(self.buf.len() as int)
    }
}

/// What `ensure_initialized` leaves behind: an already-configured transport
/// is untouched; otherwise the TX pin is routed out, the RX, RTS and CTS
/// lines are left unrouted, the transmit pointer, baud rate and enable
/// registers are written, and the flag moves to `Init`.
pub open spec fn spec_init(s: LogState) -> LogState {
    if s.init {
        s
    } else {
        LogState {
            init: true,
            uarte: UarteState {
                psel_txd_pin: s.pin_number,
                psel_txd_connected: true,
                psel_rxd_connected: false,
                psel_rts_connected: false,
                psel_cts_connected: false,
                txd_ptr_buf: true,
                baudrate: s.baud_value,
                enable: ENABLE_UARTE,
                ..s.uarte
            },
            ..s
        }
    }
}

/// What one packet transmission leaves behind: after initialization and the
/// wait for the previous transmission, the packet sits at the front of the
/// buffer, the maximum count names its length, the start task has fired once
/// more, and the packet's bytes are appended to the wire with both events
/// raised.
pub open spec fn spec_write_packet(s: LogState, port: u8, chunk: Seq<u8>) -> LogState {
    let s1 = spec_init(s);
    let packet = spec_packet(port, chunk);
    LogState {
        buf: packet + s1.buf.skip(packet.len() as int),
        uarte: UarteState {
            txd_maxcnt: (chunk.len() + 2) as u32,
            events_txstarted: true,
            events_endtx: true,
            starttx_count: s1.uarte.starttx_count + 1,
            wire: s1.uarte.wire + packet,
            ..s1.uarte
        },
        ..s1
    }
}

/// What one `write_bytes` call leaves behind: the bytes are cut into chunks
/// of at most the buffer's packet capacity, and each chunk is transmitted as
/// one packet, front to back. An empty write changes nothing.
pub open spec fn spec_write(s: LogState, port: u8, bytes: Seq<u8>) -> LogState
    decreases bytes.len(),
    when s.chunk_capacity() >= 1
{
    let cm = s.chunk_capacity();
    if bytes.len() == 0 {
        s
    } else if bytes.len() <= cm {
        spec_write_packet(s, port, bytes)
    } else {
        spec_write(spec_write_packet(s, port, bytes.take(cm)), port, bytes.skip(cm))
    }
}

/// The log transport. It owns the transmit buffer and the (modelled)
/// peripheral for the lifetime of the value; callers from several contexts
/// must serialize their calls — here `&mut` access enforces exactly the
/// mutual exclusion the critical section provides on hardware.
#[derive(Debug)]
pub struct Logger {
    /// Output pin number, fixed at configuration time.
    pub pin_number: u32,
    /// Baud-rate register value, fixed at configuration time.
    pub baud_value: u32,
    /// The one-way initialization flag.
    pub state: State,
    /// The modelled peripheral.
    pub uarte: Uarte,
    /// The fixed transmit buffer, reused for every packet.
    pub buf: Vec<u8>,
    /// One enable bit per port, written by the attached debug probe and only
    /// ever read here.
    pub ports: u32,
}

impl View for Logger {
    type V = LogState;

    open spec fn view(&self) -> LogState {
        LogState {
            pin_number: self.pin_number,
            baud_value: self.baud_value,
            init: self.state is Init,
            uarte: self.uarte@,
            buf: self.buf@,
            ports: self.ports,
        }
    }
}

impl Logger {
    /// A freshly configured transport: peripheral at reset, buffer of
    /// `buf_size` zeroed bytes, not initialized, no port enabled. `buf_size`
    /// must leave room for a header and at least one payload byte.
    pub fn new(pin_number: u32, baud_value: u32, buf_size: usize) -> (r: Logger)
        requires
            buf_size >= 3,
        ensures
            r@.wf(),
            !r@.init,
            r@.pin_number == pin_number,
            r@.baud_value == baud_value,
            r@.uarte == spec_uarte_reset(),
            r@.ports == 0,
            r@.buf =~= Seq::new(buf_size as nat, |i: int| 0u8),
    {
        let mut buf: Vec<u8> = Vec::new();
        let mut i: usize = 0;
        while i < buf_size
            invariant
                i <= buf_size,
                buf@ =~= Seq::new(i as nat, |j: int| 0u8),
            decreases buf_size - i,
        {
            buf.push(0);
            i = i + 1;
        }
        Logger { pin_number, baud_value, state: State::Uninit, uarte: Uarte::reset(), buf, ports: 0 }
    }

    /// True exactly when the externally written enable mask has bit `port`
    /// set: a listener is attached to that port. Read-only: no side effects.
    pub fn is_enabled(&self, port: u8) -> (r: bool)
        requires
            port < 32,
        ensures
            r == ((self@.ports >> port) & 1 == 1),
    {
        let r = self.ports & (1u32 << port) != 0;
        proof {
            let p = self.ports;
            assert((p & (1u32 << port) != 0) == ((p >> port) & 1 == 1)) by (bit_vector)
                requires
                    port < 32,
            ;
        }
        r
    }

    /// Models the debug probe publishing which ports it listens to. The
    /// transport itself only ever reads this mask; on hardware the probe
    /// writes it from outside.
    pub fn set_ports(&mut self, ports: u32)
        ensures
            final(self)@ == (LogState { ports, ..old(self)@ }),
    {
        self.ports = ports;
    }

    /// True exactly when the configuration sequence has completed — by the
    /// flag and, equivalently on a well-formed transport, by reading the
    /// enable register back.
    pub fn is_initialized(&self) -> (r: bool)
        requires
            self@.wf(),
        ensures
            r == self@.init,
            r == (self@.uarte.enable == ENABLE_UARTE),
    {
        match self.state {
            State::Init => true,
            State::Uninit => false,
        }
    }

    /// Writes the peripheral's static configuration once: on an already
    /// initialized transport this returns immediately with no register
    /// write. Otherwise it routes the TX pin, leaves RX, RTS and CTS
    /// unrouted, points the transmitter at the buffer, sets the baud rate,
    /// enables the peripheral, and raises the flag.
    pub fn ensure_initialized(&mut self)
        requires
            old(self)@.wf(),
        ensures
            final(self)@.wf(),
            final(self)@ == spec_init(old(self)@),
    {
        if self.is_initialized() {
            return;
        }
        self.uarte.psel_txd_pin = self.pin_number;
        self.uarte.psel_txd_connected = true;
        self.uarte.psel_rxd_connected = false;
        self.uarte.psel_rts_connected = false;
        self.uarte.psel_cts_connected = false;
        self.uarte.txd_ptr_buf = true;
        self.uarte.baudrate = self.baud_value;
        self.uarte.enable = ENABLE_UARTE;
        self.state = State::Init;
        assert(self@ =~~= spec_init(old(self)@));
    }

    /// Blocks until an in-flight transmission completes. Before any write —
    /// transport not initialized, or transmitter never started — it returns
    /// immediately; otherwise it spins on the ended event, which the
    /// modelled transmitter has already raised. Never changes the state.
    pub fn flush(&mut self)
        requires
            old(self)@.wf(),
        ensures
            final(self)@.wf(),
            final(self)@ == old(self)@,
    {
        if !self.is_initialized() {
            return;
        }
        if !self.uarte.events_txstarted {
            return;
        }
        while !self.uarte.events_endtx
            invariant
                self.uarte.events_endtx,
            decreases 0int,
        {
        }
    }

    /// Renders one packet into the transmit buffer: the big-endian header at
    /// offset zero, then the payload `bytes[start..end]` from offset two.
    /// Returns the packet's total length, which the transmit count register
    /// takes. The buffer past the packet keeps its old bytes.
    fn fill_buf(&mut self, port: u8, bytes: &[u8], start: usize, end: usize) -> (count: u32)
        requires
            start < end <= bytes@.len(),
            end - start <= MAX_PACKET_SIZE,
            end - start + 2 <= old(self).buf@.len(),
        ensures
            count == end - start + 2,
            final(self)@ == (LogState {
                buf: spec_packet(port, bytes@.subrange(start as int, end as int)) + old(
                    self,
                )@.buf.skip(end - start + 2),
                ..old(self)@
            }),
    {
        let len = end - start;
        let h = encode_header(port, len);
        self.buf.set(0, (h >> 8) as u8);
        self.buf.set(1, h as u8);
        let mut i: usize = 0;
        while i < len
            invariant
                i <= len,
                len == end - start,
                start < end <= bytes@.len(),
                len <= MAX_PACKET_SIZE,
                len + 2 <= self.buf@.len(),
                self.buf@.len() == old(self).buf@.len(),
                h == spec_header(port, len as int),
                self.buf@[0] == (h >> 8) as u8,
                self.buf@[1] == h as u8,
                forall|j: int| 2 <= j < 2 + i ==> #[trigger] self.buf@[j] == bytes@[start + j - 2],
                forall|j: int|
                    2 + len <= j < self.buf@.len() ==> self.buf@[j] == old(self).buf@[j],
                self.pin_number == old(self).pin_number,
                self.baud_value == old(self).baud_value,
                self.state == old(self).state,
                self.uarte == old(self).uarte,
                self.ports == old(self).ports,
            decreases len - i,
        {
            let b = bytes[start + i];
            self.buf.set(2 + i, b);
            i = i + 1;
        }
        proof {
            let chunk = bytes@.subrange(start as int, end as int);
            assert(self.buf@ =~= spec_packet(port, chunk) + old(self).buf@.skip(len + 2));
            assert(self@ =~~= (LogState {
                buf: spec_packet(port, chunk) + old(self)@.buf.skip(end - start + 2),
                ..old(self)@
            }));
        }
        (len as u32) + 2
    }

    /// Transmits `bytes[start..end]` as one packet: ensures the peripheral
    /// is initialized, waits out any previous transmission, renders the
    /// packet into the buffer, programs the transmit count, clears both
    /// events, and fires the start task — whereupon the modelled DMA engine
    /// ships the packet's bytes onto the wire and raises both events.
    fn write_packet(&mut self, port: u8, bytes: &[u8], start: usize, end: usize)
        requires
            old(self)@.wf(),
            start < end <= bytes@.len(),
            end - start <= old(self)@.chunk_capacity(),
        ensures
            final(self)@.wf(),
            final(self)@ == spec_write_packet(
                old(self)@,
                port,
                bytes@.subrange(start as int, end as int),
            ),
    {
        self.ensure_initialized();
        self.flush();
        let ghost s1 = self@;
        let count = self.fill_buf(port, bytes, start, end);
        self.uarte.txd_maxcnt = count;
        self.uarte.events_txstarted = false;
        self.uarte.events_endtx = false;
        let ghost s2 = self@;
        // The start task fires here: the modelled DMA engine reads `count`
        // bytes from the front of the buffer and puts them on the wire.
        let total = count as usize;
        proof {
            assert(s2.uarte.wire + self.buf@.take(0) =~= s2.uarte.wire);
            assert(self@ =~~= (LogState {
                uarte: (UarteState { wire: s2.uarte.wire + self.buf@.take(0), ..s2.uarte }),
                ..s2
            }));
        }
        let mut i: usize = 0;
        while i < total
            invariant
                i <= total,
                total <= self.buf@.len(),
                self@ == (LogState {
                    uarte: (UarteState {
                        wire: s2.uarte.wire + self.buf@.take(i as int),
                        ..s2.uarte
                    }),
                    ..s2
                }),
            decreases total - i,
        {
            let b = self.buf[i];
            self.uarte.wire.push(b);
            proof {
                assert(self.uarte@.wire =~= s2.uarte.wire + self.buf@.take(i + 1));
                assert(self@ =~~= (LogState {
                    uarte: (UarteState {
                        wire: s2.uarte.wire + self.buf@.take(i + 1),
                        ..s2.uarte
                    }),
                    ..s2
                }));
            }
            i = i + 1;
        }
        let shipped = self.uarte.wire.len();
        proof {
            assert(self.uarte@.wire.len() == shipped);
            assert(shipped == s2.uarte.wire.len() + total);
            assert(3 * s2.uarte.starttx_count <= s2.uarte.wire.len());
            assert(3 * (self.uarte.starttx_count + 1) <= shipped <= usize::MAX);
        }
        self.uarte.events_txstarted = true;
        self.uarte.events_endtx = true;
        self.uarte.starttx_count = self.uarte.starttx_count + 1;
        proof {
            let chunk = bytes@.subrange(start as int, end as int);
            let packet = spec_packet(port, chunk);
            assert(packet.len() == count);
            assert((packet + s1.buf.skip(packet.len() as int)).take(count as int) =~= packet);
            assert(self@ =~~= spec_write_packet(old(self)@, port, chunk));
        }
    }

    /// Writes `bytes` to port number `port`: the bytes are split into chunks
    /// of at most the buffer's packet capacity, and each chunk goes out as
    /// one independent packet, each waiting for the one before it to finish.
    /// Fire-and-forget: nothing is returned, and an empty write is a no-op.
    /// The call blocks for the cumulative transmission time of all chunks.
    pub fn write_bytes(&mut self, port: u8, bytes: &[u8])
        requires
            old(self)@.wf(),
        ensures
            final(self)@.wf(),
            final(self)@ == spec_write(old(self)@, port, bytes@),
    {
        let cm = chunk_max(self.buf.len());
        proof {
            assert(bytes@.skip(0) =~= bytes@);
        }
        let mut i: usize = 0;
        while i < bytes.len()
            invariant
                i <= bytes@.len(),
                self@.wf(),
                self@.buf.len() == old(self)@.buf.len(),
                cm == old(self)@.chunk_capacity(),
                1 <= cm <= MAX_PACKET_SIZE,
                spec_write(self@, port, bytes@.skip(i as int)) == spec_write(
                    old(self)@,
                    port,
                    bytes@,
                ),
            decreases bytes@.len() - i,
        {
            let end = if bytes.len() - i > cm {
                i + cm
            } else {
                bytes.len()
            };
            let ghost prev = self@;
            let ghost rem = bytes@.skip(i as int);
            let ghost chunk = bytes@.subrange(i as int, end as int);
            self.write_packet(port, bytes, i, end);
            proof {
                if rem.len() <= cm {
                    assert(chunk =~= rem);
                    assert(bytes@.skip(end as int).len() == 0);
                    assert(spec_write(self@, port, bytes@.skip(end as int)) == self@);
                } else {
                    assert(chunk =~= rem.take(cm as int));
                    assert(bytes@.skip(end as int) =~= rem.skip(cm as int));
                }
            }
            i = end;
        }
        proof {
            assert(bytes@.skip(i as int).len() == 0);
        }
    }

    /// Law: `ensure_initialized` is idempotent — running the configuration
    /// sequence on an already configured transport leaves every register and
    /// the flag exactly as one run left them.
    pub proof fn lemma_ensure_initialized_idempotent(s: LogState)
        ensures
            spec_init(spec_init(s)) == spec_init(s),
    {
    }
}

/// What one packet transmission preserves: well-formedness, the buffer size
/// and the configuration — and what it produces: the packet on the wire and
/// at the front of the buffer.
proof fn lemma_write_packet_shape(s: LogState, port: u8, chunk: Seq<u8>)
    requires
        s.wf(),
        1 <= chunk.len() <= s.chunk_capacity(),
    ensures
        ({
            let t = spec_write_packet(s, port, chunk);
            &&& t.wf()
            &&& t.buf.len() == s.buf.len()
            &&& t.chunk_capacity() == s.chunk_capacity()
            &&& t.init
            &&& t.pin_number == s.pin_number
            &&& t.baud_value == s.baud_value
            &&& t.ports == s.ports
            &&& t.uarte.wire == s.uarte.wire + spec_packet(port, chunk)
            &&& t.buf.take(chunk.len() as int + 2) == spec_packet(port, chunk)
        }),
{
    let s1 = spec_init(s);
    let packet = spec_packet(port, chunk);
    assert(packet.len() == chunk.len() + 2);
    assert((packet + s1.buf.skip(packet.len() as int)).len() == s.buf.len());
    assert((packet + s1.buf.skip(packet.len() as int)).take(chunk.len() as int + 2) =~= packet);
}

/// Law: one `write_bytes` call appends to the wire exactly one framed packet
/// per chunk, in emission order; it leaves the configuration, the port mask
/// and the buffer size untouched; and a non-empty write leaves the transport
/// initialized with its final chunk's packet whole at the front of the
/// buffer. An empty write changes nothing at all.
pub proof fn lemma_write_props(s: LogState, port: u8, bytes: Seq<u8>)
    requires
        s.wf(),
    ensures
        ({
            let cm = s.chunk_capacity();
            let t = spec_write(s, port, bytes);
            &&& t.wf()
            &&& t.buf.len() == s.buf.len()
            &&& t.pin_number == s.pin_number
            &&& t.baud_value == s.baud_value
            &&& t.ports == s.ports
            &&& t.uarte.wire == s.uarte.wire + spec_frame(port, spec_chunks(bytes, cm))
            &&& bytes.len() == 0 ==> t == s
            &&& bytes.len() > 0 ==> t.init
            &&& bytes.len() > 0 ==> t.buf.take(spec_chunks(bytes, cm).last().len() as int + 2)
                == spec_packet(port, spec_chunks(bytes, cm).last())
        }),
    decreases bytes.len(),
{
    let cm = s.chunk_capacity();
    let t = spec_write(s, port, bytes);
    if bytes.len() == 0 {
        assert(spec_frame(port, spec_chunks(bytes, cm)) == Seq::<u8>::empty());
        assert(s.uarte.wire + Seq::<u8>::empty() =~= s.uarte.wire);
    } else if bytes.len() <= cm {
        lemma_write_packet_shape(s, port, bytes);
        let chunks = spec_chunks(bytes, cm);
        assert(chunks == seq![bytes]);
        assert(chunks.drop_first() =~~= Seq::<Seq<u8>>::empty());
        assert(spec_frame(port, Seq::<Seq<u8>>::empty()) == Seq::<u8>::empty());
        assert(chunks.first() == bytes);
        assert(chunks.last() == bytes);
        assert(spec_frame(port, chunks) =~= spec_packet(port, bytes));
    } else {
        let head = bytes.take(cm);
        let tail = bytes.skip(cm);
        lemma_write_packet_shape(s, port, head);
        let s1 = spec_write_packet(s, port, head);
        lemma_write_props(s1, port, tail);
        let chunks = spec_chunks(bytes, cm);
        assert(chunks.first() == head);
        assert(chunks.drop_first() =~~= spec_chunks(tail, cm));
        assert(spec_frame(port, chunks) == spec_packet(port, head) + spec_frame(
            port,
            spec_chunks(tail, cm),
        ));
        assert(t.uarte.wire =~= s.uarte.wire + spec_frame(port, chunks));
        lemma_chunks_last(bytes, cm);
    }
}

/// Law: two write calls serialized one after the other — the mutual
/// exclusion the transport demands of concurrent callers — never corrupt the
/// buffer or the wire. Afterwards the buffer holds one complete packet, the
/// final chunk of the second write, never a byte-interleaved mix of both
/// calls; and the wire carries all of the first call's packets, then all of
/// the second's.
pub proof fn lemma_serialized_writes_one_packet(
    s: LogState,
    p1: u8,
    b1: Seq<u8>,
    p2: u8,
    b2: Seq<u8>,
)
    requires
        s.wf(),
        b2.len() > 0,
    ensures
        ({
            let cm = s.chunk_capacity();
            let t = spec_write(spec_write(s, p1, b1), p2, b2);
            let last = spec_chunks(b2, cm).last();
            &&& 1 <= last.len() <= cm
            &&& t.buf.take(last.len() as int + 2) == spec_packet(p2, last)
            &&& t.uarte.wire == s.uarte.wire + spec_frame(p1, spec_chunks(b1, cm)) + spec_frame(
                p2,
                spec_chunks(b2, cm),
            )
        }),
{
    let cm = s.chunk_capacity();
    let s1 = spec_write(s, p1, b1);
    lemma_write_props(s, p1, b1);
    lemma_write_props(s1, p2, b2);
    lemma_chunks_last(b2, cm);
    lemma_chunks_reassemble(b2, cm);
    let chunks2 = spec_chunks(b2, cm);
    assert(1 <= chunks2[chunks2.len() - 1].len() <= cm);
}

} // verus!
