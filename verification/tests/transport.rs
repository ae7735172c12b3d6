use uarte_dso::{baud_rate, baud_rate_supported, chunk_max, decode_header, Logger, State};

fn fresh(buf_size: usize) -> Logger {
    Logger::new(29, baud_rate(115_200), buf_size)
}

/// Splits a wire tape back into (port, payload) packets.
fn parse_wire(wire: &[u8]) -> Vec<(u8, Vec<u8>)> {
    let mut packets: Vec<(u8, Vec<u8>)> = Vec::new();
    let mut at: usize = 0;
    while at < wire.len() {
        let (key, port, len) = decode_header(wire[at], wire[at + 1]);
        assert_eq!(key, 0b100_1011);
        packets.push((port, wire[at + 2..at + 2 + len].to_vec()));
        at += 2 + len;
    }
    packets
}

#[test]
fn single_write_fills_buffer_and_wire() {
    let mut log = fresh(64);
    log.write_bytes(5, &[0x41, 0x42, 0x43]);
    // One chunk: header 0b1001011 << 9 | 5 << 4 | 2, big-endian, then payload.
    assert_eq!(&log.buf[..5], &[0x96, 0x52, 0x41, 0x42, 0x43]);
    assert_eq!(log.uarte.txd_maxcnt, 5);
    assert_eq!(log.uarte.starttx_count, 1);
    assert_eq!(log.uarte.wire, vec![0x96, 0x52, 0x41, 0x42, 0x43]);
    assert!(log.uarte.events_txstarted);
    assert!(log.uarte.events_endtx);
    assert!(matches!(log.state, State::Init));
}

#[test]
fn write_partitions_into_chunks() {
    // 40 bytes, capacity min(64 - 2, 16) = 16: ceil(40 / 16) = 3 packets.
    let mut log = fresh(64);
    assert_eq!(chunk_max(64), 16);
    let bytes: Vec<u8> = (0u8..40).collect();
    log.write_bytes(3, &bytes);
    assert_eq!(log.uarte.starttx_count, 3);
    let packets = parse_wire(&log.uarte.wire);
    assert_eq!(packets.len(), 3);
    assert_eq!(packets[0].1.len(), 16);
    assert_eq!(packets[1].1.len(), 16);
    assert_eq!(packets[2].1.len(), 8);
    let mut reassembled = Vec::new();
    for (port, payload) in &packets {
        assert_eq!(*port, 3);
        reassembled.extend_from_slice(payload);
    }
    assert_eq!(reassembled, bytes);
}

#[test]
fn small_buffer_shrinks_chunks() {
    // Capacity min(6 - 2, 16) = 4: ceil(10 / 4) = 3 packets of 4, 4, 2.
    let mut log = fresh(6);
    assert_eq!(chunk_max(6), 4);
    let bytes: Vec<u8> = (0u8..10).collect();
    log.write_bytes(0, &bytes);
    assert_eq!(log.uarte.starttx_count, 3);
    let packets = parse_wire(&log.uarte.wire);
    assert_eq!(packets.len(), 3);
    assert_eq!(packets[0].1, vec![0, 1, 2, 3]);
    assert_eq!(packets[1].1, vec![4, 5, 6, 7]);
    assert_eq!(packets[2].1, vec![8, 9]);
}

#[test]
fn chunk_boundary_sizes() {
    // Exactly one full chunk, then one byte over the boundary.
    let mut log = fresh(64);
    log.write_bytes(1, &[0x11; 16]);
    assert_eq!(log.uarte.starttx_count, 1);
    log.write_bytes(1, &[0x22; 17]);
    assert_eq!(log.uarte.starttx_count, 3);
    let packets = parse_wire(&log.uarte.wire);
    assert_eq!(packets[0].1.len(), 16);
    assert_eq!(packets[1].1.len(), 16);
    assert_eq!(packets[2].1, vec![0x22]);
}

#[test]
fn smallest_buffer_sends_byte_at_a_time() {
    // A three-byte buffer leaves room for exactly one payload byte.
    let mut log = fresh(3);
    assert_eq!(chunk_max(3), 1);
    log.write_bytes(9, &[0x61, 0x62]);
    assert_eq!(log.uarte.starttx_count, 2);
    let packets = parse_wire(&log.uarte.wire);
    assert_eq!(packets.len(), 2);
    assert_eq!(packets[0], (9, vec![0x61]));
    assert_eq!(packets[1], (9, vec![0x62]));
}

#[test]
fn empty_write_changes_nothing() {
    let mut log = fresh(64);
    let untouched = fresh(64);
    log.write_bytes(7, &[]);
    assert_eq!(log.uarte, untouched.uarte);
    assert_eq!(log.buf, untouched.buf);
    assert!(matches!(log.state, State::Uninit));
}

#[test]
fn flush_before_any_write_returns_immediately() {
    let mut log = fresh(64);
    let untouched = fresh(64);
    log.flush();
    assert_eq!(log.uarte, untouched.uarte);
    assert!(matches!(log.state, State::Uninit));
}

#[test]
fn flush_after_write_keeps_state() {
    let mut log = fresh(64);
    log.write_bytes(1, &[9, 8, 7]);
    let wire_before = log.uarte.wire.clone();
    log.flush();
    assert_eq!(log.uarte.wire, wire_before);
    assert_eq!(log.uarte.starttx_count, 1);
}

#[test]
fn ensure_initialized_is_idempotent() {
    let mut once = fresh(64);
    let mut twice = fresh(64);
    once.ensure_initialized();
    twice.ensure_initialized();
    twice.ensure_initialized();
    assert_eq!(once.uarte, twice.uarte);
    assert_eq!(once.state, twice.state);
}

#[test]
fn init_writes_expected_registers() {
    let mut log = fresh(64);
    assert!(!log.is_initialized());
    log.ensure_initialized();
    assert!(log.is_initialized());
    assert_eq!(log.uarte.enable, 8);
    assert_eq!(log.uarte.psel_txd_pin, 29);
    assert!(log.uarte.psel_txd_connected);
    assert!(!log.uarte.psel_rxd_connected);
    assert!(!log.uarte.psel_rts_connected);
    assert!(!log.uarte.psel_cts_connected);
    assert!(log.uarte.txd_ptr_buf);
    assert_eq!(log.uarte.baudrate, 0x01D6_0000);
}

#[test]
fn first_write_initializes() {
    let mut log = fresh(64);
    log.write_bytes(0, &[1]);
    assert!(log.is_initialized());
    assert_eq!(log.uarte.enable, 8);
}

#[test]
fn serialized_writes_leave_one_whole_packet() {
    // Two callers, serialized by exclusive access: afterwards the buffer
    // holds one complete packet — the second write's — never a mix.
    let mut log = fresh(64);
    log.write_bytes(1, &[0xAA; 20]);
    log.write_bytes(2, &[0x78, 0x79, 0x7A]);
    let h = uarte_dso::encode_header(2, 3);
    assert_eq!(&log.buf[..5], &[(h >> 8) as u8, h as u8, 0x78, 0x79, 0x7A]);
    // The wire carries the first call's packets, then the second's.
    let packets = parse_wire(&log.uarte.wire);
    assert_eq!(packets.len(), 3);
    assert_eq!(packets[0], (1, vec![0xAA; 16]));
    assert_eq!(packets[1], (1, vec![0xAA; 4]));
    assert_eq!(packets[2], (2, vec![0x78, 0x79, 0x7A]));
}

#[test]
fn is_enabled_reflects_the_mask_exactly() {
    let mut log = fresh(64);
    assert!(!log.is_enabled(5));
    log.set_ports((1 << 5) | 1);
    assert!(log.is_enabled(0));
    assert!(!log.is_enabled(1));
    assert!(!log.is_enabled(4));
    assert!(log.is_enabled(5));
    assert!(!log.is_enabled(6));
    assert!(!log.is_enabled(31));
    // Reading has no side effects.
    assert_eq!(log.ports, (1 << 5) | 1);
}

#[test]
fn baud_rate_table() {
    let table = [
        (1_200u32, 0x0004_F000u32),
        (2_400, 0x0009_D000),
        (4_800, 0x0013_B000),
        (9_600, 0x0027_5000),
        (14_400, 0x003A_F000),
        (19_200, 0x004E_A000),
        (28_800, 0x0075_C000),
        (31_250, 0x0080_0000),
        (38_400, 0x009D_0000),
        (56_000, 0x00E5_0000),
        (57_600, 0x00EB_0000),
        (76_800, 0x013A_9000),
        (115_200, 0x01D6_0000),
        (230_400, 0x03B0_0000),
        (250_000, 0x0400_0000),
        (460_800, 0x0740_0000),
        (921_600, 0x0F00_0000),
        (1_000_000, 0x1000_0000),
    ];
    for (rate, value) in table {
        assert!(baud_rate_supported(rate));
        assert_eq!(baud_rate(rate), value);
    }
    assert!(!baud_rate_supported(0));
    assert!(!baud_rate_supported(9_601));
    assert!(!baud_rate_supported(u32::MAX));
}
