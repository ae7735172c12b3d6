use uarte_dso::{decode_header, encode_header};

#[test]
fn header_example_value() {
    // key 0b100_1011 in the top seven bits, port 5, three payload bytes.
    let h = encode_header(5, 3);
    assert_eq!(h, (0b100_1011u16 << 9) | (5 << 4) | 2);
    assert_eq!(h, 0x9652);
}

#[test]
fn header_big_endian_bytes() {
    let h = encode_header(5, 3);
    assert_eq!([(h >> 8) as u8, h as u8], [0x96, 0x52]);
}

#[test]
fn header_round_trip_all_ports_and_lengths() {
    for port in 0u8..16 {
        for len in 1usize..=16 {
            let h = encode_header(port, len);
            let (key, p, l) = decode_header((h >> 8) as u8, h as u8);
            assert_eq!(key, 0b100_1011);
            assert_eq!(p, port);
            assert_eq!(l, len);
        }
    }
}

#[test]
fn port_above_four_bits_truncates() {
    // 21 = 0b10101: only the low four bits survive the packing.
    let h = encode_header(21, 3);
    let (key, p, l) = decode_header((h >> 8) as u8, h as u8);
    assert_eq!(key, 0b100_1011);
    assert_eq!(p, 5);
    assert_eq!(l, 3);
}
