use sbootil::unpacker::BitUnpacker;

/// Packs `bytes` as the device does: their bits, most significant first, in
/// groups of seven, the last group padded with zero bits.
fn pack(bytes: &[u8]) -> Vec<u8> {
    let mut bits: Vec<bool> = Vec::new();
    for b in bytes {
        for k in (0..8).rev() {
            bits.push((b >> k) & 1 == 1);
        }
    }
    while bits.len() % 7 != 0 {
        bits.push(false);
    }
    bits.chunks(7)
        .map(|g| g.iter().fold(0u8, |acc, &bit| (acc << 1) | bit as u8))
        .collect()
}

fn unpack(raws: &[u8]) -> Vec<u8> {
    let mut u = BitUnpacker::new();
    let mut out = Vec::new();
    for &r in raws {
        if let Some(b) = u.feed(r) {
            out.push(b);
        }
    }
    out
}

#[test]
fn round_trip_of_packed_bytes() {
    let cases: Vec<Vec<u8>> = vec![
        vec![],
        vec![0x00],
        vec![0xff],
        vec![0x12, 0x34, 0x56, 0x78, 0x9a, 0xbc, 0xde],
        (0..=255u8).collect(),
        vec![0xa5; 37],
    ];
    for c in cases {
        assert_eq!(unpack(&pack(&c)), c);
    }
}

#[test]
fn first_byte_needs_two_wire_bytes() {
    let mut u = BitUnpacker::new();
    assert_eq!(u.pending_bits(), 0);
    assert_eq!(u.feed(0x7f), None);
    assert_eq!(u.pending_bits(), 7);
    assert_eq!(u.feed(0x7f), Some(0xff));
    assert_eq!(u.pending_bits(), 6);
}

#[test]
fn high_bit_of_wire_byte_is_dropped() {
    let mut u = BitUnpacker::new();
    assert_eq!(u.feed(0x80 | 0x55), None);
    // 1010101 then 1000000: the first eight bits are 10101011.
    assert_eq!(u.feed(0xc0), Some(0xab));
}

#[test]
fn eight_bytes_of_wire_carry_seven_bytes() {
    let payload = [1u8, 2, 3, 4, 5, 6, 7];
    let raws = pack(&payload);
    assert_eq!(raws.len(), 8);
    let mut u = BitUnpacker::new();
    let mut produced = 0;
    for &r in &raws {
        if u.feed(r).is_some() {
            produced += 1;
        }
        assert!(u.pending_bits() <= 7);
    }
    assert_eq!(produced, 7);
    assert_eq!(u.pending_bits(), 0);
}

#[test]
fn a_lost_wire_byte_shifts_what_follows() {
    let payload = [0x11u8, 0x22, 0x33, 0x44];
    let mut raws = pack(&payload);
    raws.remove(1);
    let heard = unpack(&raws);
    assert!(!heard.is_empty());
    assert_ne!(heard, payload[..heard.len()].to_vec());
}
