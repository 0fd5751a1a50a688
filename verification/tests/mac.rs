use tunnel_switch::mac::{key_of, macaddr_fmt, source_mac, FRAME_MAX};

#[test]
fn macaddr_fmt_writes_six_hex_bytes_with_colons() {
    assert_eq!(macaddr_fmt(&[0xaa, 0xbb, 0xcc, 0xdd, 0xee, 0x01]), "aa:bb:cc:dd:ee:01");
}

#[test]
fn macaddr_fmt_pads_each_byte_to_two_digits() {
    assert_eq!(macaddr_fmt(&[0, 1, 2, 0x0a, 0x0f, 0x10]), "00:01:02:0a:0f:10");
}

#[test]
fn macaddr_fmt_uses_lower_case() {
    assert_eq!(macaddr_fmt(&[0xff, 0xfe, 0xab, 0xcd, 0xef, 0x9a]), "ff:fe:ab:cd:ef:9a");
}

#[test]
fn macaddr_fmt_agrees_with_std_formatting_on_every_byte() {
    for b in 0..=255u8 {
        let text = macaddr_fmt(&[b, 0, b, 0, b, 0]);
        assert_eq!(text, format!("{:02x}:00:{:02x}:00:{:02x}:00", b, b, b));
    }
}

#[test]
fn source_mac_is_bytes_six_to_twelve() {
    let frame: [u8; 14] = [1, 2, 3, 4, 5, 6, 0xaa, 0xbb, 0xcc, 0xdd, 0xee, 0x01, 0x08, 0x00];
    assert_eq!(source_mac(&frame), Some([0xaa, 0xbb, 0xcc, 0xdd, 0xee, 0x01]));
}

#[test]
fn source_mac_of_a_frame_of_twelve_bytes() {
    let frame: [u8; 12] = [0, 0, 0, 0, 0, 0, 9, 8, 7, 6, 5, 4];
    assert_eq!(source_mac(&frame), Some([9, 8, 7, 6, 5, 4]));
}

#[test]
fn source_mac_of_a_short_frame_is_none() {
    assert_eq!(source_mac(&[0u8; 11]), None);
    assert_eq!(source_mac(&[]), None);
}

#[test]
fn source_mac_of_a_full_buffer() {
    let mut buf = [0u8; FRAME_MAX];
    buf[6] = 0xde;
    buf[11] = 0xad;
    assert_eq!(source_mac(&buf), Some([0xde, 0, 0, 0, 0, 0xad]));
}

#[test]
fn key_of_reads_the_address_as_a_big_endian_number() {
    assert_eq!(key_of(&[0, 0, 0, 0, 0, 1]), 1);
    assert_eq!(key_of(&[0, 0, 0, 0, 1, 0]), 256);
    assert_eq!(key_of(&[1, 0, 0, 0, 0, 0]), 1u64 << 40);
    assert_eq!(key_of(&[0xaa, 0xbb, 0xcc, 0xdd, 0xee, 0x01]), 0xaabb_ccdd_ee01);
    assert_eq!(key_of(&[0xff; 6]), 0xffff_ffff_ffff);
}

#[test]
fn key_of_tells_addresses_apart() {
    let a = [0xaa, 0xbb, 0xcc, 0xdd, 0xee, 0x01];
    let b = [0xaa, 0xbb, 0xcc, 0xdd, 0xee, 0x02];
    let c = [0x01, 0xbb, 0xcc, 0xdd, 0xee, 0xaa];
    assert_ne!(key_of(&a), key_of(&b));
    assert_ne!(key_of(&a), key_of(&c));
}
