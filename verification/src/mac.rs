//! MAC addresses: where a layer-2 frame carries its source address, the
//! 48-bit number by which the peer table keys a peer, and the text form
//! `aa:bb:cc:dd:ee:ff`.

use vstd::prelude::*;
use vstd::string::*;

verus! {

/// The largest frame that the switch handles, in bytes.
pub const FRAME_MAX: usize = 4096;

/// Offset of the source MAC in an Ethernet frame: the destination MAC comes
/// first.
pub const MAC_OFFSET: usize = 6;

/// Length of a MAC address in bytes.
pub const MAC_LEN: usize = 6;

/// The digits of the text forms, by value.
pub const HEX_DIGITS: &'static str = "0123456789abcdef";

/// The bytes `[6, 12)` of a frame.
pub open spec fn frame_source(frame: Seq<u8>) -> Seq<u8> {
    frame.subrange(MAC_OFFSET as int, MAC_OFFSET + MAC_LEN)
}

/// The source MAC of a layer-2 frame, or `None` where the frame is too short
/// to hold one.
pub fn source_mac(frame: &[u8]) -> (r: Option<[u8; 6]>)
    ensures
        r is Some <==> frame@.len() >= MAC_OFFSET + MAC_LEN,
        r matches Some(m) ==> m@ == frame_source(frame@),
{
    if frame.len() < MAC_OFFSET + MAC_LEN {
        return None;
    }
    let mac: [u8; 6] = [frame[6], frame[7], frame[8], frame[9], frame[10], frame[11]];
    assert(mac@ =~= frame_source(frame@));
    Some(mac)
}

/// A MAC address read as a big-endian number of 48 bits.
pub open spec fn mac_key(mac: Seq<u8>) -> u64 {
    (((((mac[0] as int * 256 + mac[1]) * 256 + mac[2]) * 256 + mac[3]) * 256 + mac[4]) * 256
        + mac[5]) as u64
}

/// Different addresses have different keys.
pub proof fn lemma_mac_key_injective(a: Seq<u8>, b: Seq<u8>)
    requires
        a.len() == MAC_LEN,
        b.len() == MAC_LEN,
        mac_key(a) == mac_key(b),
    ensures
        a == b,
{
    let ka = ((((a[0] as int * 256 + a[1]) * 256 + a[2]) * 256 + a[3]) * 256 + a[4]) * 256 + a[5];
    let kb = ((((b[0] as int * 256 + b[1]) * 256 + b[2]) * 256 + b[3]) * 256 + b[4]) * 256 + b[5];
    assert(ka == kb);
    assert(a[5] == b[5]);
    assert(a[4] == b[4]);
    assert(a[3] == b[3]);
    assert(a[2] == b[2]);
    assert(a[1] == b[1]);
    assert(a[0] == b[0]);
    assert(a =~= b);
}

/// The key of a MAC address in the peer table.
pub fn key_of(mac: &[u8; 6]) -> (k: u64)
    ensures
        k == mac_key(mac@),
{
    let mut k: u64 = mac[0] as u64;
    k = k * 256 + mac[1] as u64;
    k = k * 256 + mac[2] as u64;
    k = k * 256 + mac[3] as u64;
    k = k * 256 + mac[4] as u64;
    k = k * 256 + mac[5] as u64;
    k
}

/// The hexadecimal digit of value `n`, in lower case.
pub open spec fn hex_digit(n: int) -> char {
    HEX_DIGITS@[n]
}

/// A byte as two hexadecimal digits.
pub open spec fn hex_byte(b: u8) -> Seq<char> {
    seq![hex_digit(b as int / 16), hex_digit(b as int % 16)]
}

/// A MAC address in text: six bytes in hexadecimal, colons between them.
pub open spec fn mac_text(mac: Seq<u8>) -> Seq<char> {
    hex_byte(mac[0]) + seq![':'] + hex_byte(mac[1]) + seq![':'] + hex_byte(mac[2]) + seq![':']
        + hex_byte(mac[3]) + seq![':'] + hex_byte(mac[4]) + seq![':'] + hex_byte(mac[5])
}

/// The digit of value `n` as a string of one character.
pub fn digit_str(n: u8) -> (r: &'static str)
    requires
        n < 16,
    ensures
        r@ == seq![hex_digit(n as int)],
{
    proof {
        reveal_strlit("0123456789abcdef");
    }
    let r = HEX_DIGITS.substring_ascii(n as usize, n as usize + 1);
    assert(r@ =~= seq![hex_digit(n as int)]);
    r
}

/// Appends the two hexadecimal digits of `b` to `s`.
pub fn push_hex_byte(s: &mut String, b: u8)
    ensures
        final(s)@ == old(s)@ + hex_byte(b),
{
    s.append(digit_str(b / 16));
    s.append(digit_str(b % 16));
    assert(s@ =~= old(s)@ + hex_byte(b));
}

/// The text form of a MAC address, as `aa:bb:cc:dd:ee:ff`.
pub fn macaddr_fmt(mac: &[u8; 6]) -> (s: String)
    ensures
        s@ == mac_text(mac@),
{
    proof {
        reveal_strlit(":");
    }
    let mut s = String::new();
    push_hex_byte(&mut s, mac[0]);
    s.append(":");
    push_hex_byte(&mut s, mac[1]);
    s.append(":");
    push_hex_byte(&mut s, mac[2]);
    s.append(":");
    push_hex_byte(&mut s, mac[3]);
    s.append(":");
    push_hex_byte(&mut s, mac[4]);
    s.append(":");
    push_hex_byte(&mut s, mac[5]);
    assert(s@ =~= mac_text(mac@));
    s
}

} // verus!
