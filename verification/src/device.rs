//! Virtual interfaces as the kernel names and configures them: the names
//! of the tunnel devices, and the request that binds an open tunnel handle
//! to an interface of a given name and layer.

use vstd::prelude::*;
use vstd::string::*;
use vstd::utf8::{encode_utf8, is_ascii_chars, is_ascii_chars_encode_utf8};
use crate::mac::{digit_str, hex_digit};

verus! {

/// Size of an interface name in a request, the closing NUL included.
pub const IFNAMSIZ: usize = 16;

/// Request flag: a layer-3 interface, which carries IP packets.
pub const IFF_TUN: i16 = 0x0001;

/// Request flag: a layer-2 interface, which carries Ethernet frames.
pub const IFF_TAP: i16 = 0x0002;

/// Request flag: frames come without a packet-information header.
pub const IFF_NO_PI: i16 = 0x1000;

/// The layer-3 interface of either role.
pub const TUN_DEV: &'static str = "tun0";

/// The layer-2 interface of the client role.
pub const TAP_DEV: &'static str = "tap0";

/// What the names of the switch's per-peer interfaces begin with.
pub const TAP_DEV_PAT: &'static str = "tap";

/// Port slots below this bound have interface names that fit a request.
pub const MAX_NAMED_SLOTS: u64 = 1_000_000_000_000;

/// A name can stand in a request: it is not empty and leaves room for the
/// closing NUL.
pub open spec fn valid_dev_name(name: Seq<u8>) -> bool {
    0 < name.len() < IFNAMSIZ
}

/// A name as a request holds it: sixteen bytes, the name first, then NULs.
pub open spec fn padded_name(name: Seq<u8>) -> Seq<u8> {
    Seq::new(
        IFNAMSIZ as nat,
        |i: int|
            if i < name.len() {
                name[i]
            } else {
                0u8
            },
    )
}

/// The flags of a request for a layer-2 (`tap`) or a layer-3 interface.
pub open spec fn request_flags(tap: bool) -> i16 {
    IFF_NO_PI | if tap {
        IFF_TAP
    } else {
        IFF_TUN
    }
}

/// The flags of the two kinds of request as numbers.
pub proof fn lemma_request_flags()
    ensures
        request_flags(true) == 0x1002,
        request_flags(false) == 0x1001,
{
    assert(0x1000i16 | 0x0002i16 == 0x1002i16) by (bit_vector);
    assert(0x1000i16 | 0x0001i16 == 0x1001i16) by (bit_vector);
}

/// The interface request of the tunnel driver, as far as the switch fills
/// it: the interface's name, NUL-padded, and the request flags.
#[allow(non_camel_case_types)]
#[derive(Clone, Copy, Debug, PartialEq, Eq)]
pub struct ifreq {
    pub ifr_name: [u8; 16],
    pub ifr_flags: i16,
}

/// Whether `dev` can name an interface in a request.
pub fn is_valid_dev_name(dev: &str) -> (ok: bool)
    ensures
        ok == valid_dev_name(dev.spec_bytes()),
{
    let n: usize = dev.as_bytes().len();
    0 < n && n < IFNAMSIZ
}

impl ifreq {
    /// The request for the interface `dev`, of layer 2 if `tap` and of
    /// layer 3 if not.
    pub fn new(dev: &str, tap: bool) -> (req: ifreq)
        requires
            valid_dev_name(dev.spec_bytes()),
        ensures
            req.ifr_name@ == padded_name(dev.spec_bytes()),
            req.ifr_flags == request_flags(tap),
    {
        let bytes = dev.as_bytes();
        let n: usize = bytes.len();
        let mut name: [u8; 16] = [0; 16];
        let mut i: usize = 0;
        while i < n
            invariant
                n == bytes@.len(),
                n < IFNAMSIZ,
                i <= n,
                forall|j: int| 0 <= j < i ==> name@[j] == bytes@[j],
                forall|j: int| i <= j < IFNAMSIZ ==> name@[j] == 0,
            decreases n - i,
        {
            name[i] = bytes[i];
            i += 1;
        }
        assert(name@ =~= padded_name(dev.spec_bytes()));
        let kind: i16 = if tap {
            IFF_TAP
        } else {
            IFF_TUN
        };
        ifreq { ifr_name: name, ifr_flags: IFF_NO_PI | kind }
    }
}

/// A number in decimal, without leading zeros.
pub open spec fn decimal(n: nat) -> Seq<char>
    decreases n,
{
    if n < 10 {
        seq![hex_digit(n as int)]
    } else {
        decimal(n / 10) + seq![hex_digit((n % 10) as int)]
    }
}

/// The name of the interface of port slot `slot`: `tap0`, `tap1`, and so on.
pub open spec fn tap_name(slot: nat) -> Seq<char> {
    TAP_DEV_PAT@ + decimal(slot)
}

/// Ten to the power of `digits`.
pub open spec fn pow10(digits: nat) -> nat
    decreases digits,
{
    if digits == 0 {
        1
    } else {
        10 * pow10((digits - 1) as nat)
    }
}

/// A number below ten to the power of `digits`, with `digits` at least
/// one, has at most `digits` decimal digits, and they are ASCII.
pub proof fn lemma_decimal_len(n: nat, digits: nat)
    requires
        digits >= 1,
        n < pow10(digits),
    ensures
        1 <= decimal(n).len() <= digits,
        is_ascii_chars(decimal(n)),
    decreases n,
{
    reveal_strlit("0123456789abcdef");
    reveal_with_fuel(pow10, 2);
    if n >= 10 {
        lemma_decimal_len(n / 10, (digits - 1) as nat);
    }
}

/// The interfaces of the first million million port slots have names that
/// fit a request.
pub proof fn lemma_tap_name_valid(slot: nat)
    requires
        slot < MAX_NAMED_SLOTS,
    ensures
        is_ascii_chars(tap_name(slot)),
        4 <= tap_name(slot).len() <= 15,
        valid_dev_name(encode_utf8(tap_name(slot))),
{
    reveal_strlit("tap");
    reveal_with_fuel(pow10, 13);
    lemma_decimal_len(slot, 12);
    is_ascii_chars_encode_utf8(tap_name(slot));
}

/// Appends `n` in decimal to `s`.
pub fn push_decimal(s: &mut String, n: usize)
    ensures
        final(s)@ == old(s)@ + decimal(n as nat),
    decreases n,
{
    if n >= 10 {
        push_decimal(s, n / 10);
    }
    s.append(digit_str((n % 10) as u8));
    assert(s@ =~= old(s)@ + decimal(n as nat));
}

/// The name of the interface of port slot `slot`.
pub fn tap_device_name(slot: usize) -> (name: String)
    ensures
        name@ == tap_name(slot as nat),
        slot < MAX_NAMED_SLOTS ==> valid_dev_name(encode_utf8(name@)),
{
    let mut name = String::new();
    name.append(TAP_DEV_PAT);
    push_decimal(&mut name, slot);
    proof {
        assert(name@ =~= tap_name(slot as nat));
        if slot < MAX_NAMED_SLOTS {
            lemma_tap_name_valid(slot as nat);
        }
    }
    name
}

} // verus!
