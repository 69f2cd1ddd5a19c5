//! Hex colour notation: `#RGB`, `#RGBA`, `#RRGGBB` and `#RRGGBBAA`, the `#`
//! optional, read into four 8-bit channels (red, green, blue, alpha).

use vstd::prelude::*;
use vstd::string::StringSliceAdditionalSpecFns;

verus! {

/// The value of hex digit `b`, if it is one.
pub open spec fn hex_digit(b: u8) -> Option<u8> {
    if 0x30 <= b <= 0x39 {
        Some((b - 0x30) as u8)
    } else if 0x61 <= b <= 0x66 {
        Some((b - 0x61 + 10) as u8)
    } else if 0x41 <= b <= 0x46 {
        Some((b - 0x41 + 10) as u8)
    } else {
        None
    }
}

/// A one-character channel: one hex digit, repeated (0xF reads as 0xFF).
pub open spec fn short_channel(b: u8) -> Option<u8> {
    match hex_digit(b) {
        Some(d) => Some((d * 17) as u8),
        None => None,
    }
}

/// A two-character channel: two hex digits, or `+` and one hex digit (the
/// leading plus sign that unsigned number parsing accepts).
pub open spec fn long_channel(b0: u8, b1: u8) -> Option<u8> {
    if b0 == 0x2B {
        hex_digit(b1)
    } else {
        match (hex_digit(b0), hex_digit(b1)) {
            (Some(h), Some(l)) => Some((h * 16 + l) as u8),
            _ => None,
        }
    }
}

/// `bytes` without one leading `#`.
pub open spec fn hex_body(bytes: Seq<u8>) -> Seq<u8> {
    if bytes.len() > 0 && bytes[0] == 0x23 {
        bytes.subrange(1, bytes.len() as int)
    } else {
        bytes
    }
}

/// The channels written in `body`, a hex colour without its `#`.
pub open spec fn hex_channels(body: Seq<u8>) -> Option<[u8; 4]> {
    if body.len() == 3 {
        match (short_channel(body[0]), short_channel(body[1]), short_channel(body[2])) {
            (Some(r), Some(g), Some(b)) => Some([r, g, b, 255u8]),
            _ => None,
        }
    } else if body.len() == 4 {
        match (short_channel(body[0]), short_channel(body[1]), short_channel(body[2]), short_channel(body[3])) {
            (Some(r), Some(g), Some(b), Some(a)) => Some([r, g, b, a]),
            _ => None,
        }
    } else if body.len() == 6 {
        match (long_channel(body[0], body[1]), long_channel(body[2], body[3]), long_channel(body[4], body[5])) {
            (Some(r), Some(g), Some(b)) => Some([r, g, b, 255u8]),
            _ => None,
        }
    } else if body.len() == 8 {
        match (
            long_channel(body[0], body[1]),
            long_channel(body[2], body[3]),
            long_channel(body[4], body[5]),
            long_channel(body[6], body[7]),
        ) {
            (Some(r), Some(g), Some(b), Some(a)) => Some([r, g, b, a]),
            _ => None,
        }
    } else {
        None
    }
}

/// Whether byte `i` of `body` starts a character (or is the end).
pub open spec fn starts_char(body: Seq<u8>, i: int) -> bool {
    i == body.len() || !(0x80 <= body[i] < 0xC0)
}

/// Whether every place where the notation splits `body` into channels
/// falls between characters.
pub open spec fn splits_between_chars(body: Seq<u8>) -> bool {
    if body.len() == 3 {
        starts_char(body, 1) && starts_char(body, 2)
    } else if body.len() == 4 {
        starts_char(body, 1) && starts_char(body, 2) && starts_char(body, 3)
    } else if body.len() == 6 {
        starts_char(body, 2) && starts_char(body, 4)
    } else if body.len() == 8 {
        starts_char(body, 2) && starts_char(body, 4) && starts_char(body, 6)
    } else {
        true
    }
}

fn digit_value(b: u8) -> (r: Option<u8>)
    ensures
        r == hex_digit(b),
{
    if 0x30 <= b && b <= 0x39 {
        Some(b - 0x30)
    } else if 0x61 <= b && b <= 0x66 {
        Some(b - 0x61 + 10)
    } else if 0x41 <= b && b <= 0x46 {
        Some(b - 0x41 + 10)
    } else {
        None
    }
}

fn read_short(b: u8) -> (r: Option<u8>)
    ensures
        r == short_channel(b),
{
    match digit_value(b) {
        Some(d) => Some(d * 17),
        None => None,
    }
}

fn read_long(b0: u8, b1: u8) -> (r: Option<u8>)
    ensures
        r == long_channel(b0, b1),
{
    if b0 == 0x2B {
        return digit_value(b1);
    }
    match (digit_value(b0), digit_value(b1)) {
        (Some(h), Some(l)) => Some(h * 16 + l),
        _ => None,
    }
}

/// Read a hex colour into its red, green, blue and alpha channels; `None`
/// if it is not one.  The `#` is optional; a missing alpha is 255.
pub fn parse_hex_rgba(hex: &str) -> (r: Option<[u8; 4]>)
    requires
        splits_between_chars(hex_body(hex.spec_bytes())),
    ensures
        r == hex_channels(hex_body(hex.spec_bytes())),
{
    let all = hex.as_bytes();
    let start: usize = if all.len() > 0 && all[0] == 0x23 { 1 } else { 0 };
    let n = all.len() - start;
    let ghost body = hex_body(hex.spec_bytes());
    assert(body.len() == n);
    assert(forall|i: int| 0 <= i < n ==> body[i] == all@[start + i]);
    if n == 3 {
        let r = read_short(all[start]);
        let g = read_short(all[start + 1]);
        let b = read_short(all[start + 2]);
        match (r, g, b) {
            (Some(r), Some(g), Some(b)) => Some([r, g, b, 255]),
            _ => None,
        }
    } else if n == 4 {
        let r = read_short(all[start]);
        let g = read_short(all[start + 1]);
        let b = read_short(all[start + 2]);
        let a = read_short(all[start + 3]);
        match (r, g, b, a) {
            (Some(r), Some(g), Some(b), Some(a)) => Some([r, g, b, a]),
            _ => None,
        }
    } else if n == 6 {
        let r = read_long(all[start], all[start + 1]);
        let g = read_long(all[start + 2], all[start + 3]);
        let b = read_long(all[start + 4], all[start + 5]);
        match (r, g, b) {
            (Some(r), Some(g), Some(b)) => Some([r, g, b, 255]),
            _ => None,
        }
    } else if n == 8 {
        let r = read_long(all[start], all[start + 1]);
        let g = read_long(all[start + 2], all[start + 3]);
        let b = read_long(all[start + 4], all[start + 5]);
        let a = read_long(all[start + 6], all[start + 7]);
        match (r, g, b, a) {
            (Some(r), Some(g), Some(b), Some(a)) => Some([r, g, b, a]),
            _ => None,
        }
    } else {
        None
    }
}

/// Read a hex colour that is known to be one; see [`parse_hex_rgba`].
pub fn hex_rgba(hex: &str) -> (r: [u8; 4])
    requires
        splits_between_chars(hex_body(hex.spec_bytes())),
        hex_channels(hex_body(hex.spec_bytes())) is Some,
    ensures
        Some(r) == hex_channels(hex_body(hex.spec_bytes())),
{
    match parse_hex_rgba(hex) {
        Some(c) => c,
        None => [0, 0, 0, 0],
    }
}

/// The short notations are the long ones with each digit written twice:
/// `RGB` reads as `RRGGBB`, and `RGBA` as `RRGGBBAA`.
pub proof fn law_short_form_doubles_digits(r: u8, g: u8, b: u8, a: u8)
    requires
        hex_digit(r) is Some,
        hex_digit(g) is Some,
        hex_digit(b) is Some,
        hex_digit(a) is Some,
        r != 0x2B,
        g != 0x2B,
        b != 0x2B,
        a != 0x2B,
    ensures
        hex_channels(seq![r, g, b]) == hex_channels(seq![r, r, g, g, b, b]),
        hex_channels(seq![r, g, b, a]) == hex_channels(seq![r, r, g, g, b, b, a, a]),
{
}

} // verus!
