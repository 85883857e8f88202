//! Colors as 8-bit sRGB triples and their hexadecimal notation.

use vstd::prelude::*;

use crate::text::push_char;

verus! {

/// An sRGB color with 8-bit channels.
#[derive(Debug, Clone, Copy, PartialEq, Eq, Structural)]
pub struct Rgb8 {
    pub red: u8,
    pub green: u8,
    pub blue: u8,
}

impl Rgb8 {
    /// Creates a color from its three channels.
    pub fn new(red: u8, green: u8, blue: u8) -> (r: Self)
        ensures
            r.red == red && r.green == green && r.blue == blue,
    {
        Rgb8 { red, green, blue }
    }
}

/// The lowercase hexadecimal digit of a value below 16.
pub open spec fn hex_char(n: int) -> char
    recommends
        0 <= n < 16,
{
    if n < 10 {
        (48 + n) as char
    } else {
        (87 + n) as char
    }
}

/// Two lowercase hexadecimal digits of a byte, most significant first.
pub open spec fn byte_hex(b: u8) -> Seq<char> {
    seq![hex_char((b / 16) as int), hex_char((b % 16) as int)]
}

/// Six lowercase hexadecimal digits of a color: red, green, blue.
pub open spec fn rgb_hex(c: Rgb8) -> Seq<char> {
    byte_hex(c.red) + byte_hex(c.green) + byte_hex(c.blue)
}

/// The hexadecimal digit for a nibble.
fn nibble_char(n: u8) -> (c: char)
    requires
        n < 16,
    ensures
        c == hex_char(n as int),
{
    match n {
        0 => '0',
        1 => '1',
        2 => '2',
        3 => '3',
        4 => '4',
        5 => '5',
        6 => '6',
        7 => '7',
        8 => '8',
        9 => '9',
        10 => 'a',
        11 => 'b',
        12 => 'c',
        13 => 'd',
        14 => 'e',
        _ => 'f',
    }
}

/// Appends the two hexadecimal digits of a byte.
fn push_byte_hex(s: &mut String, b: u8)
    ensures
        final(s)@ == old(s)@ + byte_hex(b),
{
    push_char(s, nibble_char(b / 16));
    push_char(s, nibble_char(b % 16));
    assert(final(s)@ =~= old(s)@ + byte_hex(b));
}

/// Convert sRGB to hex string (without # prefix).
pub fn srgb_to_hex(color: Rgb8) -> (r: String)
    ensures
        r@ == rgb_hex(color),
{
    let mut s = String::new();
    push_byte_hex(&mut s, color.red);
    push_byte_hex(&mut s, color.green);
    push_byte_hex(&mut s, color.blue);
    assert(s@ =~= rgb_hex(color));
    s
}

} // verus!
