//! Theme configuration: metadata and color parsing.

use vstd::prelude::*;
use vstd::string::*;
use vstd::utf8::*;

use crate::interpolation::{byte_hex, hex_char, rgb_hex, Rgb8};
use crate::css::{css_cut_breaks, cuts_inside_char};
use crate::text::{drop_trailing_white_space, skip_white_space, trim_white_space};

verus! {

/// Theme metadata.
#[derive(Debug, Clone, Default)]
pub struct ThemeMetadata {
    /// Name of the theme
    pub name: String,
    /// Author of the theme
    pub author: Option<String>,
    /// Variant hint (dark, light, auto)
    pub variant: Option<String>,
}

/// Checks that both required colors are configured; the error names the
/// first missing field (`colors.background`, then `colors.foreground`).
pub fn validate_colors(background: &Option<String>, foreground: &Option<String>) -> (r: Result<
    (),
    &'static str,
>)
    ensures
        background is None ==> r is Err && r->Err_0@ == "colors.background"@,
        background is Some && foreground is None ==> r is Err && r->Err_0@ == "colors.foreground"@,
        background is Some && foreground is Some ==> r is Ok,
{
    if background.is_none() {
        return Err("colors.background");
    }
    if foreground.is_none() {
        return Err("colors.foreground");
    }
    Ok(())
}

/// Value of a hexadecimal digit (either case).
pub open spec fn hex_digit_value(c: char) -> Option<int> {
    let v = c as u32;
    if 48 <= v <= 57 {
        Some(v - 48)
    } else if 97 <= v <= 102 {
        Some(v - 87)
    } else if 65 <= v <= 70 {
        Some(v - 55)
    } else {
        None
    }
}

/// Value of a two-character base-16 field as `u8::from_str_radix` reads it:
/// two digits, or a `+` sign followed by one digit.
pub open spec fn radix16_pair(a: char, b: char) -> Option<int> {
    if a == '+' {
        hex_digit_value(b)
    } else {
        match (hex_digit_value(a), hex_digit_value(b)) {
            (Some(x), Some(y)) => Some(16 * x + y),
            _ => None,
        }
    }
}

/// The color of a hex code without leading `#`: three digits (each
/// repeated, so `a` stands for `aa`) or six characters read as three
/// two-character fields.  `None` when the code is malformed.
pub open spec fn hex_code_rgb(t: Seq<char>) -> Option<Rgb8> {
    if t.len() == 3 {
        match (hex_digit_value(t[0]), hex_digit_value(t[1]), hex_digit_value(t[2])) {
            (Some(r), Some(g), Some(b)) => Some(
                Rgb8 { red: (17 * r) as u8, green: (17 * g) as u8, blue: (17 * b) as u8 },
            ),
            _ => None,
        }
    } else if t.len() == 6 {
        match (radix16_pair(t[0], t[1]), radix16_pair(t[2], t[3]), radix16_pair(t[4], t[5])) {
            (Some(r), Some(g), Some(b)) => Some(Rgb8 { red: r as u8, green: g as u8, blue: b as u8 }),
            _ => None,
        }
    } else {
        None
    }
}

/// Message of a hex code whose length is neither 3 nor 6.
pub open spec fn hex_format_message() -> Seq<char> {
    "invalid hex code format, please use format '#fff', 'fff', '#ffffff', 'ffffff', etc."@
}

/// Message of a hex code of the right length with a character that is
/// not a digit.
pub open spec fn hex_digit_message() -> Seq<char> {
    "invalid digit found in string"@
}

/// The text with all leading `#` characters removed.
pub open spec fn strip_hashes(s: Seq<char>) -> Seq<char>
    decreases s.len(),
{
    if s.len() > 0 && s[0] == '#' {
        strip_hashes(s.drop_first())
    } else {
        s
    }
}

/// What palette's hex parsing gives for a code without leading `#`:
/// the color, or the text of its error.
pub open spec fn palette_hex_result(t: Seq<char>) -> Result<Rgb8, Seq<char>> {
    if is_ascii_chars(t) && hex_code_rgb(t) is Some {
        Ok(hex_code_rgb(t)->0)
    } else if encode_utf8(t).len() == 3 || encode_utf8(t).len() == 6 {
        Err(hex_digit_message())
    } else {
        Err(hex_format_message())
    }
}

/// Whether byte offset `p` of the UTF-8 encoding of `t` falls between two
/// characters.
pub open spec fn is_char_boundary_at(t: Seq<char>, p: int) -> bool {
    exists|k: int| 0 <= k <= t.len() && #[trigger] encode_utf8(t.subrange(0, k)).len() == p
}

/// Whether a hex code (without leading `#`) can be cut into its fields:
/// palette cuts a 3-byte code after each byte and a 6-byte code after every
/// second byte, which must fall between characters.  Codes of other byte
/// lengths are never cut.
pub open spec fn hex_code_sliceable(t: Seq<char>) -> bool {
    let n = encode_utf8(t).len();
    ||| is_ascii_chars(t)
    ||| (n != 3 && n != 6)
    ||| (n == 6 && is_char_boundary_at(t, 2) && is_char_boundary_at(t, 4))
}

/// What parsing a hex color gives: the color when the code (after its
/// leading `#`s) is ASCII and well formed, else the error message, which
/// depends on the UTF-8 length of the code.
pub open spec fn parse_hex_spec(s: Seq<char>) -> Result<Rgb8, Seq<char>> {
    match palette_hex_result(strip_hashes(s)) {
        Ok(c) => Ok(c),
        Err(m) => Err(hex_error_message(m)),
    }
}

/// Parses a hex code with `palette` (`Rgb::<_, u8>::from_str`).
///
/// The contract restates palette's documented format ('#ff00bb' or '#abc',
/// one optional leading '#', here excluded by the caller) as its source
/// implements it: the code's byte length selects the 3- or 6-digit form,
/// each field is read with `u8::from_str_radix(_, 16)` (which also takes a
/// `+` sign), 3-digit fields are scaled by 17, and the error text is the
/// `Display` of `FromHexError`.  palette cuts a code into fields by byte
/// offsets, so only codes whose cuts fall between characters are admitted;
/// a field holding a non-ASCII character fails with the invalid-digit error.
#[verifier::external_body]
fn palette_rgb_from_hex(hex: &str) -> (r: Result<Rgb8, String>)
    requires
        hex@.len() == 0 || hex@[0] != '#',
        hex_code_sliceable(hex@),
    ensures
        r matches Ok(c) ==> palette_hex_result(hex@) is Ok && palette_hex_result(hex@)->Ok_0 == c,
        r matches Err(e) ==> palette_hex_result(hex@) is Err && palette_hex_result(hex@)->Err_0 == e@,
{
    match hex.parse::<palette::Srgb<u8>>() {
        Ok(c) => Ok(Rgb8 { red: c.red, green: c.green, blue: c.blue }),
        Err(e) => Err(e.to_string()),
    }
}

proof fn lemma_strip_hashes_no_hash(s: Seq<char>)
    ensures
        strip_hashes(s).len() == 0 || strip_hashes(s)[0] != '#',
    decreases s.len(),
{
    if s.len() > 0 && s[0] == '#' {
        lemma_strip_hashes_no_hash(s.drop_first());
    }
}

proof fn lemma_strip_hashes_skip(s: Seq<char>, i: int)
    requires
        0 <= i <= s.len(),
        forall|j: int| 0 <= j < i ==> s[j] == '#',
    ensures
        strip_hashes(s) == strip_hashes(s.subrange(i, s.len() as int)),
    decreases i,
{
    if i > 0 {
        assert(s.drop_first() =~= s.subrange(1, s.len() as int));
        lemma_strip_hashes_skip(s.drop_first(), i - 1);
        assert(s.drop_first().subrange(i - 1, s.drop_first().len() as int) =~= s.subrange(
            i,
            s.len() as int,
        ));
    } else {
        assert(s.subrange(0, s.len() as int) =~= s);
    }
}

/// The text after its leading `#` characters.
fn trim_hashes(s: &str) -> (r: &str)
    ensures
        r@ == strip_hashes(s@),
        r@.len() == 0 || r@[0] != '#',
{
    let n = s.unicode_len();
    let mut i: usize = 0;
    while i < n && s.get_char(i) == '#'
        invariant
            n == s@.len(),
            i <= n,
            forall|j: int| 0 <= j < i ==> s@[j] == '#',
        decreases n - i,
    {
        i = i + 1;
    }
    proof {
        lemma_strip_hashes_skip(s@, i as int);
        lemma_strip_hashes_no_hash(s@);
    }
    let r = s.substring_char(i, n);
    assert(r@ == strip_hashes(s@.subrange(i as int, n as int)));
    r
}

/// The message of a failed hex parse: the parser's message after a fixed
/// prefix.
pub open spec fn hex_error_message(m: Seq<char>) -> Seq<char> {
    "Invalid hex color: "@ + m
}

/// Turns palette's answer for a hex code into this library's: the color as
/// it is, or the error text after the `Invalid hex color: ` prefix.
pub fn hex_from_palette(parsed: Result<Rgb8, String>) -> (r: Result<Rgb8, String>)
    ensures
        match parsed {
            Ok(c) => r == Ok::<Rgb8, String>(c),
            Err(m) => r is Err && r->Err_0@ == hex_error_message(m@),
        },
{
    match parsed {
        Ok(c) => Ok(c),
        Err(e) => {
            let mut msg = "Invalid hex color: ".to_owned();
            msg.append(e.as_str());
            Err(msg)
        },
    }
}

/// Parse a hex color string into an sRGB color.
///
/// Leading `#` characters are ignored; the rest must be three or six hex
/// digits.  A code that palette would have to cut inside a character is
/// outside the domain.
pub fn parse_hex(hex: &str) -> (r: Result<Rgb8, String>)
    requires
        hex_code_sliceable(strip_hashes(hex@)),
    ensures
        r matches Ok(c) ==> parse_hex_spec(hex@) is Ok && parse_hex_spec(hex@)->Ok_0 == c,
        r matches Err(e) ==> parse_hex_spec(hex@) is Err && parse_hex_spec(hex@)->Err_0 == e@,
{
    let code = trim_hashes(hex);
    hex_from_palette(palette_rgb_from_hex(code))
}


proof fn lemma_hex_char_value(n: int)
    requires
        0 <= n < 16,
    ensures
        hex_digit_value(hex_char(n)) == Some(n),
        hex_char(n) != '+',
        hex_char(n) != '#',
        (hex_char(n) as u32) < 128,
{
}

proof fn lemma_byte_hex_value(b: u8)
    ensures
        radix16_pair(byte_hex(b)[0], byte_hex(b)[1]) == Some(b as int),
{
    lemma_hex_char_value((b / 16) as int);
    lemma_hex_char_value((b % 16) as int);
}

/// Formatting a color as hex digits and parsing the digits back gives the
/// same color, with or without a leading `#`.
pub proof fn lemma_hex_roundtrip(c: Rgb8)
    ensures
        parse_hex_spec(rgb_hex(c)) == Ok::<Rgb8, Seq<char>>(c),
        parse_hex_spec(seq!['#'] + rgb_hex(c)) == Ok::<Rgb8, Seq<char>>(c),
{
    let h = rgb_hex(c);
    lemma_hex_char_value((c.red / 16) as int);
    lemma_hex_char_value((c.red % 16) as int);
    lemma_hex_char_value((c.green / 16) as int);
    lemma_hex_char_value((c.green % 16) as int);
    lemma_hex_char_value((c.blue / 16) as int);
    lemma_hex_char_value((c.blue % 16) as int);
    lemma_byte_hex_value(c.red);
    lemma_byte_hex_value(c.green);
    lemma_byte_hex_value(c.blue);
    assert(h.len() == 6);
    assert(strip_hashes(h) == h);
    assert(is_ascii_chars(h));
    assert(hex_code_rgb(h) == Some(c));
    let g = seq!['#'] + h;
    assert(g.drop_first() =~= h);
    assert(strip_hashes(g) == h);
}


/// Whether a character is a hexadecimal digit of either case.
pub open spec fn is_hex_char(c: char) -> bool {
    ('0' <= c && c <= '9') || ('a' <= c && c <= 'f') || ('A' <= c && c <= 'F')
}

/// Leading `#`s do not change what a hex code reads as, and a three-digit
/// code reads as the six-digit code with each digit doubled.
pub proof fn lemma_parse_hex_laws(s: Seq<char>, a: char, b: char, c: char)
    ensures
        parse_hex_spec(seq!['#'] + s) == parse_hex_spec(s),
        is_hex_char(a) && is_hex_char(b) && is_hex_char(c) ==> parse_hex_spec(seq![a, b, c])
            == parse_hex_spec(seq![a, a, b, b, c, c]) && parse_hex_spec(seq![a, b, c]) is Ok,
{
    assert((seq!['#'] + s).drop_first() =~= s);
    if is_hex_char(a) && is_hex_char(b) && is_hex_char(c) {
        let t3 = seq![a, b, c];
        let t6 = seq![a, a, b, b, c, c];
        assert(strip_hashes(t3) == t3);
        assert(strip_hashes(t6) == t6);
        assert(is_ascii_chars(t3)) by {
            assert forall|i: int| 0 <= i < 3 implies '\0' <= #[trigger] t3[i] <= '\u{7f}' by {
                assert(is_hex_char(t3[i]));
            }
        }
        assert(is_ascii_chars(t6)) by {
            assert forall|i: int| 0 <= i < 6 implies '\0' <= #[trigger] t6[i] <= '\u{7f}' by {
                assert(is_hex_char(t6[i]));
            }
        }
        assert(hex_digit_value(a) is Some && hex_digit_value(b) is Some && hex_digit_value(c) is Some);
        assert(hex_code_rgb(t3) == hex_code_rgb(t6));
    }
}

/// The RGBA bytes that `csscolorparser` reads from a CSS color string
/// (`str::parse::<csscolorparser::Color>` then `Color::to_rgba8`), or the
/// text of its `ParseColorError`.
pub uninterp spec fn css_color_rgba(s: Seq<char>) -> Result<Rgba8, Seq<char>>;

/// An sRGB color with alpha, 8 bits per channel.
#[derive(Debug, Clone, Copy, PartialEq, Eq, Structural)]
pub struct Rgba8 {
    pub red: u8,
    pub green: u8,
    pub blue: u8,
    pub alpha: u8,
}

/// A `#` followed by exactly six hexadecimal digits.
pub open spec fn is_hash_hex6(s: Seq<char>) -> bool {
    &&& s.len() == 7
    &&& s[0] == '#'
    &&& forall|i: int| 1 <= i < 7 ==> (#[trigger] hex_digit_value(s[i])) is Some
}

/// Value of two hexadecimal digits.
pub open spec fn digit_pair_value(a: char, b: char) -> int {
    16 * (hex_digit_value(a)->0) + hex_digit_value(b)->0
}

/// The opaque color written as `#` and six hex digits.
pub open spec fn hash_hex6_rgba(s: Seq<char>) -> Rgba8 {
    Rgba8 {
        red: digit_pair_value(s[1], s[2]) as u8,
        green: digit_pair_value(s[3], s[4]) as u8,
        blue: digit_pair_value(s[5], s[6]) as u8,
        alpha: 255,
    }
}

/// Parses a CSS color string with `csscolorparser` and reads its RGBA bytes.
///
/// csscolorparser cuts angle units (`deg`, `grad`, `rad`, `turn`) off a
/// hue token at a byte offset without checking for a character boundary
/// and panics when the offset falls inside a character; those texts
/// (`css_cut_breaks`, with the crate's default features, under which `lch`
/// is not read) are outside the domain.
///
/// The result is named by `css_color_rgba`; the one fact stated beside it is
/// that a `#` followed by six hex digits is read as its three digit pairs
/// with full alpha: csscolorparser's `parse_hex` reads each pair with
/// `u8::from_str_radix`, stores `v / 255.0`, and `to_rgba8` gives back
/// `(v / 255.0) * 255.0 + 0.5` truncated, which is `v`.
#[verifier::external_body]
fn css_parse_rgba8(input: &str) -> (r: Result<Rgba8, String>)
    requires
        !css_cut_breaks(input@),
    ensures
        r matches Ok(q) ==> css_color_rgba(input@) is Ok && css_color_rgba(input@)->Ok_0 == q,
        r matches Err(e) ==> css_color_rgba(input@) is Err && css_color_rgba(input@)->Err_0 == e@,
        is_hash_hex6(input@) ==> r is Ok,
        r matches Ok(q) ==> (is_hash_hex6(input@) ==> q == hash_hex6_rgba(input@)),
{
    match input.parse::<csscolorparser::Color>() {
        Ok(c) => {
            let [red, green, blue, alpha] = c.to_rgba8();
            Ok(Rgba8 { red, green, blue, alpha })
        },
        Err(e) => Err(e.to_string()),
    }
}

/// What parsing a CSS color gives: its RGB bytes, or a message that quotes
/// the input and the parser's error.
pub open spec fn parse_color_spec(input: Seq<char>) -> Result<Rgb8, Seq<char>> {
    if css_cut_breaks(input) {
        Err(color_error_message(input, cut_inside_char_message()))
    } else {
        match css_color_rgba(input) {
            Ok(q) => Ok(rgb_of(q)),
            Err(m) => Err(color_error_message(input, m)),
        }
    }
}

/// Reason given for a color text whose hue unit would be cut inside a
/// character.
pub open spec fn cut_inside_char_message() -> Seq<char> {
    "the unit of its hue cannot be cut inside a character"@
}

/// A `#` and six hex digits is ASCII, has no white space to trim, and is
/// read as a hex color.
proof fn lemma_hash_hex6_trimmed(s: Seq<char>)
    requires
        is_hash_hex6(s),
    ensures
        trim_white_space(s) == s,
        is_ascii_chars(s),
        !css_cut_breaks(s),
{
    assert(hex_digit_value(s[6]) is Some);
    assert(skip_white_space(s) == s);
    assert(drop_trailing_white_space(s) == s);
    assert forall|i: int| 0 <= i < s.len() implies '\0' <= #[trigger] s[i] <= '\u{7f}' by {
        if i > 0 {
            assert(hex_digit_value(s[i]) is Some);
            let v = s[i] as u32;
            assert(v <= 127);
            char_u32_cast(s[i], v);
            assert((v as char) <= '\u{7f}');
        } else {
            assert(s[i] == '#');
        }
    }
}

/// The color channels of an RGBA color.
pub open spec fn rgb_of(q: Rgba8) -> Rgb8 {
    Rgb8 { red: q.red, green: q.green, blue: q.blue }
}

/// The message of a failed CSS color parse: the input in quotes, then the
/// parser's message.
pub open spec fn color_error_message(input: Seq<char>, m: Seq<char>) -> Seq<char> {
    "Invalid color '"@ + input + "': "@ + m
}

/// Turns csscolorparser's answer for `input` into this library's: the RGB
/// channels of the color (its alpha dropped), or an error that quotes the
/// input and the parser's message.
pub fn color_from_css(input: &str, parsed: Result<Rgba8, String>) -> (r: Result<Rgb8, String>)
    ensures
        match parsed {
            Ok(q) => r == Ok::<Rgb8, String>(rgb_of(q)),
            Err(m) => r is Err && r->Err_0@ == color_error_message(input@, m@),
        },
{
    match parsed {
        Ok(q) => Ok(Rgb8 { red: q.red, green: q.green, blue: q.blue }),
        Err(e) => {
            let mut msg = "Invalid color '".to_owned();
            msg.append(input);
            msg.append("': ");
            msg.append(e.as_str());
            Err(msg)
        },
    }
}

/// Parse any CSS color string into an sRGB color.
///
/// Supports: hex (#RRGGBB), rgb(), oklch(), named colors, etc.  A color
/// written as `#` and its six hex digits is read back exactly.  A text on
/// which the parser would cut a hue unit inside a character is refused
/// without calling it.
pub fn parse_color(input: &str) -> (r: Result<Rgb8, String>)
    ensures
        r matches Ok(c) ==> parse_color_spec(input@) is Ok && parse_color_spec(input@)->Ok_0 == c,
        r matches Err(e) ==> parse_color_spec(input@) is Err && parse_color_spec(input@)->Err_0
            == e@,
        forall|c: Rgb8| input@ == seq!['#'] + rgb_hex(c) ==> r == Ok::<Rgb8, String>(c),
{
    proof {
        assert forall|c: Rgb8| input@ == seq!['#'] + rgb_hex(c) implies is_hash_hex6(input@)
            && digit_pair_value(input@[1], input@[2]) == c.red && digit_pair_value(
            input@[3],
            input@[4],
        ) == c.green && digit_pair_value(input@[5], input@[6]) == c.blue by {
            lemma_hex_char_value((c.red / 16) as int);
            lemma_hex_char_value((c.red % 16) as int);
            lemma_hex_char_value((c.green / 16) as int);
            lemma_hex_char_value((c.green % 16) as int);
            lemma_hex_char_value((c.blue / 16) as int);
            lemma_hex_char_value((c.blue % 16) as int);
            lemma_hash_hex6_trimmed(input@);
        }
    }
    if cuts_inside_char(input) {
        let mut msg = "Invalid color '".to_owned();
        msg.append(input);
        msg.append("': ");
        msg.append("the unit of its hue cannot be cut inside a character");
        return Err(msg);
    }
    color_from_css(input, css_parse_rgba8(input))
}

} // verus!
