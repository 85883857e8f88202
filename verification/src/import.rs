//! Importing Base16/Base24 scheme files: the modern tinted-theming format
//! first, the legacy Base16 format as a fallback, and reading palette
//! colors back out of an imported scheme.

use vstd::prelude::*;
use vstd::string::*;
use vstd::utf8::*;

use crate::config::{hex_digit_value, radix16_pair, ThemeMetadata};
use crate::generate::{base_color_name, base_name, slug_spec, slugify};
use crate::interpolation::{rgb_hex, srgb_to_hex, Rgb8};
use crate::text::{lowercase_chars, same_text, to_lowercase, to_uppercase, uppercase_chars};
use crate::tui::state::split_text;
use crate::validation::lemma_accent_names;

verus! {

/// A color scheme as the library reads it: name, slug, author, variant
/// (`dark` or `light`) and the palette as (slot name, hex digits) entries.
pub struct SchemeData {
    pub name: String,
    pub slug: String,
    pub author: String,
    pub variant: String,
    pub palette: Vec<(String, String)>,
}

/// A lowercase hexadecimal digit.
pub open spec fn is_lower_hex(c: char) -> bool {
    ('0' <= c <= '9') || ('a' <= c <= 'f')
}

/// Six lowercase hexadecimal digits, the form in which tinted-builder gives
/// back a color (`Color::to_hex`).
pub open spec fn is_hex6_lower(h: Seq<char>) -> bool {
    h.len() == 6 && forall|i: int| 0 <= i < 6 ==> #[trigger] is_lower_hex(h[i])
}

impl SchemeData {
    /// Every palette color is held as six lowercase hex digits.
    pub open spec fn wf(&self) -> bool {
        forall|i: int| 0 <= i < self.palette@.len() ==> #[trigger] is_hex6_lower(self.palette@[i].1@)
    }
}

/// The fields of a legacy Base16 scheme file: its name, its author, and
/// the sixteen colors `base00` to `base0F` as written.
pub struct LegacyFields {
    pub scheme: String,
    pub author: Option<String>,
    pub colors: [String; 16],
}

/// Palette entries as plain texts.
pub open spec fn entries_view(p: Seq<(String, String)>) -> Seq<(Seq<char>, Seq<char>)> {
    p.map_values(|e: (String, String)| (e.0@, e.1@))
}

/// The palette as a map from slot names to hex texts (a later entry
/// overrides an earlier one of the same name).
pub open spec fn entries_map(p: Seq<(Seq<char>, Seq<char>)>) -> Map<Seq<char>, Seq<char>>
    decreases p.len(),
{
    if p.len() == 0 {
        Map::empty()
    } else {
        entries_map(p.drop_last()).insert(p.last().0, p.last().1)
    }
}

/// The hex text of the last palette entry with a given name.
pub open spec fn palette_lookup(p: Seq<(Seq<char>, Seq<char>)>, key: Seq<char>) -> Option<
    Seq<char>,
>
    decreases p.len(),
{
    if p.len() == 0 {
        None
    } else if p.last().0 == key {
        Some(p.last().1)
    } else {
        palette_lookup(p.drop_last(), key)
    }
}

/// No slot name occurs twice.
pub open spec fn names_distinct(p: Seq<(Seq<char>, Seq<char>)>) -> bool {
    forall|i: int, j: int| 0 <= i < j < p.len() ==> p[i].0 != p[j].0
}

/// A scheme as plain values: name, slug, author, variant and palette map.
pub open spec fn scheme_summary(s: SchemeData) -> (
    Seq<char>,
    Seq<char>,
    Seq<char>,
    Seq<char>,
    Map<Seq<char>, Seq<char>>,
) {
    (s.name@, s.slug@, s.author@, s.variant@, entries_map(entries_view(s.palette@)))
}

/// What `serde_json` reads from a text as a tinted-builder Base16 scheme,
/// as plain values, or the text of its error.
pub uninterp spec fn json_scheme(text: Seq<char>) -> Result<
    (Seq<char>, Seq<char>, Seq<char>, Seq<char>, Map<Seq<char>, Seq<char>>),
    Seq<char>,
>;

/// What `serde_yaml` reads from a text as a tinted-builder Base16 scheme,
/// as plain values, or the text of its error.
pub uninterp spec fn yaml_scheme(text: Seq<char>) -> Result<
    (Seq<char>, Seq<char>, Seq<char>, Seq<char>, Map<Seq<char>, Seq<char>>),
    Seq<char>,
>;

/// Reads a scheme in the modern format from JSON text
/// (`serde_json::from_str::<tinted_builder::base16::Scheme>`).
///
/// The result is named by `json_scheme`; its palette comes from a hash map,
/// so its entries name each slot once, in no stated order.  Every palette
/// color went through `Color::new`, so `to_hex` gives six lowercase hex
/// digits for each.
#[verifier::external_body]
fn parse_json_scheme(text: &str) -> (r: Result<SchemeData, String>)
    ensures
        r matches Ok(s) ==> json_scheme(text@) is Ok && json_scheme(text@)->Ok_0 == scheme_summary(s),
        r matches Ok(s) ==> names_distinct(entries_view(s.palette@)),
        r matches Ok(s) ==> s.wf(),
        r matches Err(e) ==> json_scheme(text@) is Err && json_scheme(text@)->Err_0 == e@,
{
    match serde_json::from_str::<tinted_builder::base16::Scheme>(text) {
        Ok(s) => Ok(SchemeData {
            name: s.name,
            slug: s.slug,
            author: s.author,
            variant: s.variant.to_string(),
            palette: s.palette.into_iter().map(|(k, c)| (k, c.to_hex())).collect(),
        }),
        Err(e) => Err(e.to_string()),
    }
}

/// Reads a scheme in the modern format from YAML text
/// (`serde_yaml::from_str::<tinted_builder::base16::Scheme>`).
///
/// The result is named by `yaml_scheme`; its palette comes from a hash map,
/// so its entries name each slot once, in no stated order.  Every palette
/// color went through `Color::new`, so `to_hex` gives six lowercase hex
/// digits for each.
#[verifier::external_body]
fn parse_yaml_scheme(text: &str) -> (r: Result<SchemeData, String>)
    ensures
        r matches Ok(s) ==> yaml_scheme(text@) is Ok && yaml_scheme(text@)->Ok_0 == scheme_summary(s),
        r matches Ok(s) ==> names_distinct(entries_view(s.palette@)),
        r matches Ok(s) ==> s.wf(),
        r matches Err(e) ==> yaml_scheme(text@) is Err && yaml_scheme(text@)->Err_0 == e@,
{
    match serde_yaml::from_str::<tinted_builder::base16::Scheme>(text) {
        Ok(s) => Ok(SchemeData {
            name: s.name,
            slug: s.slug,
            author: s.author,
            variant: s.variant.to_string(),
            palette: s.palette.into_iter().map(|(k, c)| (k, c.to_hex())).collect(),
        }),
        Err(e) => Err(e.to_string()),
    }
}

/// Whether a character is an ASCII hex digit.
pub open spec fn is_hex_digit(c: char) -> bool {
    hex_digit_value(c) is Some
}

/// A hex color without one leading `#`.
pub open spec fn hex_body(s: Seq<char>) -> Seq<char> {
    if s.len() > 0 && s[0] == '#' {
        s.drop_first()
    } else {
        s
    }
}

/// Three or six hex digits.
pub open spec fn hex_body_ok(t: Seq<char>) -> bool {
    (t.len() == 3 || t.len() == 6) && (forall|i: int| 0 <= i < t.len() ==> #[trigger] is_hex_digit(t[i]))
}

/// What tinted-builder makes of a hex color: one leading `#` dropped, then
/// three or six hex digits, given back as six lowercase digits (each of
/// three doubled); anything else is refused.
pub open spec fn tinted_hex_spec(s: Seq<char>) -> Result<Seq<char>, Seq<char>> {
    let t = hex_body(s);
    if hex_body_ok(t) {
        let l = t.map_values(|c: char| crate::text::ascii_lower(c));
        if t.len() == 3 {
            Ok(seq![l[0], l[0], l[1], l[1], l[2], l[2]])
        } else {
            Ok(l)
        }
    } else {
        Err("hex input is not formatted correctly"@)
    }
}

/// Normalizes a hex color with tinted-builder
/// (`tinted_builder::Color::new` then `Color::to_hex`).
///
/// The contract restates the source: `process_hex_input` strips one `#`,
/// accepts a byte length of 3 or 6 with every character an ASCII hex digit
/// (doubling each of three), each byte pair is lowercased, and any other
/// input is `TintedBuilderError::HexInputFormat`.
#[verifier::external_body]
fn tinted_hex(hex: &str) -> (r: Result<String, String>)
    ensures
        r matches Ok(h) ==> tinted_hex_spec(hex@) is Ok && tinted_hex_spec(hex@)->Ok_0 == h@,
        r matches Err(e) ==> tinted_hex_spec(hex@) is Err && tinted_hex_spec(hex@)->Err_0 == e@,
{
    match tinted_builder::Color::new(hex, None, None) {
        Ok(c) => Ok(c.to_hex()),
        Err(e) => Err(e.to_string()),
    }
}

/// A color that tinted-builder accepts comes back as six lowercase hex
/// digits.
proof fn lemma_tinted_hex_lower(s: Seq<char>)
    requires
        tinted_hex_spec(s) is Ok,
    ensures
        is_hex6_lower(tinted_hex_spec(s)->Ok_0),
{
    let t = hex_body(s);
    let l = t.map_values(|c: char| crate::text::ascii_lower(c));
    assert(hex_body_ok(t));
    assert forall|i: int| 0 <= i < t.len() implies #[trigger] is_lower_hex(l[i]) by {
        assert(is_hex_digit(t[i]));
        let v = t[i] as u32;
        if 65 <= v <= 70 {
            char_u32_cast(t[i], v);
            let w = (v + 32) as u32;
            assert((w as char) as u32 == w) by {
                char_u32_cast(w as char, w);
            }
        }
    }
    let r = tinted_hex_spec(s)->Ok_0;
    if t.len() == 3 {
        assert(is_lower_hex(l[0]) && is_lower_hex(l[1]) && is_lower_hex(l[2]));
    }
    assert forall|i: int| 0 <= i < 6 implies #[trigger] is_lower_hex(r[i]) by {
        if t.len() == 3 {
            assert(is_lower_hex(l[0]) && is_lower_hex(l[1]) && is_lower_hex(l[2]));
        } else {
            assert(is_lower_hex(l[i]));
        }
    }
}

/// A palette whose colors are all six lowercase hex digits gives such a
/// color for any slot it has.
proof fn lemma_lookup_hex6(p: Seq<(Seq<char>, Seq<char>)>, key: Seq<char>)
    requires
        forall|i: int| 0 <= i < p.len() ==> #[trigger] is_hex6_lower(p[i].1),
    ensures
        palette_lookup(p, key) matches Some(h) ==> is_hex6_lower(h),
    decreases p.len(),
{
    if p.len() > 0 {
        assert(is_hex6_lower(p[p.len() - 1].1));
        let q = p.drop_last();
        assert forall|i: int| 0 <= i < q.len() implies #[trigger] is_hex6_lower(q[i].1) by {
            assert(q[i] == p[i]);
        }
        lemma_lookup_hex6(q, key);
    }
}

/// Six ASCII hex digits can be cut after any two of them.
proof fn lemma_hex6_cuttable(h: Seq<char>)
    requires
        is_hex6_lower(h),
    ensures
        hex_fields_cuttable(h),
{
    broadcast use group_utf8_lib;

    assert forall|i: int| 0 <= i < h.len() implies '\0' <= #[trigger] h[i] <= '\u{7f}' by {
        assert(is_lower_hex(h[i]));
    }
    assert(is_ascii_chars(h));
    is_ascii_chars_encode_utf8(h);
    let b = encode_utf8(h);
    encode_utf8_valid_utf8(h);
    assert forall|k: int| 0 < k < 6 implies is_char_boundary(b, k) by {
        assert(is_lower_hex(h[k]));
        assert(b[k] == h[k] as u8);
        assert(b[k] < 0x80);
        is_char_boundary_iff_not_is_continuation_byte(b, k);
    }
    is_char_boundary_start_end_of_seq(b);
    assert(is_char_boundary(b, 2) && is_char_boundary(b, 4));
    assert(b.len() == 6);
}

/// A legacy scheme's fields as plain values.
pub open spec fn legacy_view(l: LegacyFields) -> (Seq<char>, Option<Seq<char>>, Seq<Seq<char>>) {
    (
        l.scheme@,
        match l.author {
            Some(a) => Some(a@),
            None => None,
        },
        l.colors@.map_values(|c: String| c@),
    )
}

/// The palette of a legacy scheme: `base00` to `base0F` with their colors
/// normalized by tinted-builder.
pub open spec fn legacy_entries(colors: Seq<Seq<char>>) -> Seq<(Seq<char>, Seq<char>)> {
    Seq::new(16, |i: int| (base_name(i), tinted_hex_spec(colors[i])->Ok_0))
}

/// A legacy scheme read as a modern one: the Base16 palette, a slug made
/// from the name, no author given as empty, and the dark variant; refused
/// when a color is not a hex color.
pub open spec fn legacy_summary(l: (Seq<char>, Option<Seq<char>>, Seq<Seq<char>>)) -> Result<
    (Seq<char>, Seq<char>, Seq<char>, Seq<char>, Map<Seq<char>, Seq<char>>),
    Seq<char>,
> {
    if forall|i: int| 0 <= i < 16 ==> #[trigger] tinted_hex_spec(l.2[i]) is Ok {
        Ok(
            (
                l.0,
                slug_spec(l.0),
                match l.1 {
                    Some(a) => a,
                    None => Seq::empty(),
                },
                "dark"@,
                entries_map(legacy_entries(l.2)),
            ),
        )
    } else {
        Err("Failed to convert legacy scheme"@)
    }
}

/// What reading a scheme file gives: the modern format (JSON or YAML) if
/// it reads, else the legacy fields if they read, else an error that
/// carries the legacy reader's message.
pub open spec fn parse_scheme_spec(
    text: Seq<char>,
    is_json: bool,
    legacy: Result<(Seq<char>, Option<Seq<char>>, Seq<Seq<char>>), Seq<char>>,
) -> Result<(Seq<char>, Seq<char>, Seq<char>, Seq<char>, Map<Seq<char>, Seq<char>>), Seq<char>> {
    let modern = if is_json {
        json_scheme(text)
    } else {
        yaml_scheme(text)
    };
    match modern {
        Ok(v) => Ok(v),
        Err(_) => match legacy {
            Ok(l) => legacy_summary(l),
            Err(e) => Err("Failed to parse scheme (tried modern and legacy formats): "@ + e),
        },
    }
}

/// Builds the scheme of a legacy file.
fn legacy_scheme(legacy: LegacyFields) -> (r: Result<SchemeData, String>)
    ensures
        match legacy_summary(legacy_view(legacy)) {
            Ok(v) => r is Ok && scheme_summary(r->Ok_0) == v && entries_view(r->Ok_0.palette@)
                == legacy_entries(legacy_view(legacy).2),
            Err(m) => r is Err && r->Err_0@ == m,
        },
        r matches Ok(s) ==> s.wf(),
{
    let ghost lv = legacy_view(legacy);
    let mut palette: Vec<(String, String)> = Vec::new();
    let mut i: usize = 0;
    while i < 16
        invariant
            lv == legacy_view(legacy),
            i <= 16,
            forall|k: int| 0 <= k < i ==> #[trigger] tinted_hex_spec(lv.2[k]) is Ok,
            entries_view(palette@) =~= legacy_entries(lv.2).take(i as int),
        decreases 16 - i,
    {
        proof {
            assert(lv.2[i as int] == legacy.colors@[i as int]@);
        }
        match tinted_hex(legacy.colors[i].as_str()) {
            Ok(h) => {
                let name = base_color_name(i);
                let ghost before = entries_view(palette@);
                palette.push((name, h));
                proof {
                    assert(entries_view(palette@) =~= before.push((base_name(i as int), h@)));
                    assert(legacy_entries(lv.2).take(i + 1) =~= legacy_entries(lv.2).take(
                        i as int,
                    ).push(legacy_entries(lv.2)[i as int]));
                }
            },
            Err(_) => {
                return Err("Failed to convert legacy scheme".to_owned());
            },
        }
        i = i + 1;
    }
    assert(legacy_entries(lv.2).take(16) =~= legacy_entries(lv.2));
    assert forall|k: int| 0 <= k < palette@.len() implies #[trigger] is_hex6_lower(
        palette@[k].1@,
    ) by {
        assert(entries_view(palette@)[k] == legacy_entries(lv.2)[k]);
        lemma_tinted_hex_lower(lv.2[k]);
    }
    let author = match legacy.author {
        Some(a) => a,
        None => String::new(),
    };
    let slug = slugify(legacy.scheme.as_str());
    Ok(SchemeData { name: legacy.scheme, slug, author, variant: "dark".to_owned(), palette })
}

/// Reads a scheme file's text: the modern tinted-theming format first
/// (JSON when `is_json`, else YAML), then the legacy Base16 fields, whose
/// reading the caller hands in.
pub fn parse_scheme(text: &str, is_json: bool, legacy: Result<LegacyFields, String>) -> (r: Result<
    SchemeData,
    String,
>)
    ensures
        match parse_scheme_spec(
            text@,
            is_json,
            match legacy {
                Ok(l) => Ok(legacy_view(l)),
                Err(e) => Err(e@),
            },
        ) {
            Ok(v) => r is Ok && scheme_summary(r->Ok_0) == v,
            Err(m) => r is Err && r->Err_0@ == m,
        },
        r matches Ok(s) ==> names_distinct(entries_view(s.palette@)),
        r matches Ok(s) ==> s.wf(),
{
    let modern = if is_json {
        parse_json_scheme(text)
    } else {
        parse_yaml_scheme(text)
    };
    match modern {
        Ok(s) => Ok(s),
        Err(_) => match legacy {
            Ok(l) => {
                let r = legacy_scheme(l);
                proof {
                    if r is Ok {
                        let p = entries_view(r->Ok_0.palette@);
                        assert forall|i: int, j: int| 0 <= i < j < p.len() implies p[i].0 != p[j].0 by {
                            lemma_accent_names(i, j);
                        }
                    }
                }
                r
            },
            Err(e) => {
                let mut msg = "Failed to parse scheme (tried modern and legacy formats): ".to_owned();
                msg.append(e.as_str());
                Err(msg)
            },
        },
    }
}

/// The hex text a scheme gives for a slot name: the name as written, then
/// its lowercase form, then its uppercase form.
pub open spec fn color_hex_of(p: Seq<(Seq<char>, Seq<char>)>, name: Seq<char>) -> Option<Seq<char>> {
    match palette_lookup(p, name) {
        Some(h) => Some(h),
        None => match palette_lookup(p, lowercase_chars(name)) {
            Some(h) => Some(h),
            None => palette_lookup(p, uppercase_chars(name)),
        },
    }
}

/// The value of a two-byte field of hex text as `u8::from_str_radix(_, 16)`
/// reads it: two characters read as a base-16 pair, a single two-byte
/// character refused.
pub open spec fn field_value(f: Seq<char>) -> Option<int> {
    if f.len() == 2 {
        radix16_pair(f[0], f[1])
    } else {
        None
    }
}

/// Whether the first six bytes of a hex text can be cut into three fields:
/// shorter texts are refused before any cut.
pub open spec fn hex_fields_cuttable(h: Seq<char>) -> bool {
    let b = encode_utf8(h);
    b.len() < 6 || (is_char_boundary(b, 2) && is_char_boundary(b, 4) && is_char_boundary(b, 6))
}

/// The color of a palette slot's hex text, or the error for the slot.
pub open spec fn hex_color_result(name: Seq<char>, h: Seq<char>) -> Result<Rgb8, Seq<char>> {
    let b = encode_utf8(h);
    if b.len() < 6 {
        Err("Invalid hex color for "@ + name + ": "@ + h)
    } else {
        match (
            field_value(decode_utf8(b.subrange(0, 2))),
            field_value(decode_utf8(b.subrange(2, 4))),
            field_value(decode_utf8(b.subrange(4, 6))),
        ) {
            (None, _, _) => Err("Invalid red component in "@ + name),
            (Some(_), None, _) => Err("Invalid green component in "@ + name),
            (Some(_), Some(_), None) => Err("Invalid blue component in "@ + name),
            (Some(r), Some(g), Some(bl)) => Ok(Rgb8 { red: r as u8, green: g as u8, blue: bl as u8 }),
        }
    }
}

/// The color of a scheme's palette slot, or why there is none.
pub open spec fn scheme_color_spec(p: Seq<(Seq<char>, Seq<char>)>, name: Seq<char>) -> Result<
    Rgb8,
    Seq<char>,
> {
    match color_hex_of(p, name) {
        None => Err("Missing palette color: "@ + name),
        Some(h) => hex_color_result(name, h),
    }
}

/// The hex text of the last entry with the given name.
fn find_entry<'a>(palette: &'a Vec<(String, String)>, key: &str) -> (r: Option<&'a str>)
    ensures
        match palette_lookup(entries_view(palette@), key@) {
            Some(h) => r is Some && r->0@ == h,
            None => r is None,
        },
{
    let mut found: Option<&'a str> = None;
    let mut i: usize = 0;
    while i < palette.len()
        invariant
            i <= palette@.len(),
            match palette_lookup(entries_view(palette@).take(i as int), key@) {
                Some(h) => found is Some && found->0@ == h,
                None => found is None,
            },
        decreases palette@.len() - i,
    {
        let entry = &palette[i];
        proof {
            let t = entries_view(palette@).take(i + 1);
            assert(t.drop_last() =~= entries_view(palette@).take(i as int));
            assert(t.last() == (entry.0@, entry.1@));
        }
        if same_text(entry.0.as_str(), key) {
            found = Some(entry.1.as_str());
        }
        i = i + 1;
    }
    assert(entries_view(palette@).take(palette@.len() as int) =~= entries_view(palette@));
    found
}

/// The value of a hex digit.
fn digit(c: char) -> (r: Option<u8>)
    ensures
        match hex_digit_value(c) {
            Some(v) => r == Some(v as u8),
            None => r is None,
        },
{
    let v = c as u32;
    if 48 <= v && v <= 57 {
        Some((v - 48) as u8)
    } else if 97 <= v && v <= 102 {
        Some((v - 87) as u8)
    } else if 65 <= v && v <= 70 {
        Some((v - 55) as u8)
    } else {
        None
    }
}

/// Reads one field of hex text.
fn read_field(f: &str) -> (r: Option<u8>)
    ensures
        match field_value(f@) {
            Some(v) => r == Some(v as u8) && v < 256,
            None => r is None,
        },
{
    if f.unicode_len() != 2 {
        return None;
    }
    let a = f.get_char(0);
    let b = f.get_char(1);
    if a == '+' {
        digit(b)
    } else {
        match (digit(a), digit(b)) {
            (Some(x), Some(y)) => Some(16 * x + y),
            _ => None,
        }
    }
}

/// A cut in the tail of a text after a boundary is a cut in the text.
proof fn lemma_boundary_in_tail(b: Seq<u8>, p: int, q: int)
    requires
        valid_utf8(b),
        is_char_boundary(b, p),
        is_char_boundary(b, q),
        0 <= p <= q <= b.len(),
    ensures
        is_char_boundary(b.subrange(p, b.len() as int), q - p),
{
    broadcast use group_utf8_lib;

    let t = b.subrange(p, b.len() as int);
    valid_utf8_split(b, p);
    assert(valid_utf8(t));
    if q == b.len() {
        is_char_boundary_start_end_of_seq(t);
        assert(t.len() == q - p);
    } else if q > p {
        assert(t[q - p] == b[q]);
        is_char_boundary_iff_not_is_continuation_byte(b, q);
        is_char_boundary_iff_not_is_continuation_byte(t, q - p);
    }
}

/// Decodes the color of a slot's hex text.
fn hex_color(name: &str, hex: &str) -> (r: Result<Rgb8, String>)
    requires
        hex_fields_cuttable(hex@),
    ensures
        match hex_color_result(name@, hex@) {
            Ok(c) => r == Ok::<Rgb8, String>(c),
            Err(m) => r is Err && r->Err_0@ == m,
        },
{
    broadcast use group_utf8_lib;

    let ghost b = encode_utf8(hex@);
    if hex.as_bytes().len() < 6 {
        let mut msg = "Invalid hex color for ".to_owned();
        msg.append(name);
        msg.append(": ");
        msg.append(hex);
        return Err(msg);
    }
    let (f0, rest) = split_text(hex, 2);
    proof {
        assert(encode_utf8(rest@) == b.subrange(2, b.len() as int));
        lemma_boundary_in_tail(b, 2, 4);
        lemma_boundary_in_tail(b, 2, 6);
    }
    let (f1, rest2) = split_text(rest, 2);
    proof {
        let b1 = b.subrange(2, b.len() as int);
        assert(encode_utf8(rest2@) == b1.subrange(2, b1.len() as int));
        assert(b1.subrange(2, b1.len() as int) =~= b.subrange(4, b.len() as int));
        assert(b1.subrange(0, 2) =~= b.subrange(2, 4));
        lemma_boundary_in_tail(b, 4, 6);
    }
    let (f2, _) = split_text(rest2, 2);
    proof {
        let b2 = b.subrange(4, b.len() as int);
        assert(b2.subrange(0, 2) =~= b.subrange(4, 6));
    }
    let red = read_field(f0);
    let green = read_field(f1);
    let blue = read_field(f2);
    match (red, green, blue) {
        (None, _, _) => {
            let mut msg = "Invalid red component in ".to_owned();
            msg.append(name);
            Err(msg)
        },
        (Some(_), None, _) => {
            let mut msg = "Invalid green component in ".to_owned();
            msg.append(name);
            Err(msg)
        },
        (Some(_), Some(_), None) => {
            let mut msg = "Invalid blue component in ".to_owned();
            msg.append(name);
            Err(msg)
        },
        (Some(r), Some(g), Some(bl)) => Ok(Rgb8 { red: r, green: g, blue: bl }),
    }
}

/// The color of a scheme's palette slot: the slot is looked up by its name
/// as written, then lowercased, then uppercased; its hex text must be at
/// least six bytes, read as three base-16 byte pairs.
pub fn scheme_color(scheme: &SchemeData, name: &str) -> (r: Result<Rgb8, String>)
    requires
        scheme.wf(),
    ensures
        match scheme_color_spec(entries_view(scheme.palette@), name@) {
            Ok(c) => r == Ok::<Rgb8, String>(c),
            Err(m) => r is Err && r->Err_0@ == m,
        },
{
    proof {
        let p = entries_view(scheme.palette@);
        assert forall|i: int| 0 <= i < p.len() implies #[trigger] is_hex6_lower(p[i].1) by {
            assert(p[i].1 == scheme.palette@[i].1@);
        }
        lemma_lookup_hex6(p, name@);
        lemma_lookup_hex6(p, lowercase_chars(name@));
        lemma_lookup_hex6(p, uppercase_chars(name@));
        if color_hex_of(p, name@) is Some {
            lemma_hex6_cuttable(color_hex_of(p, name@)->0);
        }
    }
    let mut found = find_entry(&scheme.palette, name);
    if found.is_none() {
        let lower = to_lowercase(name);
        found = find_entry(&scheme.palette, lower.as_str());
        if found.is_none() {
            let upper = to_uppercase(name);
            found = find_entry(&scheme.palette, upper.as_str());
            return match found {
                Some(h) => hex_color(name, h),
                None => {
                    let mut msg = "Missing palette color: ".to_owned();
                    msg.append(name);
                    Err(msg)
                },
            };
        }
        return hex_color(name, found.unwrap());
    }
    hex_color(name, found.unwrap())
}

/// Looking a slot up in the palette entries gives what the palette map
/// holds for it.
pub proof fn lemma_lookup_is_map(p: Seq<(Seq<char>, Seq<char>)>, key: Seq<char>)
    ensures
        palette_lookup(p, key) == (if entries_map(p).contains_key(key) {
            Some(entries_map(p)[key])
        } else {
            None::<Seq<char>>
        }),
    decreases p.len(),
{
    if p.len() > 0 {
        lemma_lookup_is_map(p.drop_last(), key);
    }
}

/// Theme metadata taken from a scheme: its name, its author (none when
/// empty) and its variant in lowercase.
pub open spec fn is_scheme_metadata(m: ThemeMetadata, s: SchemeData) -> bool {
    &&& m.name@ == s.name@
    &&& s.author@.len() == 0 ==> m.author is None
    &&& s.author@.len() > 0 ==> m.author is Some && m.author->0@ == s.author@
    &&& m.variant is Some && m.variant->0@ == lowercase_chars(s.variant@)
}

/// The hex text found for a slot is that of the last entry with the slot's
/// name, and there is none when no entry has the name.
pub proof fn lemma_lookup_last_entry(p: Seq<(Seq<char>, Seq<char>)>, key: Seq<char>, i: int)
    ensures
        0 <= i < p.len() && p[i].0 == key && (forall|k: int| i < k < p.len() ==> p[k].0 != key)
            ==> palette_lookup(p, key) == Some(p[i].1),
        (forall|k: int| 0 <= k < p.len() ==> p[k].0 != key) ==> palette_lookup(p, key) is None,
    decreases p.len(),
{
    if p.len() > 0 {
        let q = p.drop_last();
        if i < p.len() - 1 {
            lemma_lookup_last_entry(q, key, i);
        } else {
            lemma_lookup_last_entry(q, key, -1);
        }
        if (forall|k: int| 0 <= k < p.len() ==> p[k].0 != key) {
            assert(p[p.len() - 1].0 != key);
            assert forall|k: int| 0 <= k < q.len() implies q[k].0 != key by {
                assert(q[k] == p[k]);
            }
        }
        if 0 <= i < p.len() - 1 && p[i].0 == key && (forall|k: int| i < k < p.len() ==> p[k].0
            != key) {
            assert(p[p.len() - 1].0 != key);
            assert(q[i] == p[i]);
            assert forall|k: int| i < k < q.len() implies q[k].0 != key by {
                assert(q[k] == p[k]);
            }
        }
    }
}

/// The value of a lowercase hex digit.
pub open spec fn lower_hex_value(c: char) -> int {
    if '0' <= c && c <= '9' {
        (c as int) - 48
    } else {
        (c as int) - 87
    }
}

/// A slot present under exactly the requested name is read from that entry,
/// before any case-changed form of the name is tried; otherwise the
/// lowercase form is tried before the uppercase one; a slot found under
/// none of the three forms is missing.  A color held as six lowercase hex
/// digits is read as its three byte pairs, red, green, blue in that order.
pub proof fn lemma_scheme_color_laws(p: Seq<(Seq<char>, Seq<char>)>, name: Seq<char>)
    ensures
        palette_lookup(p, name) matches Some(h) ==> color_hex_of(p, name) == Some(h)
            && scheme_color_spec(p, name) == hex_color_result(name, h),
        palette_lookup(p, name) is None ==> (palette_lookup(p, lowercase_chars(name)) matches Some(
            h,
        ) ==> color_hex_of(p, name) == Some(h)),
        palette_lookup(p, name) is None && palette_lookup(p, lowercase_chars(name)) is None
            ==> color_hex_of(p, name) == palette_lookup(p, uppercase_chars(name)),
        color_hex_of(p, name) is None ==> scheme_color_spec(p, name) == Err::<Rgb8, Seq<char>>(
            "Missing palette color: "@ + name,
        ),
        color_hex_of(p, name) matches Some(h) ==> (is_hex6_lower(h) ==> scheme_color_spec(p, name)
            == Ok::<Rgb8, Seq<char>>(
            Rgb8 {
                red: (16 * lower_hex_value(h[0]) + lower_hex_value(h[1])) as u8,
                green: (16 * lower_hex_value(h[2]) + lower_hex_value(h[3])) as u8,
                blue: (16 * lower_hex_value(h[4]) + lower_hex_value(h[5])) as u8,
            },
        )),
{
    if color_hex_of(p, name) is Some {
        let h = color_hex_of(p, name)->0;
        if is_hex6_lower(h) {
            lemma_hex6_fields(h);
            let b = encode_utf8(h);
            assert forall|i: int| 0 <= i < 6 implies hex_digit_value(#[trigger] h[i]) == Some(
                lower_hex_value(h[i]),
            ) by {
                assert(is_lower_hex(h[i]));
            }
            assert(h.subrange(0, 2)[0] == h[0] && h.subrange(0, 2)[1] == h[1]);
            assert(h.subrange(2, 4)[0] == h[2] && h.subrange(2, 4)[1] == h[3]);
            assert(h.subrange(4, 6)[0] == h[4] && h.subrange(4, 6)[1] == h[5]);
            assert(is_lower_hex(h[0]) && is_lower_hex(h[2]) && is_lower_hex(h[4]));
            assert(field_value(decode_utf8(b.subrange(0, 2))) == Some(
                16 * lower_hex_value(h[0]) + lower_hex_value(h[1]),
            ));
            assert(field_value(decode_utf8(b.subrange(2, 4))) == Some(
                16 * lower_hex_value(h[2]) + lower_hex_value(h[3]),
            ));
            assert(field_value(decode_utf8(b.subrange(4, 6))) == Some(
                16 * lower_hex_value(h[4]) + lower_hex_value(h[5]),
            ));
        }
    }
}

/// Six lowercase hex digits encode as six bytes whose pairs decode to the
/// digit pairs.
proof fn lemma_hex6_fields(h: Seq<char>)
    requires
        is_hex6_lower(h),
    ensures
        encode_utf8(h).len() == 6,
        decode_utf8(encode_utf8(h).subrange(0, 2)) == h.subrange(0, 2),
        decode_utf8(encode_utf8(h).subrange(2, 4)) == h.subrange(2, 4),
        decode_utf8(encode_utf8(h).subrange(4, 6)) == h.subrange(4, 6),
{
    broadcast use group_utf8_lib;

    assert forall|i: int| 0 <= i < h.len() implies '\0' <= #[trigger] h[i] <= '\u{7f}' by {
        assert(is_lower_hex(h[i]));
    }
    is_ascii_chars_encode_utf8(h);
    lemma_ascii_field(h, 0);
    lemma_ascii_field(h, 2);
    lemma_ascii_field(h, 4);
}

/// Two ASCII characters of a text are decoded back from their two bytes.
proof fn lemma_ascii_field(h: Seq<char>, k: int)
    requires
        is_ascii_chars(h),
        0 <= k,
        k + 2 <= h.len(),
    ensures
        decode_utf8(encode_utf8(h).subrange(k, k + 2)) == h.subrange(k, k + 2),
{
    broadcast use group_utf8_lib;

    is_ascii_chars_encode_utf8(h);
    let x = h.subrange(k, k + 2);
    assert(is_ascii_chars(x));
    is_ascii_chars_encode_utf8(x);
    assert(encode_utf8(x) =~= encode_utf8(h).subrange(k, k + 2));
    encode_utf8_decode_utf8(x);
}

/// The metadata of an imported scheme: an empty author counts as none,
/// and the variant is given in lowercase.
pub fn scheme_metadata(scheme: &SchemeData) -> (r: ThemeMetadata)
    ensures
        is_scheme_metadata(r, *scheme),
{
    let author = if scheme.author.as_str().is_empty() {
        None
    } else {
        Some(scheme.author.as_str().to_owned())
    };
    ThemeMetadata {
        name: scheme.name.as_str().to_owned(),
        author,
        variant: Some(to_lowercase(scheme.variant.as_str())),
    }
}

/// What an imported scheme fixes of a theme configuration: its metadata,
/// and its background (`base00`) and foreground (`base07`) as `#rrggbb`.
pub struct ImportedTheme {
    pub theme: ThemeMetadata,
    pub background: String,
    pub foreground: String,
}

/// A color as `#` and six lowercase hex digits.
fn hash_hex(c: Rgb8) -> (r: String)
    ensures
        r@ == seq!['#'] + rgb_hex(c),
{
    let mut s = "#".to_owned();
    let h = srgb_to_hex(c);
    s.append(h.as_str());
    proof {
        reveal_strlit("#");
    }
    s
}

/// The theme settings of an imported scheme: its metadata and its
/// background and foreground colors; fails as reading either color does.
pub fn scheme_theme(scheme: &SchemeData) -> (r: Result<ImportedTheme, String>)
    requires
        scheme.wf(),
    ensures
        match (
            scheme_color_spec(entries_view(scheme.palette@), "base00"@),
            scheme_color_spec(entries_view(scheme.palette@), "base07"@),
        ) {
            (Err(m), _) => r is Err && r->Err_0@ == m,
            (Ok(_), Err(m)) => r is Err && r->Err_0@ == m,
            (Ok(b), Ok(f)) => r is Ok && is_scheme_metadata(r->Ok_0.theme, *scheme)
                && r->Ok_0.background@ == seq!['#'] + rgb_hex(b) && r->Ok_0.foreground@ == seq!['#']
                + rgb_hex(f),
        },
{
    let background = match scheme_color(scheme, "base00") {
        Ok(c) => c,
        Err(e) => return Err(e),
    };
    let foreground = match scheme_color(scheme, "base07") {
        Ok(c) => c,
        Err(e) => return Err(e),
    };
    Ok(
        ImportedTheme {
            theme: scheme_metadata(scheme),
            background: hash_hex(background),
            foreground: hash_hex(foreground),
        },
    )
}

/// The modern reading, when it succeeds, is the answer whatever the legacy
/// reading gave; when it fails, a legacy scheme whose sixteen colors are
/// all hex colors is read as a dark scheme with those colors, normalized,
/// in the slots `base00` to `base0F`, and one with a color that is not is
/// refused.
pub proof fn lemma_parse_scheme_laws(
    text: Seq<char>,
    is_json: bool,
    l1: Result<(Seq<char>, Option<Seq<char>>, Seq<Seq<char>>), Seq<char>>,
    l2: Result<(Seq<char>, Option<Seq<char>>, Seq<Seq<char>>), Seq<char>>,
    i: int,
)
    requires
        0 <= i < 16,
    ensures
        ({
            let modern = if is_json {
                json_scheme(text)
            } else {
                yaml_scheme(text)
            };
            &&& modern is Ok ==> parse_scheme_spec(text, is_json, l1) == modern
                && parse_scheme_spec(text, is_json, l1) == parse_scheme_spec(text, is_json, l2)
            &&& modern is Err ==> (l1 matches Ok(l) ==> ((forall|k: int|
                0 <= k < 16 ==> #[trigger] tinted_hex_spec(l.2[k]) is Ok) ==> {
                let r = parse_scheme_spec(text, is_json, l1);
                &&& r is Ok
                &&& r->Ok_0.0 == l.0
                &&& r->Ok_0.3 == "dark"@
                &&& r->Ok_0.4.contains_key(base_name(i))
                &&& r->Ok_0.4[base_name(i)] == tinted_hex_spec(l.2[i])->Ok_0
            }))
            &&& modern is Err ==> (l1 matches Ok(l) ==> (tinted_hex_spec(l.2[i]) is Err
                ==> parse_scheme_spec(text, is_json, l1) == Err::<
                (Seq<char>, Seq<char>, Seq<char>, Seq<char>, Map<Seq<char>, Seq<char>>),
                Seq<char>,
            >("Failed to convert legacy scheme"@)))
        }),
{
    if let Ok(l) = l1 {
        let p = legacy_entries(l.2);
        assert(p[i].0 == base_name(i));
        assert forall|k: int| i < k < p.len() implies p[k].0 != base_name(i) by {
            lemma_accent_names(k, i);
        }
        lemma_lookup_last_entry(p, base_name(i), i);
        lemma_lookup_is_map(p, base_name(i));
    }
}

} // verus!
