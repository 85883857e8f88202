//! Palette generation: scheme naming, variant selection and color parsing.

use vstd::prelude::*;
use vstd::string::*;
use vstd::utf8::*;

use crate::config;
use crate::interpolation::Rgb8;
use crate::text::{ascii_lower, char_is_alphanumeric, is_ascii_alphanumeric, is_alphanumeric, lowercase_chars, push_char, to_lowercase};

verus! {

/// Whether a scheme has a dark or a light background.
#[derive(Debug, Clone, Copy, PartialEq, Eq, Structural)]
pub enum SchemeVariant {
    Dark,
    Light,
}

/// Parse any CSS color string into an sRGB color (see `config::parse_color`).
pub fn parse_color(input: &str) -> (r: Result<Rgb8, String>)
    ensures
        r matches Ok(c) ==> config::parse_color_spec(input@) is Ok && config::parse_color_spec(
            input@,
        )->Ok_0 == c,
        r matches Err(e) ==> config::parse_color_spec(input@) is Err && config::parse_color_spec(
            input@,
        )->Err_0 == e@,
{
    config::parse_color(input)
}

/// Parse a hex color string into an sRGB color (see `config::parse_hex`).
pub fn parse_hex(hex: &str) -> (r: Result<Rgb8, String>)
    requires
        config::hex_code_sliceable(config::strip_hashes(hex@)),
    ensures
        r matches Ok(c) ==> config::parse_hex_spec(hex@) is Ok && config::parse_hex_spec(hex@)->Ok_0
            == c,
        r matches Err(e) ==> config::parse_hex_spec(hex@) is Err && config::parse_hex_spec(
            hex@,
        )->Err_0 == e@,
{
    config::parse_hex(hex)
}

/// What one character of a lowercased name becomes in a slug: spaces turn
/// into hyphens, letters, digits and hyphens stay, the rest is dropped.
pub open spec fn slug_char(c: char) -> Seq<char> {
    if c == ' ' {
        seq!['-']
    } else if c == '-' || char_is_alphanumeric(c) {
        seq![c]
    } else {
        Seq::empty()
    }
}

/// The slug of an already lowercased text.
pub open spec fn slug_of_lowered(s: Seq<char>) -> Seq<char>
    decreases s.len(),
{
    if s.len() == 0 {
        Seq::empty()
    } else {
        slug_of_lowered(s.drop_last()) + slug_char(s.last())
    }
}

/// The slug of a scheme name: its lowercase form with spaces as hyphens
/// and everything but letters, digits and hyphens removed.
pub open spec fn slug_spec(name: Seq<char>) -> Seq<char> {
    slug_of_lowered(lowercase_chars(name))
}

/// The slug of an already lowercased ASCII text: spaces as hyphens, only
/// letters, digits and hyphens kept.
pub open spec fn ascii_slug_of_lowered(s: Seq<char>) -> Seq<char>
    decreases s.len(),
{
    if s.len() == 0 {
        Seq::empty()
    } else {
        let c = s.last();
        ascii_slug_of_lowered(s.drop_last()) + (if c == ' ' {
            seq!['-']
        } else if c == '-' || is_ascii_alphanumeric(c) {
            seq![c]
        } else {
            Seq::empty()
        })
    }
}

/// The slug of an ASCII name: letters lowered, spaces as hyphens, only
/// letters, digits and hyphens kept.
pub open spec fn ascii_slug(s: Seq<char>) -> Seq<char> {
    ascii_slug_of_lowered(s.map_values(|c: char| ascii_lower(c)))
}

/// Builds the slug of an already lowercased text: spaces turn into
/// hyphens, letters, digits and hyphens stay, the rest is dropped.
pub fn slug_from_lowercase(text: &str) -> (r: String)
    ensures
        r@ == slug_of_lowered(text@),
        is_ascii_chars(text@) ==> r@ == ascii_slug_of_lowered(text@),
{
    let n = text.unicode_len();
    let mut out = String::new();
    let mut i: usize = 0;
    while i < n
        invariant
            n == text@.len(),
            i <= n,
            out@ == slug_of_lowered(text@.subrange(0, i as int)),
            is_ascii_chars(text@) ==> out@ == ascii_slug_of_lowered(text@.subrange(0, i as int)),
        decreases n - i,
    {
        let c = text.get_char(i);
        if c == ' ' {
            push_char(&mut out, '-');
        } else if c == '-' || is_alphanumeric(c) {
            push_char(&mut out, c);
        }
        proof {
            let next = text@.subrange(0, i + 1);
            assert(next.drop_last() =~= text@.subrange(0, i as int));
            assert(next.last() == c);
        }
        i = i + 1;
    }
    assert(text@.subrange(0, n as int) =~= text@);
    out
}

/// Builds the slug of a scheme name.
pub fn slugify(name: &str) -> (r: String)
    ensures
        r@ == slug_spec(name@),
        is_ascii_chars(name@) ==> r@ == ascii_slug(name@),
{
    let lowered = to_lowercase(name);
    proof {
        if is_ascii_chars(name@) {
            assert forall|k: int| 0 <= k < lowered@.len() implies '\0' <= #[trigger] lowered@[k]
                <= '\u{7f}' by {
                assert(lowered@[k] == ascii_lower(name@[k]));
            }
            assert(is_ascii_chars(lowered@));
        }
    }
    slug_from_lowercase(lowered.as_str())
}

/// The suffix that a slug gets for its variant.
pub open spec fn variant_suffix(v: SchemeVariant) -> Seq<char> {
    match v {
        SchemeVariant::Dark => "-dark"@,
        SchemeVariant::Light => "-light"@,
    }
}

/// Slug of a generated scheme: the name's slug followed by `-dark` or
/// `-light`.
pub fn scheme_slug(name: &str, variant: SchemeVariant) -> (r: String)
    ensures
        r@ == slug_spec(name@) + variant_suffix(variant),
        is_ascii_chars(name@) ==> r@ == ascii_slug(name@) + variant_suffix(variant),
{
    let mut s = slugify(name);
    match variant {
        SchemeVariant::Dark => s.append("-dark"),
        SchemeVariant::Light => s.append("-light"),
    }
    s
}

/// Background, foreground and variant of a generated scheme: a dark
/// scheme has the darker color behind the lighter one, a light scheme the
/// reverse; the variant is the forced one, else that of the configured
/// background.
pub open spec fn variant_colors(
    background: Rgb8,
    foreground: Rgb8,
    background_is_darker: bool,
    forced_variant: Option<SchemeVariant>,
) -> (Rgb8, Rgb8, SchemeVariant) {
    let darker = if background_is_darker {
        background
    } else {
        foreground
    };
    let lighter = if background_is_darker {
        foreground
    } else {
        background
    };
    let variant = match forced_variant {
        Some(v) => v,
        None => if background_is_darker {
            SchemeVariant::Dark
        } else {
            SchemeVariant::Light
        },
    };
    if variant == SchemeVariant::Dark {
        (darker, lighter, variant)
    } else {
        (lighter, darker, variant)
    }
}

/// The two configured colors are kept, one as background and the other as
/// foreground; a forced variant is the variant given; a dark scheme's
/// background is the darker color and a light scheme's the lighter; with
/// no forced variant the configured background and foreground stay where
/// they are and the variant follows which of them is darker.
pub proof fn lemma_variant_colors_laws(
    background: Rgb8,
    foreground: Rgb8,
    background_is_darker: bool,
    forced_variant: Option<SchemeVariant>,
)
    ensures
        ({
            let r = variant_colors(background, foreground, background_is_darker, forced_variant);
            &&& (r.0 == background && r.1 == foreground) || (r.0 == foreground && r.1 == background)
            &&& forced_variant matches Some(v) ==> r.2 == v
            &&& r.2 == SchemeVariant::Dark ==> r.0 == (if background_is_darker {
                background
            } else {
                foreground
            }) && r.1 == (if background_is_darker {
                foreground
            } else {
                background
            })
            &&& r.2 == SchemeVariant::Light ==> r.0 == (if background_is_darker {
                foreground
            } else {
                background
            }) && r.1 == (if background_is_darker {
                background
            } else {
                foreground
            })
            &&& forced_variant is None ==> r.0 == background && r.1 == foreground && (r.2
                == SchemeVariant::Dark <==> background_is_darker)
        }),
{
}

/// Background, foreground and variant of a generated scheme.
///
/// `background_is_darker` tells whether the configured background is
/// perceptually darker than the configured foreground.  A forced variant
/// puts the darker color behind a dark scheme and the lighter color behind
/// a light one; without one, the variant follows the configured background.
pub fn assign_variant_colors(
    background: Rgb8,
    foreground: Rgb8,
    background_is_darker: bool,
    forced_variant: Option<SchemeVariant>,
) -> (r: (Rgb8, Rgb8, SchemeVariant))
    ensures
        r == variant_colors(background, foreground, background_is_darker, forced_variant),
{
    let (darker, lighter) = if background_is_darker {
        (background, foreground)
    } else {
        (foreground, background)
    };
    match forced_variant {
        Some(SchemeVariant::Dark) => (darker, lighter, SchemeVariant::Dark),
        Some(SchemeVariant::Light) => (lighter, darker, SchemeVariant::Light),
        None => {
            if background_is_darker {
                (darker, lighter, SchemeVariant::Dark)
            } else {
                (lighter, darker, SchemeVariant::Light)
            }
        },
    }
}

/// The uppercase hexadecimal digit of a value below 16.
pub open spec fn upper_hex_char(n: int) -> char {
    if n < 10 {
        (48 + n) as char
    } else {
        (55 + n) as char
    }
}

/// Name of the palette slot with the given index: `base00` to `base0F`,
/// then `base10` to `base17`.
pub open spec fn base_name(i: int) -> Seq<char> {
    "base"@ + seq![if i < 16 { '0' } else { '1' }, upper_hex_char(i % 16)]
}

/// Builds the name of palette slot `index` (below 24).
pub fn base_color_name(index: usize) -> (r: String)
    requires
        index < 24,
    ensures
        r@ == base_name(index as int),
{
    let mut s = String::new();
    s.append("base");
    proof {
        reveal_strlit("base");
    }
    if index < 16 {
        push_char(&mut s, '0');
    } else {
        push_char(&mut s, '1');
    }
    let d = (index % 16) as u8;
    let c = match d {
        0 => '0',
        1 => '1',
        2 => '2',
        3 => '3',
        4 => '4',
        5 => '5',
        6 => '6',
        7 => '7',
        8 => '8',
        9 => '9',
        10 => 'A',
        11 => 'B',
        12 => 'C',
        13 => 'D',
        14 => 'E',
        _ => 'F',
    };
    push_char(&mut s, c);
    assert(s@ =~= base_name(index as int));
    s
}

/// A slug of an ASCII name holds only hyphens, ASCII letters and digits,
/// and none of its letters is uppercase.
pub proof fn lemma_ascii_slug_charset(s: Seq<char>)
    ensures
        forall|k: int|
            0 <= k < ascii_slug(s).len() ==> {
                let c = #[trigger] ascii_slug(s)[k];
                (c == '-' || is_ascii_alphanumeric(c)) && !('A' <= c && c <= 'Z')
            },
{
    lemma_lowered_slug_charset(s.map_values(|c: char| ascii_lower(c)));
}

proof fn lemma_lowered_slug_charset(t: Seq<char>)
    requires
        forall|k: int| 0 <= k < t.len() ==> !('A' <= #[trigger] t[k] && t[k] <= 'Z'),
    ensures
        forall|k: int|
            0 <= k < ascii_slug_of_lowered(t).len() ==> {
                let c = #[trigger] ascii_slug_of_lowered(t)[k];
                (c == '-' || is_ascii_alphanumeric(c)) && !('A' <= c && c <= 'Z')
            },
    decreases t.len(),
{
    if t.len() > 0 {
        let prefix = ascii_slug_of_lowered(t.drop_last());
        lemma_lowered_slug_charset(t.drop_last());
        let c = t.last();
        assert(!('A' <= c && c <= 'Z'));
        let tail = if c == ' ' {
            seq!['-']
        } else if c == '-' || is_ascii_alphanumeric(c) {
            seq![c]
        } else {
            Seq::<char>::empty()
        };
        assert(ascii_slug_of_lowered(t) == prefix + tail);
        assert forall|k: int| 0 <= k < ascii_slug_of_lowered(t).len() implies {
            let d = #[trigger] ascii_slug_of_lowered(t)[k];
            (d == '-' || is_ascii_alphanumeric(d)) && !('A' <= d && d <= 'Z')
        } by {
            if k < prefix.len() {
                assert(ascii_slug_of_lowered(t)[k] == prefix[k]);
            } else {
                assert(ascii_slug_of_lowered(t)[k] == tail[k - prefix.len()]);
            }
        }
    }
}

} // verus!
