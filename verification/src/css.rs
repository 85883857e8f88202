//! The CSS color texts on which csscolorparser would cut a character apart.
//!
//! csscolorparser reads a functional notation such as `hsl(...)` by
//! splitting its parameters and cutting an angle unit (`deg`, `grad`,
//! `rad`, `turn`) off the hue token at a byte offset, without checking that
//! the offset falls between two characters.  The functions here tell, from
//! the text alone, whether a parse would reach such a cut inside a
//! character, so that the text is answered without calling the parser.

use vstd::prelude::*;
use vstd::string::*;
use vstd::utf8::*;

use crate::text::{
    ascii_lower, drop_trailing_white_space, push_char, trim_end_text, trim_text,
    trim_white_space,
};

verus! {

/// ASCII white space as `str::split_ascii_whitespace` knows it.
pub open spec fn is_ascii_ws(c: char) -> bool {
    c == ' ' || c == '\t' || c == '\n' || c == '\x0C' || c == '\r'
}

/// A character that separates the parameters of a color function.
pub open spec fn is_param_sep(c: char) -> bool {
    c == ',' || c == '/' || is_ascii_ws(c)
}

/// The run read so far, as a list of at most one token.
pub open spec fn run_token(cur: Seq<char>) -> Seq<Seq<char>> {
    if cur.len() > 0 {
        seq![cur]
    } else {
        Seq::empty()
    }
}

/// The parameter tokens of `s` after a run `cur` already read: the maximal
/// runs of characters that are not separators.
pub open spec fn param_tokens_from(s: Seq<char>, cur: Seq<char>) -> Seq<Seq<char>>
    decreases s.len(),
{
    if s.len() == 0 {
        run_token(cur)
    } else if is_param_sep(s[0]) {
        run_token(cur) + param_tokens_from(s.drop_first(), Seq::empty())
    } else {
        param_tokens_from(s.drop_first(), cur.push(s[0]))
    }
}

/// The parameter tokens of a color function's argument text, as
/// `split(&[',', '/'])` then `split_ascii_whitespace` give them.
pub open spec fn param_tokens(s: Seq<char>) -> Seq<Seq<char>> {
    param_tokens_from(s, Seq::empty())
}

/// Equal texts when ASCII letters are compared without case (the names
/// compared here are ASCII).
pub open spec fn same_ignoring_ascii_case(a: Seq<char>, b: Seq<char>) -> bool {
    a.len() == b.len() && forall|i: int| 0 <= i < a.len() ==> #[trigger] ascii_lower(a[i]) == ascii_lower(b[i])
}

/// One step of the decimal float grammar of `f32::from_str`: states are
/// 0 start, 1 sign, 2 integer digits, 3 point without digits, 4 point
/// after digits or fraction digits, 5 exponent mark, 6 exponent sign,
/// 7 exponent digits, 8 refused.
pub open spec fn float_step(st: int, c: char) -> int {
    if '0' <= c <= '9' {
        if st == 0 || st == 1 || st == 2 {
            2
        } else if st == 3 || st == 4 {
            4
        } else if st == 5 || st == 6 || st == 7 {
            7
        } else {
            8
        }
    } else if c == '+' || c == '-' {
        if st == 0 {
            1
        } else if st == 5 {
            6
        } else {
            8
        }
    } else if c == '.' {
        if st == 0 || st == 1 {
            3
        } else if st == 2 {
            4
        } else {
            8
        }
    } else if c == 'e' || c == 'E' {
        if st == 2 || st == 4 {
            5
        } else {
            8
        }
    } else {
        8
    }
}

/// The grammar state after reading a whole text.
pub open spec fn float_state(s: Seq<char>) -> int
    decreases s.len(),
{
    if s.len() == 0 {
        0
    } else {
        float_step(float_state(s.drop_last()), s.last())
    }
}

/// A decimal number: digits with an optional point and exponent.
pub open spec fn is_float_number(s: Seq<char>) -> bool {
    let st = float_state(s);
    st == 2 || st == 4 || st == 7
}

/// A text without one leading sign.
pub open spec fn unsigned_part(s: Seq<char>) -> Seq<char> {
    if s.len() > 0 && (s[0] == '+' || s[0] == '-') {
        s.drop_first()
    } else {
        s
    }
}

/// `inf`, `infinity` or `nan` in any case, after an optional sign.
pub open spec fn is_float_word(s: Seq<char>) -> bool {
    let w = unsigned_part(s);
    same_ignoring_ascii_case(w, "inf"@) || same_ignoring_ascii_case(w, "infinity"@)
        || same_ignoring_ascii_case(w, "nan"@)
}

/// A text that `f32::from_str` accepts, by the grammar its documentation
/// gives.
pub open spec fn is_f32_text(s: Seq<char>) -> bool {
    is_float_number(s) || is_float_word(s)
}

/// A token that csscolorparser reads as a percentage or a number.
pub open spec fn is_percent_or_float(s: Seq<char>) -> bool {
    (s.len() > 0 && s.last() == '%' && is_f32_text(s.drop_last())) || is_f32_text(s)
}

/// Cutting a three- or four-byte unit off the token's end would fall
/// inside a character.
pub open spec fn angle_cut_breaks(tok: Seq<char>) -> bool {
    let b = encode_utf8(tok);
    (b.len() >= 3 && !is_char_boundary(b, b.len() - 3)) || (b.len() >= 4 && !is_char_boundary(
        b,
        b.len() - 4,
    ))
}

/// The functions whose first parameter is a hue.
pub open spec fn is_hue_first_function(f: Seq<char>) -> bool {
    same_ignoring_ascii_case(f, "hsl"@) || same_ignoring_ascii_case(f, "hsla"@)
        || same_ignoring_ascii_case(f, "hwb"@) || same_ignoring_ascii_case(f, "hwba"@)
        || same_ignoring_ascii_case(f, "hsv"@) || same_ignoring_ascii_case(f, "hsva"@)
}

/// A function call whose parameters reach the hue reading, with a hue
/// token that would be cut inside a character.
pub open spec fn function_cut_breaks(fname: Seq<char>, toks: Seq<Seq<char>>) -> bool {
    &&& toks.len() == 3 || (toks.len() == 4 && is_percent_or_float(toks[3]))
    &&& (is_hue_first_function(fname) && angle_cut_breaks(toks[0])) || (same_ignoring_ascii_case(
        fname,
        "oklch"@,
    ) && angle_cut_breaks(toks[2]))
}

/// The index of the first occurrence of a character.
pub open spec fn index_of_char(s: Seq<char>, c: char) -> Option<int>
    decreases s.len(),
{
    if s.len() == 0 {
        None
    } else if s[0] == c {
        Some(0)
    } else {
        match index_of_char(s.drop_first(), c) {
            Some(k) => Some(k + 1),
            None => None,
        }
    }
}

/// Whether csscolorparser, parsing this text, would cut a hue token
/// inside a character: the trimmed text is not `transparent` and does not
/// start with `#`, it ends with `)`, and the function before the first `(`
/// reads a hue whose unit cut falls inside a character.
pub open spec fn css_cut_breaks(input: Seq<char>) -> bool {
    let t = trim_white_space(input);
    if same_ignoring_ascii_case(t, "transparent"@) || (t.len() > 0 && t[0] == '#') || !(t.len()
        > 0 && t.last() == ')') {
        false
    } else {
        match index_of_char(t, '(') {
            None => false,
            Some(k) => function_cut_breaks(
                drop_trailing_white_space(t.subrange(0, k)),
                param_tokens(t.subrange(k + 1, t.len() - 1)),
            ),
        }
    }
}

/// Whether two characters are equal once ASCII letters are lowercased.
fn chars_match(a: char, b: char) -> (r: bool)
    ensures
        r == (ascii_lower(a) == ascii_lower(b)),
{
    let x = a as u32;
    let y = b as u32;
    let lx: u32 = if 65 <= x && x <= 90 {
        x + 32
    } else {
        x
    };
    let ly: u32 = if 65 <= y && y <= 90 {
        y + 32
    } else {
        y
    };
    proof {
        char_u32_cast(a, x);
        char_u32_cast(b, y);
        if 65 <= x <= 90 {
            assert((lx as char) as u32 == lx) by {
                char_u32_cast((x + 32) as char, lx);
            }
        }
        if 65 <= y <= 90 {
            assert((ly as char) as u32 == ly) by {
                char_u32_cast((y + 32) as char, ly);
            }
        }
    }
    lx == ly
}

/// `str::eq_ignore_ascii_case`.
fn eq_ignoring_ascii_case(a: &str, b: &str) -> (r: bool)
    ensures
        r == same_ignoring_ascii_case(a@, b@),
{
    let n = a.unicode_len();
    if n != b.unicode_len() {
        return false;
    }
    let mut i: usize = 0;
    while i < n
        invariant
            n == a@.len(),
            n == b@.len(),
            i <= n,
            forall|j: int| 0 <= j < i ==> #[trigger] ascii_lower(a@[j]) == ascii_lower(b@[j]),
        decreases n - i,
    {
        if !chars_match(a.get_char(i), b.get_char(i)) {
            return false;
        }
        i = i + 1;
    }
    true
}

/// One step of the float grammar.
fn float_step_exec(st: u8, c: char) -> (r: u8)
    requires
        st <= 8,
    ensures
        r as int == float_step(st as int, c),
        r <= 8,
{
    if '0' <= c && c <= '9' {
        if st <= 2 {
            2
        } else if st <= 4 {
            4
        } else if st <= 7 {
            7
        } else {
            8
        }
    } else if c == '+' || c == '-' {
        if st == 0 {
            1
        } else if st == 5 {
            6
        } else {
            8
        }
    } else if c == '.' {
        if st <= 1 {
            3
        } else if st == 2 {
            4
        } else {
            8
        }
    } else if c == 'e' || c == 'E' {
        if st == 2 || st == 4 {
            5
        } else {
            8
        }
    } else {
        8
    }
}

/// Whether `f32::from_str` accepts a text.
fn f32_text(s: &str) -> (r: bool)
    ensures
        r == is_f32_text(s@),
{
    let n = s.unicode_len();
    let mut st: u8 = 0;
    let mut i: usize = 0;
    while i < n
        invariant
            n == s@.len(),
            i <= n,
            st <= 8,
            st as int == float_state(s@.subrange(0, i as int)),
        decreases n - i,
    {
        proof {
            let p = s@.subrange(0, i + 1);
            assert(p.drop_last() =~= s@.subrange(0, i as int));
            assert(p.last() == s@[i as int]);
        }
        st = float_step_exec(st, s.get_char(i));
        i = i + 1;
    }
    assert(s@.subrange(0, n as int) =~= s@);
    if st == 2 || st == 4 || st == 7 {
        return true;
    }
    let w = if n > 0 && (s.get_char(0) == '+' || s.get_char(0) == '-') {
        s.substring_char(1, n)
    } else {
        s
    };
    proof {
        if n > 0 && (s@[0] == '+' || s@[0] == '-') {
            assert(s@.subrange(1, n as int) =~= s@.drop_first());
        }
        assert(w@ == unsigned_part(s@));
    }
    eq_ignoring_ascii_case(w, "inf") || eq_ignoring_ascii_case(w, "infinity")
        || eq_ignoring_ascii_case(w, "nan")
}

/// Whether csscolorparser reads a token as a percentage or a number.
fn percent_or_float(s: &str) -> (r: bool)
    ensures
        r == is_percent_or_float(s@),
{
    let n = s.unicode_len();
    if n > 0 && s.get_char(n - 1) == '%' {
        let body = s.substring_char(0, n - 1);
        assert(body@ =~= s@.drop_last());
        if f32_text(body) {
            return true;
        }
    }
    f32_text(s)
}

/// Whether cutting a unit off the token's end would fall inside a
/// character.
fn angle_cut_breaks_exec(tok: &str) -> (r: bool)
    ensures
        r == angle_cut_breaks(tok@),
{
    let n = tok.as_bytes().len();
    (n >= 3 && !tok.is_char_boundary(n - 3)) || (n >= 4 && !tok.is_char_boundary(n - 4))
}

/// The parameter tokens of a color function's argument text.
fn split_params(s: &str) -> (r: Vec<String>)
    ensures
        r@.map_values(|x: String| x@) == param_tokens(s@),
{
    let n = s.unicode_len();
    let mut toks: Vec<String> = Vec::new();
    let mut cur = String::new();
    let mut i: usize = 0;
    proof {
        assert(s@.subrange(0, n as int) =~= s@);
        assert(toks@.map_values(|x: String| x@) + param_tokens(s@) =~= param_tokens(s@));
        assert(cur@ =~= Seq::<char>::empty());
    }
    while i < n
        invariant
            n == s@.len(),
            i <= n,
            param_tokens(s@) == toks@.map_values(|x: String| x@) + param_tokens_from(
                s@.subrange(i as int, n as int),
                cur@,
            ),
        decreases n - i,
    {
        let ghost rest = s@.subrange(i as int, n as int);
        let ghost before = toks@.map_values(|x: String| x@);
        let ghost cur0 = cur@;
        let c = s.get_char(i);
        proof {
            assert(rest[0] == c);
            assert(rest.drop_first() =~= s@.subrange(i + 1, n as int));
        }
        if c == ',' || c == '/' || c == ' ' || c == '\t' || c == '\n' || c == '\x0C' || c
            == '\r' {
            if cur.unicode_len() > 0 {
                toks.push(cur);
                proof {
                    assert(toks@.map_values(|x: String| x@) =~= before + run_token(cur0));
                }
            } else {
                proof {
                    assert(before + run_token(cur0) =~= before);
                }
            }
            cur = String::new();
            proof {
                let tail = param_tokens_from(rest.drop_first(), Seq::empty());
                assert(param_tokens_from(rest, cur0) == run_token(cur0) + tail);
                assert(before + (run_token(cur0) + tail) =~= (before + run_token(cur0)) + tail);
                assert(cur@ =~= Seq::<char>::empty());
            }
        } else {
            push_char(&mut cur, c);
            proof {
                assert(param_tokens_from(rest, cur0) == param_tokens_from(
                    rest.drop_first(),
                    cur0.push(c),
                ));
            }
        }
        i = i + 1;
    }
    proof {
        assert(s@.subrange(n as int, n as int) =~= Seq::<char>::empty());
    }
    if cur.unicode_len() > 0 {
        let ghost token = cur@;
        let ghost before = toks@.map_values(|x: String| x@);
        toks.push(cur);
        assert(toks@.map_values(|x: String| x@) =~= before + run_token(token));
    } else {
        assert(toks@.map_values(|x: String| x@) + run_token(cur@) =~= toks@.map_values(
            |x: String| x@,
        ));
    }
    toks
}

/// The index of the first occurrence of a character (`str::find`, counted
/// in characters).
fn find_char(s: &str, c: char) -> (r: Option<usize>)
    ensures
        match index_of_char(s@, c) {
            Some(k) => r == Some(k as usize),
            None => r is None,
        },
{
    let n = s.unicode_len();
    let mut i: usize = 0;
    assert(s@.subrange(0, n as int) =~= s@);
    while i < n
        invariant
            n == s@.len(),
            i <= n,
            index_of_char(s@, c) == (match index_of_char(s@.subrange(i as int, n as int), c) {
                Some(k) => Some(k + i),
                None => None,
            }),
        decreases n - i,
    {
        let ghost rest = s@.subrange(i as int, n as int);
        proof {
            assert(rest[0] == s@[i as int]);
            assert(rest.drop_first() =~= s@.subrange(i + 1, n as int));
        }
        if s.get_char(i) == c {
            return Some(i);
        }
        i = i + 1;
    }
    assert(s@.subrange(n as int, n as int) =~= Seq::<char>::empty());
    None
}

/// The index found is that of the character.
proof fn lemma_index_of_char(s: Seq<char>, c: char)
    ensures
        index_of_char(s, c) matches Some(k) ==> 0 <= k < s.len() && s[k] == c,
    decreases s.len(),
{
    if s.len() > 0 && s[0] != c {
        lemma_index_of_char(s.drop_first(), c);
    }
}

/// Whether csscolorparser, parsing this text, would cut a hue token inside
/// a character (see `css_cut_breaks`).
pub fn cuts_inside_char(input: &str) -> (r: bool)
    ensures
        r == css_cut_breaks(input@),
{
    let t = trim_text(input);
    let n = t.unicode_len();
    if eq_ignoring_ascii_case(t, "transparent") || (n > 0 && t.get_char(0) == '#') || !(n > 0
        && t.get_char(n - 1) == ')') {
        return false;
    }
    let k = match find_char(t, '(') {
        Some(k) => k,
        None => return false,
    };
    proof {
        lemma_index_of_char(t@, '(');
    }
    let fname = trim_end_text(t.substring_char(0, k));
    let toks = split_params(t.substring_char(k + 1, n - 1));
    let ghost tv = toks@.map_values(|x: String| x@);
    let count = toks.len();
    if !(count == 3 || (count == 4 && percent_or_float(toks[3].as_str()))) {
        return false;
    }
    proof {
        assert(tv[0] == toks@[0]@);
        assert(tv[2] == toks@[2]@);
        if count == 4 {
            assert(tv[3] == toks@[3]@);
        }
    }
    let hue_first = eq_ignoring_ascii_case(fname, "hsl") || eq_ignoring_ascii_case(fname, "hsla")
        || eq_ignoring_ascii_case(fname, "hwb") || eq_ignoring_ascii_case(fname, "hwba")
        || eq_ignoring_ascii_case(fname, "hsv") || eq_ignoring_ascii_case(fname, "hsva");
    (hue_first && angle_cut_breaks_exec(toks[0].as_str())) || (eq_ignoring_ascii_case(
        fname,
        "oklch",
    ) && angle_cut_breaks_exec(toks[2].as_str()))
}

/// Every parameter token is a non-empty run of characters that are not
/// separators, and a run of ASCII characters gives ASCII tokens.
pub proof fn lemma_param_tokens_shape(s: Seq<char>, cur: Seq<char>)
    requires
        forall|k: int| 0 <= k < cur.len() ==> !is_param_sep(#[trigger] cur[k]),
    ensures
        forall|i: int| 0 <= i < param_tokens_from(s, cur).len() ==> {
            let t = #[trigger] param_tokens_from(s, cur)[i];
            &&& t.len() > 0
            &&& forall|k: int| 0 <= k < t.len() ==> !is_param_sep(#[trigger] t[k])
        },
        is_ascii_chars(s) && is_ascii_chars(cur) ==> forall|i: int|
            0 <= i < param_tokens_from(s, cur).len() ==> is_ascii_chars(
                #[trigger] param_tokens_from(s, cur)[i],
            ),
    decreases s.len(),
{
    if s.len() == 0 {
        if cur.len() > 0 {
            assert(param_tokens_from(s, cur) =~= seq![cur]);
        } else {
            assert(param_tokens_from(s, cur) =~= Seq::<Seq<char>>::empty());
        }
    } else if is_param_sep(s[0]) {
        lemma_param_tokens_shape(s.drop_first(), Seq::empty());
        let rest = param_tokens_from(s.drop_first(), Seq::empty());
        let all = run_token(cur) + rest;
        assert(param_tokens_from(s, cur) == all);
        assert forall|i: int| 0 <= i < all.len() implies (#[trigger] all[i]).len() > 0 && (forall|
            k: int,
        | 0 <= k < all[i].len() ==> !is_param_sep(#[trigger] all[i][k])) by {
            if i >= run_token(cur).len() {
                assert(all[i] == rest[i - run_token(cur).len()]);
            } else {
                assert(all[i] == cur);
            }
        }
        if is_ascii_chars(s) && is_ascii_chars(cur) {
            assert(is_ascii_chars(s.drop_first())) by {
                assert forall|k: int| 0 <= k < s.drop_first().len() implies '\0'
                    <= #[trigger] s.drop_first()[k] <= '\u{7f}' by {
                    assert(s.drop_first()[k] == s[k + 1]);
                }
            }
            lemma_param_tokens_shape(s.drop_first(), Seq::empty());
            assert forall|i: int| 0 <= i < all.len() implies is_ascii_chars(#[trigger] all[i]) by {
                if i >= run_token(cur).len() {
                    assert(all[i] == rest[i - run_token(cur).len()]);
                }
            }
        }
    } else {
        let nc = cur.push(s[0]);
        assert(param_tokens_from(s, cur) == param_tokens_from(s.drop_first(), nc));
        assert forall|k: int| 0 <= k < nc.len() implies !is_param_sep(#[trigger] nc[k]) by {
            if k < cur.len() {
                assert(nc[k] == cur[k]);
            }
        }
        lemma_param_tokens_shape(s.drop_first(), nc);
        if is_ascii_chars(s) && is_ascii_chars(cur) {
            assert(is_ascii_chars(s.drop_first())) by {
                assert forall|k: int| 0 <= k < s.drop_first().len() implies '\0'
                    <= #[trigger] s.drop_first()[k] <= '\u{7f}' by {
                    assert(s.drop_first()[k] == s[k + 1]);
                }
            }
            assert(is_ascii_chars(nc)) by {
                assert forall|k: int| 0 <= k < nc.len() implies '\0' <= #[trigger] nc[k] <= '\u{7f}' by {
                    if k < cur.len() {
                        assert(nc[k] == cur[k]);
                    } else {
                        assert(nc[k] == s[0]);
                    }
                }
            }
            lemma_param_tokens_shape(s.drop_first(), nc);
        }
    }
}

/// Cutting bytes off the end of an ASCII token never falls inside a
/// character.
proof fn lemma_ascii_angle_cut(tok: Seq<char>)
    requires
        is_ascii_chars(tok),
    ensures
        !angle_cut_breaks(tok),
{
    broadcast use group_utf8_lib;

    let b = encode_utf8(tok);
    is_ascii_chars_encode_utf8(tok);
    assert forall|k: int| 0 <= k <= b.len() implies is_char_boundary(b, k) by {
        if k == b.len() || k == 0 {
            is_char_boundary_start_end_of_seq(b);
        } else {
            assert(tok[k] <= '\u{7f}');
            assert(b[k] == tok[k] as u8);
            is_char_boundary_iff_not_is_continuation_byte(b, k);
        }
    }
}

/// csscolorparser never cuts a character of an ASCII text apart: only a
/// hue token holding a character outside ASCII can be cut inside one.
pub proof fn lemma_ascii_never_cut(input: Seq<char>)
    requires
        is_ascii_chars(input),
    ensures
        !css_cut_breaks(input),
{
    let t = trim_white_space(input);
    crate::text::lemma_trim_keeps_ascii(input);
    assert(is_ascii_chars(t));
    if !(same_ignoring_ascii_case(t, "transparent"@) || (t.len() > 0 && t[0] == '#') || !(t.len() > 0
        && t.last() == ')')) {
        lemma_index_of_char(t, '(');
        if let Some(k) = index_of_char(t, '(') {
            let inner = t.subrange(k + 1, t.len() - 1);
            assert(is_ascii_chars(inner)) by {
                assert forall|i: int| 0 <= i < inner.len() implies '\0' <= #[trigger] inner[i]
                    <= '\u{7f}' by {
                    assert(inner[i] == t[i + k + 1]);
                }
            }
            lemma_param_tokens_shape(inner, Seq::empty());
            let toks = param_tokens(inner);
            if toks.len() >= 3 {
                lemma_ascii_angle_cut(toks[0]);
                lemma_ascii_angle_cut(toks[2]);
            }
        }
    }
}

} // verus!
