//! Character and string primitives of the standard library that the
//! verified code builds on, with what their documentation promises.

use vstd::prelude::*;
use vstd::utf8::*;

verus! {

/// Appends one character to a string (`String::push`).
#[verifier::external_body]
pub(crate) fn push_char(s: &mut String, c: char)
    ensures
        final(s)@ == old(s)@.push(c),
{
    s.push(c);
}

/// Removes the last character of a string and returns it, or returns
/// `None` on an empty string, which stays empty (`String::pop`).
#[verifier::external_body]
pub(crate) fn pop_char(s: &mut String) -> (r: Option<char>)
    ensures
        old(s)@.len() == 0 ==> r is None && final(s)@ == old(s)@,
        old(s)@.len() > 0 ==> r == Some(old(s)@.last()) && final(s)@ == old(s)@.drop_last(),
{
    s.pop()
}

} // verus!

verus! {

/// The lowercase form of a text as `str::to_lowercase` computes it
/// (Unicode lowercase mapping, with the final-sigma rule taking the
/// neighbouring characters into account).
pub uninterp spec fn lowercase_chars(s: Seq<char>) -> Seq<char>;

/// The uppercase form of a text as `str::to_uppercase` computes it
/// (Unicode uppercase mapping, which may turn one character into several).
pub uninterp spec fn uppercase_chars(s: Seq<char>) -> Seq<char>;

/// Whether `char::is_alphanumeric` holds of a character (Unicode
/// `Alphabetic` or `Numeric`).
pub uninterp spec fn char_is_alphanumeric(c: char) -> bool;

/// The characters with the Unicode `White_Space` property, which
/// `char::is_whitespace` tests: tab to carriage return, space, next line,
/// no-break space, ogham space mark, the spaces from en quad to hair space,
/// line and paragraph separators, narrow no-break space, medium
/// mathematical space and ideographic space.
pub open spec fn is_white_space(c: char) -> bool {
    let v = c as u32;
    ||| 9 <= v <= 13
    ||| v == 0x20
    ||| v == 0x85
    ||| v == 0xA0
    ||| v == 0x1680
    ||| 0x2000 <= v <= 0x200A
    ||| v == 0x2028
    ||| v == 0x2029
    ||| v == 0x202F
    ||| v == 0x205F
    ||| v == 0x3000
}

/// ASCII letters and digits.
pub open spec fn is_ascii_alphanumeric(c: char) -> bool {
    let v = c as u32;
    (48 <= v <= 57) || (65 <= v <= 90) || (97 <= v <= 122)
}

/// The ASCII lowercase of one character (other characters unchanged).
pub open spec fn ascii_lower(c: char) -> char {
    let v = c as u32;
    if 65 <= v <= 90 {
        (v + 32) as char
    } else {
        c
    }
}

/// Lowercase copy of a text (`str::to_lowercase`).
///
/// The result is named by `lowercase_chars`; for an ASCII text the
/// documented Unicode mapping lowers `A`-`Z` and leaves every other
/// character alone, which the second clause states.
#[verifier::external_body]
pub(crate) fn to_lowercase(s: &str) -> (r: String)
    ensures
        r@ == lowercase_chars(s@),
        is_ascii_chars(s@) ==> r@ == s@.map_values(|c: char| ascii_lower(c)),
{
    s.to_lowercase()
}

/// The ASCII uppercase of one character (other characters unchanged).
pub open spec fn ascii_upper(c: char) -> char {
    let v = c as u32;
    if 97 <= v <= 122 {
        (v - 32) as char
    } else {
        c
    }
}

/// Uppercase copy of a text (`str::to_uppercase`).
///
/// The result is named by `uppercase_chars`; for an ASCII text the
/// documented Unicode mapping raises `a`-`z` and leaves every other
/// character alone, which the second clause states.
#[verifier::external_body]
pub(crate) fn to_uppercase(s: &str) -> (r: String)
    ensures
        r@ == uppercase_chars(s@),
        is_ascii_chars(s@) ==> r@ == s@.map_values(|c: char| ascii_upper(c)),
{
    s.to_uppercase()
}

/// Whether a character is alphabetic or numeric (`char::is_alphanumeric`).
///
/// The result is named by `char_is_alphanumeric`; for ASCII characters it
/// holds exactly of letters and digits.
#[verifier::external_body]
pub(crate) fn is_alphanumeric(c: char) -> (r: bool)
    ensures
        r == char_is_alphanumeric(c),
        (c as u32) < 128 ==> (r <==> is_ascii_alphanumeric(c)),
{
    c.is_alphanumeric()
}

} // verus!

verus! {

/// Whether two texts are the same character sequence.
pub(crate) fn same_text(a: &str, b: &str) -> (r: bool)
    ensures
        r == (a@ == b@),
{
    let n = a.unicode_len();
    let m = b.unicode_len();
    if n != m {
        return false;
    }
    let mut i: usize = 0;
    while i < n
        invariant
            n == a@.len(),
            n == b@.len(),
            i <= n,
            forall|j: int| 0 <= j < i ==> a@[j] == b@[j],
        decreases n - i,
    {
        if a.get_char(i) != b.get_char(i) {
            return false;
        }
        i = i + 1;
    }
    assert(a@ =~= b@);
    true
}

} // verus!

verus! {

/// Whether a character is white space, as `char::is_whitespace` decides.
pub fn is_whitespace(c: char) -> (r: bool)
    ensures
        r == is_white_space(c),
{
    let v = c as u32;
    (9 <= v && v <= 13) || v == 0x20 || v == 0x85 || v == 0xA0 || v == 0x1680 || (0x2000 <= v
        && v <= 0x200A) || v == 0x2028 || v == 0x2029 || v == 0x202F || v == 0x205F || v == 0x3000
}

/// A text without its leading white space.
pub open spec fn skip_white_space(s: Seq<char>) -> Seq<char>
    decreases s.len(),
{
    if s.len() > 0 && is_white_space(s[0]) {
        skip_white_space(s.drop_first())
    } else {
        s
    }
}

/// A text without its trailing white space.
pub open spec fn drop_trailing_white_space(s: Seq<char>) -> Seq<char>
    decreases s.len(),
{
    if s.len() > 0 && is_white_space(s.last()) {
        drop_trailing_white_space(s.drop_last())
    } else {
        s
    }
}

/// A text without its leading and trailing white space (`str::trim`).
pub open spec fn trim_white_space(s: Seq<char>) -> Seq<char> {
    drop_trailing_white_space(skip_white_space(s))
}

/// Skipping `i` leading white-space characters does not change what
/// skipping all leading white space gives.
pub(crate) proof fn lemma_skip_white_space(s: Seq<char>, i: int)
    requires
        0 <= i <= s.len(),
        forall|k: int| 0 <= k < i ==> is_white_space(#[trigger] s[k]),
    ensures
        skip_white_space(s) == skip_white_space(s.subrange(i, s.len() as int)),
    decreases i,
{
    if i > 0 {
        assert(s.drop_first() =~= s.subrange(1, s.len() as int));
        lemma_skip_white_space(s.drop_first(), i - 1);
        assert(s.drop_first().subrange(i - 1, s.drop_first().len() as int) =~= s.subrange(
            i,
            s.len() as int,
        ));
    } else {
        assert(s.subrange(0, s.len() as int) =~= s);
    }
}

/// Dropping trailing white space from `s[..j]`, which ends before a
/// white-space run reaching the end of `s`, is what dropping it from `s`
/// gives.
proof fn lemma_drop_trailing_white_space(s: Seq<char>, j: int)
    requires
        0 <= j <= s.len(),
        forall|k: int| j <= k < s.len() ==> is_white_space(#[trigger] s[k]),
    ensures
        drop_trailing_white_space(s) == drop_trailing_white_space(s.subrange(0, j)),
    decreases s.len() - j,
{
    if j < s.len() {
        assert(s.drop_last().subrange(0, j) =~= s.subrange(0, j));
        lemma_drop_trailing_white_space(s.drop_last(), j);
    } else {
        assert(s.subrange(0, j) =~= s);
    }
}

/// Trimming white space off an ASCII text leaves an ASCII text.
pub(crate) proof fn lemma_trim_keeps_ascii(s: Seq<char>)
    requires
        is_ascii_chars(s),
    ensures
        is_ascii_chars(trim_white_space(s)),
{
    lemma_skip_keeps_ascii(s);
    lemma_drop_trailing_keeps_ascii(skip_white_space(s));
}

proof fn lemma_skip_keeps_ascii(s: Seq<char>)
    requires
        is_ascii_chars(s),
    ensures
        is_ascii_chars(skip_white_space(s)),
    decreases s.len(),
{
    if s.len() > 0 && is_white_space(s[0]) {
        assert forall|k: int| 0 <= k < s.drop_first().len() implies '\0' <= #[trigger] s.drop_first()[k]
            <= '\u{7f}' by {
            assert(s.drop_first()[k] == s[k + 1]);
        }
        lemma_skip_keeps_ascii(s.drop_first());
    }
}

proof fn lemma_drop_trailing_keeps_ascii(s: Seq<char>)
    requires
        is_ascii_chars(s),
    ensures
        is_ascii_chars(drop_trailing_white_space(s)),
    decreases s.len(),
{
    if s.len() > 0 && is_white_space(s.last()) {
        assert forall|k: int| 0 <= k < s.drop_last().len() implies '\0' <= #[trigger] s.drop_last()[k]
            <= '\u{7f}' by {
            assert(s.drop_last()[k] == s[k]);
        }
        lemma_drop_trailing_keeps_ascii(s.drop_last());
    }
}

/// A text without its trailing white space (`str::trim_end`).
pub(crate) fn trim_end_text(s: &str) -> (r: &str)
    ensures
        r@ == drop_trailing_white_space(s@),
{
    let n = s.unicode_len();
    let mut j: usize = n;
    while j > 0 && is_whitespace(s.get_char(j - 1))
        invariant
            n == s@.len(),
            j <= n,
            forall|k: int| j <= k < n ==> is_white_space(#[trigger] s@[k]),
        decreases j,
    {
        j = j - 1;
    }
    proof {
        lemma_drop_trailing_white_space(s@, j as int);
        let u = s@.subrange(0, j as int);
        if j > 0 {
            assert(u.last() == s@[j - 1]);
        }
        assert(drop_trailing_white_space(u) == u);
    }
    s.substring_char(0, j)
}

/// A text without its leading and trailing white space (`str::trim`).
pub(crate) fn trim_text(s: &str) -> (r: &str)
    ensures
        r@ == trim_white_space(s@),
{
    let n = s.unicode_len();
    let mut i: usize = 0;
    while i < n && is_whitespace(s.get_char(i))
        invariant
            n == s@.len(),
            i <= n,
            forall|k: int| 0 <= k < i ==> is_white_space(#[trigger] s@[k]),
        decreases n - i,
    {
        i = i + 1;
    }
    proof {
        lemma_skip_white_space(s@, i as int);
        let t = s@.subrange(i as int, n as int);
        if i < n {
            assert(t[0] == s@[i as int]);
        }
        assert(skip_white_space(t) == t);
    }
    trim_end_text(s.substring_char(i, n))
}

} // verus!
