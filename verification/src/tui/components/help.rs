//! Footer line of key bindings: `desc: key | desc: key`.

use vstd::prelude::*;
use vstd::string::*;

use crate::text::{is_white_space, is_whitespace, lemma_skip_white_space, lowercase_chars, skip_white_space, to_lowercase};

verus! {

/// The longest beginning of a text that holds no white space.
pub open spec fn word_prefix(s: Seq<char>) -> Seq<char>
    decreases s.len(),
{
    if s.len() > 0 && !is_white_space(s[0]) {
        seq![s[0]] + word_prefix(s.drop_first())
    } else {
        Seq::empty()
    }
}

/// The first white-space separated word of a text, or the whole text when
/// it holds no word.
pub open spec fn first_word(s: Seq<char>) -> Seq<char> {
    let t = skip_white_space(s);
    if t.len() == 0 {
        s
    } else {
        word_prefix(t)
    }
}

/// The footer entry of a bound action: the first word of its description,
/// lowercased, then `: ` and its key.
pub open spec fn action_entry(desc: Seq<char>, key: Seq<char>) -> Seq<char> {
    lowercase_chars(first_word(desc)) + ": "@ + key
}

/// The footer entry of an extra binding: its description, `: `, its key.
pub open spec fn extra_entry(desc: Seq<char>, key: Seq<char>) -> Seq<char> {
    desc + ": "@ + key
}

/// Texts joined with a separator between neighbours.
pub open spec fn joined(parts: Seq<Seq<char>>, sep: Seq<char>) -> Seq<char>
    decreases parts.len(),
{
    if parts.len() == 0 {
        Seq::empty()
    } else if parts.len() == 1 {
        parts[0]
    } else {
        joined(parts.drop_last(), sep) + sep + parts.last()
    }
}

/// A list of (description, key) pairs as plain texts.
pub open spec fn pairs_view(p: Seq<(&str, &str)>) -> Seq<(Seq<char>, Seq<char>)> {
    p.map_values(|e: (&str, &str)| (e.0@, e.1@))
}

/// The entries of a footer: the bound actions first, then the extras.
pub open spec fn footer_entries(
    actions: Seq<(Seq<char>, Seq<char>)>,
    extras: Seq<(Seq<char>, Seq<char>)>,
) -> Seq<Seq<char>> {
    actions.map_values(|e: (Seq<char>, Seq<char>)| action_entry(e.0, e.1)) + extras.map_values(
        |e: (Seq<char>, Seq<char>)| extra_entry(e.0, e.1),
    )
}

proof fn lemma_word_prefix(s: Seq<char>, j: int)
    requires
        0 <= j <= s.len(),
        forall|k: int| 0 <= k < j ==> !is_white_space(#[trigger] s[k]),
        j == s.len() || is_white_space(s[j]),
    ensures
        word_prefix(s) == s.subrange(0, j),
    decreases j,
{
    if j > 0 {
        lemma_word_prefix(s.drop_first(), j - 1);
        assert(seq![s[0]] + s.drop_first().subrange(0, j - 1) =~= s.subrange(0, j));
    } else {
        if s.len() > 0 {
            assert(is_white_space(s[0]));
        }
        assert(s.subrange(0, 0) =~= Seq::<char>::empty());
    }
}

/// The first white-space separated word of a description, or the whole
/// description when it holds none.
fn first_word_of(desc: &str) -> (r: &str)
    ensures
        r@ == first_word(desc@),
{
    let n = desc.unicode_len();
    let mut i: usize = 0;
    while i < n && is_whitespace(desc.get_char(i))
        invariant
            n == desc@.len(),
            i <= n,
            forall|k: int| 0 <= k < i ==> is_white_space(#[trigger] desc@[k]),
        decreases n - i,
    {
        i = i + 1;
    }
    proof {
        lemma_skip_white_space(desc@, i as int);
    }
    let rest = desc.substring_char(i, n);
    if i == n {
        assert(rest@.len() == 0);
        return desc;
    }
    assert(skip_white_space(rest@) == rest@);
    let mut j: usize = i;
    while j < n && !is_whitespace(desc.get_char(j))
        invariant
            n == desc@.len(),
            i <= j <= n,
            forall|k: int| i <= k < j ==> !is_white_space(#[trigger] desc@[k]),
        decreases n - j,
    {
        j = j + 1;
    }
    proof {
        let t = desc@.subrange(i as int, n as int);
        assert(t == rest@);
        assert forall|k: int| 0 <= k < j - i implies !is_white_space(#[trigger] t[k]) by {
            assert(t[k] == desc@[i + k]);
        }
        if j < n {
            assert(t[j - i] == desc@[j as int]);
        }
        lemma_word_prefix(t, j - i);
        assert(t.subrange(0, j - i) =~= desc@.subrange(i as int, j as int));
    }
    desc.substring_char(i, j)
}

/// Appends one entry to a footer of `k` entries (a separator first when
/// there is one already).
fn append_entry(
    out: &mut String,
    is_first: bool,
    entry: &str,
    Ghost(k): Ghost<int>,
    Ghost(parts): Ghost<Seq<Seq<char>>>,
)
    requires
        0 <= k < parts.len(),
        is_first == (k == 0),
        old(out)@ == joined(parts.subrange(0, k), " | "@),
        entry@ == parts[k],
    ensures
        final(out)@ == joined(parts.subrange(0, k + 1), " | "@),
{
    if !is_first {
        out.append(" | ");
    }
    out.append(entry);
    proof {
        let next = parts.subrange(0, k + 1);
        assert(next.drop_last() =~= parts.subrange(0, k));
        assert(next.last() == entry@);
        if k == 0 {
            assert(final(out)@ =~= next[0]);
        }
    }
}

/// Builds a footer line from the (description, key) pairs of the bound
/// actions, whose descriptions are cut to their first word and lowercased,
/// followed by extra (description, key) pairs, all joined by ` | `.
pub fn format_footer(actions: &[(&str, &str)], extras: &[(&str, &str)]) -> (r: String)
    ensures
        r@ == joined(footer_entries(pairs_view(actions@), pairs_view(extras@)), " | "@),
{
    let ghost all = footer_entries(pairs_view(actions@), pairs_view(extras@));
    let mut out = String::new();
    let mut a: usize = 0;
    while a < actions.len()
        invariant
            all == footer_entries(pairs_view(actions@), pairs_view(extras@)),
            a <= actions@.len(),
            out@ == joined(all.subrange(0, a as int), " | "@),
        decreases actions@.len() - a,
    {
        let (desc, key) = actions[a];
        let word = first_word_of(desc);
        let lowered = to_lowercase(word);
        let mut entry = String::new();
        entry.append(lowered.as_str());
        entry.append(": ");
        entry.append(key);
        assert(entry@ == all[a as int]);
        append_entry(&mut out, a == 0, entry.as_str(), Ghost(a as int), Ghost(all));
        a = a + 1;
    }
    let mut e: usize = 0;
    while e < extras.len()
        invariant
            all == footer_entries(pairs_view(actions@), pairs_view(extras@)),
            a == actions@.len(),
            e <= extras@.len(),
            out@ == joined(all.subrange(0, a + e), " | "@),
        decreases extras@.len() - e,
    {
        let (desc, key) = extras[e];
        let mut entry = String::new();
        entry.append(desc);
        entry.append(": ");
        entry.append(key);
        assert(entry@ == all[a + e]);
        append_entry(&mut out, a == 0 && e == 0, entry.as_str(), Ghost(a + e), Ghost(all));
        e = e + 1;
    }
    assert(all.subrange(0, a + e) =~= all);
    out
}

} // verus!
