//! Which color pairs a palette is checked on, and at what APCA threshold.

use vstd::prelude::*;
use vstd::string::*;

use crate::generate::{base_name, upper_hex_char};
use crate::text::same_text;

verus! {

/// The APCA contrast levels a pair is held to.
#[derive(Debug, Clone, Copy, PartialEq, Eq, Structural)]
pub enum Threshold {
    /// Body text (minimum level) - Lc 75
    BodyTextMin,
    /// Content text (non-body) - Lc 60
    ContentText,
}

/// Minimum Lc of a threshold.
pub open spec fn threshold_min_lc(t: Threshold) -> int {
    match t {
        Threshold::BodyTextMin => 75,
        Threshold::ContentText => 60,
    }
}

/// Description of a threshold.
pub open spec fn threshold_description(t: Threshold) -> Seq<char> {
    match t {
        Threshold::BodyTextMin => "Body text (minimum)"@,
        Threshold::ContentText => "Content text"@,
    }
}

impl Threshold {
    /// Minimum APCA lightness contrast (Lc) required by this threshold.
    pub fn min_lc(self) -> (r: u32)
        ensures
            r == threshold_min_lc(self),
    {
        match self {
            Threshold::BodyTextMin => 75,
            Threshold::ContentText => 60,
        }
    }

    /// Human-readable description of this threshold.
    pub fn description(self) -> (r: &'static str)
        ensures
            r@ == threshold_description(self),
    {
        match self {
            Threshold::BodyTextMin => "Body text (minimum)",
            Threshold::ContentText => "Content text",
        }
    }
}

/// A color pair that should be validated for contrast.
#[derive(Debug, Clone, Copy)]
pub struct ValidationPair {
    pub foreground: &'static str,
    pub background: &'static str,
    pub threshold: Threshold,
}

/// A validation pair as plain values.
pub open spec fn pair_view(p: ValidationPair) -> (Seq<char>, Seq<char>, Threshold) {
    (p.foreground@, p.background@, p.threshold)
}

/// The pairs that must pass: `base06` and `base07` on `base00` and
/// `base01` at body-text level, then every accent (`base08`-`base0F`,
/// `base10`-`base17`) on `base00` at content-text level.
pub open spec fn required_pairs_spec() -> Seq<(Seq<char>, Seq<char>, Threshold)> {
    seq![
        ("base06"@, "base00"@, Threshold::BodyTextMin),
        ("base06"@, "base01"@, Threshold::BodyTextMin),
        ("base07"@, "base00"@, Threshold::BodyTextMin),
        ("base07"@, "base01"@, Threshold::BodyTextMin),
    ] + accent_pairs_on("base00"@)
}

/// The informational pairs: every accent on `base01` at content-text level.
pub open spec fn reference_pairs_spec() -> Seq<(Seq<char>, Seq<char>, Threshold)> {
    accent_pairs_on("base01"@)
}

/// Every accent slot (`base08` to `base17`, in order) on one background.
pub open spec fn accent_pairs_on(bg: Seq<char>) -> Seq<(Seq<char>, Seq<char>, Threshold)> {
    Seq::new(16, |k: int| (base_name(k + 8), bg, Threshold::ContentText))
}

/// The accent slot names, in palette order.
fn accent_names() -> (r: Vec<&'static str>)
    ensures
        r@.len() == 16,
        forall|k: int| 0 <= k < 16 ==> (#[trigger] r@[k])@ == base_name(k + 8),
{
    let v: Vec<&'static str> = vec![
        "base08",
        "base09",
        "base0A",
        "base0B",
        "base0C",
        "base0D",
        "base0E",
        "base0F",
        "base10",
        "base11",
        "base12",
        "base13",
        "base14",
        "base15",
        "base16",
        "base17",
    ];
    proof {
        reveal_strlit("base08");
        reveal_strlit("base09");
        reveal_strlit("base0A");
        reveal_strlit("base0B");
        reveal_strlit("base0C");
        reveal_strlit("base0D");
        reveal_strlit("base0E");
        reveal_strlit("base0F");
        reveal_strlit("base10");
        reveal_strlit("base11");
        reveal_strlit("base12");
        reveal_strlit("base13");
        reveal_strlit("base14");
        reveal_strlit("base15");
        reveal_strlit("base16");
        reveal_strlit("base17");
        reveal_strlit("base");
        assert forall|k: int| 0 <= k < 16 implies (#[trigger] v@[k])@ =~= base_name(k + 8) by {
        }
    }
    v
}

/// Appends every accent slot on one background at content-text level.
fn push_accent_pairs(pairs: &mut Vec<ValidationPair>, background: &'static str)
    ensures
        final(pairs)@.len() == old(pairs)@.len() + 16,
        forall|k: int| 0 <= k < old(pairs)@.len() ==> final(pairs)@[k] == old(pairs)@[k],
        forall|k: int|
            0 <= k < 16 ==> pair_view(#[trigger] final(pairs)@[old(pairs)@.len() + k])
                == accent_pairs_on(background@)[k],
{
    let names = accent_names();
    let ghost start = pairs@.len();
    let mut i: usize = 0;
    while i < 16
        invariant
            names@.len() == 16,
            forall|k: int| 0 <= k < 16 ==> (#[trigger] names@[k])@ == base_name(k + 8),
            i <= 16,
            pairs@.len() == start + i,
            start == old(pairs)@.len(),
            forall|k: int| 0 <= k < start ==> pairs@[k] == old(pairs)@[k],
            forall|k: int|
                0 <= k < i ==> pair_view(#[trigger] pairs@[start + k]) == accent_pairs_on(
                    background@,
                )[k],
        decreases 16 - i,
    {
        pairs.push(
            ValidationPair {
                foreground: names[i],
                background: background,
                threshold: Threshold::ContentText,
            },
        );
        proof {
            assert(pairs@[start + i as int] == pairs@[pairs@.len() - 1]);
        }
        i = i + 1;
    }
}

/// Get required validation pairs (must pass for scheme to be valid).
///
/// - UI colors (base06-base07) must pass on both base00 and base01
/// - Accent colors only need to pass on base00 (solver targets base00 only)
pub fn required_validation_pairs() -> (r: Vec<ValidationPair>)
    ensures
        r@.map_values(|p: ValidationPair| pair_view(p)) == required_pairs_spec(),
{
    let mut pairs: Vec<ValidationPair> = Vec::new();
    pairs.push(
        ValidationPair { foreground: "base06", background: "base00", threshold: Threshold::BodyTextMin },
    );
    pairs.push(
        ValidationPair { foreground: "base06", background: "base01", threshold: Threshold::BodyTextMin },
    );
    pairs.push(
        ValidationPair { foreground: "base07", background: "base00", threshold: Threshold::BodyTextMin },
    );
    pairs.push(
        ValidationPair { foreground: "base07", background: "base01", threshold: Threshold::BodyTextMin },
    );
    let ghost first = pairs@;
    push_accent_pairs(&mut pairs, "base00");
    proof {
        let m = pairs@.map_values(|p: ValidationPair| pair_view(p));
        let sp = required_pairs_spec();
        assert(m.len() == sp.len());
        assert forall|k: int| 0 <= k < m.len() implies m[k] == sp[k] by {
            if k >= 4 {
                assert(pair_view(pairs@[4 + (k - 4)]) == accent_pairs_on("base00"@)[k - 4]);
            }
        }
        assert(m =~= sp);
    }
    pairs
}

/// Get reference validation pairs (informational, shown but not required).
///
/// These show contrast against base01 for accent colors.
pub fn reference_validation_pairs() -> (r: Vec<ValidationPair>)
    ensures
        r@.map_values(|p: ValidationPair| pair_view(p)) == reference_pairs_spec(),
{
    let mut pairs: Vec<ValidationPair> = Vec::new();
    push_accent_pairs(&mut pairs, "base01");
    proof {
        let m = pairs@.map_values(|p: ValidationPair| pair_view(p));
        let sp = reference_pairs_spec();
        assert forall|k: int| 0 <= k < m.len() implies m[k] == sp[k] by {
            assert(pair_view(pairs@[0 + k]) == accent_pairs_on("base01"@)[k]);
        }
        assert(m =~= sp);
    }
    pairs
}

/// Whether a name is one of the accent slots `base08`-`base0F`,
/// `base10`-`base17`.
pub open spec fn is_accent_name(s: Seq<char>) -> bool {
    exists|i: int| 8 <= i < 24 && s == base_name(i)
}

/// The palette index of an accent slot name: `Some(i)` with `8 <= i < 24`
/// when the name is `base_name(i)`, else `None`.
pub fn accent_index(name: &str) -> (r: Option<usize>)
    ensures
        r matches Some(i) ==> 8 <= i < 24 && name@ == base_name(i as int),
        r is None ==> !is_accent_name(name@),
{
    proof {
        reveal_strlit("base");
    }
    let n = name.unicode_len();
    if n != 6 || name.get_char(0) != 'b' || name.get_char(1) != 'a' || name.get_char(2) != 's'
        || name.get_char(3) != 'e' {
        return None;
    }
    let hi = name.get_char(4);
    let lo = name.get_char(5);
    let v = lo as u32;
    let idx: Option<usize> = if hi == '0' {
        if v == 56 || v == 57 {
            Some((v - 48) as usize)
        } else if 65 <= v && v <= 70 {
            Some((v - 55) as usize)
        } else {
            None
        }
    } else if hi == '1' {
        if 48 <= v && v <= 55 {
            Some((v - 48 + 16) as usize)
        } else {
            None
        }
    } else {
        None
    };
    proof {
        match idx {
            Some(i) => {
                assert(name@ =~= base_name(i as int));
            },
            None => {
                assert forall|i: int| 8 <= i < 24 implies name@ != base_name(i) by {
                    if name@ == base_name(i) {
                        assert(name@[4] == base_name(i)[4]);
                        assert(name@[5] == base_name(i)[5]);
                    }
                }
            },
        }
    }
    idx
}

/// Check if a color name is an accent color (base08-base0F or base10-base17).
pub fn is_accent_color(name: &str) -> (r: bool)
    ensures
        r == is_accent_name(name@),
{
    accent_index(name).is_some()
}

/// The outcome of checking one pair, as the validation panel reads it.
#[derive(Debug, Clone, Copy)]
pub struct PairOutcome {
    /// The pair that was checked
    pub pair: ValidationPair,
    /// Whether the pair reached its threshold
    pub passes: bool,
    /// Whether the foreground was gamut mapped while it was generated
    pub was_gamut_mapped: bool,
    /// Whether the foreground's colorfulness stayed in its allowed range
    pub m_in_bounds: bool,
}

/// Whether an outcome is one of a foreground's checks on the two main
/// backgrounds (`base00`, `base01`).
pub open spec fn counts_for(o: PairOutcome, fg: Seq<char>) -> bool {
    &&& o.pair.foreground@ == fg
    &&& (o.pair.background@ == "base00"@ || o.pair.background@ == "base01"@)
}

/// Whether a foreground passes: every one of its required checks on
/// `base00` and `base01` passes (a foreground with no such check passes).
pub fn foreground_passes(required: &[PairOutcome], fg: &str) -> (r: bool)
    ensures
        r == (forall|i: int|
            0 <= i < required@.len() && #[trigger] counts_for(required@[i], fg@)
                ==> required@[i].passes),
{
    let mut ok = true;
    let mut i: usize = 0;
    while i < required.len()
        invariant
            i <= required@.len(),
            ok == (forall|k: int|
                0 <= k < i && #[trigger] counts_for(required@[k], fg@) ==> required@[k].passes),
        decreases required@.len() - i,
    {
        let o = required[i];
        let on_main = same_text(o.pair.background, "base00") || same_text(
            o.pair.background,
            "base01",
        );
        let same_fg = same_text(o.pair.foreground, fg);
        proof {
            assert(o == required@[i as int]);
            assert(counts_for(required@[i as int], fg@) == (same_fg && on_main));
        }
        if same_fg && on_main && !o.passes {
            ok = false;
        }
        i = i + 1;
    }
    ok
}

/// How a foreground is flagged in the validation panel, most severe first.
#[derive(Debug, Clone, Copy, PartialEq, Eq, Structural)]
pub enum ColorStatus {
    /// Contrast too low
    LcUnreachable,
    /// Colorfulness outside the allowed range
    MOutOfBounds,
    /// Passing, but the color was gamut mapped
    GamutMapped,
    /// Passing, no issues
    Clear,
}

/// The status of a foreground: failing contrast first, then colorfulness
/// out of range, then gamut mapping.
pub open spec fn color_status_spec(passes: bool, was_gamut_mapped: bool, m_in_bounds: bool) -> ColorStatus {
    if !passes {
        ColorStatus::LcUnreachable
    } else if !m_in_bounds {
        ColorStatus::MOutOfBounds
    } else if was_gamut_mapped {
        ColorStatus::GamutMapped
    } else {
        ColorStatus::Clear
    }
}

/// Status of a foreground from its contrast, gamut and colorfulness flags.
pub fn color_status(passes: bool, was_gamut_mapped: bool, m_in_bounds: bool) -> (r: ColorStatus)
    ensures
        r == color_status_spec(passes, was_gamut_mapped, m_in_bounds),
{
    if !passes {
        ColorStatus::LcUnreachable
    } else if !m_in_bounds {
        ColorStatus::MOutOfBounds
    } else if was_gamut_mapped {
        ColorStatus::GamutMapped
    } else {
        ColorStatus::Clear
    }
}

/// A foreground that fails its contrast check is reported as unreachable
/// whatever its other flags; a passing one is flagged for colorfulness out
/// of range before gamut mapping; only a passing, in-range, unmapped
/// foreground is clear.
pub proof fn lemma_color_status_laws(passes: bool, was_gamut_mapped: bool, m_in_bounds: bool)
    ensures
        !passes ==> color_status_spec(passes, was_gamut_mapped, m_in_bounds)
            == ColorStatus::LcUnreachable,
        color_status_spec(passes, was_gamut_mapped, m_in_bounds) == ColorStatus::LcUnreachable
            ==> !passes,
        passes && !m_in_bounds ==> color_status_spec(passes, was_gamut_mapped, m_in_bounds)
            == ColorStatus::MOutOfBounds,
        passes && m_in_bounds && was_gamut_mapped ==> color_status_spec(
            passes,
            was_gamut_mapped,
            m_in_bounds,
        ) == ColorStatus::GamutMapped,
        color_status_spec(passes, was_gamut_mapped, m_in_bounds) == ColorStatus::Clear <==> (passes
            && m_in_bounds && !was_gamut_mapped),
{
}

/// The note shown after a foreground's row for a status.
pub open spec fn status_label(s: ColorStatus) -> Seq<char> {
    match s {
        ColorStatus::LcUnreachable => " Lc unreachable"@,
        ColorStatus::MOutOfBounds => " M out of bounds"@,
        ColorStatus::GamutMapped => " gamut mapped"@,
        ColorStatus::Clear => ""@,
    }
}

/// Only a clear foreground has no note, and two different statuses never
/// share a note, so a failing foreground is never shown as passing.
pub proof fn lemma_status_labels_distinct(a: ColorStatus, b: ColorStatus)
    ensures
        status_label(a).len() == 0 <==> a == ColorStatus::Clear,
        status_label(a) == status_label(b) ==> a == b,
{
    reveal_strlit(" Lc unreachable");
    reveal_strlit(" M out of bounds");
    reveal_strlit(" gamut mapped");
    reveal_strlit("");
    if status_label(a) == status_label(b) {
        assert(status_label(a).len() == status_label(b).len());
        if status_label(a).len() > 1 {
            assert(status_label(a)[1] == status_label(b)[1]);
        }
    }
}

impl ColorStatus {
    /// The note shown after a foreground's row.
    pub fn label(self) -> (r: &'static str)
        ensures
            r@ == status_label(self),
    {
        match self {
            ColorStatus::LcUnreachable => " Lc unreachable",
            ColorStatus::MOutOfBounds => " M out of bounds",
            ColorStatus::GamutMapped => " gamut mapped",
            ColorStatus::Clear => "",
        }
    }
}

/// The accent slot names are exactly `base_name(i)` for `8 <= i < 24`:
/// every such name is an accent, no other slot name is, and two slots
/// never share a name.
pub proof fn lemma_accent_names(i: int, j: int)
    requires
        0 <= i < 24,
        0 <= j < 24,
    ensures
        is_accent_name(base_name(i)) <==> 8 <= i,
        base_name(i) == base_name(j) ==> i == j,
{
    reveal_strlit("base");
    if base_name(i) == base_name(j) {
        assert(base_name(i)[4] == base_name(j)[4]);
        assert(base_name(i)[5] == base_name(j)[5]);
    }
    if is_accent_name(base_name(i)) {
        let k = choose|k: int| 8 <= k < 24 && base_name(i) == base_name(k);
        assert(base_name(i)[4] == base_name(k)[4]);
        assert(base_name(i)[5] == base_name(k)[5]);
    }
}

/// The checks the validation makes: every accent slot is checked on
/// `base00` (required) and on `base01` (reference) at content-text level;
/// the body-text foregrounds `base06` and `base07` are checked on both
/// main backgrounds at the stricter body-text level, and they are the only
/// required checks at that level; no slot is checked against itself.
pub proof fn lemma_validation_pairs_laws(i: int)
    requires
        8 <= i < 24,
    ensures
        required_pairs_spec().contains((base_name(i), "base00"@, Threshold::ContentText)),
        reference_pairs_spec().contains((base_name(i), "base01"@, Threshold::ContentText)),
        required_pairs_spec().contains(("base06"@, "base00"@, Threshold::BodyTextMin)),
        required_pairs_spec().contains(("base06"@, "base01"@, Threshold::BodyTextMin)),
        required_pairs_spec().contains(("base07"@, "base00"@, Threshold::BodyTextMin)),
        required_pairs_spec().contains(("base07"@, "base01"@, Threshold::BodyTextMin)),
        forall|k: int| 0 <= k < required_pairs_spec().len() ==> {
            let q = #[trigger] required_pairs_spec()[k];
            &&& (q.2 == Threshold::BodyTextMin <==> (q.0 == "base06"@ || q.0 == "base07"@))
            &&& (q.1 == "base00"@ || q.1 == "base01"@)
            &&& q.0 != q.1
        },
        forall|k: int| 0 <= k < reference_pairs_spec().len() ==> {
            let q = #[trigger] reference_pairs_spec()[k];
            &&& q.1 == "base01"@
            &&& q.2 == Threshold::ContentText
            &&& q.0 != q.1
        },
        threshold_min_lc(Threshold::BodyTextMin) > threshold_min_lc(Threshold::ContentText) > 0,
{
    reveal_strlit("base");
    reveal_strlit("base00");
    reveal_strlit("base01");
    reveal_strlit("base06");
    reveal_strlit("base07");
    let req = required_pairs_spec();
    let refp = reference_pairs_spec();
    assert(base_name(0) =~= "base00"@);
    assert(base_name(1) =~= "base01"@);
    assert(base_name(6) =~= "base06"@);
    assert(base_name(7) =~= "base07"@);
    assert(req[4 + (i - 8)] == (base_name(i), "base00"@, Threshold::ContentText));
    assert(refp[i - 8] == (base_name(i), "base01"@, Threshold::ContentText));
    assert(req[0] == ("base06"@, "base00"@, Threshold::BodyTextMin));
    assert(req[1] == ("base06"@, "base01"@, Threshold::BodyTextMin));
    assert(req[2] == ("base07"@, "base00"@, Threshold::BodyTextMin));
    assert(req[3] == ("base07"@, "base01"@, Threshold::BodyTextMin));
    assert forall|k: int| 0 <= k < req.len() implies {
        let q = #[trigger] req[k];
        &&& (q.2 == Threshold::BodyTextMin <==> (q.0 == "base06"@ || q.0 == "base07"@))
        &&& (q.1 == "base00"@ || q.1 == "base01"@)
        &&& q.0 != q.1
    } by {
        if k < 4 {
            assert("base06"@[5] != "base00"@[5] && "base06"@[5] != "base01"@[5]);
            assert("base07"@[5] != "base00"@[5] && "base07"@[5] != "base01"@[5]);
            assert("base06"@[5] != "base07"@[5]);
        } else {
            let a = k - 4 + 8;
            assert(req[k] == (base_name(a), "base00"@, Threshold::ContentText));
            lemma_accent_names(a, 6);
            lemma_accent_names(a, 7);
            lemma_accent_names(a, 0);
        }
    }
    assert forall|k: int| 0 <= k < refp.len() implies {
        let q = #[trigger] refp[k];
        &&& q.1 == "base01"@
        &&& q.2 == Threshold::ContentText
        &&& q.0 != q.1
    } by {
        lemma_accent_names(k + 8, 1);
    }
}

} // verus!
