use themalingadingdong::validation::{
    accent_index, color_status, foreground_passes, is_accent_color, reference_validation_pairs,
    required_validation_pairs, ColorStatus, PairOutcome, Threshold, ValidationPair,
};

const ACCENTS: [&str; 16] = [
    "base08", "base09", "base0A", "base0B", "base0C", "base0D", "base0E", "base0F", "base10",
    "base11", "base12", "base13", "base14", "base15", "base16", "base17",
];

#[test]
fn thresholds() {
    assert_eq!(Threshold::BodyTextMin.min_lc(), 75);
    assert_eq!(Threshold::ContentText.min_lc(), 60);
    assert_eq!(Threshold::BodyTextMin.description(), "Body text (minimum)");
    assert_eq!(Threshold::ContentText.description(), "Content text");
}

#[test]
fn required_pairs_layout() {
    let pairs = required_validation_pairs();
    assert_eq!(pairs.len(), 20);
    let ui: Vec<(&str, &str)> = pairs[..4].iter().map(|p| (p.foreground, p.background)).collect();
    assert_eq!(
        ui,
        vec![("base06", "base00"), ("base06", "base01"), ("base07", "base00"), ("base07", "base01")]
    );
    for p in &pairs[..4] {
        assert_eq!(p.threshold, Threshold::BodyTextMin);
    }
    for (p, name) in pairs[4..].iter().zip(ACCENTS.iter()) {
        assert_eq!(p.foreground, *name);
        assert_eq!(p.background, "base00");
        assert_eq!(p.threshold, Threshold::ContentText);
    }
}

#[test]
fn reference_pairs_layout() {
    let pairs = reference_validation_pairs();
    assert_eq!(pairs.len(), 16);
    for (p, name) in pairs.iter().zip(ACCENTS.iter()) {
        assert_eq!(p.foreground, *name);
        assert_eq!(p.background, "base01");
        assert_eq!(p.threshold, Threshold::ContentText);
    }
}

#[test]
fn accent_names_are_recognised() {
    for (i, name) in ACCENTS.iter().enumerate() {
        assert!(is_accent_color(name));
        assert_eq!(accent_index(name), Some(i + 8));
    }
}

#[test]
fn non_accent_names_are_rejected() {
    for name in ["base00", "base07", "base0a", "base18", "base1A", "Base08", "base008", "", "foo"] {
        assert!(!is_accent_color(name), "{name}");
        assert_eq!(accent_index(name), None);
    }
}

fn outcome(fg: &'static str, bg: &'static str, passes: bool) -> PairOutcome {
    PairOutcome {
        pair: ValidationPair { foreground: fg, background: bg, threshold: Threshold::BodyTextMin },
        passes,
        was_gamut_mapped: false,
        m_in_bounds: true,
    }
}

#[test]
fn foreground_passes_needs_every_main_background() {
    let results = vec![
        outcome("base06", "base00", true),
        outcome("base06", "base01", false),
        outcome("base07", "base00", true),
        outcome("base07", "base01", true),
        outcome("base08", "base02", false),
    ];
    assert!(!foreground_passes(&results, "base06"));
    assert!(foreground_passes(&results, "base07"));
    // a check on another background does not count
    assert!(foreground_passes(&results, "base08"));
    // no check at all passes
    assert!(foreground_passes(&results, "base0F"));
    assert!(foreground_passes(&[], "base06"));
}

#[test]
fn color_status_priority() {
    assert_eq!(color_status(false, true, false), ColorStatus::LcUnreachable);
    assert_eq!(color_status(true, true, false), ColorStatus::MOutOfBounds);
    assert_eq!(color_status(true, true, true), ColorStatus::GamutMapped);
    assert_eq!(color_status(true, false, true), ColorStatus::Clear);
    assert_eq!(ColorStatus::LcUnreachable.label(), " Lc unreachable");
    assert_eq!(ColorStatus::MOutOfBounds.label(), " M out of bounds");
    assert_eq!(ColorStatus::GamutMapped.label(), " gamut mapped");
    assert_eq!(ColorStatus::Clear.label(), "");
}
