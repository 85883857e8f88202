use themalingadingdong::cli::{variant_file_name, variants_to_generate, CurveTypeArg, OutputFormat, VariantArg};
use themalingadingdong::curves::CurveType;
use themalingadingdong::generate::{
    assign_variant_colors, base_color_name, scheme_slug, slug_from_lowercase, slugify, SchemeVariant,
};
use themalingadingdong::interpolation::Rgb8;

#[test]
fn slugify_lowers_and_hyphenates() {
    assert_eq!(slugify("My Theme"), "my-theme");
    assert_eq!(slugify("Solarized Dark 2"), "solarized-dark-2");
}

#[test]
fn slugify_drops_punctuation_keeps_hyphens() {
    assert_eq!(slugify("Tokyo-Night (Storm)!"), "tokyo-night-storm");
    assert_eq!(slugify(""), "");
}

#[test]
fn slugify_keeps_unicode_letters() {
    assert_eq!(slugify("Café Noir"), "café-noir");
}

#[test]
fn slug_from_lowercase_keeps_case_of_input() {
    assert_eq!(slug_from_lowercase("a b_c"), "a-bc");
    assert_eq!(slug_from_lowercase("AB"), "AB");
}

#[test]
fn scheme_slug_appends_variant() {
    assert_eq!(scheme_slug("My Theme", SchemeVariant::Dark), "my-theme-dark");
    assert_eq!(scheme_slug("My Theme", SchemeVariant::Light), "my-theme-light");
    assert_eq!(scheme_slug("My Theme!", SchemeVariant::Dark), "my-theme-dark");
}

#[test]
fn base_color_names() {
    assert_eq!(base_color_name(0), "base00");
    assert_eq!(base_color_name(10), "base0A");
    assert_eq!(base_color_name(15), "base0F");
    assert_eq!(base_color_name(16), "base10");
    assert_eq!(base_color_name(23), "base17");
}

#[test]
fn assign_variant_auto_follows_background() {
    let bg = Rgb8::new(10, 10, 10);
    let fg = Rgb8::new(240, 240, 240);
    assert_eq!(assign_variant_colors(bg, fg, true, None), (bg, fg, SchemeVariant::Dark));
    assert_eq!(assign_variant_colors(fg, bg, false, None), (fg, bg, SchemeVariant::Light));
}

#[test]
fn assign_variant_forced_swaps_when_needed() {
    let dark = Rgb8::new(10, 10, 10);
    let light = Rgb8::new(240, 240, 240);
    // dark background, light variant forced: the light color goes behind
    assert_eq!(
        assign_variant_colors(dark, light, true, Some(SchemeVariant::Light)),
        (light, dark, SchemeVariant::Light)
    );
    // light background, dark variant forced: the dark color goes behind
    assert_eq!(
        assign_variant_colors(light, dark, false, Some(SchemeVariant::Dark)),
        (dark, light, SchemeVariant::Dark)
    );
}

#[test]
fn variants_to_generate_single() {
    assert_eq!(variants_to_generate(VariantArg::Dark, false), Ok(vec![Some(SchemeVariant::Dark)]));
    assert_eq!(variants_to_generate(VariantArg::Light, true), Ok(vec![Some(SchemeVariant::Light)]));
    assert_eq!(variants_to_generate(VariantArg::Auto, false), Ok(vec![None]));
}

#[test]
fn variants_to_generate_both() {
    assert_eq!(
        variants_to_generate(VariantArg::Both, true),
        Ok(vec![Some(SchemeVariant::Dark), Some(SchemeVariant::Light)])
    );
}

#[test]
fn variants_to_generate_both_needs_output() {
    assert_eq!(
        variants_to_generate(VariantArg::Both, false),
        Err("--variant both requires --output to specify base filename".to_string())
    );
}

#[test]
fn variant_file_names() {
    assert_eq!(variant_file_name("theme", SchemeVariant::Dark, OutputFormat::Yaml), "theme-dark.yaml");
    assert_eq!(variant_file_name("out/x", SchemeVariant::Light, OutputFormat::Json), "out/x-light.json");
}

#[test]
fn curve_arg_conversion() {
    assert_eq!(CurveType::from(CurveTypeArg::Linear), CurveType::Linear);
    assert_eq!(CurveType::from(CurveTypeArg::SmoothStart), CurveType::SmoothStart);
    assert_eq!(CurveType::from(CurveTypeArg::Sigmoid), CurveType::Sigmoid);
}

#[test]
fn cli_defaults() {
    assert_eq!(VariantArg::default(), VariantArg::Auto);
    assert_eq!(OutputFormat::default(), OutputFormat::Yaml);
    assert_eq!(CurveTypeArg::default(), CurveTypeArg::Linear);
}

#[test]
fn curve_cycle() {
    let mut c = CurveType::Linear;
    let mut seen = Vec::new();
    for _ in 0..7 {
        seen.push(c.display_name());
        c = c.next();
    }
    assert_eq!(c, CurveType::Linear);
    assert_eq!(
        seen,
        vec!["Linear", "Smoothstep", "Smootherstep", "Ease In", "Ease Out", "Sigmoid", "B-Spline"]
    );
    assert_eq!(CurveType::Linear.prev(), CurveType::BSpline);
    assert_eq!(CurveType::Sigmoid.next().prev(), CurveType::Sigmoid);
    assert!(CurveType::Sigmoid.uses_strength());
    assert!(!CurveType::BSpline.uses_strength());
}
