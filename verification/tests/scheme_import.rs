use themalingadingdong::import::{
    parse_scheme, scheme_color, scheme_metadata, scheme_theme, LegacyFields, SchemeData,
};
use themalingadingdong::interpolation::Rgb8;

const MODERN_YAML: &str = "system: \"base16\"
name: \"Test Scheme\"
author: \"\"
variant: \"light\"
palette:
  base00: \"#101112\"
  base01: \"#111111\"
  base02: \"#222222\"
  base03: \"#333333\"
  base04: \"#444444\"
  base05: \"#555555\"
  base06: \"#666666\"
  base07: \"#F0E0D0\"
  base08: \"#880000\"
  base09: \"#998800\"
  base0A: \"#AAAA00\"
  base0B: \"#00BB00\"
  base0C: \"#00CCCC\"
  base0D: \"#0000DD\"
  base0E: \"#EE00EE\"
  base0F: \"#FF0F0F\"
";

fn legacy(colors: [&str; 16]) -> LegacyFields {
    LegacyFields {
        scheme: "Old Scheme".to_string(),
        author: Some("Someone".to_string()),
        colors: colors.map(|c| c.to_string()),
    }
}

const LEGACY_COLORS: [&str; 16] = [
    "000000", "#111", "222222", "333333", "444444", "555555", "666666", "#ABCDEF", "880000",
    "998800", "aaaa00", "00bb00", "00cccc", "0000dd", "ee00ee", "ff0f0f",
];

fn hex_of(s: &SchemeData, name: &str) -> Option<String> {
    s.palette.iter().rev().find(|(k, _)| k == name).map(|(_, h)| h.clone())
}

#[test]
fn modern_yaml_scheme_is_read() {
    let s = parse_scheme(MODERN_YAML, false, Err("unused".to_string())).unwrap();
    assert_eq!(s.name, "Test Scheme");
    assert_eq!(s.slug, "test-scheme");
    assert_eq!(s.variant, "light");
    assert_eq!(s.palette.len(), 16);
    assert_eq!(hex_of(&s, "base07"), Some("f0e0d0".to_string()));
    assert_eq!(hex_of(&s, "base0A"), Some("aaaa00".to_string()));
}

#[test]
fn modern_json_scheme_is_read() {
    let json = "{\"system\":\"base16\",\"name\":\"J\",\"author\":\"A\",\"palette\":{\
        \"base00\":\"000\",\"base01\":\"111\",\"base02\":\"222\",\"base03\":\"333\",\
        \"base04\":\"444\",\"base05\":\"555\",\"base06\":\"666\",\"base07\":\"777\",\
        \"base08\":\"888\",\"base09\":\"999\",\"base0A\":\"aaa\",\"base0B\":\"bbb\",\
        \"base0C\":\"ccc\",\"base0D\":\"ddd\",\"base0E\":\"eee\",\"base0F\":\"fff\"}}";
    let s = parse_scheme(json, true, Err("unused".to_string())).unwrap();
    assert_eq!(s.name, "J");
    assert_eq!(s.author, "A");
    assert_eq!(s.variant, "dark");
    assert_eq!(hex_of(&s, "base0F"), Some("ffffff".to_string()));
}

#[test]
fn legacy_scheme_is_the_fallback() {
    let s = parse_scheme("scheme: \"Old Scheme\"", false, Ok(legacy(LEGACY_COLORS))).unwrap();
    assert_eq!(s.name, "Old Scheme");
    assert_eq!(s.slug, "old-scheme");
    assert_eq!(s.author, "Someone");
    assert_eq!(s.variant, "dark");
    let names: Vec<&str> = s.palette.iter().map(|(k, _)| k.as_str()).collect();
    assert_eq!(
        names,
        vec![
            "base00", "base01", "base02", "base03", "base04", "base05", "base06", "base07",
            "base08", "base09", "base0A", "base0B", "base0C", "base0D", "base0E", "base0F"
        ]
    );
    assert_eq!(hex_of(&s, "base01"), Some("111111".to_string()));
    assert_eq!(hex_of(&s, "base07"), Some("abcdef".to_string()));
}

#[test]
fn legacy_scheme_without_author_has_empty_author() {
    let mut l = legacy(LEGACY_COLORS);
    l.author = None;
    let s = parse_scheme("x: 1", false, Ok(l)).unwrap();
    assert_eq!(s.author, "");
    assert_eq!(scheme_metadata(&s).author, None);
}

#[test]
fn legacy_scheme_with_bad_color_is_refused() {
    let mut colors = LEGACY_COLORS;
    colors[3] = "#12345";
    assert_eq!(
        parse_scheme("x: 1", false, Ok(legacy(colors))).err(),
        Some("Failed to convert legacy scheme".to_string())
    );
}

#[test]
fn both_formats_failing_is_reported() {
    assert_eq!(
        parse_scheme("x: 1", false, Err("missing field `scheme`".to_string())).err(),
        Some(
            "Failed to parse scheme (tried modern and legacy formats): missing field `scheme`"
                .to_string()
        )
    );
}

#[test]
fn scheme_color_reads_byte_pairs() {
    let s = parse_scheme(MODERN_YAML, false, Err(String::new())).unwrap();
    assert_eq!(scheme_color(&s, "base00"), Ok(Rgb8::new(0x10, 0x11, 0x12)));
    assert_eq!(scheme_color(&s, "base07"), Ok(Rgb8::new(0xf0, 0xe0, 0xd0)));
}

#[test]
fn scheme_color_tries_lowercase_then_uppercase() {
    let s = parse_scheme("x: 1", false, Ok(legacy(LEGACY_COLORS))).unwrap();
    assert_eq!(scheme_color(&s, "BASE07"), Ok(Rgb8::new(0xab, 0xcd, 0xef)));
    let mut upper = s;
    upper.palette.push(("BASE10".to_string(), "010203".to_string()));
    assert_eq!(scheme_color(&upper, "base10"), Ok(Rgb8::new(1, 2, 3)));
    // Neither "base0a" nor "BASE0A" is a slot name.
    assert_eq!(
        scheme_color(&upper, "base0a"),
        Err("Missing palette color: base0a".to_string())
    );
}

#[test]
fn scheme_color_missing_slot() {
    let s = parse_scheme(MODERN_YAML, false, Err(String::new())).unwrap();
    assert_eq!(
        scheme_color(&s, "base10"),
        Err("Missing palette color: base10".to_string())
    );
}

#[test]
fn scheme_theme_takes_metadata_and_base_colors() {
    let s = parse_scheme(MODERN_YAML, false, Err(String::new())).unwrap();
    let t = scheme_theme(&s).unwrap();
    assert_eq!(t.theme.name, "Test Scheme");
    assert_eq!(t.theme.author, None);
    assert_eq!(t.theme.variant, Some("light".to_string()));
    assert_eq!(t.background, "#101112");
    assert_eq!(t.foreground, "#f0e0d0");
}

#[test]
fn scheme_theme_needs_background() {
    let mut s = parse_scheme(MODERN_YAML, false, Err(String::new())).unwrap();
    s.palette.retain(|(k, _)| k != "base00");
    assert_eq!(
        scheme_theme(&s).err(),
        Some("Missing palette color: base00".to_string())
    );
}
