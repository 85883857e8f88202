use themalingadingdong::config;
use themalingadingdong::config::Rgba8;
use themalingadingdong::generate;
use themalingadingdong::interpolation::{srgb_to_hex, Rgb8};

const FORMAT_MSG: &str = "Invalid hex color: invalid hex code format, please use format '#fff', 'fff', '#ffffff', 'ffffff', etc.";
const DIGIT_MSG: &str = "Invalid hex color: invalid digit found in string";

#[test]
fn parse_hex_six_digits_with_hash() {
    assert_eq!(config::parse_hex("#ff8000"), Ok(Rgb8::new(255, 128, 0)));
}

#[test]
fn parse_hex_six_digits_without_hash() {
    assert_eq!(config::parse_hex("1a2B3c"), Ok(Rgb8::new(0x1a, 0x2b, 0x3c)));
}

#[test]
fn parse_hex_three_digits_are_doubled() {
    assert_eq!(config::parse_hex("#abc"), Ok(Rgb8::new(0xaa, 0xbb, 0xcc)));
    assert_eq!(config::parse_hex("f00"), Ok(Rgb8::new(255, 0, 0)));
}

#[test]
fn parse_hex_strips_every_leading_hash() {
    assert_eq!(config::parse_hex("##000000"), Ok(Rgb8::new(0, 0, 0)));
}

#[test]
fn parse_hex_wrong_length_is_format_error() {
    assert_eq!(config::parse_hex("#12345"), Err(FORMAT_MSG.to_string()));
    assert_eq!(config::parse_hex(""), Err(FORMAT_MSG.to_string()));
    assert_eq!(config::parse_hex("#1234567"), Err(FORMAT_MSG.to_string()));
}

#[test]
fn parse_hex_bad_digit_is_digit_error() {
    assert_eq!(config::parse_hex("#gg0000"), Err(DIGIT_MSG.to_string()));
    assert_eq!(config::parse_hex("xyz"), Err(DIGIT_MSG.to_string()));
}

#[test]
fn parse_hex_non_ascii_of_six_bytes_is_digit_error() {
    // three two-byte characters: six bytes, read as six hex positions
    assert_eq!(config::parse_hex("éééé"), Err(FORMAT_MSG.to_string()));
    assert_eq!(config::parse_hex("ééé"), Err(DIGIT_MSG.to_string()));
}

#[test]
fn parse_hex_plus_sign_field() {
    // each two-character field is read as a radix-16 integer, which may
    // carry a plus sign
    assert_eq!(config::parse_hex("+f+f+f"), Ok(Rgb8::new(15, 15, 15)));
}

#[test]
fn generate_parse_hex_agrees_with_config() {
    assert_eq!(generate::parse_hex("#102030"), config::parse_hex("#102030"));
    assert_eq!(generate::parse_hex("nope"), config::parse_hex("nope"));
}

#[test]
fn srgb_to_hex_is_lowercase_without_hash() {
    assert_eq!(srgb_to_hex(Rgb8::new(255, 0, 171)), "ff00ab");
    assert_eq!(srgb_to_hex(Rgb8::new(0, 0, 0)), "000000");
    assert_eq!(srgb_to_hex(Rgb8::new(1, 16, 254)), "0110fe");
}

#[test]
fn hex_roundtrip_on_samples() {
    for &(r, g, b) in &[(0u8, 0u8, 0u8), (255, 255, 255), (18, 52, 86), (171, 205, 239)] {
        let c = Rgb8::new(r, g, b);
        let hex = srgb_to_hex(c);
        assert_eq!(config::parse_hex(&hex), Ok(c));
        assert_eq!(config::parse_hex(&format!("#{hex}")), Ok(c));
        assert_eq!(config::parse_color(&format!("#{hex}")), Ok(c));
    }
}

#[test]
fn parse_color_hex() {
    assert_eq!(config::parse_color("#336699"), Ok(Rgb8::new(0x33, 0x66, 0x99)));
    assert_eq!(generate::parse_color("#336699"), Ok(Rgb8::new(0x33, 0x66, 0x99)));
}

#[test]
fn parse_color_named_and_functional() {
    assert_eq!(config::parse_color("red"), Ok(Rgb8::new(255, 0, 0)));
    assert_eq!(config::parse_color("rgb(0, 128, 255)"), Ok(Rgb8::new(0, 128, 255)));
}

#[test]
fn parse_color_error_quotes_input() {
    let err = config::parse_color("not-a-color").unwrap_err();
    assert!(err.starts_with("Invalid color 'not-a-color': "), "{err}");
}

#[test]
fn color_from_css_drops_alpha() {
    let parsed = Ok(Rgba8 { red: 1, green: 2, blue: 3, alpha: 4 });
    assert_eq!(config::color_from_css("x", parsed), Ok(Rgb8::new(1, 2, 3)));
}

#[test]
fn color_from_css_error_message() {
    let parsed = Err("bad".to_string());
    assert_eq!(
        config::color_from_css("teal-ish", parsed),
        Err("Invalid color 'teal-ish': bad".to_string())
    );
}

#[test]
fn hex_from_palette_prefixes_errors() {
    assert_eq!(config::hex_from_palette(Ok(Rgb8::new(9, 8, 7))), Ok(Rgb8::new(9, 8, 7)));
    assert_eq!(
        config::hex_from_palette(Err("oops".to_string())),
        Err("Invalid hex color: oops".to_string())
    );
}

#[test]
fn parse_color_trims_white_space() {
    assert_eq!(config::parse_color("  red\t"), Ok(Rgb8::new(255, 0, 0)));
    assert_eq!(config::parse_color("\u{a0}#010203\u{3000}"), Ok(Rgb8::new(1, 2, 3)));
}

#[test]
fn parse_color_refuses_hue_cut_inside_char() {
    assert_eq!(
        config::parse_color("hsl(éé,1%,1%)"),
        Err("Invalid color 'hsl(éé,1%,1%)': the unit of its hue cannot be cut inside a character"
            .to_string())
    );
    assert_eq!(
        config::parse_color(" oklch(50% 0.1 éé) "),
        Err("Invalid color ' oklch(50% 0.1 éé) ': the unit of its hue cannot be cut inside a character"
            .to_string())
    );
    // With a readable alpha the hue is reached.
    assert_eq!(
        config::parse_color("HSLA(éé 1% 1% / 50%)"),
        Err("Invalid color 'HSLA(éé 1% 1% / 50%)': the unit of its hue cannot be cut inside a character"
            .to_string())
    );
    assert_eq!(
        config::parse_color("hwb(éxx,1%,1%,-Inf)"),
        Err("Invalid color 'hwb(éxx,1%,1%,-Inf)': the unit of its hue cannot be cut inside a character"
            .to_string())
    );
}

#[test]
fn parse_color_alpha_grammar_decides_before_hue() {
    for alpha in ["1e", ".", "+", "1e+", "e5", "5%%", "infinit"] {
        let text = format!("hsv(éé,1%,1%,{})", alpha);
        assert_eq!(
            config::parse_color(&text),
            Err(format!("Invalid color '{}': invalid color function", text))
        );
    }
    for alpha in ["1.", ".5", "+.5e-3", "NaN", "infinity", "0.5E2%"] {
        let text = format!("hsv(éé,1%,1%,{})", alpha);
        assert_eq!(
            config::parse_color(&text),
            Err(format!(
                "Invalid color '{}': the unit of its hue cannot be cut inside a character",
                text
            ))
        );
    }
}

#[test]
fn parse_color_passes_other_non_ascii_to_parser() {
    assert_eq!(
        config::parse_color("é"),
        Err("Invalid color 'é': invalid unknown format".to_string())
    );
    // The alpha token is read first, and its failure ends the parse.
    assert_eq!(
        config::parse_color("hsl(éé,1%,1%,x)"),
        Err("Invalid color 'hsl(éé,1%,1%,x)': invalid color function".to_string())
    );
    // A three-byte token is cut at its start, which is a boundary.
    assert_eq!(
        config::parse_color("hsl(aé,1%,1%)"),
        Err("Invalid color 'hsl(aé,1%,1%)': invalid hsl format".to_string())
    );
    assert!(generate::parse_color("rød").is_err());
}

#[test]
fn validate_colors_names_missing_field() {
    let some = Some("#000".to_string());
    assert_eq!(config::validate_colors(&None, &some), Err("colors.background"));
    assert_eq!(config::validate_colors(&None, &None), Err("colors.background"));
    assert_eq!(config::validate_colors(&some, &None), Err("colors.foreground"));
    assert_eq!(config::validate_colors(&some, &some), Ok(()));
}
