use quicuts::keys::{normalize_token, GlyphToken, Key};
use quicuts::schema::RawKeyToken;

fn s(v: &str) -> RawKeyToken {
    RawKeyToken::Str(v.to_string())
}

#[test]
fn plain_literals() {
    assert_eq!(normalize_token(&s("A")), Key::Literal("A".into()));
    assert_eq!(normalize_token(&s("F4")), Key::Literal("F4".into()));
    assert_eq!(normalize_token(&s("Tab")), Key::Literal("Tab".into()));
}

#[test]
fn vk_codes_from_string_and_int() {
    assert_eq!(normalize_token(&s("91")), Key::Vk(91));
    assert_eq!(normalize_token(&RawKeyToken::Num(38)), Key::Vk(38));
}

#[test]
fn single_digit_is_the_digit_key() {
    assert_eq!(normalize_token(&s("0")), Key::Literal("0".into()));
    assert_eq!(normalize_token(&s("9")), Key::Literal("9".into()));
    assert_eq!(normalize_token(&RawKeyToken::Num(0)), Key::Literal("0".into()));
    assert_eq!(normalize_token(&RawKeyToken::Num(7)), Key::Literal("7".into()));
}

#[test]
fn glyph_tokens() {
    assert_eq!(normalize_token(&s("<Enter>")), Key::Glyph(GlyphToken::Enter));
    assert_eq!(normalize_token(&s("<Page Up>")), Key::Glyph(GlyphToken::PageUp));
    assert_eq!(normalize_token(&s("<escape>")), Key::Glyph(GlyphToken::Escape));
    assert_eq!(normalize_token(&s("<ArrowLR>")), Key::Glyph(GlyphToken::ArrowLR));
}

#[test]
fn special_tokens() {
    assert_eq!(normalize_token(&s("<TASKBAR1-9>")), Key::TaskbarRange);
    assert_eq!(normalize_token(&s("<Underlined letter>")), Key::UnderlinedLetter);
}

#[test]
fn unknown_angle_renders_literal() {
    assert_eq!(normalize_token(&s("<0>")), Key::AngleLiteral("0".into()));
    assert_eq!(normalize_token(&s("<Space>")), Key::AngleLiteral("Space".into()));
}
