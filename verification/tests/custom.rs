use quicuts::combo::{chord_norm, format_combo_seq, parse_combo_seq};
use quicuts::custom::{custom_bindings, mark_redefined, EntryCustomization};
use quicuts::keys::{GlyphToken, Key};
use quicuts::model::KeyCombo;

fn chord(win: bool, ctrl: bool, shift: bool, alt: bool, keys: Vec<Key>) -> KeyCombo {
    KeyCombo { win, ctrl, shift, alt, keys }
}

#[test]
fn parses_single_chord() {
    let seq = parse_combo_seq("Ctrl+Alt+Z").unwrap();
    assert_eq!(seq, vec![chord(false, true, false, true, vec![Key::Literal("Z".into())])]);
}

#[test]
fn parses_sequence_and_digits_as_literals() {
    let seq = parse_combo_seq("Ctrl+K 1").unwrap();
    assert_eq!(seq.len(), 2);
    assert_eq!(seq[1], chord(false, false, false, false, vec![Key::Literal("1".into())]));
}

#[test]
fn parses_named_glyphs_vk_and_plus() {
    let seq = parse_combo_seq("Win+Up Ctrl+Plus Alt+VK120 Shift+<Enter>").unwrap();
    assert_eq!(seq[0].keys, vec![Key::Glyph(GlyphToken::Up)]);
    assert_eq!(seq[1].keys, vec![Key::Literal("+".into())]);
    assert_eq!(seq[2].keys, vec![Key::Vk(120)]);
    assert_eq!(seq[3].keys, vec![Key::Glyph(GlyphToken::Enter)]);
}

#[test]
fn double_plus_is_literal_plus() {
    let seq = parse_combo_seq("Ctrl++").unwrap();
    assert_eq!(seq[0].keys, vec![Key::Literal("+".into())]);
    assert!(seq[0].ctrl);
}

#[test]
fn format_round_trips_semantically() {
    for s in ["Ctrl+Alt+Z", "Ctrl+K Z", "Win+Shift+Left", "Ctrl+Plus", "Alt+VK123"] {
        let seq = parse_combo_seq(s).unwrap();
        let formatted = format_combo_seq(&seq);
        let reparsed = parse_combo_seq(&formatted).unwrap();
        assert!(
            seq.iter().map(chord_norm).eq(reparsed.iter().map(chord_norm)),
            "round-trip failed for {s} -> {formatted}"
        );
    }
}

#[test]
fn literal_with_space_survives_round_trip() {
    let seq = vec![chord(false, true, false, false, vec![Key::Literal("Page Up".into())])];
    let formatted = format_combo_seq(&seq);
    let reparsed = parse_combo_seq(&formatted).unwrap();
    assert_eq!(reparsed.len(), 1);
    assert_eq!(chord_norm(&reparsed[0]), chord_norm(&seq[0]));
}

#[test]
fn mark_redefined_alternative_and_sequence() {
    // Alternatives: Ctrl+C or Ctrl+Insert — mark only the second.
    let defaults = vec![
        chord(false, true, false, false, vec![Key::Literal("C".into())]),
        chord(false, true, false, false, vec![Key::Glyph(GlyphToken::Insert)]),
    ];
    let flags = mark_redefined(&defaults, &vec!["Ctrl+Insert".to_string()]);
    assert_eq!(flags, vec![false, true]);

    // Sequence: Ctrl+K then Z — one string marks the whole window.
    let seq_defaults = vec![
        chord(false, true, false, false, vec![Key::Literal("K".into())]),
        chord(false, false, false, false, vec![Key::Literal("Z".into())]),
    ];
    let flags = mark_redefined(&seq_defaults, &vec!["Ctrl+K Z".to_string()]);
    assert_eq!(flags, vec![true, true]);
}

#[test]
fn mark_redefined_is_spelling_tolerant() {
    let defaults = vec![chord(false, true, false, false, vec![Key::Literal("Enter".into())])];
    assert_eq!(mark_redefined(&defaults, &vec!["ctrl+<Enter>".to_string()]), vec![true]);
}

#[test]
fn unparseable_custom_is_skipped() {
    let e = EntryCustomization {
        custom: vec!["Ctrl+A".into(), "   ".into()],
        redefined: vec![],
    };
    let bindings = custom_bindings(Some(&e));
    assert_eq!(bindings.len(), 1);
    assert_eq!(bindings[0].raw, "Ctrl+A");
}

#[test]
fn mutations_and_yaml_round_trip() {
    let mut c = quicuts::custom::AppCustomizations::new();
    c.add_custom("Copy", "Ctrl+Shift+C");
    c.add_custom("Copy", "ctrl+shift+c"); // semantic dup, ignored
    c.set_redefined("Copy", "Ctrl+C", true);
    assert_eq!(c.get("Copy").unwrap().custom.len(), 1);
    assert_eq!(c.get("Copy").unwrap().custom, vec!["Ctrl+Shift+C".to_string()]);
    assert_eq!(c.get("Copy").unwrap().redefined, vec!["Ctrl+C".to_string()]);

    c.set_redefined("Copy", "ctrl+c", false); // spelling-tolerant removal
    c.remove_custom("Copy", "Ctrl+Shift+C");
    assert!(c.is_empty());
    assert!(c.get("Copy").is_none());
}

#[test]
fn formatted_literal_alias_default_is_marked_redefined() {
    let esc = || chord(false, true, false, false, vec![Key::Literal("Esc".into())]);
    let stored = format_combo_seq(&vec![esc()]);
    assert_eq!(stored, "Ctrl+<Esc>");
    let flags = mark_redefined(&vec![esc(), chord(false, false, false, false, vec![Key::Glyph(GlyphToken::Escape)])], &vec![stored]);
    assert_eq!(flags, vec![true, false]);
}
