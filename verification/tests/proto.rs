use quicuts::proto::{ChordSpec, Platform};

#[test]
fn mac_defaults_are_ctrl_cmd_slash_and_cmd_comma() {
    // ⌃⌘/ (win == ⌘): ⌘⇧/ is the system Help-menu shortcut, keep off it.
    let chord = ChordSpec::overlay_default(Platform::MacOs);
    assert!(chord.win && chord.ctrl && !chord.shift && !chord.alt);
    assert_eq!(chord.vk, 0xBF);
    // ⌘,
    let settings = ChordSpec::settings_default(Platform::MacOs);
    assert!(settings.win && !settings.ctrl && !settings.shift && !settings.alt);
    assert_eq!(settings.vk, 0xBC);
}

#[test]
fn non_mac_defaults_keep_ptsg_values() {
    let chord = ChordSpec::overlay_default(Platform::Windows);
    assert!(chord.win && !chord.ctrl && chord.shift && !chord.alt);
    assert_eq!(chord.vk, 0xBF);
    let settings = ChordSpec::settings_default(Platform::Windows);
    assert!(!settings.win && settings.ctrl && !settings.shift && !settings.alt);
    assert_eq!(settings.vk, 0xBC);
}
