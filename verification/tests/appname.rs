use quicuts::appname::{display_name, pick_description, stem};
use quicuts::custom::custom_file_name;
use quicuts::engine::Engine;
use quicuts::proto::{AgentCommand, ChordSpec, Platform};
use quicuts::settings::{configure_command, Activation, DEFAULT_COMBO_DISPLAY_MODE, SCHEMA_VERSION};

#[test]
fn stem_drops_directory_and_one_exe_suffix() {
    assert_eq!(stem("CalculatorApp.exe"), "CalculatorApp");
    assert_eq!(stem(r"C:\Windows\notepad.EXE"), "notepad");
    assert_eq!(stem("/usr/bin/bash"), "bash");
    assert_eq!(stem("tool.exe.exe"), "tool.exe");
    assert_eq!(stem(".exe"), "");
    assert_eq!(stem("exe"), "exe");
}

#[test]
fn description_wins_over_stem() {
    assert_eq!(display_name(Some("Windows Calculator".into()), "CalculatorApp.exe"), "Windows Calculator");
    assert_eq!(display_name(None, "CalculatorApp.exe"), "CalculatorApp");
}

#[test]
fn first_non_blank_description_is_picked_trimmed() {
    assert_eq!(pick_description(&vec!["  ".into(), " Notepad ".into(), "Other".into()]), Some("Notepad".into()));
    assert_eq!(pick_description(&vec!["".into(), " ".into()]), None);
    assert_eq!(pick_description(&Vec::new()), None);
}

#[test]
fn customization_file_names_stay_in_their_directory() {
    assert_eq!(custom_file_name("Google.Chrome"), "Google.Chrome.custom.yml");
    assert_eq!(custom_file_name("../a/b\\c:d"), ".._a_b_c_d.custom.yml");
}

#[test]
fn activation_defaults_per_platform() {
    let a = Activation::default_for(Platform::Windows);
    assert!(a.hold_enabled && a.chord_enabled && a.settings_chord_enabled);
    assert_eq!(a.hold_ms, 900);
    assert_eq!(a.chord, ChordSpec::overlay_default(Platform::Windows));
    assert_eq!(a.settings_chord, ChordSpec::settings_default(Platform::Windows));
    assert_eq!(DEFAULT_COMBO_DISPLAY_MODE, "all");
    assert_eq!(SCHEMA_VERSION, 1);
}

#[test]
fn configure_command_carries_settings() {
    let a = Activation::default_for(Platform::MacOs);
    match configure_command(&a, &vec!["thorium.exe".to_string()], true) {
        AgentCommand::Configure { hold_enabled, hold_ms, chord_enabled, chord, excluded_exes, title_events_enabled } => {
            assert!(hold_enabled && chord_enabled);
            assert_eq!(hold_ms, 900);
            assert_eq!(chord, ChordSpec::overlay_default(Platform::MacOs));
            assert_eq!(excluded_exes, vec!["thorium.exe".to_string()]);
            assert!(title_events_enabled);
        }
        _ => panic!("expected Configure"),
    }
}

#[test]
fn fresh_engine_has_no_manifests() {
    let e = Engine::new();
    assert!(e.store().is_empty());
    assert!(e.hosted_manifests().is_empty());
}
