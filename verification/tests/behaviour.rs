use quicuts::activation::{TimerCmd, VK_LWIN};
use quicuts::combo::{chord_norm, combo_eq, format_combo_seq, parse_combo_seq};
use quicuts::keys::{GlyphToken, Key};
use quicuts::macagent::{semantic_event, translate, vk_for_keycode, KeyEventKind, PollStep, TitlePoll, KC_A};
use quicuts::model::KeyCombo;
use quicuts::page::key_to_json;
use quicuts::pins::PinStore;
use quicuts::proto::{
    AgentEvent, ChordSpec, DismissReason, Edge, FatalKind, ForegroundInfo, Rect,
};
use quicuts::session::{
    badge_label, badge_strip, customization_combo, dismiss_step, drain_lines, handle_event,
    modal_from_name, pinnable, restart_delay_ms, window_changed, AppAction, DismissStep, Modal,
};
use quicuts::winhook::{configure, is_excluded, normalize_exclusions, HookConfig, HookEvent, HookPhase, HookState};

fn fg(pid: u32, exe: &str) -> ForegroundInfo {
    ForegroundInfo { pid, exe_path: None, exe_name: Some(exe.into()), title: None }
}

#[test]
fn toggling_a_pin_twice_restores_it() {
    let mut p = PinStore::new();
    p.toggle("Google.Chrome", "k1");
    assert!(p.is_pinned("Google.Chrome", "k1"));
    assert_eq!(p.get("Google.Chrome"), vec!["k1".to_string()]);
    p.toggle("Google.Chrome", "k1");
    assert!(!p.is_pinned("Google.Chrome", "k1"));
    assert!(p.get("Google.Chrome").is_empty());
    assert!(p.entries().is_empty());
}

#[test]
fn drain_lines_keeps_the_unfinished_tail() {
    let mut buf = String::from("{\"type\":\"pong\"}\n  \n{\"type\":\"hold_released\"}\r\n{\"type\"");
    let lines = drain_lines(&mut buf);
    assert_eq!(lines, vec!["{\"type\":\"pong\"}".to_string(), "{\"type\":\"hold_released\"}".to_string()]);
    assert_eq!(buf, "{\"type\"");
    let mut none = String::from("partial");
    assert!(drain_lines(&mut none).is_empty());
    assert_eq!(none, "partial");
}

#[test]
fn agent_events_plan_app_actions() {
    assert_eq!(
        handle_event(AgentEvent::Ready { proto_version: 1, caps: vec![] }, false, false),
        vec![AppAction::SendConfigure]
    );
    assert_eq!(
        handle_event(AgentEvent::HoldActivated { foreground: None }, false, false),
        vec![AppAction::SelectPinned, AppAction::ShowOverlay, AppAction::SendVisible(true)]
    );
    assert_eq!(
        handle_event(AgentEvent::ChordActivated { foreground: None }, true, true),
        vec![AppAction::HideOverlay, AppAction::SendVisible(false)]
    );
    assert_eq!(
        handle_event(AgentEvent::ChordActivated { foreground: None }, true, false),
        vec![AppAction::FocusOverlay, AppAction::SendVisible(true)]
    );
    assert_eq!(
        handle_event(AgentEvent::ChordActivated { foreground: Some(fg(7, "chrome.exe")) }, false, false),
        vec![
            AppAction::ApplyForeground { foreground: fg(7, "chrome.exe"), reset: true },
            AppAction::ShowOverlay,
            AppAction::SendVisible(true)
        ]
    );
    assert_eq!(
        handle_event(AgentEvent::Dismissed { reason: DismissReason::Esc }, true, true),
        vec![AppAction::Dismiss]
    );
    assert_eq!(
        handle_event(AgentEvent::Fatal { kind: FatalKind::Other, message: "x".into() }, false, false),
        vec![AppAction::ReportFatal(FatalKind::Other)]
    );
    assert!(handle_event(AgentEvent::Pong, false, false).is_empty());
}

#[test]
fn esc_peels_modals_then_filter_then_closes() {
    assert_eq!(dismiss_step(modal_from_name("capture"), true, true), DismissStep::PeelModal(Modal::Dialog));
    assert_eq!(dismiss_step(modal_from_name("dialog"), true, true), DismissStep::PeelModal(Modal::Nothing));
    assert_eq!(dismiss_step(modal_from_name("none"), true, true), DismissStep::ClearFilter);
    assert_eq!(dismiss_step(Modal::Nothing, false, true), DismissStep::Close);
    assert_eq!(dismiss_step(Modal::Nothing, true, false), DismissStep::Close);
}

#[test]
fn restart_backoff_doubles_then_gives_up() {
    assert_eq!(restart_delay_ms(0), Some(250));
    assert_eq!(restart_delay_ms(1), Some(500));
    assert_eq!(restart_delay_ms(4), Some(4000));
    assert_eq!(restart_delay_ms(5), None);
}

#[test]
fn window_changes_by_pid_or_identity() {
    let a = fg(1, "chrome.exe");
    assert!(window_changed(None, &a, false));
    assert!(!window_changed(Some(&a), &fg(1, "chrome.exe"), false));
    assert!(window_changed(Some(&a), &fg(2, "chrome.exe"), false));
    assert!(window_changed(Some(&a), &fg(1, "firefox.exe"), false));
    assert!(window_changed(Some(&a), &fg(1, "chrome.exe"), true));
}

#[test]
fn badges_and_pins() {
    assert_eq!(badge_label(3), "3");
    assert_eq!(badge_label(10), "0");
    let tb = Rect { x: 0, y: 1040, w: 1920, h: 40 };
    assert_eq!(badge_strip(Edge::Bottom, tb, 20), (0, 1020, 1920, 20));
    assert!(pinnable(Some("Google.Chrome")));
    assert!(!pinnable(Some("unsupported:notepad")));
    assert!(pinnable(None));
}

#[test]
fn captured_customization_is_formatted() {
    let chord = KeyCombo { win: false, ctrl: true, shift: true, alt: false, keys: vec![Key::Literal("C".into())] };
    assert_eq!(customization_combo(&vec![chord]), Ok("Ctrl+Shift+C".to_string()));
    assert_eq!(customization_combo(&Vec::new()), Err("empty key combination".to_string()));
}

#[test]
fn codec_round_trip_examples() {
    for s in ["Ctrl+Alt+Z", "Win+Up Ctrl+Plus Alt+VK120 Shift+<Enter>", "Ctrl+<Page Up>", "<TASKBAR1-9>"] {
        let seq = parse_combo_seq(s).unwrap();
        let back = parse_combo_seq(&format_combo_seq(&seq)).unwrap();
        assert!(combo_eq(s, &format_combo_seq(&back)), "{s}");
    }
    assert!(combo_eq("ctrl+<Enter>", "Ctrl+Enter"));
    assert!(!combo_eq("Ctrl+A", "Ctrl+B"));
    assert_eq!(parse_combo_seq(""), None);
    assert_eq!(parse_combo_seq("   "), None);
}

#[test]
fn key_json_shapes() {
    assert_eq!(key_to_json(&Key::Literal("A".into())), "{\"kind\":\"literal\",\"value\":\"A\"}");
    assert_eq!(key_to_json(&Key::Vk(91)), "{\"kind\":\"vk\",\"value\":91}");
    assert!(key_to_json(&Key::Glyph(GlyphToken::Enter)).contains("\"kind\":\"glyph\""));
}

#[test]
fn key_json_escapes_strings_like_serde_json() {
    let k = Key::Literal("a\"b\\\n\t\u{1}\u{1f}/\u{7f}é".into());
    assert_eq!(
        key_to_json(&k),
        "{\"kind\":\"literal\",\"value\":\"a\\\"b\\\\\\n\\t\\u0001\\u001f/\u{7f}é\"}"
    );
    assert_eq!(key_to_json(&Key::AngleLiteral("x\u{8}\u{c}\r".into())), "{\"kind\":\"angle_literal\",\"value\":\"x\\b\\f\\r\"}");
}

#[test]
fn hook_hold_then_release() {
    let cfg = configure(&HookConfig::initial(), true, 900, true, ChordSpec { win: true, ctrl: false, shift: true, alt: false, vk: 0xBF }, false);
    let mut h = HookState::new();
    let a = h.decide(&cfg, VK_LWIN, true, false);
    assert!(!a.swallow);
    assert_eq!(a.timer, Some(TimerCmd::Arm(900)));
    assert_eq!(h.phase(), HookPhase::WinDown);
    assert_eq!(h.on_timer(&cfg, false, false, false, false), Some(HookEvent::HoldActivated));
    let a = h.decide(&cfg, VK_LWIN, false, true);
    assert_eq!(a.event, Some(HookEvent::HoldReleased));
    assert!(a.inject_dummy);
    assert_eq!(h.phase(), HookPhase::Idle);
}

#[test]
fn hook_hold_ms_is_clamped_and_exclusions_normalized() {
    let c = configure(&HookConfig::initial(), true, 10, false, ChordSpec { win: true, ctrl: false, shift: true, alt: false, vk: 0xBF }, true);
    assert_eq!(c.hold_ms, 150);
    let c = configure(&c, true, 60000, false, c.chord, true);
    assert_eq!(c.hold_ms, 5000);
    let list = normalize_exclusions(&vec!["Game.EXE".into(), r"C:\x\Tool.exe".into()]);
    assert_eq!(list, vec!["game".to_string(), "tool".to_string()]);
    assert!(is_excluded(Some("game.exe"), &list));
    assert!(!is_excluded(Some("notepad.exe"), &list));
    assert!(!is_excluded(None, &list));
}

#[test]
fn mac_keys_and_events() {
    assert_eq!(vk_for_keycode(KC_A), Some(0x41));
    assert_eq!(translate(KeyEventKind::KeyDown, KC_A, 0), Some((0x41, true)));
    assert_eq!(translate(KeyEventKind::KeyUp, KC_A, 0), Some((0x41, false)));
    assert_eq!(
        semantic_event(quicuts::activation::Event::DismissedEsc, None),
        AgentEvent::Dismissed { reason: DismissReason::Esc }
    );
}

#[test]
fn title_poll_debounces_and_reports_once() {
    let mut p = TitlePoll::new();
    assert_eq!(p.sample(1, Some("Inbox".into())), PollStep::Settling);
    assert_eq!(p.sample(1, Some("Inbox".into())), PollStep::Report);
    p.mark_sent(&Some("Inbox".into()));
    assert_eq!(p.sample(1, Some("Inbox".into())), PollStep::Unchanged);
    assert_eq!(p.sample(2, Some("Inbox".into())), PollStep::Settling);
    assert_eq!(p.sample(2, Some("Inbox".into())), PollStep::Report);
}

fn ctrl_literal(lit: &str) -> KeyCombo {
    KeyCombo { win: false, ctrl: true, shift: false, alt: false, keys: vec![Key::Literal(lit.to_string())] }
}

#[test]
fn literal_alias_words_are_bracketed_and_survive() {
    let cases = [("Esc", "Ctrl+<Esc>"), ("Ctrl", "Ctrl+<Ctrl>"), ("VK12", "Ctrl+<VK12>"), ("Return", "Ctrl+<Return>"), ("Plus", "Ctrl+<Plus>")];
    for (lit, text) in cases {
        let formatted = format_combo_seq(&vec![ctrl_literal(lit)]);
        assert_eq!(formatted, text);
        let back = parse_combo_seq(&formatted).unwrap();
        assert_eq!(back.len(), 1);
        assert_eq!(chord_norm(&back[0]), chord_norm(&ctrl_literal(lit)));
    }
}

#[test]
fn literals_that_read_back_stay_bare() {
    let make = || KeyCombo {
        win: true,
        ctrl: false,
        shift: false,
        alt: false,
        keys: vec![Key::Literal("Enter".to_string()), Key::Literal("F5".to_string()), Key::Literal("Z".to_string())],
    };
    let formatted = format_combo_seq(&vec![make()]);
    assert_eq!(formatted, "Win+Enter+F5+Z");
    let back = parse_combo_seq(&formatted).unwrap();
    assert_eq!(chord_norm(&back[0]), chord_norm(&make()));
}
