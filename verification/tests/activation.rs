use quicuts::activation::{Activation, Config, Decision, Event, TimerCmd, VK_ESCAPE, VK_LWIN, VK_RWIN};

const VK_TAB: u32 = 0x09;
const VK_SLASH: u32 = 0xBF; // VK_OEM_2

/// ⌃⌘/ — the macOS default chord.
fn cfg(visible: bool) -> Config {
    Config {
        hold_enabled: true,
        hold_ms: 900,
        chord_enabled: true,
        chord_win: true,
        chord_ctrl: true,
        chord_shift: false,
        chord_alt: false,
        chord_vk: VK_SLASH,
        overlay_visible: visible,
    }
}

#[test]
fn holding_cmd_past_threshold_fires_hold_activated() {
    let mut a = Activation::new();
    let c = cfg(false);
    let d = a.on_key(&c, VK_LWIN, true);
    assert!(!d.swallow);
    assert_eq!(d.timer, Some(TimerCmd::Arm(900)));
    assert_eq!(d.event, None);
    let d = a.on_hold_timer(&c, false);
    assert_eq!(d.event, Some(Event::HoldActivated));
    // Releasing afterwards reports the release.
    let d = a.on_key(&c, VK_LWIN, false);
    assert_eq!(d.event, Some(Event::HoldReleased));
    assert!(!d.swallow);
}

#[test]
fn cmd_tab_drops_to_combo_and_never_holds() {
    let mut a = Activation::new();
    let c = cfg(false);
    assert_eq!(a.on_key(&c, VK_LWIN, true).timer, Some(TimerCmd::Arm(900)));
    let d = a.on_key(&c, VK_TAB, true);
    assert!(!d.swallow);
    assert_eq!(d.timer, Some(TimerCmd::Cancel));
    // A late timer fire (adapter raced the cancel) must not activate.
    assert_eq!(a.on_hold_timer(&c, false), Decision::pass());
    assert_eq!(a.on_key(&c, VK_TAB, false), Decision::pass());
    let d = a.on_key(&c, VK_LWIN, false);
    assert_eq!(d.event, None);
}

#[test]
fn quick_cmd_tap_fires_nothing() {
    let mut a = Activation::new();
    let c = cfg(false);
    a.on_key(&c, VK_LWIN, true);
    let d = a.on_key(&c, VK_LWIN, false);
    assert!(!d.swallow);
    assert_eq!(d.event, None);
    assert_eq!(d.timer, Some(TimerCmd::Cancel));
}

#[test]
fn chord_fires_and_swallows_down_and_up() {
    let mut a = Activation::new();
    let c = cfg(false);
    a.on_key(&c, VK_LWIN, true);
    a.on_key(&c, 0xA2, true); // left ctrl
    let d = a.on_key(&c, VK_SLASH, true);
    assert!(d.swallow);
    assert_eq!(d.event, Some(Event::ChordActivated));
    // Autorepeat while held: swallowed, no re-emit.
    let d = a.on_key(&c, VK_SLASH, true);
    assert!(d.swallow);
    assert_eq!(d.event, None);
    let d = a.on_key(&c, VK_SLASH, false);
    assert!(d.swallow);
    assert_eq!(d.event, None);
}

#[test]
fn chord_again_while_visible_dismisses() {
    let mut a = Activation::new();
    let c = cfg(true);
    a.on_key(&c, VK_LWIN, true);
    a.on_key(&c, 0xA2, true);
    let d = a.on_key(&c, VK_SLASH, true);
    assert!(d.swallow);
    assert_eq!(d.event, Some(Event::DismissedChordAgain));
}

#[test]
fn esc_while_visible_dismisses_and_is_swallowed() {
    let mut a = Activation::new();
    let c = cfg(true);
    let d = a.on_key(&c, VK_ESCAPE, true);
    assert!(d.swallow);
    assert_eq!(d.event, Some(Event::DismissedEsc));
    let d = a.on_key(&c, VK_ESCAPE, false);
    assert!(d.swallow);
    assert_eq!(d.event, None);
}

#[test]
fn esc_while_not_visible_passes_through() {
    let mut a = Activation::new();
    let c = cfg(false);
    let d = a.on_key(&c, VK_ESCAPE, true);
    assert!(!d.swallow);
    assert_eq!(d.event, None);
    assert!(!a.on_key(&c, VK_ESCAPE, false).swallow);
}

#[test]
fn excluded_foreground_prevents_hold() {
    let mut a = Activation::new();
    let c = cfg(false);
    a.on_key(&c, VK_LWIN, true);
    let d = a.on_hold_timer(&c, true);
    assert_eq!(d.event, None);
    // The ⌘ press stays live: the user can still combo out of it.
    let d = a.on_key(&c, VK_TAB, true);
    assert!(!d.swallow);
    let d = a.on_key(&c, VK_LWIN, false);
    assert_eq!(d.event, None);
}

#[test]
fn modifier_held_at_threshold_means_combo() {
    let mut a = Activation::new();
    let c = cfg(false);
    // ⇧ then ⌘ held (screenshot-style chord in progress): no hold.
    a.on_key(&c, 0xA0, true);
    a.on_key(&c, VK_LWIN, true);
    assert_eq!(a.on_hold_timer(&c, false), Decision::pass());
    // And a passthrough key while in Combo stays untouched.
    assert_eq!(a.on_key(&c, 0x34, true), Decision::pass());
}

#[test]
fn passthrough_while_hold_active_dismisses() {
    let mut a = Activation::new();
    let c = cfg(false);
    a.on_key(&c, VK_LWIN, true);
    a.on_hold_timer(&c, false);
    // ⌘E while the panel is up: pass through + dismiss.
    let d = a.on_key(&c, 0x45, true);
    assert!(!d.swallow);
    assert_eq!(d.event, Some(Event::DismissedPassthrough));
    // ⌘ release out of Combo ends quietly.
    assert_eq!(a.on_key(&c, 0x45, false), Decision::pass());
    let d = a.on_key(&c, VK_LWIN, false);
    assert_eq!(d.event, None);
}

/// Regression: the tap can be disabled mid-hold (timeout, sleep/wake), and
/// the ⌘ key-up that happens while it is dead is never delivered. Without
/// a reset on re-enable the panel stays up and hold activation is dead —
/// the next ⌘ press re-arms nothing, because `HoldActive` ignores a ⌘ down.
#[test]
fn reset_on_tap_reenable_clears_a_wedged_hold() {
    let mut a = Activation::new();
    let c = cfg(false);
    a.on_key(&c, VK_LWIN, true);
    assert_eq!(a.on_hold_timer(&c, false).event, Some(Event::HoldActivated));

    // Tap dies here; the ⌘ up is swallowed by the outage. Re-enabling it
    // must tell the app the hold is over.
    assert_eq!(a.reset(), Some(Event::HoldReleased));

    // And the state machine is live again: the next ⌘ press arms and holds.
    let d = a.on_key(&c, VK_LWIN, true);
    assert_eq!(d.timer, Some(TimerCmd::Arm(900)));
    assert_eq!(a.on_hold_timer(&c, false).event, Some(Event::HoldActivated));
}

/// Resetting outside a hold reports nothing — a chord-shown panel is meant
/// to outlive the keypress and must not be dismissed by tap recovery.
#[test]
fn reset_outside_a_hold_is_silent() {
    let mut a = Activation::new();
    let c = cfg(true);
    assert_eq!(Activation::new().reset(), None);
    a.on_key(&c, VK_LWIN, true); // CmdDown, timer armed
    assert_eq!(a.reset(), None);
    // The stale timer fire that outlived the reset must not activate.
    assert_eq!(a.on_hold_timer(&c, false), Decision::pass());
}

/// Both ⌘ keys held: releasing one is not the end of the press.
#[test]
fn releasing_one_cmd_while_the_other_is_held_keeps_the_hold() {
    let mut a = Activation::new();
    let c = cfg(false);
    a.on_key(&c, VK_LWIN, true);
    a.on_key(&c, VK_RWIN, true);
    assert_eq!(a.on_hold_timer(&c, false).event, Some(Event::HoldActivated));
    // Left ⌘ up, right still down: the panel stays.
    assert_eq!(a.on_key(&c, VK_LWIN, false).event, None);
    // The last ⌘ up ends it.
    assert_eq!(a.on_key(&c, VK_RWIN, false).event, Some(Event::HoldReleased));
}

#[test]
fn hold_disabled_never_arms() {
    let mut a = Activation::new();
    let mut c = cfg(false);
    c.hold_enabled = false;
    let d = a.on_key(&c, VK_LWIN, true);
    assert_eq!(d.timer, None);
    assert_eq!(a.on_hold_timer(&c, false).event, None);
}
