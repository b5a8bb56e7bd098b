//! Decisions of the macOS agent around the activation state machine: the
//! mapping of macOS virtual key codes to the Windows-style codes the
//! protocol speaks, configuration, exclusion, own-window filtering, the
//! semantic events reported to the app, and the title poller's debounce.

use vstd::prelude::*;

use crate::activation::{Config, Event};
use crate::model::{normalize_exe, normalize_exe_spec};
use crate::proto::{AgentEvent, ChordSpec, DismissReason, ForegroundInfo};
use crate::text::{chars_of, ends_with, str_eq};
use crate::winhook::{clamp_spec, HOLD_MS_MAX, HOLD_MS_MIN};

verus! {

// macOS virtual key codes (ANSI layout positions).
pub const KC_A: u16 = 0x00;
pub const KC_S: u16 = 0x01;
pub const KC_D: u16 = 0x02;
pub const KC_F: u16 = 0x03;
pub const KC_H: u16 = 0x04;
pub const KC_G: u16 = 0x05;
pub const KC_Z: u16 = 0x06;
pub const KC_X: u16 = 0x07;
pub const KC_C: u16 = 0x08;
pub const KC_V: u16 = 0x09;
pub const KC_B: u16 = 0x0B;
pub const KC_Q: u16 = 0x0C;
pub const KC_W: u16 = 0x0D;
pub const KC_E: u16 = 0x0E;
pub const KC_R: u16 = 0x0F;
pub const KC_Y: u16 = 0x10;
pub const KC_T: u16 = 0x11;
pub const KC_1: u16 = 0x12;
pub const KC_2: u16 = 0x13;
pub const KC_3: u16 = 0x14;
pub const KC_4: u16 = 0x15;
pub const KC_6: u16 = 0x16;
pub const KC_5: u16 = 0x17;
pub const KC_EQUAL: u16 = 0x18;
pub const KC_9: u16 = 0x19;
pub const KC_7: u16 = 0x1A;
pub const KC_MINUS: u16 = 0x1B;
pub const KC_8: u16 = 0x1C;
pub const KC_0: u16 = 0x1D;
pub const KC_RIGHT_BRACKET: u16 = 0x1E;
pub const KC_O: u16 = 0x1F;
pub const KC_U: u16 = 0x20;
pub const KC_LEFT_BRACKET: u16 = 0x21;
pub const KC_I: u16 = 0x22;
pub const KC_P: u16 = 0x23;
pub const KC_RETURN: u16 = 0x24;
pub const KC_L: u16 = 0x25;
pub const KC_J: u16 = 0x26;
pub const KC_QUOTE: u16 = 0x27;
pub const KC_K: u16 = 0x28;
pub const KC_SEMICOLON: u16 = 0x29;
pub const KC_BACKSLASH: u16 = 0x2A;
pub const KC_COMMA: u16 = 0x2B;
pub const KC_SLASH: u16 = 0x2C;
pub const KC_N: u16 = 0x2D;
pub const KC_M: u16 = 0x2E;
pub const KC_PERIOD: u16 = 0x2F;
pub const KC_TAB: u16 = 0x30;
pub const KC_SPACE: u16 = 0x31;
pub const KC_GRAVE: u16 = 0x32;
pub const KC_DELETE: u16 = 0x33;
pub const KC_ESCAPE: u16 = 0x35;
pub const KC_RIGHT_COMMAND: u16 = 0x36;
pub const KC_COMMAND: u16 = 0x37;
pub const KC_SHIFT: u16 = 0x38;
pub const KC_OPTION: u16 = 0x3A;
pub const KC_CONTROL: u16 = 0x3B;
pub const KC_RIGHT_SHIFT: u16 = 0x3C;
pub const KC_RIGHT_OPTION: u16 = 0x3D;
pub const KC_RIGHT_CONTROL: u16 = 0x3E;
pub const KC_F5: u16 = 0x60;
pub const KC_F6: u16 = 0x61;
pub const KC_F7: u16 = 0x62;
pub const KC_F3: u16 = 0x63;
pub const KC_F8: u16 = 0x64;
pub const KC_F9: u16 = 0x65;
pub const KC_F11: u16 = 0x67;
pub const KC_F10: u16 = 0x6D;
pub const KC_F12: u16 = 0x6F;
pub const KC_HOME: u16 = 0x73;
pub const KC_PAGE_UP: u16 = 0x74;
pub const KC_FORWARD_DELETE: u16 = 0x75;
pub const KC_F4: u16 = 0x76;
pub const KC_END: u16 = 0x77;
pub const KC_F2: u16 = 0x78;
pub const KC_PAGE_DOWN: u16 = 0x79;
pub const KC_F1: u16 = 0x7A;
pub const KC_LEFT_ARROW: u16 = 0x7B;
pub const KC_RIGHT_ARROW: u16 = 0x7C;
pub const KC_DOWN_ARROW: u16 = 0x7D;
pub const KC_UP_ARROW: u16 = 0x7E;

/// The Windows virtual-key code for a macOS key code: every key the
/// settings UI can capture into a chord, plus the modifiers and Esc the
/// state machine tracks (⌘ maps to the Win keys). Other keys have none.
pub open spec fn vk_spec(kc: u16) -> Option<u32> {
    if kc == KC_COMMAND { Some(0x5B) }
    else if kc == KC_RIGHT_COMMAND { Some(0x5C) }
    else if kc == KC_SHIFT { Some(0xA0) }
    else if kc == KC_RIGHT_SHIFT { Some(0xA1) }
    else if kc == KC_CONTROL { Some(0xA2) }
    else if kc == KC_RIGHT_CONTROL { Some(0xA3) }
    else if kc == KC_OPTION { Some(0xA4) }
    else if kc == KC_RIGHT_OPTION { Some(0xA5) }
    else if kc == KC_ESCAPE { Some(0x1B) }
    else if kc == KC_RETURN { Some(0x0D) }
    else if kc == KC_TAB { Some(0x09) }
    else if kc == KC_SPACE { Some(0x20) }
    else if kc == KC_DELETE { Some(0x08) }
    else if kc == KC_FORWARD_DELETE { Some(0x2E) }
    else if kc == KC_HOME { Some(0x24) }
    else if kc == KC_END { Some(0x23) }
    else if kc == KC_PAGE_UP { Some(0x21) }
    else if kc == KC_PAGE_DOWN { Some(0x22) }
    else if kc == KC_LEFT_ARROW { Some(0x25) }
    else if kc == KC_UP_ARROW { Some(0x26) }
    else if kc == KC_RIGHT_ARROW { Some(0x27) }
    else if kc == KC_DOWN_ARROW { Some(0x28) }
    else if kc == KC_A { Some(0x41) }
    else if kc == KC_B { Some(0x42) }
    else if kc == KC_C { Some(0x43) }
    else if kc == KC_D { Some(0x44) }
    else if kc == KC_E { Some(0x45) }
    else if kc == KC_F { Some(0x46) }
    else if kc == KC_G { Some(0x47) }
    else if kc == KC_H { Some(0x48) }
    else if kc == KC_I { Some(0x49) }
    else if kc == KC_J { Some(0x4A) }
    else if kc == KC_K { Some(0x4B) }
    else if kc == KC_L { Some(0x4C) }
    else if kc == KC_M { Some(0x4D) }
    else if kc == KC_N { Some(0x4E) }
    else if kc == KC_O { Some(0x4F) }
    else if kc == KC_P { Some(0x50) }
    else if kc == KC_Q { Some(0x51) }
    else if kc == KC_R { Some(0x52) }
    else if kc == KC_S { Some(0x53) }
    else if kc == KC_T { Some(0x54) }
    else if kc == KC_U { Some(0x55) }
    else if kc == KC_V { Some(0x56) }
    else if kc == KC_W { Some(0x57) }
    else if kc == KC_X { Some(0x58) }
    else if kc == KC_Y { Some(0x59) }
    else if kc == KC_Z { Some(0x5A) }
    else if kc == KC_0 { Some(0x30) }
    else if kc == KC_1 { Some(0x31) }
    else if kc == KC_2 { Some(0x32) }
    else if kc == KC_3 { Some(0x33) }
    else if kc == KC_4 { Some(0x34) }
    else if kc == KC_5 { Some(0x35) }
    else if kc == KC_6 { Some(0x36) }
    else if kc == KC_7 { Some(0x37) }
    else if kc == KC_8 { Some(0x38) }
    else if kc == KC_9 { Some(0x39) }
    else if kc == KC_F1 { Some(0x70) }
    else if kc == KC_F2 { Some(0x71) }
    else if kc == KC_F3 { Some(0x72) }
    else if kc == KC_F4 { Some(0x73) }
    else if kc == KC_F5 { Some(0x74) }
    else if kc == KC_F6 { Some(0x75) }
    else if kc == KC_F7 { Some(0x76) }
    else if kc == KC_F8 { Some(0x77) }
    else if kc == KC_F9 { Some(0x78) }
    else if kc == KC_F10 { Some(0x79) }
    else if kc == KC_F11 { Some(0x7A) }
    else if kc == KC_F12 { Some(0x7B) }
    else if kc == KC_SEMICOLON { Some(0xBA) }
    else if kc == KC_EQUAL { Some(0xBB) }
    else if kc == KC_COMMA { Some(0xBC) }
    else if kc == KC_MINUS { Some(0xBD) }
    else if kc == KC_PERIOD { Some(0xBE) }
    else if kc == KC_SLASH { Some(0xBF) }
    else if kc == KC_GRAVE { Some(0xC0) }
    else if kc == KC_LEFT_BRACKET { Some(0xDB) }
    else if kc == KC_BACKSLASH { Some(0xDC) }
    else if kc == KC_RIGHT_BRACKET { Some(0xDD) }
    else if kc == KC_QUOTE { Some(0xDE) }
    else { None }
}

pub fn vk_for_keycode(kc: u16) -> (r: Option<u32>)
    ensures
        r == vk_spec(kc),
{
    if kc == KC_COMMAND { Some(0x5B) }
    else if kc == KC_RIGHT_COMMAND { Some(0x5C) }
    else if kc == KC_SHIFT { Some(0xA0) }
    else if kc == KC_RIGHT_SHIFT { Some(0xA1) }
    else if kc == KC_CONTROL { Some(0xA2) }
    else if kc == KC_RIGHT_CONTROL { Some(0xA3) }
    else if kc == KC_OPTION { Some(0xA4) }
    else if kc == KC_RIGHT_OPTION { Some(0xA5) }
    else if kc == KC_ESCAPE { Some(0x1B) }
    else if kc == KC_RETURN { Some(0x0D) }
    else if kc == KC_TAB { Some(0x09) }
    else if kc == KC_SPACE { Some(0x20) }
    else if kc == KC_DELETE { Some(0x08) }
    else if kc == KC_FORWARD_DELETE { Some(0x2E) }
    else if kc == KC_HOME { Some(0x24) }
    else if kc == KC_END { Some(0x23) }
    else if kc == KC_PAGE_UP { Some(0x21) }
    else if kc == KC_PAGE_DOWN { Some(0x22) }
    else if kc == KC_LEFT_ARROW { Some(0x25) }
    else if kc == KC_UP_ARROW { Some(0x26) }
    else if kc == KC_RIGHT_ARROW { Some(0x27) }
    else if kc == KC_DOWN_ARROW { Some(0x28) }
    else if kc == KC_A { Some(0x41) }
    else if kc == KC_B { Some(0x42) }
    else if kc == KC_C { Some(0x43) }
    else if kc == KC_D { Some(0x44) }
    else if kc == KC_E { Some(0x45) }
    else if kc == KC_F { Some(0x46) }
    else if kc == KC_G { Some(0x47) }
    else if kc == KC_H { Some(0x48) }
    else if kc == KC_I { Some(0x49) }
    else if kc == KC_J { Some(0x4A) }
    else if kc == KC_K { Some(0x4B) }
    else if kc == KC_L { Some(0x4C) }
    else if kc == KC_M { Some(0x4D) }
    else if kc == KC_N { Some(0x4E) }
    else if kc == KC_O { Some(0x4F) }
    else if kc == KC_P { Some(0x50) }
    else if kc == KC_Q { Some(0x51) }
    else if kc == KC_R { Some(0x52) }
    else if kc == KC_S { Some(0x53) }
    else if kc == KC_T { Some(0x54) }
    else if kc == KC_U { Some(0x55) }
    else if kc == KC_V { Some(0x56) }
    else if kc == KC_W { Some(0x57) }
    else if kc == KC_X { Some(0x58) }
    else if kc == KC_Y { Some(0x59) }
    else if kc == KC_Z { Some(0x5A) }
    else if kc == KC_0 { Some(0x30) }
    else if kc == KC_1 { Some(0x31) }
    else if kc == KC_2 { Some(0x32) }
    else if kc == KC_3 { Some(0x33) }
    else if kc == KC_4 { Some(0x34) }
    else if kc == KC_5 { Some(0x35) }
    else if kc == KC_6 { Some(0x36) }
    else if kc == KC_7 { Some(0x37) }
    else if kc == KC_8 { Some(0x38) }
    else if kc == KC_9 { Some(0x39) }
    else if kc == KC_F1 { Some(0x70) }
    else if kc == KC_F2 { Some(0x71) }
    else if kc == KC_F3 { Some(0x72) }
    else if kc == KC_F4 { Some(0x73) }
    else if kc == KC_F5 { Some(0x74) }
    else if kc == KC_F6 { Some(0x75) }
    else if kc == KC_F7 { Some(0x76) }
    else if kc == KC_F8 { Some(0x77) }
    else if kc == KC_F9 { Some(0x78) }
    else if kc == KC_F10 { Some(0x79) }
    else if kc == KC_F11 { Some(0x7A) }
    else if kc == KC_F12 { Some(0x7B) }
    else if kc == KC_SEMICOLON { Some(0xBA) }
    else if kc == KC_EQUAL { Some(0xBB) }
    else if kc == KC_COMMA { Some(0xBC) }
    else if kc == KC_MINUS { Some(0xBD) }
    else if kc == KC_PERIOD { Some(0xBE) }
    else if kc == KC_SLASH { Some(0xBF) }
    else if kc == KC_GRAVE { Some(0xC0) }
    else if kc == KC_LEFT_BRACKET { Some(0xDB) }
    else if kc == KC_BACKSLASH { Some(0xDC) }
    else if kc == KC_RIGHT_BRACKET { Some(0xDD) }
    else if kc == KC_QUOTE { Some(0xDE) }
    else { None }
}

/// The device-dependent flag bit of a per-side modifier key.
pub open spec fn device_bit_spec(kc: u16) -> Option<u64> {
    if kc == KC_CONTROL { Some(0x0000_0001) }
    else if kc == KC_SHIFT { Some(0x0000_0002) }
    else if kc == KC_RIGHT_SHIFT { Some(0x0000_0004) }
    else if kc == KC_COMMAND { Some(0x0000_0008) }
    else if kc == KC_RIGHT_COMMAND { Some(0x0000_0010) }
    else if kc == KC_OPTION { Some(0x0000_0020) }
    else if kc == KC_RIGHT_OPTION { Some(0x0000_0040) }
    else if kc == KC_RIGHT_CONTROL { Some(0x0000_2000) }
    else { None }
}

pub fn device_bit(kc: u16) -> (r: Option<u64>)
    ensures
        r == device_bit_spec(kc),
{
    if kc == KC_CONTROL { Some(0x0000_0001) }
    else if kc == KC_SHIFT { Some(0x0000_0002) }
    else if kc == KC_RIGHT_SHIFT { Some(0x0000_0004) }
    else if kc == KC_COMMAND { Some(0x0000_0008) }
    else if kc == KC_RIGHT_COMMAND { Some(0x0000_0010) }
    else if kc == KC_OPTION { Some(0x0000_0020) }
    else if kc == KC_RIGHT_OPTION { Some(0x0000_0040) }
    else if kc == KC_RIGHT_CONTROL { Some(0x0000_2000) }
    else { None }
}

/// The kinds of event-tap event that carry a key transition.
#[derive(Debug, Clone, Copy, PartialEq, Eq, Structural)]
pub enum KeyEventKind {
    KeyDown,
    KeyUp,
    /// A modifier changed; whether it went down is in the flag bits.
    FlagsChanged,
}

/// One key transition as (Windows-style VK, is_down), or None to let the
/// event pass untouched. A modifier's direction is read from its
/// device-dependent flag bit (the generic ⌘ bit stays set while either ⌘
/// is held).
pub fn translate(kind: KeyEventKind, kc: u16, flags: u64) -> (r: Option<(u32, bool)>)
    ensures
        r == (match kind {
            KeyEventKind::KeyDown => match vk_spec(kc) {
                Some(v) => Some((v, true)),
                None => None,
            },
            KeyEventKind::KeyUp => match vk_spec(kc) {
                Some(v) => Some((v, false)),
                None => None,
            },
            KeyEventKind::FlagsChanged => match (device_bit_spec(kc), vk_spec(kc)) {
                (Some(b), Some(v)) => Some((v, flags & b != 0)),
                _ => None,
            },
        }),
{
    match kind {
        KeyEventKind::KeyDown => match vk_for_keycode(kc) {
            Some(v) => Some((v, true)),
            None => None,
        },
        KeyEventKind::KeyUp => match vk_for_keycode(kc) {
            Some(v) => Some((v, false)),
            None => None,
        },
        KeyEventKind::FlagsChanged => {
            let bit = match device_bit(kc) {
                Some(b) => b,
                None => return None,
            };
            match vk_for_keycode(kc) {
                Some(v) => Some((v, flags & bit != 0)),
                None => None,
            }
        },
    }
}

/// The protocol event for a transition of the state machine. Activations
/// carry the foreground snapshot taken before the panel showed.
pub fn semantic_event(ev: Event, foreground: Option<ForegroundInfo>) -> (r: AgentEvent)
    ensures
        match ev {
            Event::HoldActivated => r == AgentEvent::HoldActivated { foreground },
            Event::HoldReleased => r == AgentEvent::HoldReleased,
            Event::ChordActivated => r == AgentEvent::ChordActivated { foreground },
            Event::DismissedEsc => r == AgentEvent::Dismissed { reason: DismissReason::Esc },
            Event::DismissedChordAgain => r == AgentEvent::Dismissed { reason: DismissReason::ChordAgain },
            Event::DismissedPassthrough => r == AgentEvent::Dismissed { reason: DismissReason::Passthrough },
        },
{
    match ev {
        Event::HoldActivated => AgentEvent::HoldActivated { foreground },
        Event::HoldReleased => AgentEvent::HoldReleased,
        Event::ChordActivated => AgentEvent::ChordActivated { foreground },
        Event::DismissedEsc => AgentEvent::Dismissed { reason: DismissReason::Esc },
        Event::DismissedChordAgain => AgentEvent::Dismissed { reason: DismissReason::ChordAgain },
        Event::DismissedPassthrough => AgentEvent::Dismissed { reason: DismissReason::Passthrough },
    }
}

/// The agent's configuration before the first `Configure`.
pub fn initial_config() -> (r: Config)
    ensures
        !r.hold_enabled && r.hold_ms == 900 && !r.chord_enabled && !r.chord_win && !r.chord_ctrl
            && !r.chord_shift && !r.chord_alt && r.chord_vk == 0xBF && !r.overlay_visible,
{
    Config {
        hold_enabled: false,
        hold_ms: 900,
        chord_enabled: false,
        chord_win: false,
        chord_ctrl: false,
        chord_shift: false,
        chord_alt: false,
        chord_vk: 0xBF,
        overlay_visible: false,
    }
}

/// A `Configure` applied: the hold duration clamped to its bounds, the
/// visibility flag kept.
pub fn configure(prev: &Config, hold_enabled: bool, hold_ms: u32, chord_enabled: bool, chord: ChordSpec) -> (r: Config)
    ensures
        r.hold_enabled == hold_enabled,
        r.hold_ms == clamp_spec(hold_ms, HOLD_MS_MIN, HOLD_MS_MAX),
        r.chord_enabled == chord_enabled,
        r.chord_win == chord.win && r.chord_ctrl == chord.ctrl && r.chord_shift == chord.shift
            && r.chord_alt == chord.alt && r.chord_vk == chord.vk,
        r.overlay_visible == prev.overlay_visible,
{
    let ms = if hold_ms < HOLD_MS_MIN {
        HOLD_MS_MIN
    } else if hold_ms > HOLD_MS_MAX {
        HOLD_MS_MAX
    } else {
        hold_ms
    };
    Config {
        hold_enabled,
        hold_ms: ms,
        chord_enabled,
        chord_win: chord.win,
        chord_ctrl: chord.ctrl,
        chord_shift: chord.shift,
        chord_alt: chord.alt,
        chord_vk: chord.vk,
        overlay_visible: prev.overlay_visible,
    }
}

/// An identity normalized for exclusion matching, by the same rule as
/// foreground matching (basename, lowercase, one ".exe" stripped).
pub fn normalize_identity(name: &str) -> (r: String)
    ensures
        r@ == normalize_exe_spec(name@),
{
    normalize_exe(name)
}

/// Hold must not arm while an excluded app is frontmost; `list` holds
/// normalized identities.
pub fn is_excluded(identity: Option<&str>, list: &Vec<String>) -> (r: bool)
    ensures
        r == (match identity {
            Some(n) => exists|i: int| 0 <= i < list@.len() && #[trigger] list@[i]@ == normalize_exe_spec(n@),
            None => false,
        }),
{
    crate::winhook::is_excluded(identity, list)
}

/// The bundle id of the Quicuts app itself.
pub const OWN_BUNDLE_ID: &'static str = "com.barbowza.quicuts";

/// One of our own windows: our bundle id, or (unbundled) our executable or
/// app path.
pub fn is_own(exe_name: Option<&str>, exe_path: Option<&str>) -> (r: bool)
    ensures
        r == ((exe_name matches Some(n) && n@ == OWN_BUNDLE_ID@) || (exe_path matches Some(p) && (ends_with(
            p@,
            "/quicuts"@,
        ) || ends_with(p@, "/Quicuts.app"@)))),
{
    let by_id = match exe_name {
        Some(n) => str_eq(n, OWN_BUNDLE_ID),
        None => false,
    };
    let by_path = match exe_path {
        Some(p) => {
            let v = chars_of(p);
            let a = chars_of("/quicuts");
            let b = chars_of("/Quicuts.app");
            crate::text::has_suffix(&v, &a) || crate::text::has_suffix(&v, &b)
        },
        None => false,
    };
    by_id || by_path
}

/// A frontmost app worth caching and reporting: not ours, and carrying an
/// identity that matching could key on.
pub fn accept_foreground(exe_name: Option<&str>, exe_path: Option<&str>) -> (r: bool)
    ensures
        r == (!((exe_name matches Some(n) && n@ == OWN_BUNDLE_ID@) || (exe_path matches Some(p) && (ends_with(
            p@,
            "/quicuts"@,
        ) || ends_with(p@, "/Quicuts.app"@)))) && !(exe_name is None && exe_path is None)),
{
    !is_own(exe_name, exe_path) && !(exe_name.is_none() && exe_path.is_none())
}

// ---------------------------------------------------------------------------
// Title poller
// ---------------------------------------------------------------------------

/// What one title sample means.
#[derive(Debug, Clone, Copy, PartialEq, Eq, Structural)]
pub enum PollStep {
    /// Differs from the previous sample: wait for it to settle.
    Settling,
    /// Settled, but already reported for this foreground.
    Unchanged,
    /// Settled and new: report it (after re-checking the foreground).
    Report,
}

pub open spec fn opt_eq(a: Option<String>, b: Option<String>) -> bool {
    match (a, b) {
        (Some(x), Some(y)) => x@ == y@,
        (None, None) => true,
        _ => false,
    }
}

/// The poller's memory: the last sample (foreground generation, title) and
/// the title already reported for generation `sent_gen`.
#[derive(Debug)]
pub struct TitlePoll {
    pub last_seen: Option<(u64, Option<String>)>,
    pub sent_gen: u64,
    pub sent_title: Option<String>,
}

fn opt_string_eq(a: &Option<String>, b: &Option<String>) -> (r: bool)
    ensures
        r == opt_eq(*a, *b),
{
    match (a, b) {
        (Some(x), Some(y)) => str_eq(x.as_str(), y.as_str()),
        (None, None) => true,
        _ => false,
    }
}

fn clone_opt(a: &Option<String>) -> (r: Option<String>)
    ensures
        opt_eq(r, *a),
{
    match a {
        Some(s) => Some(s.clone()),
        None => None,
    }
}

impl TitlePoll {
    /// Nothing seen, nothing reported (also the state while disabled).
    pub fn new() -> (r: TitlePoll)
        ensures
            r.last_seen is None && r.sent_gen == u64::MAX && r.sent_title is None,
    {
        TitlePoll { last_seen: None, sent_gen: u64::MAX, sent_title: None }
    }

    /// No foreground to sample: forget the last sample.
    pub fn forget_sample(&mut self)
        ensures
            final(self).last_seen is None,
            final(self).sent_gen == old(self).sent_gen,
            opt_eq(final(self).sent_title, old(self).sent_title),
    {
        self.last_seen = None;
    }

    /// A title sampled under foreground generation `generation`. A sample
    /// is reported only once it has repeated (the debounce), and never
    /// twice for the same generation; a new generation starts from "nothing
    /// reported", since the switch itself already reported no title.
    pub fn sample(&mut self, generation: u64, title: Option<String>) -> (r: PollStep)
        ensures
            ({
                let repeated = old(self).last_seen matches Some((g, t)) && g == generation && opt_eq(t, title);
                let sent = if old(self).sent_gen == generation {
                    old(self).sent_title
                } else {
                    None
                };
                &&& !repeated ==> r == PollStep::Settling && (final(self).last_seen matches Some((g, t)) && g
                    == generation && opt_eq(t, title)) && final(self).sent_gen == old(self).sent_gen && opt_eq(
                    final(self).sent_title,
                    old(self).sent_title,
                )
                &&& repeated ==> final(self).sent_gen == generation && opt_eq(final(self).sent_title, sent) && (r
                    == if opt_eq(sent, title) {
                    PollStep::Unchanged
                } else {
                    PollStep::Report
                }) && (final(self).last_seen matches Some((g, t)) && g == generation && opt_eq(t, title))
            }),
    {
        let repeated = match &self.last_seen {
            Some((g, t)) => *g == generation && opt_string_eq(t, &title),
            None => false,
        };
        if !repeated {
            self.last_seen = Some((generation, title));
            return PollStep::Settling;
        }
        if self.sent_gen != generation {
            self.sent_gen = generation;
            self.sent_title = None;
        }
        if opt_string_eq(&self.sent_title, &title) {
            PollStep::Unchanged
        } else {
            PollStep::Report
        }
    }

    /// The foreground moved while sampling: drop the sample instead of
    /// reporting it.
    pub fn abandon(&mut self)
        ensures
            final(self).last_seen is None,
            final(self).sent_gen == old(self).sent_gen,
            opt_eq(final(self).sent_title, old(self).sent_title),
    {
        self.last_seen = None;
    }

    /// The title was reported.
    pub fn mark_sent(&mut self, title: &Option<String>)
        ensures
            opt_eq(final(self).sent_title, *title),
            final(self).sent_gen == old(self).sent_gen,
    {
        self.sent_title = clone_opt(title);
    }
}

} // verus!
