//! Decisions of the Windows agent: the low-level keyboard hook's activation
//! state machine, the hold timer, the exclusion list, the title-change
//! debounce, and the classification of shell windows and taskbar buttons.
//! The hook callback and the message pump perform what these functions
//! decide.

use vstd::prelude::*;

use crate::activation::{
    is_alt_vk, is_cmd, is_cmd_spec, is_ctrl_vk, is_modifier, is_modifier_spec, is_shift_vk,
    TimerCmd, VK_ESCAPE,
};
use crate::model::{normalize_exe, normalize_exe_spec};
use crate::proto::{ChordSpec, Edge, Rect, TaskbarButton};
use crate::text::{chars_of, eq_ci, eq_ignore_case_str, str_eq};

verus! {

/// Hold-duration bounds a `Configure` is clamped to.
pub const HOLD_MS_MIN: u32 = 150;
pub const HOLD_MS_MAX: u32 = 5000;

/// The hook-relevant configuration, replaced by every `Configure`.
#[derive(Debug, Clone, Copy)]
pub struct HookConfig {
    pub hold_enabled: bool,
    pub hold_ms: u32,
    pub chord_enabled: bool,
    pub chord: ChordSpec,
    pub overlay_visible: bool,
    pub title_events: bool,
}

impl HookConfig {
    /// The agent's state before the first `Configure`: nothing armed,
    /// 900 ms hold, `/` as the chord key.
    pub fn initial() -> (r: HookConfig)
        ensures
            !r.hold_enabled && r.hold_ms == 900 && !r.chord_enabled && r.chord == (ChordSpec {
                win: false,
                ctrl: false,
                shift: false,
                alt: false,
                vk: 0xBF,
            }) && !r.overlay_visible && !r.title_events,
    {
        HookConfig {
            hold_enabled: false,
            hold_ms: 900,
            chord_enabled: false,
            chord: ChordSpec { win: false, ctrl: false, shift: false, alt: false, vk: 0xBF },
            overlay_visible: false,
            title_events: false,
        }
    }
}

pub open spec fn clamp_spec(v: u32, lo: u32, hi: u32) -> u32 {
    if v < lo {
        lo
    } else if v > hi {
        hi
    } else {
        v
    }
}

/// A `Configure` applied: the hold duration clamped to its bounds, the
/// visibility flag kept (it is set by `SetOverlayVisible` only).
pub fn configure(
    prev: &HookConfig,
    hold_enabled: bool,
    hold_ms: u32,
    chord_enabled: bool,
    chord: ChordSpec,
    title_events_enabled: bool,
) -> (r: HookConfig)
    ensures
        r.hold_enabled == hold_enabled,
        r.hold_ms == clamp_spec(hold_ms, HOLD_MS_MIN, HOLD_MS_MAX),
        r.chord_enabled == chord_enabled,
        r.chord == chord,
        r.overlay_visible == prev.overlay_visible,
        r.title_events == title_events_enabled,
{
    let ms = if hold_ms < HOLD_MS_MIN {
        HOLD_MS_MIN
    } else if hold_ms > HOLD_MS_MAX {
        HOLD_MS_MAX
    } else {
        hold_ms
    };
    HookConfig {
        hold_enabled,
        hold_ms: ms,
        chord_enabled,
        chord,
        overlay_visible: prev.overlay_visible,
        title_events: title_events_enabled,
    }
}

pub open spec fn normalized_all(v: Seq<String>) -> Seq<Seq<char>> {
    Seq::new(v.len(), |i: int| normalize_exe_spec(v[i]@))
}

/// The exclusion list as the hook keeps it: every name normalized.
pub fn normalize_exclusions(names: &Vec<String>) -> (r: Vec<String>)
    ensures
        r@.len() == names@.len(),
        forall|i: int| 0 <= i < names@.len() ==> #[trigger] r@[i]@ == normalize_exe_spec(names@[i]@),
{
    let mut out: Vec<String> = Vec::new();
    for i in 0..names.len()
        invariant
            out@.len() == i,
            forall|j: int| 0 <= j < i ==> #[trigger] out@[j]@ == normalize_exe_spec(names@[j]@),
    {
        out.push(normalize_exe(names[i].as_str()));
    }
    out
}

/// Hold must not arm while an excluded app is in the foreground. `list`
/// holds normalized names; an unknown foreground is never excluded.
pub fn is_excluded(exe_name: Option<&str>, list: &Vec<String>) -> (r: bool)
    ensures
        r == (match exe_name {
            Some(n) => exists|i: int| 0 <= i < list@.len() && #[trigger] list@[i]@ == normalize_exe_spec(n@),
            None => false,
        }),
{
    match exe_name {
        None => false,
        Some(name) => {
            let norm = normalize_exe(name);
            for i in 0..list.len()
                invariant
                    exe_name == Some(name),
                    norm@ == normalize_exe_spec(name@),
                    forall|j: int| 0 <= j < i ==> #[trigger] list@[j]@ != norm@,
            {
                if str_eq(list[i].as_str(), norm.as_str()) {
                    assert(list@[i as int]@ == normalize_exe_spec(name@));
                    return true;
                }
            }
            false
        },
    }
}

#[derive(Debug, Clone, Copy, PartialEq, Eq, Structural)]
pub enum HookPhase {
    Idle,
    WinDown,
    HoldActive,
    Combo,
}

/// What the hook reports to the app.
#[derive(Debug, Clone, Copy, PartialEq, Eq, Structural)]
pub enum HookEvent {
    /// Always reported on the chord; the app decides show/focus/hide.
    ChordActivated,
    DismissedEsc,
    HoldActivated,
    HoldReleased,
    DismissedPassthrough,
}

/// What the hook callback must do with one key event.
#[derive(Debug, Clone, Copy, PartialEq, Eq, Structural)]
pub struct HookAction {
    /// Swallow the key event instead of forwarding it.
    pub swallow: bool,
    /// Inject a marked dummy key press so the shell does not treat a lone
    /// Win press as a Start-menu tap.
    pub inject_dummy: bool,
    pub event: Option<HookEvent>,
    pub timer: Option<TimerCmd>,
}

pub open spec fn act(swallow: bool, inject_dummy: bool, event: Option<HookEvent>, timer: Option<TimerCmd>) -> HookAction {
    HookAction { swallow, inject_dummy, event, timer }
}

pub open spec fn forward() -> HookAction {
    act(false, false, None, None)
}

/// The hook's state as plain data.
pub struct HookStateV {
    pub phase: HookPhase,
    pub win_down: bool,
    pub shift: bool,
    pub ctrl: bool,
    pub alt: bool,
    pub swallow_up: Option<u32>,
}

#[derive(Debug)]
pub struct HookState {
    phase: HookPhase,
    win_down: bool,
    shift: bool,
    ctrl: bool,
    alt: bool,
    /// A key-up we must swallow (chord key, Esc).
    swallow_up: Option<u32>,
}

impl View for HookState {
    type V = HookStateV;

    closed spec fn view(&self) -> HookStateV {
        HookStateV {
            phase: self.phase,
            win_down: self.win_down,
            shift: self.shift,
            ctrl: self.ctrl,
            alt: self.alt,
            swallow_up: self.swallow_up,
        }
    }
}

pub open spec fn hook_idle() -> HookStateV {
    HookStateV {
        phase: HookPhase::Idle,
        win_down: false,
        shift: false,
        ctrl: false,
        alt: false,
        swallow_up: None,
    }
}

impl HookStateV {
    pub open spec fn with_key(self, vk: u32, down: bool) -> HookStateV {
        HookStateV {
            shift: if is_shift_vk(vk) { down } else { self.shift },
            ctrl: if is_ctrl_vk(vk) { down } else { self.ctrl },
            alt: if is_alt_vk(vk) { down } else { self.alt },
            win_down: if is_cmd_spec(vk) { down } else { self.win_down },
            ..self
        }
    }

    pub open spec fn with_phase(self, p: HookPhase) -> HookStateV {
        HookStateV { phase: p, ..self }
    }

    pub open spec fn chord_hit(self, cfg: HookConfig, vk: u32) -> bool {
        &&& cfg.chord_enabled
        &&& vk == cfg.chord.vk
        &&& self.win_down == cfg.chord.win
        &&& self.shift == cfg.chord.shift
        &&& self.ctrl == cfg.chord.ctrl
        &&& self.alt == cfg.chord.alt
    }
}

/// One key event, with `t` the held-key record already updated.
pub open spec fn hook_phase_step(t: HookStateV, cfg: HookConfig, vk: u32, is_down: bool, is_up: bool) -> (
    HookStateV,
    HookAction,
) {
    match t.phase {
        HookPhase::Idle => if is_down && is_cmd_spec(vk) {
            (
                t.with_phase(HookPhase::WinDown),
                act(
                    false,
                    false,
                    None,
                    if cfg.hold_enabled {
                        Some(TimerCmd::Arm(cfg.hold_ms))
                    } else {
                        None
                    },
                ),
            )
        } else {
            (t, forward())
        },
        HookPhase::WinDown => if is_up && is_cmd_spec(vk) {
            // Quick Win tap: Start opens normally.
            (t.with_phase(HookPhase::Idle), act(false, false, None, Some(TimerCmd::Cancel)))
        } else if is_down && !is_cmd_spec(vk) {
            (t.with_phase(HookPhase::Combo), act(false, false, None, Some(TimerCmd::Cancel)))
        } else {
            (t, forward())
        },
        HookPhase::HoldActive => if is_up && is_cmd_spec(vk) {
            // Absorb the lone Win-up so Start does not open, then release.
            (t.with_phase(HookPhase::Idle), act(false, true, Some(HookEvent::HoldReleased), None))
        } else if is_down && !is_modifier_spec(vk) {
            (t.with_phase(HookPhase::Combo), act(false, false, Some(HookEvent::DismissedPassthrough), None))
        } else {
            (t, forward())
        },
        HookPhase::Combo => if is_up && is_cmd_spec(vk) {
            (t.with_phase(HookPhase::Idle), forward())
        } else {
            (t, forward())
        },
    }
}

/// The full decision for one key event from the hook.
pub open spec fn hook_step(s: HookStateV, cfg: HookConfig, vk: u32, is_down: bool, is_up: bool) -> (
    HookStateV,
    HookAction,
) {
    let t = s.with_key(vk, is_down);
    if is_up && t.swallow_up == Some(vk) {
        (HookStateV { swallow_up: None, ..t }, act(true, false, None, None))
    } else if is_down && !is_modifier_spec(vk) && t.chord_hit(cfg, vk) {
        if t.swallow_up == Some(vk) {
            (t, act(true, false, None, None))
        } else {
            (
                HookStateV { swallow_up: Some(vk), ..t },
                act(true, cfg.chord.win, Some(HookEvent::ChordActivated), None),
            )
        }
    } else if is_down && vk == VK_ESCAPE && cfg.overlay_visible {
        (HookStateV { swallow_up: Some(VK_ESCAPE), ..t }, act(true, false, Some(HookEvent::DismissedEsc), None))
    } else {
        hook_phase_step(t, cfg, vk, is_down, is_up)
    }
}

/// The hold timer fired. `shift_down`, `ctrl_down`, `alt_down` are the
/// keyboard's physical state as the OS reports it now: a modifier counts
/// only if the hook saw it pressed and it is still physically down.
pub open spec fn hook_timer_step(
    s: HookStateV,
    cfg: HookConfig,
    shift_down: bool,
    ctrl_down: bool,
    alt_down: bool,
    excluded: bool,
) -> (HookStateV, Option<HookEvent>) {
    if s.phase != HookPhase::WinDown {
        (s, None)
    } else if (s.shift && shift_down) || (s.ctrl && ctrl_down) || (s.alt && alt_down) {
        (s.with_phase(HookPhase::Combo), None)
    } else if excluded {
        (s, None)
    } else {
        (s.with_phase(HookPhase::HoldActive), Some(HookEvent::HoldActivated))
    }
}

impl HookState {
    pub fn new() -> (r: HookState)
        ensures
            r@ == hook_idle(),
    {
        HookState {
            phase: HookPhase::Idle,
            win_down: false,
            shift: false,
            ctrl: false,
            alt: false,
            swallow_up: None,
        }
    }

    pub fn phase(&self) -> (r: HookPhase)
        ensures
            r == self@.phase,
    {
        self.phase
    }

    fn track_modifier(&mut self, vk: u32, down: bool)
        ensures
            final(self)@ == old(self)@.with_key(vk, down),
    {
        if vk == 0x10 || vk == 0xA0 || vk == 0xA1 {
            self.shift = down;
        } else if vk == 0x11 || vk == 0xA2 || vk == 0xA3 {
            self.ctrl = down;
        } else if vk == 0x12 || vk == 0xA4 || vk == 0xA5 {
            self.alt = down;
        } else if is_cmd(vk) {
            self.win_down = down;
        }
    }

    fn chord_matches(&self, cfg: &HookConfig, vk: u32) -> (r: bool)
        ensures
            r == self@.chord_hit(*cfg, vk),
    {
        cfg.chord_enabled && vk == cfg.chord.vk && self.win_down == cfg.chord.win && self.shift
            == cfg.chord.shift && self.ctrl == cfg.chord.ctrl && self.alt == cfg.chord.alt
    }

    /// One key event from the low-level hook (our own injected events are
    /// filtered out before this). A message that is neither a key-down nor a
    /// key-up counts as a release for the held-key record.
    pub fn decide(&mut self, cfg: &HookConfig, vk: u32, is_down: bool, is_up: bool) -> (a: HookAction)
        ensures
            (final(self)@, a) == hook_step(old(self)@, *cfg, vk, is_down, is_up),
    {
        self.track_modifier(vk, is_down);
        if is_up {
            if let Some(target) = self.swallow_up {
                if target == vk {
                    self.swallow_up = None;
                    return HookAction { swallow: true, inject_dummy: false, event: None, timer: None };
                }
            }
        }
        if is_down && !is_modifier(vk) && self.chord_matches(cfg, vk) {
            if self.swallow_up == Some(vk) {
                return HookAction { swallow: true, inject_dummy: false, event: None, timer: None };
            }
            self.swallow_up = Some(vk);
            return HookAction {
                swallow: true,
                inject_dummy: cfg.chord.win,
                event: Some(HookEvent::ChordActivated),
                timer: None,
            };
        }
        if is_down && vk == VK_ESCAPE && cfg.overlay_visible {
            self.swallow_up = Some(VK_ESCAPE);
            return HookAction {
                swallow: true,
                inject_dummy: false,
                event: Some(HookEvent::DismissedEsc),
                timer: None,
            };
        }
        let none = HookAction { swallow: false, inject_dummy: false, event: None, timer: None };
        match self.phase {
            HookPhase::Idle => {
                if is_down && is_cmd(vk) {
                    self.phase = HookPhase::WinDown;
                    if cfg.hold_enabled {
                        return HookAction {
                            swallow: false,
                            inject_dummy: false,
                            event: None,
                            timer: Some(TimerCmd::Arm(cfg.hold_ms)),
                        };
                    }
                }
                none
            },
            HookPhase::WinDown => {
                if is_up && is_cmd(vk) {
                    self.phase = HookPhase::Idle;
                    HookAction { swallow: false, inject_dummy: false, event: None, timer: Some(TimerCmd::Cancel) }
                } else if is_down && !is_cmd(vk) {
                    self.phase = HookPhase::Combo;
                    HookAction { swallow: false, inject_dummy: false, event: None, timer: Some(TimerCmd::Cancel) }
                } else {
                    none
                }
            },
            HookPhase::HoldActive => {
                if is_up && is_cmd(vk) {
                    self.phase = HookPhase::Idle;
                    HookAction {
                        swallow: false,
                        inject_dummy: true,
                        event: Some(HookEvent::HoldReleased),
                        timer: None,
                    }
                } else if is_down && !is_modifier(vk) {
                    // A lone modifier does not dismiss: it triggers nothing
                    // until a real key follows.
                    self.phase = HookPhase::Combo;
                    HookAction {
                        swallow: false,
                        inject_dummy: false,
                        event: Some(HookEvent::DismissedPassthrough),
                        timer: None,
                    }
                } else {
                    none
                }
            },
            HookPhase::Combo => {
                if is_up && is_cmd(vk) {
                    self.phase = HookPhase::Idle;
                }
                none
            },
        }
    }

    /// The hold timer fired (the caller has already disarmed it).
    pub fn on_timer(
        &mut self,
        cfg: &HookConfig,
        shift_down: bool,
        ctrl_down: bool,
        alt_down: bool,
        excluded: bool,
    ) -> (e: Option<HookEvent>)
        ensures
            (final(self)@, e) == hook_timer_step(old(self)@, *cfg, shift_down, ctrl_down, alt_down, excluded),
    {
        if self.phase != HookPhase::WinDown {
            return None;
        }
        if (self.shift && shift_down) || (self.ctrl && ctrl_down) || (self.alt && alt_down) {
            self.phase = HookPhase::Combo;
            return None;
        }
        if excluded {
            return None;
        }
        self.phase = HookPhase::HoldActive;
        Some(HookEvent::HoldActivated)
    }
}

/// A hold ends by absorbing the Win key-up: releasing Win during a hold
/// injects the dummy key (so Start stays closed) and reports the release.
pub proof fn lemma_hold_release_absorbs_start(s: HookStateV, cfg: HookConfig, vk: u32)
    requires
        s.phase == HookPhase::HoldActive,
        is_cmd_spec(vk),
        s.swallow_up matches Some(k) ==> !is_modifier_spec(k),
    ensures
        hook_step(s, cfg, vk, false, true).1 == act(false, true, Some(HookEvent::HoldReleased), None),
        hook_step(s, cfg, vk, false, true).0.phase == HookPhase::Idle,
{
}

/// A swallowed key press has its release swallowed too.
pub proof fn lemma_hook_swallow_pairs(s: HookStateV, cfg: HookConfig, cfg2: HookConfig, vk: u32)
    requires
        !is_modifier_spec(vk),
        hook_step(s, cfg, vk, true, false).1.swallow,
    ensures
        hook_step(hook_step(s, cfg, vk, true, false).0, cfg2, vk, false, true).1 == act(true, false, None, None),
{
}

/// A hold never starts from a key event, only from the timer.
pub proof fn lemma_hook_hold_only_from_timer(s: HookStateV, cfg: HookConfig, vk: u32, is_down: bool, is_up: bool)
    ensures
        hook_step(s, cfg, vk, is_down, is_up).1.event != Some(HookEvent::HoldActivated),
{
}

/// Esc dismisses while the overlay is up: unless Esc is itself the chord
/// key, an Esc press is swallowed and reported as an Esc dismissal, arms or
/// cancels no timer, leaves the hold phase alone, and its release is
/// swallowed too (the app underneath sees neither).
pub proof fn lemma_esc_dismisses_visible_overlay(s: HookStateV, cfg: HookConfig, cfg2: HookConfig)
    requires
        cfg.overlay_visible,
        !(cfg.chord_enabled && cfg.chord.vk == 0x1B),
    ensures
        hook_step(s, cfg, 0x1B, true, false).1 == act(true, false, Some(HookEvent::DismissedEsc), None),
        hook_step(s, cfg, 0x1B, true, false).0.phase == s.phase,
        hook_step(hook_step(s, cfg, 0x1B, true, false).0, cfg2, 0x1B, false, true).1 == act(
            true,
            false,
            None,
            None,
        ),
{
}

/// Only a visible overlay is dismissed by Esc: with the overlay hidden no
/// key event reports an Esc dismissal.
pub proof fn lemma_no_esc_dismissal_when_hidden(
    s: HookStateV,
    cfg: HookConfig,
    vk: u32,
    is_down: bool,
    is_up: bool,
)
    requires
        !cfg.overlay_visible,
    ensures
        hook_step(s, cfg, vk, is_down, is_up).1.event != Some(HookEvent::DismissedEsc),
{
}

// ---------------------------------------------------------------------------
// Title-change debounce
// ---------------------------------------------------------------------------

/// The title watcher's dedup state: the window whose title changed since the
/// last flush, and the last (window, title) actually reported.
#[derive(Debug)]
pub struct TitleWatch {
    pub pending: u64,
    pub last_emitted: Option<(u64, String)>,
}

impl TitleWatch {
    pub fn new() -> (r: TitleWatch)
        ensures
            r.pending == 0 && r.last_emitted is None,
    {
        TitleWatch { pending: 0, last_emitted: None }
    }

    /// A title change on `window` (the debounce timer is re-armed by the
    /// caller).
    pub fn note_change(&mut self, window: u64)
        ensures
            final(self).pending == window,
            final(self).last_emitted == old(self).last_emitted,
    {
        self.pending = window;
    }

    /// A real foreground switch: forget the pending change and the dedup
    /// record.
    pub fn reset(&mut self)
        ensures
            final(self).pending == 0 && final(self).last_emitted is None,
    {
        self.pending = 0;
        self.last_emitted = None;
    }

    /// The debounce elapsed: the window to re-read, if the changed window
    /// still holds the foreground. The pending change is consumed either way.
    pub fn flush_target(&mut self, foreground: u64) -> (r: Option<u64>)
        ensures
            final(self).pending == 0,
            final(self).last_emitted == old(self).last_emitted,
            r == (if old(self).pending != 0 && old(self).pending == foreground {
                Some(foreground)
            } else {
                None
            }),
    {
        let w = self.pending;
        self.pending = 0;
        if w != 0 && w == foreground {
            Some(w)
        } else {
            None
        }
    }

    /// Whether the re-read title of `window` is new and must be reported;
    /// a reported one becomes the dedup record. A missing title counts as
    /// the empty title.
    pub fn should_emit(&mut self, window: u64, title: Option<&str>) -> (r: bool)
        ensures
            ({
                let t = match title {
                    Some(s) => s@,
                    None => Seq::<char>::empty(),
                };
                &&& r == !(old(self).last_emitted matches Some((w, s)) && w == window && s@ == t)
                &&& r ==> (final(self).last_emitted matches Some((w, s)) && w == window && s@ == t)
                &&& !r ==> final(self).last_emitted == old(self).last_emitted
                &&& final(self).pending == old(self).pending
            }),
    {
        let t = match title {
            Some(s) => String::from_str(s),
            None => String::new(),
        };
        let same = match &self.last_emitted {
            Some((w, s)) => *w == window && str_eq(s.as_str(), t.as_str()),
            None => false,
        };
        if same {
            false
        } else {
            self.last_emitted = Some((window, t));
            true
        }
    }
}

// ---------------------------------------------------------------------------
// Window classification
// ---------------------------------------------------------------------------

/// Exe names that are part of Quicuts' own UI stack.
pub open spec fn own_exes() -> Seq<Seq<char>> {
    seq!["quicuts.exe"@, "msedgewebview2.exe"@]
}

/// Is this foreground one of our own windows? (ASCII case-insensitive.)
pub fn is_own(exe_name: Option<&str>) -> (r: bool)
    ensures
        r == (match exe_name {
            Some(n) => exists|i: int| 0 <= i < own_exes().len() && eq_ci(n@, #[trigger] own_exes()[i]),
            None => false,
        }),
{
    match exe_name {
        None => false,
        Some(n) => {
            let v = chars_of(n);
            let a = eq_ignore_case_str(&v, "quicuts.exe");
            let b = eq_ignore_case_str(&v, "msedgewebview2.exe");
            proof {
                assert(eq_ci(n@, own_exes()[0]) ==> a);
                assert(eq_ci(n@, own_exes()[1]) ==> b);
            }
            a || b
        },
    }
}

/// Transient shell windows that briefly take the foreground during Alt+Tab
/// or Task View; reporting them would flip the page mid-switch.
pub open spec fn transient_shell_classes() -> Seq<Seq<char>> {
    seq![
        "ForegroundStaging"@,
        "MultitaskingViewFrame"@,
        "XamlExplorerHostIslandWindow"@,
        "TaskSwitcherWnd"@,
        "TaskSwitcherOverlayWnd"@,
    ]
}

pub fn is_transient_shell_class(class: &str) -> (r: bool)
    ensures
        r == exists|i: int|
            0 <= i < transient_shell_classes().len() && eq_ci(class@, #[trigger] transient_shell_classes()[i]),
{
    let v = chars_of(class);
    let a = eq_ignore_case_str(&v, "ForegroundStaging");
    let b = eq_ignore_case_str(&v, "MultitaskingViewFrame");
    let c = eq_ignore_case_str(&v, "XamlExplorerHostIslandWindow");
    let d = eq_ignore_case_str(&v, "TaskSwitcherWnd");
    let e = eq_ignore_case_str(&v, "TaskSwitcherOverlayWnd");
    proof {
        let cl = transient_shell_classes();
        assert(eq_ci(class@, cl[0]) == a);
        assert(eq_ci(class@, cl[1]) == b);
        assert(eq_ci(class@, cl[2]) == c);
        assert(eq_ci(class@, cl[3]) == d);
        assert(eq_ci(class@, cl[4]) == e);
    }
    a || b || c || d || e
}

pub open spec fn tray_flyout_classes() -> Seq<Seq<char>> {
    seq!["TopLevelWindowForOverflowXamlIsland"@, "NotifyIconOverflowWindow"@]
}

pub open spec fn shell_surface_classes() -> Seq<Seq<char>> {
    seq!["Shell_TrayWnd"@, "Shell_SecondaryTrayWnd"@, "Progman"@, "WorkerW"@]
}

pub open spec fn shell_popup_exes() -> Seq<Seq<char>> {
    seq!["explorer.exe"@, "shellexperiencehost.exe"@]
}

pub open spec fn in_ci(s: Seq<char>, list: Seq<Seq<char>>) -> bool {
    exists|i: int| 0 <= i < list.len() && eq_ci(s, #[trigger] list[i])
}

/// The tray "show hidden icons" overflow flyout, or — since its class varies
/// across Windows builds — any topmost window of a shell process that is
/// neither the taskbar nor the desktop. `topmost` and `owner_exe` are read
/// from the window only when the class names did not decide.
pub fn is_tray_flyout(class: Option<&str>, topmost: bool, owner_exe: Option<&str>) -> (r: bool)
    ensures
        r == (match class {
            None => false,
            Some(c) => in_ci(c@, tray_flyout_classes()) || (!in_ci(c@, shell_surface_classes())
                && topmost && match owner_exe {
                Some(e) => in_ci(e@, shell_popup_exes()),
                None => false,
            }),
        }),
{
    match class {
        None => false,
        Some(c) => {
            let v = chars_of(c);
            let f0 = eq_ignore_case_str(&v, "TopLevelWindowForOverflowXamlIsland");
            let f1 = eq_ignore_case_str(&v, "NotifyIconOverflowWindow");
            proof {
                let l = tray_flyout_classes();
                assert(eq_ci(c@, l[0]) == f0 && eq_ci(c@, l[1]) == f1);
                assert(in_ci(c@, l) == (f0 || f1));
            }
            if f0 || f1 {
                return true;
            }
            let s0 = eq_ignore_case_str(&v, "Shell_TrayWnd");
            let s1 = eq_ignore_case_str(&v, "Shell_SecondaryTrayWnd");
            let s2 = eq_ignore_case_str(&v, "Progman");
            let s3 = eq_ignore_case_str(&v, "WorkerW");
            proof {
                let l = shell_surface_classes();
                assert(eq_ci(c@, l[0]) == s0 && eq_ci(c@, l[1]) == s1);
                assert(eq_ci(c@, l[2]) == s2 && eq_ci(c@, l[3]) == s3);
                assert(in_ci(c@, l) == (s0 || s1 || s2 || s3));
            }
            if s0 || s1 || s2 || s3 || !topmost {
                return false;
            }
            match owner_exe {
                None => false,
                Some(e) => {
                    let ev = chars_of(e);
                    let p0 = eq_ignore_case_str(&ev, "explorer.exe");
                    let p1 = eq_ignore_case_str(&ev, "shellexperiencehost.exe");
                    proof {
                        let l = shell_popup_exes();
                        assert(eq_ci(e@, l[0]) == p0 && eq_ci(e@, l[1]) == p1);
                        assert(in_ci(e@, l) == (p0 || p1));
                    }
                    p0 || p1
                },
            }
        },
    }
}

// ---------------------------------------------------------------------------
// Taskbar buttons
// ---------------------------------------------------------------------------

/// How a taskbar UI element counts towards Win+1..9.
#[derive(Debug, Clone, Copy, PartialEq, Eq, Structural)]
pub enum ButtonKind {
    /// A task-list (pinned or running app) button.
    TaskList,
    /// Any other button, used only where no task-list button is found.
    Fallback,
    /// Zero-area, offscreen, or a system button (Start, Search...).
    Ignored,
}

pub open spec fn system_button_ids() -> Seq<Seq<char>> {
    seq![
        "StartButton"@,
        "SearchButton"@,
        "SearchBoxButton"@,
        "TaskViewButton"@,
        "WidgetsButton"@,
        "ChatButton"@,
        "CopilotButton"@,
        "ShowDesktopButton"@,
    ]
}

pub open spec fn task_list_class() -> Seq<char> {
    "Taskbar.TaskListButtonAutomationPeer"@
}

/// Classify one button from its bounding rectangle's edges, its UI class
/// name and its automation id.
pub fn classify_button(left: i32, top: i32, right: i32, bottom: i32, class: &str, automation_id: &str) -> (r: ButtonKind)
    ensures
        r == (if right <= left || bottom <= top {
            ButtonKind::Ignored
        } else if class@ == task_list_class() {
            ButtonKind::TaskList
        } else if system_button_ids().contains(automation_id@) {
            ButtonKind::Ignored
        } else {
            ButtonKind::Fallback
        }),
{
    if right <= left || bottom <= top {
        return ButtonKind::Ignored;
    }
    if str_eq(class, "Taskbar.TaskListButtonAutomationPeer") {
        return ButtonKind::TaskList;
    }
    let ids: [&str; 8] = [
        "StartButton",
        "SearchButton",
        "SearchBoxButton",
        "TaskViewButton",
        "WidgetsButton",
        "ChatButton",
        "CopilotButton",
        "ShowDesktopButton",
    ];
    let ghost l = system_button_ids();
    proof {
        assert(ids@.len() == 8);
        assert forall|i: int| 0 <= i < 8 implies #[trigger] ids@[i]@ == l[i] by {
            reveal_strlit("StartButton");
        }
    }
    for i in 0..8
        invariant
            forall|k: int| 0 <= k < 8 ==> #[trigger] ids@[k]@ == l[k],
            l == system_button_ids(),
            !(right <= left || bottom <= top),
            class@ != task_list_class(),
            forall|j: int| 0 <= j < i ==> l[j] != automation_id@,
    {
        if str_eq(ids[i], automation_id) {
            assert(l[i as int] == automation_id@);
            assert(l.contains(automation_id@));
            return ButtonKind::Ignored;
        }
    }
    assert(!l.contains(automation_id@));
    ButtonKind::Fallback
}

/// A button's on-screen position along the taskbar: x on a horizontal
/// taskbar, y on a vertical one.
pub open spec fn along(edge: Edge, r: Rect) -> i32 {
    match edge {
        Edge::Top | Edge::Bottom => r.x,
        Edge::Left | Edge::Right => r.y,
    }
}

/// Position `p` comes before `q` in on-screen order; equal positions keep
/// the order the buttons were found in.
pub open spec fn before(edge: Edge, rects: Seq<Rect>, p: int, q: int) -> bool {
    along(edge, rects[p]) < along(edge, rects[q]) || (along(edge, rects[p]) == along(edge, rects[q])
        && p < q)
}

/// `perm` lists every index of `rects` once, in on-screen order.
pub open spec fn screen_order(edge: Edge, rects: Seq<Rect>, perm: Seq<usize>) -> bool {
    &&& perm.len() == rects.len()
    &&& forall|i: int| 0 <= i < perm.len() ==> #[trigger] perm[i] < rects.len()
    &&& forall|i: int, j: int| 0 <= i < j < perm.len() ==> before(edge, rects, perm[i] as int, perm[j] as int)
}

fn along_exec(edge: Edge, r: &Rect) -> (k: i32)
    ensures
        k == along(edge, *r),
{
    match edge {
        Edge::Top | Edge::Bottom => r.x,
        Edge::Left | Edge::Right => r.y,
    }
}

/// The order in which the buttons appear on screen (a stable sort by
/// position along the taskbar).
pub fn screen_order_of(edge: Edge, rects: &Vec<Rect>) -> (perm: Vec<usize>)
    ensures
        screen_order(edge, rects@, perm@),
{
    let mut perm: Vec<usize> = Vec::new();
    for n in 0..rects.len()
        invariant
            perm@.len() == n,
            forall|i: int| 0 <= i < perm@.len() ==> #[trigger] perm@[i] < n,
            forall|i: int, j: int|
                0 <= i < j < perm@.len() ==> before(edge, rects@, perm@[i] as int, perm@[j] as int),
    {
        // Insert index n after every index that comes before it.
        let kn = along_exec(edge, &rects[n]);
        let mut pos: usize = perm.len();
        while pos > 0 && along_exec(edge, &rects[perm[pos - 1]]) > kn
            invariant
                n < rects@.len(),
                pos <= perm@.len(),
                perm@.len() == n,
                kn == along(edge, rects@[n as int]),
                forall|i: int| 0 <= i < perm@.len() ==> #[trigger] perm@[i] < n,
                forall|i: int| pos <= i < perm@.len() ==> before(edge, rects@, n as int, #[trigger] perm@[i] as int),
            decreases pos,
        {
            pos = pos - 1;
        }
        proof {
            assert forall|i: int| 0 <= i < pos implies before(edge, rects@, #[trigger] perm@[i] as int, n as int) by {
                if pos > 0 {
                    let last = perm@[pos - 1];
                    assert(along(edge, rects@[last as int]) <= along(edge, rects@[n as int]));
                    if i < pos - 1 {
                        assert(before(edge, rects@, perm@[i] as int, last as int));
                    }
                }
            }
        }
        let ghost old_perm = perm@;
        perm.insert(pos, n);
        proof {
            assert forall|i: int, j: int| 0 <= i < j < perm@.len() implies before(
                edge,
                rects@,
                perm@[i] as int,
                perm@[j] as int,
            ) by {
                if j < pos {
                    assert(perm@[i] == old_perm[i] && perm@[j] == old_perm[j]);
                } else if j == pos {
                    assert(perm@[i] == old_perm[i]);
                } else if i == pos {
                    assert(perm@[j] == old_perm[j - 1]);
                } else if i < pos {
                    assert(perm@[i] == old_perm[i] && perm@[j] == old_perm[j - 1]);
                } else {
                    assert(perm@[i] == old_perm[i - 1] && perm@[j] == old_perm[j - 1]);
                }
            }
            assert forall|i: int| 0 <= i < perm@.len() implies #[trigger] perm@[i] < n + 1 by {
                if i < pos {
                    assert(perm@[i] == old_perm[i]);
                } else if i > pos {
                    assert(perm@[i] == old_perm[i - 1]);
                }
            }
        }
    }
    perm
}

/// The buttons Win+1..9 address: the task-list buttons (or, on a taskbar
/// where none is recognized, the fallback buttons) in on-screen order, at
/// most nine, numbered from 1.
pub open spec fn numbered_with(edge: Edge, src: Seq<Rect>, r: Seq<TaskbarButton>, perm: Seq<usize>) -> bool {
    &&& screen_order(edge, src, perm)
    &&& r.len() == (if src.len() < 9 { src.len() } else { 9 })
    &&& forall|i: int| 0 <= i < r.len() ==> (#[trigger] r[i]).index == i + 1 && r[i].rect == src[perm[i] as int]
}

pub open spec fn button_source(task_list: Seq<Rect>, fallback: Seq<Rect>) -> Seq<Rect> {
    if task_list.len() > 0 {
        task_list
    } else {
        fallback
    }
}

pub fn number_buttons(edge: Edge, task_list: &Vec<Rect>, fallback: &Vec<Rect>) -> (r: Vec<TaskbarButton>)
    ensures
        exists|perm: Seq<usize>| numbered_with(edge, button_source(task_list@, fallback@), r@, perm),
{
    let src = if task_list.len() > 0 { task_list } else { fallback };
    let perm = screen_order_of(edge, src);
    let mut out: Vec<TaskbarButton> = Vec::new();
    let limit: usize = if src.len() < 9 { src.len() } else { 9 };
    for i in 0..limit
        invariant
            limit <= perm@.len(),
            limit <= 9,
            perm@.len() == src@.len(),
            screen_order(edge, src@, perm@),
            out@.len() == i,
            forall|k: int| 0 <= k < i ==> (#[trigger] out@[k]).index == k + 1 && out@[k].rect == src@[perm@[k] as int],
    {
        let p = perm[i];
        out.push(TaskbarButton { index: (i + 1) as u32, rect: src[p] });
    }
    assert(src@ == button_source(task_list@, fallback@));
    assert(numbered_with(edge, button_source(task_list@, fallback@), out@, perm@));
    out
}

} // verus!
