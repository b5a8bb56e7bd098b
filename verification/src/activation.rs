//! Hold/chord activation state machine of the macOS agent: pure, with no
//! clocks and no I/O. The event tap feeds it key transitions as plain data
//! (Windows-style virtual-key codes, ⌘ arriving as the Win keys) and acts on
//! the returned [`Decision`]; the hold timer is owned by the caller and driven
//! through [`TimerCmd`].
//!
//! Phases: `Idle → CmdDown → {Combo | HoldActive} → Idle`.

use vstd::prelude::*;

verus! {

pub const VK_LWIN: u32 = 0x5B;
pub const VK_RWIN: u32 = 0x5C;
pub const VK_ESCAPE: u32 = 0x1B;

/// Snapshot of the agent configuration relevant to activation.
#[derive(Debug, Clone, Copy)]
pub struct Config {
    pub hold_enabled: bool,
    pub hold_ms: u32,
    pub chord_enabled: bool,
    pub chord_win: bool,
    pub chord_ctrl: bool,
    pub chord_shift: bool,
    pub chord_alt: bool,
    pub chord_vk: u32,
    /// Mirrors the app's `SetOverlayVisible`; gates Esc/chord-again handling.
    pub overlay_visible: bool,
}

impl Default for Config {
    fn default() -> (r: Config)
        ensures
            !r.hold_enabled && r.hold_ms == 0 && !r.chord_enabled && !r.chord_win && !r.chord_ctrl
                && !r.chord_shift && !r.chord_alt && r.chord_vk == 0 && !r.overlay_visible,
    {
        Config {
            hold_enabled: false,
            hold_ms: 0,
            chord_enabled: false,
            chord_win: false,
            chord_ctrl: false,
            chord_shift: false,
            chord_alt: false,
            chord_vk: 0,
            overlay_visible: false,
        }
    }
}

/// Semantic transition to report to the app.
#[derive(Debug, Clone, Copy, PartialEq, Eq, Structural)]
pub enum Event {
    HoldActivated,
    HoldReleased,
    ChordActivated,
    DismissedEsc,
    DismissedChordAgain,
    DismissedPassthrough,
}

#[derive(Debug, Clone, Copy, PartialEq, Eq, Structural)]
pub enum TimerCmd {
    /// (Re)arm the hold timer for this many ms.
    Arm(u32),
    Cancel,
}

/// What the adapter must do with the event it just delivered.
#[derive(Debug, Clone, Copy, PartialEq, Eq, Structural)]
pub struct Decision {
    /// Swallow the key event.
    pub swallow: bool,
    pub event: Option<Event>,
    pub timer: Option<TimerCmd>,
}

pub open spec fn pass_spec() -> Decision {
    Decision { swallow: false, event: None, timer: None }
}

impl Decision {
    /// Let the event through; report nothing, leave the timer alone.
    pub fn pass() -> (r: Decision)
        ensures
            r == pass_spec(),
    {
        Decision { swallow: false, event: None, timer: None }
    }
}

impl Default for Decision {
    fn default() -> (r: Decision)
        ensures
            r == pass_spec(),
    {
        Decision::pass()
    }
}

#[derive(Debug, Clone, Copy, PartialEq, Eq, Structural)]
pub enum Phase {
    Idle,
    /// ⌘ down, hold timer possibly armed, nothing else seen yet.
    CmdDown,
    /// The hold threshold elapsed with ⌘ still down; the panel is up.
    HoldActive,
    /// ⌘ participates in an OS shortcut; stay out of the way until released.
    Combo,
}

/// The machine's state as plain data.
pub struct ActivationV {
    pub phase: Phase,
    pub lcmd: bool,
    pub rcmd: bool,
    pub shift: bool,
    pub ctrl: bool,
    pub alt: bool,
    /// A key-up still to be swallowed (chord key, Esc).
    pub swallow_up: Option<u32>,
}

#[derive(Debug)]
pub struct Activation {
    phase: Phase,
    /// ⌘ is kept per side: with both keys held, releasing one must not
    /// end the hold.
    lcmd: bool,
    rcmd: bool,
    shift: bool,
    ctrl: bool,
    alt: bool,
    swallow_up: Option<u32>,
}

impl View for Activation {
    type V = ActivationV;

    closed spec fn view(&self) -> ActivationV {
        ActivationV {
            phase: self.phase,
            lcmd: self.lcmd,
            rcmd: self.rcmd,
            shift: self.shift,
            ctrl: self.ctrl,
            alt: self.alt,
            swallow_up: self.swallow_up,
        }
    }
}

pub open spec fn is_cmd_spec(vk: u32) -> bool {
    vk == VK_LWIN || vk == VK_RWIN
}

pub open spec fn is_shift_vk(vk: u32) -> bool {
    vk == 0x10 || vk == 0xA0 || vk == 0xA1
}

pub open spec fn is_ctrl_vk(vk: u32) -> bool {
    vk == 0x11 || vk == 0xA2 || vk == 0xA3
}

pub open spec fn is_alt_vk(vk: u32) -> bool {
    vk == 0x12 || vk == 0xA4 || vk == 0xA5
}

/// Shift, Ctrl, Alt (generic or sided) and both ⌘ keys.
pub open spec fn is_modifier_spec(vk: u32) -> bool {
    is_shift_vk(vk) || is_ctrl_vk(vk) || is_alt_vk(vk) || is_cmd_spec(vk)
}

/// The state of a machine that has seen nothing.
pub open spec fn idle_state() -> ActivationV {
    ActivationV {
        phase: Phase::Idle,
        lcmd: false,
        rcmd: false,
        shift: false,
        ctrl: false,
        alt: false,
        swallow_up: None,
    }
}

impl ActivationV {
    /// Some ⌘ key is still held.
    pub open spec fn cmd_held(self) -> bool {
        self.lcmd || self.rcmd
    }

    /// Every reachable state: a ⌘ key is held exactly outside `Idle`, and
    /// only a non-modifier key-up is ever waited for.
    pub open spec fn inv(self) -> bool {
        &&& self.phase != Phase::Idle <==> self.cmd_held()
        &&& self.swallow_up matches Some(k) ==> !is_modifier_spec(k)
    }

    /// The held-key record after one transition of `vk`.
    pub open spec fn after_key(self, vk: u32, down: bool) -> ActivationV {
        ActivationV {
            shift: if is_shift_vk(vk) { down } else { self.shift },
            ctrl: if is_ctrl_vk(vk) { down } else { self.ctrl },
            alt: if is_alt_vk(vk) { down } else { self.alt },
            lcmd: if vk == VK_LWIN { down } else { self.lcmd },
            rcmd: if vk == VK_RWIN { down } else { self.rcmd },
            ..self
        }
    }

    /// The configured chord is pressed: its key with exactly its modifiers.
    pub open spec fn chord_hit(self, cfg: Config, vk: u32) -> bool {
        &&& cfg.chord_enabled
        &&& vk == cfg.chord_vk
        &&& self.cmd_held() == cfg.chord_win
        &&& self.shift == cfg.chord_shift
        &&& self.ctrl == cfg.chord_ctrl
        &&& self.alt == cfg.chord_alt
    }

    pub open spec fn with_phase(self, p: Phase) -> ActivationV {
        ActivationV { phase: p, ..self }
    }
}

/// The end of a ⌘ press: a ⌘ key-up that leaves no ⌘ key held.
pub open spec fn cmd_release(t: ActivationV, vk: u32, down: bool) -> bool {
    !down && is_cmd_spec(vk) && !t.cmd_held()
}

pub open spec fn decide(swallow: bool, event: Option<Event>, timer: Option<TimerCmd>) -> Decision {
    Decision { swallow, event, timer }
}

/// One key transition, with `t` the held-key record already updated.
/// Phase handling only; the chord, Esc and swallowed-up cases come first.
pub open spec fn phase_step(t: ActivationV, cfg: Config, vk: u32, down: bool) -> (
    ActivationV,
    Decision,
) {
    match t.phase {
        Phase::Idle => if down && is_cmd_spec(vk) {
            (
                t.with_phase(Phase::CmdDown),
                decide(
                    false,
                    None,
                    if cfg.hold_enabled {
                        Some(TimerCmd::Arm(cfg.hold_ms))
                    } else {
                        None
                    },
                ),
            )
        } else {
            (t, pass_spec())
        },
        Phase::CmdDown => if cmd_release(t, vk, down) {
            (t.with_phase(Phase::Idle), decide(false, None, Some(TimerCmd::Cancel)))
        } else if down && !is_cmd_spec(vk) {
            (t.with_phase(Phase::Combo), decide(false, None, Some(TimerCmd::Cancel)))
        } else {
            (t, pass_spec())
        },
        Phase::HoldActive => if cmd_release(t, vk, down) {
            (t.with_phase(Phase::Idle), decide(false, Some(Event::HoldReleased), None))
        } else if down && !is_modifier_spec(vk) {
            (t.with_phase(Phase::Combo), decide(false, Some(Event::DismissedPassthrough), None))
        } else {
            (t, pass_spec())
        },
        Phase::Combo => if cmd_release(t, vk, down) {
            (t.with_phase(Phase::Idle), pass_spec())
        } else {
            (t, pass_spec())
        },
    }
}

/// The full transition for one key event.
pub open spec fn key_step(s: ActivationV, cfg: Config, vk: u32, down: bool) -> (
    ActivationV,
    Decision,
) {
    let t = s.after_key(vk, down);
    if !down && t.swallow_up == Some(vk) {
        // The key-up of a key whose down was swallowed.
        (ActivationV { swallow_up: None, ..t }, decide(true, None, None))
    } else if down && !is_modifier_spec(vk) && t.chord_hit(cfg, vk) {
        if t.swallow_up == Some(vk) {
            // Autorepeat of the held chord key.
            (t, decide(true, None, None))
        } else {
            (
                ActivationV { swallow_up: Some(vk), ..t },
                decide(
                    true,
                    Some(
                        if cfg.overlay_visible {
                            Event::DismissedChordAgain
                        } else {
                            Event::ChordActivated
                        },
                    ),
                    None,
                ),
            )
        }
    } else if down && vk == VK_ESCAPE && cfg.overlay_visible {
        (ActivationV { swallow_up: Some(VK_ESCAPE), ..t }, decide(true, Some(Event::DismissedEsc), None))
    } else {
        phase_step(t, cfg, vk, down)
    }
}

/// The hold timer elapsed.
pub open spec fn timer_step(s: ActivationV, cfg: Config, foreground_excluded: bool) -> (
    ActivationV,
    Decision,
) {
    if s.phase != Phase::CmdDown {
        (s, pass_spec())
    } else if s.shift || s.ctrl || s.alt {
        // A combo is in progress (⇧⌘4 pressed shift-first etc.).
        (s.with_phase(Phase::Combo), pass_spec())
    } else if !cfg.hold_enabled || foreground_excluded {
        (s, pass_spec())
    } else {
        (s.with_phase(Phase::HoldActive), decide(false, Some(Event::HoldActivated), None))
    }
}

pub fn is_cmd(vk: u32) -> (r: bool)
    ensures
        r == is_cmd_spec(vk),
{
    vk == VK_LWIN || vk == VK_RWIN
}

pub fn is_modifier(vk: u32) -> (r: bool)
    ensures
        r == is_modifier_spec(vk),
{
    vk == 0x10 || vk == 0x11 || vk == 0x12 || vk == 0xA0 || vk == 0xA1 || vk == 0xA2 || vk == 0xA3
        || vk == 0xA4 || vk == 0xA5 || is_cmd(vk)
}

impl Default for Activation {
    fn default() -> (r: Activation)
        ensures
            r@ == idle_state(),
    {
        Activation::new()
    }
}

impl Activation {
    pub fn new() -> (r: Activation)
        ensures
            r@ == idle_state(),
    {
        Activation {
            phase: Phase::Idle,
            lcmd: false,
            rcmd: false,
            shift: false,
            ctrl: false,
            alt: false,
            swallow_up: None,
        }
    }

    /// Drop every key believed held and return to `Idle`, reporting the
    /// release of a hold that was active. Called when the event tap is
    /// re-enabled after an outage: transitions during it were never
    /// delivered. A chord-shown panel is not dismissed.
    pub fn reset(&mut self) -> (r: Option<Event>)
        ensures
            final(self)@ == idle_state(),
            r == (if old(self)@.phase == Phase::HoldActive {
                Some(Event::HoldReleased)
            } else {
                None
            }),
    {
        let was_hold = self.phase == Phase::HoldActive;
        *self = Activation::new();
        if was_hold {
            Some(Event::HoldReleased)
        } else {
            None
        }
    }

    fn cmd_down(&self) -> (r: bool)
        ensures
            r == self@.cmd_held(),
    {
        self.lcmd || self.rcmd
    }

    fn track_modifier(&mut self, vk: u32, down: bool)
        ensures
            final(self)@ == old(self)@.after_key(vk, down),
    {
        if vk == 0x10 || vk == 0xA0 || vk == 0xA1 {
            self.shift = down;
        } else if vk == 0x11 || vk == 0xA2 || vk == 0xA3 {
            self.ctrl = down;
        } else if vk == 0x12 || vk == 0xA4 || vk == 0xA5 {
            self.alt = down;
        } else if vk == VK_LWIN {
            self.lcmd = down;
        } else if vk == VK_RWIN {
            self.rcmd = down;
        }
    }

    fn chord_matches(&self, cfg: &Config, vk: u32) -> (r: bool)
        ensures
            r == self@.chord_hit(*cfg, vk),
    {
        cfg.chord_enabled && vk == cfg.chord_vk && self.cmd_down() == cfg.chord_win && self.shift
            == cfg.chord_shift && self.ctrl == cfg.chord_ctrl && self.alt == cfg.chord_alt
    }

    /// One key transition. Modifier transitions come from flagsChanged,
    /// everything else from keyDown/keyUp; autorepeat arrives as repeated
    /// `down = true`.
    pub fn on_key(&mut self, cfg: &Config, vk: u32, down: bool) -> (d: Decision)
        ensures
            (final(self)@, d) == key_step(old(self)@, *cfg, vk, down),
    {
        self.track_modifier(vk, down);
        let up = !down;
        if up {
            if let Some(target) = self.swallow_up {
                if target == vk {
                    self.swallow_up = None;
                    return Decision { swallow: true, event: None, timer: None };
                }
            }
        }
        if down && !is_modifier(vk) && self.chord_matches(cfg, vk) {
            if self.swallow_up == Some(vk) {
                return Decision { swallow: true, event: None, timer: None };
            }
            self.swallow_up = Some(vk);
            let event = if cfg.overlay_visible {
                Event::DismissedChordAgain
            } else {
                Event::ChordActivated
            };
            return Decision { swallow: true, event: Some(event), timer: None };
        }
        if down && vk == VK_ESCAPE && cfg.overlay_visible {
            self.swallow_up = Some(VK_ESCAPE);
            return Decision { swallow: true, event: Some(Event::DismissedEsc), timer: None };
        }
        match self.phase {
            Phase::Idle => {
                if down && is_cmd(vk) {
                    self.phase = Phase::CmdDown;
                    if cfg.hold_enabled {
                        return Decision {
                            swallow: false,
                            event: None,
                            timer: Some(TimerCmd::Arm(cfg.hold_ms)),
                        };
                    }
                }
                Decision::pass()
            },
            Phase::CmdDown => {
                if up && is_cmd(vk) && !self.cmd_down() {
                    // Quick ⌘ tap: nothing to suppress on macOS.
                    self.phase = Phase::Idle;
                    Decision { swallow: false, event: None, timer: Some(TimerCmd::Cancel) }
                } else if down && !is_cmd(vk) {
                    // Any other key: a real combo (⌘Tab, ⌘C...), cancel hold.
                    self.phase = Phase::Combo;
                    Decision { swallow: false, event: None, timer: Some(TimerCmd::Cancel) }
                } else {
                    Decision::pass()
                }
            },
            Phase::HoldActive => {
                if up && is_cmd(vk) && !self.cmd_down() {
                    self.phase = Phase::Idle;
                    Decision { swallow: false, event: Some(Event::HoldReleased), timer: None }
                } else if down && !is_modifier(vk) {
                    // ⌘-something while the panel is up: pass it through,
                    // dismiss, and become a combo. Lone modifiers do not.
                    self.phase = Phase::Combo;
                    Decision { swallow: false, event: Some(Event::DismissedPassthrough), timer: None }
                } else {
                    Decision::pass()
                }
            },
            Phase::Combo => {
                if up && is_cmd(vk) && !self.cmd_down() {
                    self.phase = Phase::Idle;
                }
                Decision::pass()
            },
        }
    }

    /// The hold timer elapsed. `foreground_excluded` is resolved by the
    /// adapter at fire time.
    pub fn on_hold_timer(&mut self, cfg: &Config, foreground_excluded: bool) -> (d: Decision)
        ensures
            (final(self)@, d) == timer_step(old(self)@, *cfg, foreground_excluded),
    {
        if self.phase != Phase::CmdDown {
            return Decision::pass();
        }
        if self.shift || self.ctrl || self.alt {
            self.phase = Phase::Combo;
            return Decision::pass();
        }
        if !cfg.hold_enabled || foreground_excluded {
            return Decision::pass();
        }
        self.phase = Phase::HoldActive;
        Decision { swallow: false, event: Some(Event::HoldActivated), timer: None }
    }
}

// ---------------------------------------------------------------------------
// Laws
// ---------------------------------------------------------------------------

/// Every transition keeps the machine in a reachable state: some ⌘ key is
/// held exactly outside `Idle` (so the press that opened a hold can always
/// close it), and only a non-modifier key-up is ever awaited.
pub proof fn lemma_steps_keep_inv(s: ActivationV, cfg: Config, vk: u32, down: bool, excluded: bool)
    requires
        s.inv(),
    ensures
        key_step(s, cfg, vk, down).0.inv(),
        timer_step(s, cfg, excluded).0.inv(),
        idle_state().inv(),
{
}

/// A hold ends with exactly one report: the key-up that releases the last
/// held ⌘ key during a hold reports `HoldReleased` and returns to `Idle`,
/// whatever else the configuration says.
pub proof fn lemma_hold_release(s: ActivationV, cfg: Config, vk: u32)
    requires
        s.inv(),
        s.phase == Phase::HoldActive,
        is_cmd_spec(vk),
        !s.after_key(vk, false).cmd_held(),
    ensures
        key_step(s, cfg, vk, false).0.phase == Phase::Idle,
        key_step(s, cfg, vk, false).1 == decide(false, Some(Event::HoldReleased), None),
{
}

/// Releasing one ⌘ key while the other is still held never ends a hold.
pub proof fn lemma_other_cmd_keeps_hold(s: ActivationV, cfg: Config, vk: u32)
    requires
        s.inv(),
        s.phase == Phase::HoldActive,
        is_cmd_spec(vk),
        s.after_key(vk, false).cmd_held(),
    ensures
        key_step(s, cfg, vk, false).0.phase == Phase::HoldActive,
        key_step(s, cfg, vk, false).1.event is None,
{
}

/// A hold only ever starts from the timer, after a lone ⌘ press with hold
/// enabled and the frontmost app not excluded; a key event never starts one.
pub proof fn lemma_hold_only_from_timer(
    s: ActivationV,
    cfg: Config,
    vk: u32,
    down: bool,
    excluded: bool,
)
    ensures
        key_step(s, cfg, vk, down).1.event != Some(Event::HoldActivated),
        timer_step(s, cfg, excluded).1.event == Some(Event::HoldActivated) <==> (s.phase
            == Phase::CmdDown && !s.shift && !s.ctrl && !s.alt && cfg.hold_enabled && !excluded),
{
}

/// A swallowed key press has its release swallowed too: after any event that
/// swallows the press of a non-modifier key, releasing that key is
/// swallowed, reports nothing, and leaves no key-up pending.
pub proof fn lemma_swallowed_press_swallows_release(
    s: ActivationV,
    cfg: Config,
    cfg2: Config,
    vk: u32,
)
    requires
        s.inv(),
        !is_modifier_spec(vk),
        key_step(s, cfg, vk, true).1.swallow,
    ensures
        key_step(key_step(s, cfg, vk, true).0, cfg2, vk, false).1 == decide(true, None, None),
        key_step(key_step(s, cfg, vk, true).0, cfg2, vk, false).0.swallow_up is None,
{
}

/// A hold disabled in the configuration is never armed and never fires.
pub proof fn lemma_hold_disabled(s: ActivationV, cfg: Config, vk: u32, down: bool, excluded: bool)
    requires
        !cfg.hold_enabled,
    ensures
        !(key_step(s, cfg, vk, down).1.timer matches Some(TimerCmd::Arm(_))),
        timer_step(s, cfg, excluded).1.event is None,
{
}

/// Tap recovery: after `reset` the machine is exactly as new, and it
/// reports `HoldReleased` precisely when a hold was active.
pub proof fn lemma_reset_restores_idle(s: ActivationV)
    ensures
        idle_state().inv(),
        idle_state().phase == Phase::Idle && !idle_state().cmd_held(),
        idle_state().swallow_up is None,
{
}

/// The hold timer is armed exactly on a ⌘ press while no ⌘ key was held,
/// with hold enabled, and then for the configured threshold; it is
/// cancelled only while a lone ⌘ press is pending (no hold, no combo yet).
pub proof fn lemma_arms_iff_no_cmd_held(s: ActivationV, cfg: Config, vk: u32, down: bool)
    requires
        s.inv(),
    ensures
        (key_step(s, cfg, vk, down).1.timer matches Some(TimerCmd::Arm(_))) <==> (down && is_cmd_spec(vk)
            && cfg.hold_enabled && !s.cmd_held()),
        key_step(s, cfg, vk, down).1.timer matches Some(TimerCmd::Arm(ms)) ==> ms == cfg.hold_ms,
        key_step(s, cfg, vk, down).1.timer == Some(TimerCmd::Cancel) ==> s.phase == Phase::CmdDown,
{
}

} // verus!
