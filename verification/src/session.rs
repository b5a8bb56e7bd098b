//! The app's decisions around the agent and the overlay: how an agent event
//! is answered, how the rail selection follows the foreground, how the agent
//! is restarted, how its output is split into lines, and how Esc and the
//! taskbar badges behave. The app performs what these functions decide.

use vstd::prelude::*;

use crate::combo::{combos_v, format_combo_seq, format_combo_seq_spec};
use crate::model::{strs_view, KeyCombo};
use crate::numfmt::{decimal_spec, decimal_string};
use crate::parse::{first_index, lemma_first_index_in, trimmed_list};
use crate::proto::{AgentEvent, Edge, FatalKind, ForegroundInfo, Rect, TaskbarSnapshot};
use crate::text::{chars_of, find_char, slice_chars, str_eq, string_of, trim, trim_chars, starts_with};

verus! {

pub open spec fn opt_chars(o: Option<&str>) -> Option<Seq<char>> {
    match o {
        Some(s) => Some(s@),
        None => None,
    }
}

pub open spec fn opt_string(o: Option<String>) -> Option<Seq<char>> {
    match o {
        Some(s) => Some(s@),
        None => None,
    }
}

/// The rail selection after a foreground report: `Some(next)` replaces
/// the selection, `None` keeps it.
///
/// - Window switch (or activation): the pin wins, else the title match,
///   else no selection (the host page falls out of the rail's fallback).
/// - Same window, the title match changed, no pin: follow the match.
/// - Same window, no change: keep a manual rail click.
pub open spec fn next_selection_spec(
    window_changed: bool,
    old_match: Option<Seq<char>>,
    new_match: Option<Seq<char>>,
    pinned: Option<Seq<char>>,
) -> Option<Option<Seq<char>>> {
    if window_changed {
        Some(
            match pinned {
                Some(p) => Some(p),
                None => new_match,
            },
        )
    } else if new_match != old_match && pinned is None {
        Some(new_match)
    } else {
        None
    }
}

fn opt_str_eq(a: Option<&str>, b: Option<&str>) -> (r: bool)
    ensures
        r == (opt_chars(a) == opt_chars(b)),
{
    match (a, b) {
        (Some(x), Some(y)) => str_eq(x, y),
        (None, None) => true,
        _ => false,
    }
}

fn owned_opt(o: Option<&str>) -> (r: Option<String>)
    ensures
        opt_string(r) == opt_chars(o),
{
    match o {
        Some(s) => Some(String::from_str(s)),
        None => None,
    }
}

pub fn next_selection(
    window_changed: bool,
    old_match: Option<&str>,
    new_match: Option<&str>,
    pinned: Option<&str>,
) -> (r: Option<Option<String>>)
    ensures
        match r {
            Some(x) => next_selection_spec(window_changed, opt_chars(old_match), opt_chars(new_match), opt_chars(pinned))
                == Some(opt_string(x)),
            None => next_selection_spec(window_changed, opt_chars(old_match), opt_chars(new_match), opt_chars(pinned))
                is None,
        },
{
    if window_changed {
        match pinned {
            Some(p) => Some(Some(String::from_str(p))),
            None => Some(owned_opt(new_match)),
        }
    } else if !opt_str_eq(new_match, old_match) && pinned.is_none() {
        Some(owned_opt(new_match))
    } else {
        None
    }
}

/// A foreground report means a different window than the one recorded: a
/// reset (activation), nothing recorded yet, another process, or another
/// identity.
pub fn window_changed(previous: Option<&ForegroundInfo>, fg: &ForegroundInfo, reset: bool) -> (r: bool)
    ensures
        r == (reset || match previous {
            None => true,
            Some(p) => p.pid != fg.pid || opt_string(p.exe_name) != opt_string(fg.exe_name),
        }),
{
    if reset {
        return true;
    }
    match previous {
        None => true,
        Some(p) => {
            if p.pid != fg.pid {
                return true;
            }
            let same = match (&p.exe_name, &fg.exe_name) {
                (Some(a), Some(b)) => str_eq(a.as_str(), b.as_str()),
                (None, None) => true,
                _ => false,
            };
            !same
        },
    }
}

/// Restarts attempted before the agent is given up on.
pub const MAX_RESTARTS: u32 = 5;

pub open spec fn pow2(n: nat) -> nat
    decreases n,
{
    if n == 0 {
        1
    } else {
        2 * pow2((n - 1) as nat)
    }
}

/// Delay before restart attempt `attempt + 1`, in milliseconds: 250 ms
/// doubling per attempt, at most 20 times that; `None` once the attempts
/// are used up.
pub fn restart_delay_ms(attempt: u32) -> (r: Option<u64>)
    ensures
        attempt >= MAX_RESTARTS ==> r is None,
        attempt < MAX_RESTARTS ==> r == Some((250 * (if pow2(attempt as nat) < 20 {
            pow2(attempt as nat)
        } else {
            20
        })) as u64),
{
    proof {
        reveal_with_fuel(pow2, 6);
    }
    if attempt >= MAX_RESTARTS {
        None
    } else if attempt == 0 {
        Some(250)
    } else if attempt == 1 {
        Some(500)
    } else if attempt == 2 {
        Some(1000)
    } else if attempt == 3 {
        Some(2000)
    } else {
        Some(4000)
    }
}

// ---------------------------------------------------------------------------
// Agent output framing
// ---------------------------------------------------------------------------

/// The lines of `s` that are complete (terminated by '\n'), without their
/// terminators, in order.
#[verifier::opaque]
pub open spec fn complete_lines(s: Seq<char>) -> Seq<Seq<char>>
    decreases s.len(),
{
    if s.contains('\n') {
        let i = first_index(s, '\n');
        proof {
            lemma_first_index_in(s, '\n');
        }
        seq![s.take(i)] + complete_lines(s.skip(i + 1))
    } else {
        Seq::empty()
    }
}

/// What follows the last '\n' of `s` (all of `s` if there is none).
#[verifier::opaque]
pub open spec fn pending_tail(s: Seq<char>) -> Seq<char>
    decreases s.len(),
{
    if s.contains('\n') {
        proof {
            lemma_first_index_in(s, '\n');
        }
        pending_tail(s.skip(first_index(s, '\n') + 1))
    } else {
        s
    }
}

proof fn lemma_first_index(s: Seq<char>, i: int)
    requires
        0 <= i < s.len(),
        s[i] == '\n',
        forall|k: int| 0 <= k < i ==> s[k] != '\n',
    ensures
        first_index(s, '\n') == i,
        s.contains('\n'),
{
    assert(s.contains('\n'));
    let j = choose|j: int| 0 <= j < s.len() && s[j] == '\n' && forall|k: int| 0 <= k < j ==> s[k] != '\n';
    if j < i {
    } else if i < j {
    }
}

proof fn lemma_lines_unfold(s: Seq<char>)
    ensures
        s.contains('\n') ==> complete_lines(s) == seq![s.take(first_index(s, '\n'))] + complete_lines(
            s.skip(first_index(s, '\n') + 1),
        ) && pending_tail(s) == pending_tail(s.skip(first_index(s, '\n') + 1)),
        !s.contains('\n') ==> complete_lines(s) == Seq::<Seq<char>>::empty() && pending_tail(s) == s,
{
    reveal(complete_lines);
    reveal(pending_tail);
}

proof fn lemma_drain_step(s0: Seq<char>, start: int, i: int, raw: Seq<Seq<char>>, rest: Seq<char>)
    requires
        0 <= start <= s0.len(),
        rest == s0.skip(start),
        0 <= i < rest.len(),
        rest[i] == '\n',
        forall|k: int| 0 <= k < i ==> rest[k] != '\n',
        raw + complete_lines(rest) == complete_lines(s0),
        pending_tail(rest) == pending_tail(s0),
    ensures
        raw.push(rest.take(i)) + complete_lines(s0.skip(start + i + 1)) == complete_lines(s0),
        pending_tail(s0.skip(start + i + 1)) == pending_tail(s0),
{
    lemma_first_index(rest, i);
    lemma_lines_unfold(rest);
    assert(rest.skip(i + 1) =~= s0.skip(start + i + 1));
    assert(raw.push(rest.take(i)) + complete_lines(rest.skip(i + 1)) =~= raw + (seq![rest.take(i)] + complete_lines(rest.skip(i + 1))));
}

proof fn lemma_trimmed_push(raw: Seq<Seq<char>>, line: Seq<char>)
    ensures
        trimmed_list(raw.push(line)) == (if trim(line).len() > 0 {
            trimmed_list(raw).push(trim(line))
        } else {
            trimmed_list(raw)
        }),
{
    assert(raw.push(line).drop_last() =~= raw);
}

/// Take every complete line out of `buf`, leaving the unfinished tail:
/// the lines come back trimmed, blank ones dropped.
pub fn drain_lines(buf: &mut String) -> (lines: Vec<String>)
    ensures
        strs_view(lines@) == trimmed_list(complete_lines(old(buf)@)),
        final(buf)@ == pending_tail(old(buf)@),
{
    let all = chars_of(buf.as_str());
    let ghost s0 = all@;
    let mut start: usize = 0;
    let mut out: Vec<String> = Vec::new();
    let ghost mut raw: Seq<Seq<char>> = Seq::empty();
    assert(s0.skip(0) =~= s0);
    assert(raw + complete_lines(s0) =~= complete_lines(s0));
    assert(strs_view(out@) =~= trimmed_list(raw));
    loop
        invariant
            all@ == s0,
            s0 == old(buf)@,
            start <= all@.len(),
            raw + complete_lines(s0.skip(start as int)) == complete_lines(s0),
            pending_tail(s0.skip(start as int)) == pending_tail(s0),
            strs_view(out@) == trimmed_list(raw),
        decreases all@.len() - start,
    {
        let rest = slice_chars(&all, start, all.len());
        assert(rest@ =~= s0.skip(start as int));
        match find_char(&rest, '\n') {
            None => {
                proof {
                    lemma_lines_unfold(rest@);
                    assert(raw + complete_lines(rest@) =~= raw);
                }
                let tail = string_of(&rest);
                *buf = tail;
                return out;
            },
            Some(i) => {
                proof {
                    lemma_drain_step(s0, start as int, i as int, raw, rest@);
                    lemma_trimmed_push(raw, rest@.take(i as int));
                }
                let line = slice_chars(&rest, 0, i);
                let t = trim_chars(&line);
                let ghost before = strs_view(out@);
                if t.len() > 0 {
                    out.push(string_of(&t));
                    assert(strs_view(out@) =~= before.push(trim(line@)));
                }
                proof {
                    raw = raw.push(line@);
                }
                start = start + i + 1;
            },
        }
    }
}

// ---------------------------------------------------------------------------
// Agent events
// ---------------------------------------------------------------------------

/// One thing the app must do in answer to an agent event.
#[derive(Debug, PartialEq)]
pub enum AppAction {
    /// Send the agent the current configuration.
    SendConfigure,
    /// Record the foreground and derive title match and selection; `reset`
    /// applies the window-switch rule.
    ApplyForeground { foreground: ForegroundInfo, reset: bool },
    /// Select the pinned app (or nothing).
    SelectPinned,
    /// Recompute the overlay state without showing it.
    PushState,
    ShowOverlay,
    HideOverlay,
    FocusOverlay,
    /// Tell the agent whether the overlay is up.
    SendVisible(bool),
    /// Esc or a passthrough: close, clear the filter, or peel a modal.
    Dismiss,
    /// A shell flyout opened or closed: slot the panel beneath it.
    DuckUnderFlyout { open: bool, window: Option<u64> },
    /// Keep the taskbar geometry and place the badges from it.
    UpdateBadges(TaskbarSnapshot),
    /// The agent reported a fatal error: flag the tray.
    ReportFatal(FatalKind),
}

/// The activation path shared by hold and chord: adopt the foreground the
/// agent saw (or fall back to the pin), show, and tell the agent.
pub open spec fn activation_plan(foreground: Option<ForegroundInfo>) -> Seq<AppAction> {
    seq![
        match foreground {
            Some(fg) => AppAction::ApplyForeground { foreground: fg, reset: true },
            None => AppAction::SelectPinned,
        },
        AppAction::ShowOverlay,
        AppAction::SendVisible(true),
    ]
}

/// The answer to one agent event. `visible` is the app's own record of the
/// overlay being up and `focused` whether it has focus: the chord hides a
/// focused overlay, refocuses an unfocused one, and shows a hidden one.
pub open spec fn event_plan(ev: AgentEvent, visible: bool, focused: bool) -> Seq<AppAction> {
    match ev {
        AgentEvent::Ready { .. } => seq![AppAction::SendConfigure],
        AgentEvent::ForegroundChanged { foreground } => seq![
            AppAction::ApplyForeground { foreground, reset: false },
            AppAction::PushState,
        ],
        AgentEvent::HoldActivated { foreground } => activation_plan(foreground),
        AgentEvent::ChordActivated { foreground } => if visible && focused {
            seq![AppAction::HideOverlay, AppAction::SendVisible(false)]
        } else if visible {
            seq![AppAction::FocusOverlay, AppAction::SendVisible(true)]
        } else {
            activation_plan(foreground)
        },
        AgentEvent::HoldReleased => seq![AppAction::HideOverlay, AppAction::SendVisible(false)],
        AgentEvent::Dismissed { .. } => seq![AppAction::Dismiss],
        AgentEvent::ShellFlyoutChanged { open, window } => seq![AppAction::DuckUnderFlyout { open, window }],
        AgentEvent::Taskbar(snap) => seq![AppAction::UpdateBadges(snap)],
        AgentEvent::Fatal { kind, .. } => seq![AppAction::ReportFatal(kind)],
        AgentEvent::Pong => Seq::empty(),
    }
}

fn activation_actions(foreground: Option<ForegroundInfo>) -> (r: Vec<AppAction>)
    ensures
        r@ == activation_plan(foreground),
{
    let mut v: Vec<AppAction> = Vec::new();
    match foreground {
        Some(fg) => v.push(AppAction::ApplyForeground { foreground: fg, reset: true }),
        None => v.push(AppAction::SelectPinned),
    }
    v.push(AppAction::ShowOverlay);
    v.push(AppAction::SendVisible(true));
    v
}

pub fn handle_event(ev: AgentEvent, visible: bool, focused: bool) -> (r: Vec<AppAction>)
    ensures
        r@ == event_plan(ev, visible, focused),
{
    let ghost e = ev;
    let mut v: Vec<AppAction> = Vec::new();
    match ev {
        AgentEvent::Ready { .. } => {
            v.push(AppAction::SendConfigure);
        },
        AgentEvent::ForegroundChanged { foreground } => {
            v.push(AppAction::ApplyForeground { foreground, reset: false });
            v.push(AppAction::PushState);
        },
        AgentEvent::HoldActivated { foreground } => {
            return activation_actions(foreground);
        },
        AgentEvent::ChordActivated { foreground } => {
            if visible && focused {
                v.push(AppAction::HideOverlay);
                v.push(AppAction::SendVisible(false));
            } else if visible {
                v.push(AppAction::FocusOverlay);
                v.push(AppAction::SendVisible(true));
            } else {
                return activation_actions(foreground);
            }
        },
        AgentEvent::HoldReleased => {
            v.push(AppAction::HideOverlay);
            v.push(AppAction::SendVisible(false));
        },
        AgentEvent::Dismissed { .. } => {
            v.push(AppAction::Dismiss);
        },
        AgentEvent::ShellFlyoutChanged { open, window } => {
            v.push(AppAction::DuckUnderFlyout { open, window });
        },
        AgentEvent::Taskbar(snap) => {
            v.push(AppAction::UpdateBadges(snap));
        },
        AgentEvent::Fatal { kind, .. } => {
            v.push(AppAction::ReportFatal(kind));
        },
        AgentEvent::Pong => {},
    }
    assert(v@ =~= event_plan(e, visible, focused));
    v
}

/// Releasing the held Win/Cmd key takes the overlay down, whatever state it
/// was in: the answer hides the overlay and tells the agent it is no longer
/// visible, and neither shows nor focuses it.
pub proof fn lemma_hold_release_hides_overlay(visible: bool, focused: bool)
    ensures
        event_plan(AgentEvent::HoldReleased, visible, focused).contains(AppAction::HideOverlay),
        event_plan(AgentEvent::HoldReleased, visible, focused).contains(AppAction::SendVisible(false)),
        !event_plan(AgentEvent::HoldReleased, visible, focused).contains(AppAction::ShowOverlay),
        !event_plan(AgentEvent::HoldReleased, visible, focused).contains(AppAction::FocusOverlay),
        !event_plan(AgentEvent::HoldReleased, visible, focused).contains(AppAction::SendVisible(true)),
{
    let p = event_plan(AgentEvent::HoldReleased, visible, focused);
    assert(p[0] == AppAction::HideOverlay);
    assert(p[1] == AppAction::SendVisible(false));
    assert(p.len() == 2);
}

/// The agent always hears about the overlay's visibility: an answer that
/// hides the overlay reports it hidden and never visible, and one that
/// shows or focuses it reports it visible and never hidden.
pub proof fn lemma_visibility_reported(ev: AgentEvent, visible: bool, focused: bool)
    ensures
        event_plan(ev, visible, focused).contains(AppAction::HideOverlay) ==> event_plan(
            ev,
            visible,
            focused,
        ).contains(AppAction::SendVisible(false)) && !event_plan(ev, visible, focused).contains(
            AppAction::SendVisible(true),
        ),
        (event_plan(ev, visible, focused).contains(AppAction::ShowOverlay) || event_plan(
            ev,
            visible,
            focused,
        ).contains(AppAction::FocusOverlay)) ==> event_plan(ev, visible, focused).contains(
            AppAction::SendVisible(true),
        ) && !event_plan(ev, visible, focused).contains(AppAction::SendVisible(false)),
{
    let p = event_plan(ev, visible, focused);
    if p.len() >= 2 {
        assert(p[p.len() - 1] == p.last());
    }
    if p.contains(AppAction::HideOverlay) || p.contains(AppAction::ShowOverlay) || p.contains(
        AppAction::FocusOverlay,
    ) {
        assert(p.len() >= 2);
        assert(p.contains(p.last()));
    }
}

// ---------------------------------------------------------------------------
// Esc handling
// ---------------------------------------------------------------------------

/// The modal layer open in the overlay.
#[derive(Debug, Clone, Copy, PartialEq, Eq, Structural)]
pub enum Modal {
    /// No modal layer.
    Nothing,
    /// A customization dialog.
    Dialog,
    /// A key-capture box inside the dialog.
    Capture,
}

/// The overlay's report of its modal layer: "none", "capture", or any
/// other value for a dialog.
pub fn modal_from_name(name: &str) -> (r: Modal)
    ensures
        r == (if name@ == "none"@ {
            Modal::Nothing
        } else if name@ == "capture"@ {
            Modal::Capture
        } else {
            Modal::Dialog
        }),
{
    if str_eq(name, "none") {
        Modal::Nothing
    } else if str_eq(name, "capture") {
        Modal::Capture
    } else {
        Modal::Dialog
    }
}

/// What one Esc does.
#[derive(Debug, Clone, Copy, PartialEq, Eq, Structural)]
pub enum DismissStep {
    /// Close one modal layer; the stored layer steps down to this one.
    PeelModal(Modal),
    /// Clear the filter box and keep the panel up.
    ClearFilter,
    /// Hide the overlay.
    Close,
}

/// Esc peels a modal layer first (capture -> dialog -> none); then, with
/// the two-step option on and text in the filter, clears the filter; only
/// then closes.
pub open spec fn dismiss_spec(modal: Modal, two_step: bool, filter_active: bool) -> DismissStep {
    match modal {
        Modal::Capture => DismissStep::PeelModal(Modal::Dialog),
        Modal::Dialog => DismissStep::PeelModal(Modal::Nothing),
        Modal::Nothing => if two_step && filter_active {
            DismissStep::ClearFilter
        } else {
            DismissStep::Close
        },
    }
}

/// The step one Esc takes in the current overlay state.
pub fn dismiss_step(modal: Modal, two_step: bool, filter_active: bool) -> (r: DismissStep)
    ensures
        r == dismiss_spec(modal, two_step, filter_active),
{
    match modal {
        Modal::Capture => DismissStep::PeelModal(Modal::Dialog),
        Modal::Dialog => DismissStep::PeelModal(Modal::Nothing),
        Modal::Nothing => if two_step && filter_active {
            DismissStep::ClearFilter
        } else {
            DismissStep::Close
        },
    }
}

/// Esc never closes the panel while a layer or a filter is left to peel:
/// a close happens only from the bare panel (or with the filter option
/// off), and each modal layer takes one Esc of its own.
pub proof fn lemma_close_only_when_nothing_to_peel(modal: Modal, two_step: bool, filter_active: bool)
    ensures
        (dismiss_spec(modal, two_step, filter_active) == DismissStep::Close) <==> (modal == Modal::Nothing
            && !(two_step && filter_active)),
        modal == Modal::Capture ==> dismiss_spec(modal, two_step, filter_active) == DismissStep::PeelModal(
            Modal::Dialog,
        ) && dismiss_spec(Modal::Dialog, two_step, filter_active) == DismissStep::PeelModal(Modal::Nothing),
{
}

// ---------------------------------------------------------------------------
// Taskbar badges and pins
// ---------------------------------------------------------------------------

/// Badges are requested only while the overlay is up and the setting is on.
pub fn badges_armed(overlay_visible: bool, setting_on: bool) -> (r: bool)
    ensures
        r == (overlay_visible && setting_on),
{
    overlay_visible && setting_on
}

/// Badges are shown for a snapshot only with the setting on, the overlay
/// up, and at least one button.
pub fn show_badges(setting_on: bool, overlay_up: bool, buttons: usize) -> (r: bool)
    ensures
        r == (setting_on && overlay_up && buttons > 0),
{
    setting_on && overlay_up && buttons > 0
}

/// The chip text for a button: its number, "0" from ten on.
pub fn badge_label(index: u32) -> (r: String)
    ensures
        r@ == (if index >= 10 {
            "0"@
        } else {
            decimal_spec(index as nat)
        }),
{
    if index >= 10 {
        String::from_str("0")
    } else {
        decimal_string(index as u64)
    }
}

/// The badge strip along the taskbar's inner edge, `strip` thick, as
/// (x, y, width, height).
pub fn badge_strip(edge: Edge, tb: Rect, strip: i32) -> (r: (i32, i32, i32, i32))
    requires
        0 <= strip,
        i32::MIN <= tb.y + tb.h <= i32::MAX,
        i32::MIN <= tb.x + tb.w <= i32::MAX,
        tb.x - strip >= i32::MIN,
        tb.y - strip >= i32::MIN,
    ensures
        match edge {
            Edge::Top => r.0 == tb.x && r.1 == tb.y + tb.h && r.2 == tb.w && r.3 == strip,
            Edge::Left => r.0 == tb.x + tb.w && r.1 == tb.y && r.2 == strip && r.3 == tb.h,
            Edge::Right => r.0 == tb.x - strip && r.1 == tb.y && r.2 == strip && r.3 == tb.h,
            Edge::Bottom => r.0 == tb.x && r.1 == tb.y - strip && r.2 == tb.w && r.3 == strip,
        },
{
    match edge {
        Edge::Top => (tb.x, tb.y + tb.h, tb.w, strip),
        Edge::Left => (tb.x + tb.w, tb.y, strip, tb.h),
        Edge::Right => (tb.x - strip, tb.y, strip, tb.h),
        Edge::Bottom => (tb.x, tb.y - strip, tb.w, strip),
    }
}

/// Rail ids of unsupported-app placeholders start with this prefix.
pub const UNSUPPORTED_PREFIX: &'static str = "unsupported:";

/// A rail app may be pinned unless it is the unsupported-app placeholder,
/// whose synthetic id names no manifest.
pub fn pinnable(manifest_id: Option<&str>) -> (r: bool)
    ensures
        r == !(manifest_id matches Some(id) && starts_with(id@, UNSUPPORTED_PREFIX@)),
{
    match manifest_id {
        Some(id) => {
            let v = chars_of(id);
            let p = chars_of(UNSUPPORTED_PREFIX);
            !crate::text::has_prefix(&v, &p)
        },
        None => true,
    }
}

/// The stored form of a captured customization; an empty capture is
/// refused.
pub fn customization_combo(chords: &Vec<KeyCombo>) -> (r: Result<String, String>)
    ensures
        chords@.len() == 0 <==> r is Err,
        r matches Ok(s) ==> s@ == format_combo_seq_spec(combos_v(chords@)),
        r matches Err(m) ==> m@ == "empty key combination"@,
{
    if chords.len() == 0 {
        return Err(String::from_str("empty key combination"));
    }
    Ok(format_combo_seq(chords))
}

} // verus!
