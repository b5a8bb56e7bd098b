//! The messages exchanged between the Quicuts app and its system-agent
//! sidecars, one JSON object per line (the framing and the JSON mapping
//! live with the process plumbing).
//!
//! Privacy invariant: no message carries the identity of a key the user
//! pressed. The only key data on the wire is the activation-chord
//! configuration flowing app -> agent; agents report semantic transitions
//! only.

use vstd::prelude::*;

verus! {

pub const PROTO_VERSION: u32 = 1;

/// Capability strings advertised in [`AgentEvent::Ready`].
pub const CAP_HOLD: &'static str = "hold";
pub const CAP_CHORD: &'static str = "chord";
pub const CAP_FOREGROUND: &'static str = "foreground";
pub const CAP_TASKBAR: &'static str = "taskbar";
/// Can watch foreground-window title changes.
pub const CAP_TITLE: &'static str = "title";

/// The desktop platform whose conventions a default follows.
#[derive(Debug, Clone, Copy, PartialEq, Eq, Structural)]
pub enum Platform {
    MacOs,
    Windows,
}

/// An activation chord: modifier flags plus one non-modifier key (a
/// Windows-style virtual-key code on every platform; `win` is ⌘ on macOS).
#[derive(Debug, Clone, Copy, PartialEq, Eq, Structural)]
pub struct ChordSpec {
    pub win: bool,
    pub ctrl: bool,
    pub shift: bool,
    pub alt: bool,
    pub vk: u32,
}

/// VK_OEM_2, the "/" key.
pub const VK_SLASH: u32 = 0xBF;
/// VK_OEM_COMMA.
pub const VK_COMMA: u32 = 0xBC;

impl ChordSpec {
    pub open spec fn overlay_default_spec(platform: Platform) -> ChordSpec {
        match platform {
            Platform::MacOs => ChordSpec { win: true, ctrl: true, shift: false, alt: false, vk: VK_SLASH },
            Platform::Windows => ChordSpec { win: true, ctrl: false, shift: true, alt: false, vk: VK_SLASH },
        }
    }

    /// Overlay-toggle default. Windows keeps Win+Shift+/; macOS uses ⌃⌘/,
    /// since ⌘⇧/ is the system Help-menu shortcut.
    pub fn overlay_default(platform: Platform) -> (r: ChordSpec)
        ensures
            r == Self::overlay_default_spec(platform),
    {
        match platform {
            Platform::MacOs => ChordSpec { win: true, ctrl: true, shift: false, alt: false, vk: VK_SLASH },
            Platform::Windows => ChordSpec {
                win: true,
                ctrl: false,
                shift: true,
                alt: false,
                vk: VK_SLASH,
            },
        }
    }

    pub open spec fn settings_default_spec(platform: Platform) -> ChordSpec {
        match platform {
            Platform::MacOs => ChordSpec { win: true, ctrl: false, shift: false, alt: false, vk: VK_COMMA },
            Platform::Windows => ChordSpec { win: false, ctrl: true, shift: false, alt: false, vk: VK_COMMA },
        }
    }

    /// Default settings-window toggle: Ctrl+, on Windows, ⌘, on macOS.
    /// Handled inside the app's own focused windows, never by the agent.
    pub fn settings_default(platform: Platform) -> (r: ChordSpec)
        ensures
            r == Self::settings_default_spec(platform),
    {
        match platform {
            Platform::MacOs => ChordSpec { win: true, ctrl: false, shift: false, alt: false, vk: VK_COMMA },
            Platform::Windows => ChordSpec {
                win: false,
                ctrl: true,
                shift: false,
                alt: false,
                vk: VK_COMMA,
            },
        }
    }
}

#[derive(Debug, PartialEq)]
pub struct ForegroundInfo {
    pub pid: u32,
    /// Full image path, when the process could be opened.
    pub exe_path: Option<String>,
    /// Basename of `exe_path` (Windows) or the bundle id (macOS).
    pub exe_name: Option<String>,
    pub title: Option<String>,
}

impl ForegroundInfo {
    pub fn empty() -> (r: ForegroundInfo)
        ensures
            r.pid == 0 && r.exe_path is None && r.exe_name is None && r.title is None,
    {
        ForegroundInfo { pid: 0, exe_path: None, exe_name: None, title: None }
    }
}

#[derive(Debug, Clone, Copy, PartialEq, Eq, Structural)]
pub enum Edge {
    Left,
    Right,
    Top,
    Bottom,
}

#[derive(Debug, Clone, Copy, PartialEq, Eq, Structural)]
pub struct Rect {
    pub x: i32,
    pub y: i32,
    pub w: i32,
    pub h: i32,
}

#[derive(Debug, Clone, Copy, PartialEq, Eq, Structural)]
pub struct TaskbarButton {
    /// 1-based position.
    pub index: u32,
    pub rect: Rect,
}

#[derive(Debug, PartialEq)]
pub struct TaskbarSnapshot {
    pub edge: Edge,
    pub taskbar_rect: Rect,
    pub buttons: Vec<TaskbarButton>,
}

#[derive(Debug, Clone, Copy, PartialEq, Eq, Structural)]
pub enum DismissReason {
    Esc,
    /// A shortcut chord was passed through to the OS while the overlay was up.
    Passthrough,
    /// The activation chord was pressed again while visible.
    ChordAgain,
}

#[derive(Debug, Clone, Copy, PartialEq, Eq, Structural)]
pub enum FatalKind {
    HookInstallFailed,
    /// macOS: Accessibility / Input Monitoring permission missing.
    PermissionRequired,
    AlreadyRunning,
    Other,
}

/// App -> agent.
#[derive(Debug, PartialEq)]
pub enum AgentCommand {
    /// Full-replace configuration; sent at startup and on every settings save.
    Configure {
        hold_enabled: bool,
        hold_ms: u32,
        chord_enabled: bool,
        chord: ChordSpec,
        /// Exe names (".exe" optional) for which hold-activation must not arm.
        excluded_exes: Vec<String>,
        /// Watch foreground-window title changes.
        title_events_enabled: bool,
    },
    /// The overlay is actually shown/hidden.
    SetOverlayVisible { visible: bool },
    /// Request one taskbar-button geometry snapshot.
    QueryTaskbar,
    SubscribeForeground { enabled: bool },
    Ping,
    Shutdown,
}

/// Agent -> app.
#[allow(inconsistent_fields)]
#[derive(Debug, PartialEq)]
pub enum AgentEvent {
    Ready { proto_version: u32, caps: Vec<String> },
    /// The hold threshold elapsed with the modifier still down; `foreground`
    /// is the window that was foreground before activation.
    HoldActivated { foreground: Option<ForegroundInfo> },
    /// The held modifier was released.
    HoldReleased,
    ChordActivated { foreground: Option<ForegroundInfo> },
    Dismissed { reason: DismissReason },
    ForegroundChanged { foreground: ForegroundInfo },
    /// A shell tray flyout opened or closed.
    ShellFlyoutChanged { open: bool, window: Option<u64> },
    Taskbar(TaskbarSnapshot),
    Pong,
    Fatal { kind: FatalKind, message: String },
}

} // verus!
