//! The activation part of the user settings, its defaults, and the agent
//! configuration built from the settings.

use vstd::prelude::*;

use crate::model::{clone_strings, strs_view};
use crate::proto::{AgentCommand, ChordSpec, Platform};

verus! {

pub const SCHEMA_VERSION: u32 = 1;

/// Default hold threshold in milliseconds.
pub const DEFAULT_HOLD_MS: u32 = 900;

/// Default combo visibility on the panel: both default and custom combos.
pub const DEFAULT_COMBO_DISPLAY_MODE: &'static str = "all";

/// How the overlay is summoned, and the chord of the settings window.
#[derive(Debug, Clone, Copy, PartialEq, Eq, Structural)]
pub struct Activation {
    pub hold_enabled: bool,
    pub hold_ms: u32,
    pub chord_enabled: bool,
    pub chord: ChordSpec,
    /// Global chord that opens/closes the settings window.
    pub settings_chord_enabled: bool,
    pub settings_chord: ChordSpec,
}

impl Activation {
    pub open spec fn default_spec(platform: Platform) -> Activation {
        Activation {
            hold_enabled: true,
            hold_ms: DEFAULT_HOLD_MS,
            chord_enabled: true,
            chord: ChordSpec::overlay_default_spec(platform),
            settings_chord_enabled: true,
            settings_chord: ChordSpec::settings_default_spec(platform),
        }
    }

    /// Fresh-install activation: hold and chord both on, the platform's
    /// default chords.
    pub fn default_for(platform: Platform) -> (r: Activation)
        ensures
            r == Self::default_spec(platform),
    {
        Activation {
            hold_enabled: true,
            hold_ms: DEFAULT_HOLD_MS,
            chord_enabled: true,
            chord: ChordSpec::overlay_default(platform),
            settings_chord_enabled: true,
            settings_chord: ChordSpec::settings_default(platform),
        }
    }
}

/// The agent `Configure` command for the given settings.
pub open spec fn is_configure_for(
    cmd: AgentCommand,
    activation: Activation,
    excluded_exes: Seq<Seq<char>>,
    title_detection: bool,
) -> bool {
    match cmd {
        AgentCommand::Configure {
            hold_enabled,
            hold_ms,
            chord_enabled,
            chord,
            excluded_exes: ex,
            title_events_enabled,
        } => {
            &&& hold_enabled == activation.hold_enabled
            &&& hold_ms == activation.hold_ms
            &&& chord_enabled == activation.chord_enabled
            &&& chord == activation.chord
            &&& strs_view(ex@) == excluded_exes
            &&& title_events_enabled == title_detection
        },
        _ => false,
    }
}

/// Build the agent `Configure` command from the current settings: the
/// overlay activation, the excluded exes and whether title detection is on.
pub fn configure_command(activation: &Activation, excluded_exes: &Vec<String>, title_detection: bool) -> (r:
    AgentCommand)
    ensures
        is_configure_for(r, *activation, strs_view(excluded_exes@), title_detection),
{
    AgentCommand::Configure {
        hold_enabled: activation.hold_enabled,
        hold_ms: activation.hold_ms,
        chord_enabled: activation.chord_enabled,
        chord: activation.chord,
        excluded_exes: clone_strings(excluded_exes),
        title_events_enabled: title_detection,
    }
}

} // verus!
