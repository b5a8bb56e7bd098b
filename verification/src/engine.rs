//! The manifest store with the UI locale it answers in, and the render-ready
//! overlay view model built from it for a foreground window. Loading the
//! manifest files, enumerating processes, and resolving icons and friendly
//! names are done by the caller.

use vstd::prelude::*;

use crate::custom::AppCustomizations;
use crate::host::HostClasses;
use crate::model::{clone_strings, opt_view, strs_view, TitleBinding};
use crate::page::AssembledSection;
use crate::pins::PinStore;
use crate::proto::{ChordSpec, ForegroundInfo, Platform};
use crate::rail::{apps_view, build_state, pages_view, state_spec, RailApp, RailStateV};
use crate::settings::Activation;
use crate::store::{
    opt_str, rail_ok, selected, seq_lt, title_match_ok, LoadedManifest, ManifestStore, Matched,
};

verus! {

/// The UI locale the overlay is shown in.
pub const UI_LOCALE: &'static str = "en-US";

pub struct Engine {
    store: ManifestStore,
    locale: String,
}

/// The overlay's view model, as the frontend consumes it.
#[derive(Debug)]
pub struct OverlayStatePayload {
    pub platform: Platform,
    pub apps: Vec<RailApp>,
    /// Page of each rail app, in rail order.
    pub pages: Vec<(String, Vec<AssembledSection>)>,
    pub selected: Option<String>,
    /// Rail app pinned by the user (stays listed and selected), if any.
    pub pinned_app: Option<String>,
    /// The selected page has a taskbar section (arms the badges).
    pub has_taskbar: bool,
    /// Combo visibility: "default" | "custom" | "all" | "customElseDefault".
    pub combo_display_mode: String,
    /// The activation settings, so the help view shows the real bindings.
    pub hold_enabled: bool,
    pub chord_enabled: bool,
    pub chord: ChordSpec,
    pub settings_chord_enabled: bool,
    pub settings_chord: ChordSpec,
}

impl OverlayStatePayload {
    /// The rail part of the view model.
    pub open spec fn rail_view(self) -> RailStateV {
        RailStateV {
            apps: apps_view(self.apps@),
            pages: pages_view(self.pages@),
            selected: opt_view(self.selected),
            pinned_app: opt_view(self.pinned_app),
            has_taskbar: self.has_taskbar,
        }
    }
}

/// `hs` lists the hosted collections of `m` as shown in locale `ui`, each
/// once, ordered by package id.
pub open spec fn hosted_list_ok(
    m: Map<(Seq<char>, Seq<char>), LoadedManifest>,
    ui: Seq<char>,
    hs: Seq<LoadedManifest>,
) -> bool {
    &&& forall|i: int| 0 <= i < hs.len() ==> selected(m, ui, #[trigger] hs[i]) && hs[i].manifest.host is Some
    &&& forall|i: int, j: int|
        0 <= i < j < hs.len() ==> seq_lt((#[trigger] hs[i]).manifest.id@, (#[trigger] hs[j]).manifest.id@)
    &&& forall|k: (Seq<char>, Seq<char>)|
        #![trigger m.dom().contains(k)]
        m.dom().contains(k) && selected(m, ui, m[k]) && m[k].manifest.host is Some ==> exists|i: int|
            0 <= i < hs.len() && #[trigger] hs[i] == m[k]
}

/// A binding target: (package id, display name, own title patterns).
pub open spec fn hosted_entry(lm: LoadedManifest) -> (Seq<char>, Seq<char>, Seq<Seq<char>>) {
    (lm.manifest.id@, lm.manifest.display_name_spec(), strs_view(lm.manifest.title_match@))
}

pub open spec fn triples_view(v: Seq<(String, String, Vec<String>)>) -> Seq<(Seq<char>, Seq<char>, Seq<Seq<char>>)> {
    v.map_values(|t: (String, String, Vec<String>)| (t.0@, t.1@, strs_view(t.2@)))
}

/// The manifests of `ms` layered in order into `m`, as `insert_loaded`
/// layers them.
pub open spec fn layered(
    m: Map<(Seq<char>, Seq<char>), LoadedManifest>,
    ms: Seq<LoadedManifest>,
) -> Map<(Seq<char>, Seq<char>), LoadedManifest>
    decreases ms.len(),
{
    if ms.len() == 0 {
        m
    } else {
        let lm = ms[0];
        let k = crate::store::key_of(lm);
        let next = if m.dom().contains(k) && crate::store::source_rank(m[k].source)
            > crate::store::source_rank(lm.source) {
            m
        } else {
            m.insert(k, lm)
        };
        layered(next, ms.drop_first())
    }
}

/// `state` is the rail that `rail::build_state` gives for these inputs:
/// the rail of some match list `rv` that `match_foreground` may return.
#[verifier::opaque]
pub open spec fn rail_built(
    m: Map<(Seq<char>, Seq<char>), LoadedManifest>,
    ui: Seq<char>,
    fg: Option<Seq<char>>,
    hc: HostClasses,
    running: Seq<Seq<char>>,
    pins: Map<Seq<char>, Set<Seq<char>>>,
    customs: Seq<(String, AppCustomizations)>,
    sel: Option<Seq<char>>,
    pinned: Option<Seq<char>>,
    title_matched: Option<Seq<char>>,
    unsupported_name: Seq<char>,
    state: RailStateV,
) -> bool {
    exists|rv: Seq<Matched>|
        rail_ok(m, ui, fg, hc, running, rv) && state == state_spec(
            rv,
            m,
            ui,
            fg,
            pins,
            customs,
            sel,
            pinned,
            title_matched,
            unsupported_name,
        )
}

proof fn lemma_rail_built(
    m: Map<(Seq<char>, Seq<char>), LoadedManifest>,
    ui: Seq<char>,
    fg: Option<Seq<char>>,
    hc: HostClasses,
    running: Seq<Seq<char>>,
    pins: Map<Seq<char>, Set<Seq<char>>>,
    customs: Seq<(String, AppCustomizations)>,
    sel: Option<Seq<char>>,
    pinned: Option<Seq<char>>,
    title_matched: Option<Seq<char>>,
    unsupported_name: Seq<char>,
    state: RailStateV,
)
    requires
        exists|rv: Seq<Matched>|
            rail_ok(m, ui, fg, hc, running, rv) && state == state_spec(
                rv,
                m,
                ui,
                fg,
                pins,
                customs,
                sel,
                pinned,
                title_matched,
                unsupported_name,
            ),
    ensures
        rail_built(m, ui, fg, hc, running, pins, customs, sel, pinned, title_matched, unsupported_name, state),
{
    reveal(rail_built);
}

impl Engine {
    pub closed spec fn store_view(self) -> Map<(Seq<char>, Seq<char>), LoadedManifest> {
        self.store@
    }

    pub closed spec fn locale_view(self) -> Seq<char> {
        self.locale@
    }

    /// An engine with no manifests yet, answering in the UI locale.
    pub fn new() -> (r: Engine)
        ensures
            r.store_view() == Map::<(Seq<char>, Seq<char>), LoadedManifest>::empty(),
            r.locale_view() == UI_LOCALE@,
    {
        Engine { store: ManifestStore::new(), locale: String::from_str(UI_LOCALE) }
    }

    /// Replace the manifests with `loaded`, given in priority order
    /// (bundled, then runtime-installed, then the user's own).
    pub fn reload(&mut self, loaded: Vec<LoadedManifest>)
        ensures
            final(self).store_view() == layered(
                Map::<(Seq<char>, Seq<char>), LoadedManifest>::empty(),
                loaded@,
            ),
            final(self).locale_view() == old(self).locale_view(),
    {
        self.store.clear();
        let ghost all = loaded@;
        let mut rest = loaded;
        while rest.len() > 0
            invariant
                layered(self.store@, rest@) == layered(
                    Map::<(Seq<char>, Seq<char>), LoadedManifest>::empty(),
                    all,
                ),
                self.locale@ == old(self).locale@,
            decreases rest.len(),
        {
            let ghost before = rest@;
            let lm = rest.remove(0);
            proof {
                assert(before.remove(0) =~= before.drop_first());
            }
            self.store.insert_loaded(lm);
        }
    }

    /// The manifest store.
    pub fn store(&self) -> (r: &ManifestStore)
        ensures
            r@ == self.store_view(),
    {
        &self.store
    }

    /// The hosted collection detected from the foreground window's title,
    /// if any; the user's `bindings` beat manifest title patterns.
    pub fn title_match(&self, fg: &ForegroundInfo, host_classes: &HostClasses, bindings: &[TitleBinding]) -> (r:
        Option<String>)
        ensures
            match r {
                Some(id) => exists|lm: LoadedManifest|
                    title_match_ok(
                        self.store_view(),
                        self.locale_view(),
                        opt_view(fg.exe_name),
                        opt_view(fg.title),
                        *host_classes,
                        bindings@,
                        Some(lm),
                    ) && lm.manifest.id@ == id@,
                None => title_match_ok(
                    self.store_view(),
                    self.locale_view(),
                    opt_view(fg.exe_name),
                    opt_view(fg.title),
                    *host_classes,
                    bindings@,
                    None,
                ),
            },
    {
        let exe: Option<&str> = match &fg.exe_name {
            Some(s) => Some(s.as_str()),
            None => None,
        };
        let title: Option<&str> = match &fg.title {
            Some(s) => Some(s.as_str()),
            None => None,
        };
        assert(opt_str(exe) == opt_view(fg.exe_name));
        assert(opt_str(title) == opt_view(fg.title));
        let m = self.store.match_title(exe, title, self.locale.as_str(), host_classes, bindings);
        match m {
            Some(lm) => {
                let id = lm.manifest.id.clone();
                proof {
                    assert(title_match_ok(
                        self.store_view(),
                        self.locale_view(),
                        opt_view(fg.exe_name),
                        opt_view(fg.title),
                        *host_classes,
                        bindings@,
                        Some(*lm),
                    ));
                }
                Some(id)
            },
            None => None,
        }
    }

    /// The installed hosted collections as (package id, display name, own
    /// title patterns), the valid targets of a title binding.
    pub fn hosted_manifests(&self) -> (r: Vec<(String, String, Vec<String>)>)
        ensures
            exists|hs: Seq<LoadedManifest>|
                hosted_list_ok(self.store_view(), self.locale_view(), hs) && triples_view(r@)
                    == hs.map_values(|lm: LoadedManifest| hosted_entry(lm)),
    {
        let hs = self.store.hosted(self.locale.as_str());
        let ghost hv = hs@.map_values(|p: &LoadedManifest| *p);
        let mut out: Vec<(String, String, Vec<String>)> = Vec::new();
        for i in 0..hs.len()
            invariant
                hv == hs@.map_values(|p: &LoadedManifest| *p),
                out@.len() == i,
                forall|j: int|
                    0 <= j < i ==> (#[trigger] out@[j].0@, out@[j].1@, strs_view(out@[j].2@)) == hosted_entry(
                        hv[j],
                    ),
        {
            let lm = hs[i];
            let t = (lm.manifest.id.clone(), String::from_str(lm.manifest.display_name()), clone_strings(
                &lm.manifest.title_match,
            ));
            out.push(t);
        }
        proof {
            assert(triples_view(out@) =~= hv.map_values(|lm: LoadedManifest| hosted_entry(lm)));
            assert forall|i: int| 0 <= i < hv.len() implies selected(self.store@, self.locale@, #[trigger] hv[i])
                && hv[i].manifest.host is Some by {
                assert(hv[i] == *hs@[i]);
            }
            assert forall|i: int, j: int| 0 <= i < j < hv.len() implies seq_lt(
                (#[trigger] hv[i]).manifest.id@,
                (#[trigger] hv[j]).manifest.id@,
            ) by {
                assert(hv[i] == *hs@[i]);
                assert(hv[j] == *hs@[j]);
            }
            assert forall|k: (Seq<char>, Seq<char>)|
                #![trigger self.store@.dom().contains(k)]
                self.store@.dom().contains(k) && selected(self.store@, self.locale@, self.store@[k])
                    && self.store@[k].manifest.host is Some implies exists|i: int|
                0 <= i < hv.len() && #[trigger] hv[i] == self.store@[k] by {
                let i = choose|i: int| 0 <= i < hs@.len() && *#[trigger] hs@[i] == self.store@[k];
                assert(hv[i] == *hs@[i]);
            }
            assert(hosted_list_ok(self.store_view(), self.locale_view(), hv));
            assert(triples_view(out@) == hv.map_values(|lm: LoadedManifest| hosted_entry(lm)));
        }
        out
    }

    /// The overlay for a foreground window: the rail, its pages and the
    /// selection (see `rail::build_state`), with the settings the frontend
    /// shows alongside. `running` holds the normalized identities of live
    /// processes; `unsupported_name` is the friendly name of the foreground
    /// exe, shown when no collection covers it.
    pub fn build_state(
        &self,
        foreground: Option<&ForegroundInfo>,
        running: &Vec<String>,
        pins: &PinStore,
        customs: &Vec<(String, AppCustomizations)>,
        selected: Option<String>,
        pinned: Option<&str>,
        title_matched: Option<&str>,
        host_classes: &HostClasses,
        combo_display_mode: String,
        activation: Activation,
        platform: Platform,
        unsupported_name: &str,
    ) -> (r: OverlayStatePayload)
        ensures
            rail_built(
                self.store_view(),
                self.locale_view(),
                match foreground {
                    Some(f) => opt_view(f.exe_name),
                    None => None,
                },
                *host_classes,
                strs_view(running@),
                pins@,
                customs@,
                opt_view(selected),
                opt_str(pinned),
                opt_str(title_matched),
                unsupported_name@,
                r.rail_view(),
            ),
            r.platform == platform,
            r.combo_display_mode@ == combo_display_mode@,
            r.hold_enabled == activation.hold_enabled,
            r.chord_enabled == activation.chord_enabled,
            r.chord == activation.chord,
            r.settings_chord_enabled == activation.settings_chord_enabled,
            r.settings_chord == activation.settings_chord,
    {
        let exe: Option<&str> = match foreground {
            Some(f) => match &f.exe_name {
                Some(s) => Some(s.as_str()),
                None => None,
            },
            None => None,
        };
        let ghost fg = match foreground {
            Some(f) => opt_view(f.exe_name),
            None => None,
        };
        assert(opt_str(exe) == fg);
        let st = build_state(
            &self.store,
            exe,
            self.locale.as_str(),
            host_classes,
            running,
            pins,
            customs,
            selected,
            pinned,
            title_matched,
            unsupported_name,
        );
        proof {
            lemma_rail_built(
                self.store@,
                self.locale@,
                fg,
                *host_classes,
                strs_view(running@),
                pins@,
                customs@,
                opt_view(selected),
                opt_str(pinned),
                opt_str(title_matched),
                unsupported_name@,
                st@,
            );
        }
        let r = OverlayStatePayload {
            platform,
            apps: st.apps,
            pages: st.pages,
            selected: st.selected,
            pinned_app: st.pinned_app,
            has_taskbar: st.has_taskbar,
            combo_display_mode,
            hold_enabled: activation.hold_enabled,
            chord_enabled: activation.chord_enabled,
            chord: activation.chord,
            settings_chord_enabled: activation.settings_chord_enabled,
            settings_chord: activation.settings_chord,
        };
        assert(r.rail_view() == st@);
        r
    }
}

} // verus!
