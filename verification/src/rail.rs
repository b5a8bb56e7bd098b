//! The overlay's view model: which apps the rail lists for a foreground
//! window, which one presents as the foreground app, which page is
//! selected, and where each rail icon comes from. Icons, friendly names and
//! customization files are read by the caller; this module decides.

use vstd::prelude::*;

use crate::custom::{AppCustomizations, EntryCustomizationV};
use crate::host::HostClasses;
use crate::model::{normalize_exe, normalize_exe_spec, strs_view, Manifest};
use crate::page::{assemble, asections_view, page_spec, AssembledSection, AssembledSectionV, SectionKind};
use crate::pins::{pins_of, PinStore};
use crate::proto::ChordSpec;
use crate::session::UNSUPPORTED_PREFIX;
use crate::store::{
    opt_str, rail_ok, selected, LoadedManifest, ManifestStore, MatchKind, Matched,
};
use crate::text::{chars_of, contains_chars, contains_sub, find_char, push_all, str_eq};

verus! {

// ---------------------------------------------------------------------------
// The foreground entry
// ---------------------------------------------------------------------------

/// Rail positions holding the hosted collection `t`.
pub open spec fn is_hosted_at(e: Seq<(MatchKind, &str)>, i: int, t: Seq<char>) -> bool {
    e[i].0 == MatchKind::Hosted && e[i].1@ == t
}

pub open spec fn is_exact_or_wildcard(k: MatchKind) -> bool {
    k == MatchKind::Exact || k == MatchKind::Wildcard
}

/// The hosted collection `t` is in the rail.
pub open spec fn hosted_in(e: Seq<(MatchKind, &str)>, t: Seq<char>) -> bool {
    exists|i: int| 0 <= i < e.len() && #[trigger] is_hosted_at(e, i, t)
}

/// Position `i` holds the first exact or wildcard match.
pub open spec fn first_direct(e: Seq<(MatchKind, &str)>, i: int) -> bool {
    0 <= i < e.len() && is_exact_or_wildcard(e[i].0) && forall|j: int| 0 <= j < i ==> !is_exact_or_wildcard(#[trigger] e[j].0)
}

pub open spec fn no_direct(e: Seq<(MatchKind, &str)>) -> bool {
    forall|j: int| 0 <= j < e.len() ==> !is_exact_or_wildcard(#[trigger] e[j].0)
}

/// Which rail entry presents as "the foreground app": the title-matched
/// hosted collection when detection has one in the rail, otherwise the
/// first exact or wildcard match — never a hosted collection, which would
/// otherwise present a web app on every page of a browser without a
/// collection of its own.
pub fn foreground_entry(entries: &[(MatchKind, &str)], title_matched: Option<&str>) -> (r: Option<usize>)
    ensures
        match r {
            Some(i) => match title_matched {
                Some(t) => if hosted_in(entries@, t@) {
                    i < entries@.len() && is_hosted_at(entries@, i as int, t@) && forall|j: int|
                        0 <= j < i ==> !is_hosted_at(entries@, j, t@)
                } else {
                    first_direct(entries@, i as int)
                },
                None => first_direct(entries@, i as int),
            },
            None => no_direct(entries@) && match title_matched {
                Some(t) => !hosted_in(entries@, t@),
                None => true,
            },
        },
{
    match title_matched {
        Some(t) => {
            for i in 0..entries.len()
                invariant
                    title_matched == Some(t),
                    forall|j: int| 0 <= j < i ==> !is_hosted_at(entries@, j, t@),
            {
                if entries[i].0 == MatchKind::Hosted && str_eq(entries[i].1, t) {
                    assert(is_hosted_at(entries@, i as int, t@));
                    assert(hosted_in(entries@, t@));
                    return Some(i);
                }
            }
            assert(!hosted_in(entries@, t@));
        },
        None => {},
    }
    for i in 0..entries.len()
        invariant
            match title_matched {
                Some(t) => !hosted_in(entries@, t@),
                None => true,
            },
            forall|j: int| 0 <= j < i ==> !is_exact_or_wildcard(#[trigger] entries@[j].0),
    {
        if entries[i].0 == MatchKind::Exact || entries[i].0 == MatchKind::Wildcard {
            return Some(i);
        }
    }
    None
}

// ---------------------------------------------------------------------------
// Icons
// ---------------------------------------------------------------------------

/// A manifest `Icon:` value usable as a file next to the manifest: a bare
/// file name, with no path separators and no parent reference.
pub open spec fn icon_name_spec(icon: Option<Seq<char>>) -> Option<Seq<char>> {
    match icon {
        Some(n) => if n.len() > 0 && !n.contains('/') && !n.contains('\\') && !contains_sub(n, ".."@) {
            Some(n)
        } else {
            None
        },
        None => None,
    }
}

pub fn manifest_icon_name(icon: &Option<String>) -> (r: Option<String>)
    ensures
        crate::model::opt_view(r) == icon_name_spec(crate::model::opt_view(*icon)),
{
    match icon {
        None => None,
        Some(n) => {
            let v = chars_of(n.as_str());
            let dots = chars_of("..");
            proof {
                reveal_strlit("..");
            }
            if v.len() == 0 || find_char(&v, '/').is_some() || find_char(&v, '\\').is_some() || contains_chars(
                &v,
                &dots,
            ) {
                None
            } else {
                Some(n.clone())
            }
        },
    }
}

/// Where a rail icon comes from when the manifest names no usable file.
#[derive(Debug, PartialEq)]
pub enum IconFallback {
    /// The foreground window's executable.
    ForegroundExe,
    /// The live process with this normalized identity, if running.
    Process(String),
    Nothing,
}

pub enum IconFallbackV {
    ForegroundExe,
    Process(Seq<char>),
    Nothing,
}

impl View for IconFallback {
    type V = IconFallbackV;

    open spec fn view(&self) -> IconFallbackV {
        match self {
            IconFallback::ForegroundExe => IconFallbackV::ForegroundExe,
            IconFallback::Process(s) => IconFallbackV::Process(s@),
            IconFallback::Nothing => IconFallbackV::Nothing,
        }
    }
}

/// A rail icon: the manifest's icon file (manifest path, file name next to
/// it) wins; otherwise the fallback.
#[derive(Debug, PartialEq)]
pub struct IconPlan {
    pub file: Option<(String, String)>,
    pub fallback: IconFallback,
}

pub struct IconPlanV {
    pub file: Option<(Seq<char>, Seq<char>)>,
    pub fallback: IconFallbackV,
}

impl View for IconPlan {
    type V = IconPlanV;

    open spec fn view(&self) -> IconPlanV {
        IconPlanV {
            file: match self.file {
                Some((p, n)) => Some((p@, n@)),
                None => None,
            },
            fallback: self.fallback@,
        }
    }
}

pub open spec fn icon_file_spec(lm: LoadedManifest) -> Option<(Seq<char>, Seq<char>)> {
    match icon_name_spec(crate::model::opt_view(lm.manifest.icon)) {
        Some(n) => Some((lm.path@, n)),
        None => None,
    }
}

fn icon_file(lm: &LoadedManifest) -> (r: Option<(String, String)>)
    ensures
        (match r {
            Some((p, n)) => Some((p@, n@)),
            None => None,
        }) == icon_file_spec(*lm),
{
    match manifest_icon_name(&lm.manifest.icon) {
        Some(n) => Some((lm.path.clone(), n)),
        None => None,
    }
}

/// A background app's icon comes from its live process.
pub open spec fn process_hint_spec(m: Manifest) -> IconFallbackV {
    if m.background_process && m.primary_filter_spec() != "*"@ {
        IconFallbackV::Process(normalize_exe_spec(m.primary_filter_spec()))
    } else {
        IconFallbackV::Nothing
    }
}

fn process_hint(m: &Manifest) -> (r: IconFallback)
    ensures
        r@ == process_hint_spec(*m),
{
    let f = m.primary_filter();
    proof {
        reveal_strlit("*");
    }
    if m.background_process && !str_eq(f, "*") {
        IconFallback::Process(normalize_exe(f))
    } else {
        IconFallback::Nothing
    }
}

// ---------------------------------------------------------------------------
// Rail state
// ---------------------------------------------------------------------------

#[derive(Debug)]
pub struct RailApp {
    pub manifest_id: String,
    pub display_name: String,
    pub icon: IconPlan,
    pub is_foreground: bool,
    /// Placeholder for a foreground app with no collection: dimmed, not
    /// pinnable, empty page.
    pub unsupported: bool,
}

pub struct RailAppV {
    pub manifest_id: Seq<char>,
    pub display_name: Seq<char>,
    pub icon: IconPlanV,
    pub is_foreground: bool,
    pub unsupported: bool,
}

impl View for RailApp {
    type V = RailAppV;

    open spec fn view(&self) -> RailAppV {
        RailAppV {
            manifest_id: self.manifest_id@,
            display_name: self.display_name@,
            icon: self.icon@,
            is_foreground: self.is_foreground,
            unsupported: self.unsupported,
        }
    }
}

pub open spec fn apps_view(v: Seq<RailApp>) -> Seq<RailAppV> {
    v.map_values(|a: RailApp| a@)
}

/// The overlay's view model, less the settings it merely carries.
#[derive(Debug)]
pub struct RailState {
    pub apps: Vec<RailApp>,
    /// Page of each rail app (in rail order; the placeholder's is empty).
    pub pages: Vec<(String, Vec<AssembledSection>)>,
    pub selected: Option<String>,
    /// The pinned rail app, if it is listed.
    pub pinned_app: Option<String>,
    /// The selected page has a taskbar section (arms the badges).
    pub has_taskbar: bool,
}

pub struct RailStateV {
    pub apps: Seq<RailAppV>,
    pub pages: Seq<(Seq<char>, Seq<AssembledSectionV>)>,
    pub selected: Option<Seq<char>>,
    pub pinned_app: Option<Seq<char>>,
    pub has_taskbar: bool,
}

pub open spec fn pages_view(v: Seq<(String, Vec<AssembledSection>)>) -> Seq<(Seq<char>, Seq<AssembledSectionV>)> {
    v.map_values(|p: (String, Vec<AssembledSection>)| (p.0@, asections_view(p.1@)))
}

impl View for RailState {
    type V = RailStateV;

    open spec fn view(&self) -> RailStateV {
        RailStateV {
            apps: apps_view(self.apps@),
            pages: pages_view(self.pages@),
            selected: crate::model::opt_view(self.selected),
            pinned_app: crate::model::opt_view(self.pinned_app),
            has_taskbar: self.has_taskbar,
        }
    }
}

/// The customizations loaded for `id`: the first record for it, else none.
pub open spec fn customs_for(cs: Seq<(String, AppCustomizations)>, id: Seq<char>) -> Map<Seq<char>, EntryCustomizationV>
    decreases cs.len(),
{
    if cs.len() == 0 {
        Map::empty()
    } else if cs[0].0@ == id {
        cs[0].1@
    } else {
        customs_for(cs.drop_first(), id)
    }
}

fn find_customs<'a>(cs: &'a Vec<(String, AppCustomizations)>, id: &str) -> (r: Option<&'a AppCustomizations>)
    ensures
        match r {
            Some(c) => c@ == customs_for(cs@, id@),
            None => customs_for(cs@, id@) == Map::<Seq<char>, EntryCustomizationV>::empty(),
        },
{
    let mut i: usize = 0;
    assert(cs@.skip(0) =~= cs@);
    while i < cs.len()
        invariant
            i <= cs@.len(),
            customs_for(cs@.skip(i as int), id@) == customs_for(cs@, id@),
        decreases cs@.len() - i,
    {
        proof {
            assert(cs@.skip(i as int).drop_first() =~= cs@.skip(i + 1));
        }
        if str_eq(cs[i].0.as_str(), id) {
            assert(cs@.skip(i as int)[0] == cs@[i as int]);
            return Some(&cs[i].1);
        }
        i = i + 1;
    }
    assert(cs@.skip(i as int).len() == 0);
    None
}

/// The page of manifest `m` under id `id`.
pub open spec fn page_for(m: Manifest, pins: Map<Seq<char>, Set<Seq<char>>>, cs: Seq<(String, AppCustomizations)>) -> Seq<AssembledSectionV> {
    page_spec(m, pins_of(pins, m.id@), customs_for(cs, m.id@)).sections
}

fn page_of(m: &Manifest, pins: &PinStore, cs: &Vec<(String, AppCustomizations)>) -> (r: Vec<AssembledSection>)
    ensures
        asections_view(r@) == page_for(*m, pins@, cs@),
{
    let keys = pins.get(m.id.as_str());
    let page = match find_customs(cs, m.id.as_str()) {
        Some(c) => assemble(m, &keys, c),
        None => {
            let empty = AppCustomizations::new();
            assemble(m, &keys, &empty)
        },
    };
    page.sections
}

/// The rail app for rail entry `x`, presenting as the foreground or not.
pub open spec fn rail_app(x: Matched, is_fg: bool) -> RailAppV {
    RailAppV {
        manifest_id: x.lm.manifest.id@,
        display_name: x.lm.manifest.display_name_spec(),
        icon: IconPlanV {
            file: icon_file_spec(*x.lm),
            fallback: if is_fg && x.kind != MatchKind::Hosted {
                IconFallbackV::ForegroundExe
            } else {
                process_hint_spec(x.lm.manifest)
            },
        },
        is_foreground: is_fg,
        unsupported: false,
    }
}

/// The rail entries as (kind, id) pairs.
pub open spec fn kinds_ids(r: Seq<Matched>) -> Seq<(MatchKind, Seq<char>)> {
    r.map_values(|x: Matched| (x.kind, x.lm.manifest.id@))
}

/// The placeholder id for an unsupported foreground identity.
pub open spec fn unsupported_id(exe: Seq<char>) -> Seq<char> {
    UNSUPPORTED_PREFIX@ + normalize_exe_spec(exe)
}

/// The first position of `id` in `apps`, if any.
pub open spec fn position_of(apps: Seq<RailAppV>, id: Seq<char>) -> Option<int> {
    if exists|j: int| 0 <= j < apps.len() && apps[j].manifest_id == id {
        Some(choose|j: int| 0 <= j < apps.len() && apps[j].manifest_id == id && forall|k: int| 0 <= k < j ==> apps[k].manifest_id != id)
    } else {
        None
    }
}

/// The pages listed contain `id`.
pub open spec fn has_page(pages: Seq<(Seq<char>, Seq<AssembledSectionV>)>, id: Seq<char>) -> bool {
    exists|j: int| 0 <= j < pages.len() && pages[j].0 == id
}

/// The page shown for `id`: the last one listed under it (later entries
/// replace earlier ones).
pub open spec fn page_lookup(pages: Seq<(Seq<char>, Seq<AssembledSectionV>)>, id: Seq<char>) -> Seq<AssembledSectionV>
    decreases pages.len(),
{
    if pages.len() == 0 {
        Seq::empty()
    } else if pages.last().0 == id {
        pages.last().1
    } else {
        page_lookup(pages.drop_last(), id)
    }
}

/// (kind, id) of each rail entry.
pub open spec fn kid_view(e: Seq<(MatchKind, &str)>) -> Seq<(MatchKind, Seq<char>)> {
    e.map_values(|x: (MatchKind, &str)| (x.0, x.1@))
}

/// `r` is the foreground entry of the rail `e` (as `foreground_entry`
/// decides it).
pub open spec fn fg_ok(e: Seq<(MatchKind, Seq<char>)>, title: Option<Seq<char>>, r: Option<int>) -> bool {
    let has_hosted = match title {
        Some(t) => exists|i: int| 0 <= i < e.len() && #[trigger] e[i] == (MatchKind::Hosted, t),
        None => false,
    };
    match r {
        Some(i) => 0 <= i < e.len() && if has_hosted {
            e[i] == (MatchKind::Hosted, title->0) && forall|j: int| 0 <= j < i ==> #[trigger] e[j] != (MatchKind::Hosted, title->0)
        } else {
            is_exact_or_wildcard(e[i].0) && forall|j: int| 0 <= j < i ==> !is_exact_or_wildcard(#[trigger] e[j].0)
        },
        None => !has_hosted && forall|j: int| 0 <= j < e.len() ==> !is_exact_or_wildcard(#[trigger] e[j].0),
    }
}

pub open spec fn fg_index_spec(e: Seq<(MatchKind, Seq<char>)>, title: Option<Seq<char>>) -> Option<int> {
    if exists|i: int| fg_ok(e, title, Some(i)) {
        Some(choose|i: int| fg_ok(e, title, Some(i)))
    } else {
        None
    }
}

proof fn lemma_fg_unique(e: Seq<(MatchKind, Seq<char>)>, title: Option<Seq<char>>, r: Option<int>)
    requires
        fg_ok(e, title, r),
    ensures
        fg_index_spec(e, title) == r,
{
    if exists|i: int| fg_ok(e, title, Some(i)) {
        let c = choose|i: int| fg_ok(e, title, Some(i));
        match r {
            Some(i) => {
                if c < i {
                    assert(e[c] == e[c]);
                } else if i < c {
                    assert(e[i] == e[i]);
                }
            },
            None => {
                assert(e[c] == e[c]);
            },
        }
    } else {
        match r {
            Some(i) => {
                assert(fg_ok(e, title, Some(i)));
            },
            None => {},
        }
    }
}

pub open spec fn placeholder_app(exe: Seq<char>, name: Seq<char>) -> RailAppV {
    RailAppV {
        manifest_id: unsupported_id(exe),
        display_name: name,
        icon: IconPlanV { file: None, fallback: IconFallbackV::ForegroundExe },
        is_foreground: true,
        unsupported: true,
    }
}

/// A pinned app the foreground did not bring into the rail.
pub open spec fn pinned_extra_app(lm: LoadedManifest) -> RailAppV {
    RailAppV {
        manifest_id: lm.manifest.id@,
        display_name: lm.manifest.display_name_spec(),
        icon: IconPlanV {
            file: icon_file_spec(lm),
            fallback: IconFallbackV::Process(normalize_exe_spec(lm.manifest.primary_filter_spec())),
        },
        is_foreground: false,
        unsupported: false,
    }
}

/// The selected variant of package `id`, if the package is loaded.
pub open spec fn store_get(m: Map<(Seq<char>, Seq<char>), LoadedManifest>, ui: Seq<char>, id: Seq<char>) -> Option<LoadedManifest> {
    if exists|lm: LoadedManifest| selected(m, ui, lm) && lm.manifest.id@ == id {
        Some(choose|lm: LoadedManifest| selected(m, ui, lm) && lm.manifest.id@ == id)
    } else {
        None
    }
}

pub open spec fn page_has_taskbar(p: Seq<AssembledSectionV>) -> bool {
    exists|i: int| 0 <= i < p.len() && p[i].kind == SectionKind::Taskbar
}

/// The rail and pages before the pin is applied.
pub open spec fn base_apps(rv: Seq<Matched>, fi: Option<int>) -> Seq<RailAppV> {
    Seq::new(rv.len(), |i: int| rail_app(rv[i], fi == Some(i)))
}

pub open spec fn base_pages(
    rv: Seq<Matched>,
    pins: Map<Seq<char>, Set<Seq<char>>>,
    cs: Seq<(String, AppCustomizations)>,
) -> Seq<(Seq<char>, Seq<AssembledSectionV>)> {
    Seq::new(rv.len(), |i: int| (rv[i].lm.manifest.id@, page_for(rv[i].lm.manifest, pins, cs)))
}

/// The rail and pages with the unsupported-app placeholder, when the
/// foreground has an identity but no entry presents as it.
pub open spec fn with_placeholder(
    apps: Seq<RailAppV>,
    pages: Seq<(Seq<char>, Seq<AssembledSectionV>)>,
    fi: Option<int>,
    fg: Option<Seq<char>>,
    name: Seq<char>,
) -> (Seq<RailAppV>, Seq<(Seq<char>, Seq<AssembledSectionV>)>) {
    if fi is None && fg is Some {
        (seq![placeholder_app(fg->0, name)] + apps, pages.push((unsupported_id(fg->0), Seq::empty())))
    } else {
        (apps, pages)
    }
}

/// A pinned app leads the rail: moved to the front if listed, else pulled
/// from the store (with its page) if loaded.
pub open spec fn with_pin(
    apps: Seq<RailAppV>,
    pages: Seq<(Seq<char>, Seq<AssembledSectionV>)>,
    pinned: Option<Seq<char>>,
    m: Map<(Seq<char>, Seq<char>), LoadedManifest>,
    ui: Seq<char>,
    pins: Map<Seq<char>, Set<Seq<char>>>,
    cs: Seq<(String, AppCustomizations)>,
) -> (Seq<RailAppV>, Seq<(Seq<char>, Seq<AssembledSectionV>)>) {
    match pinned {
        None => (apps, pages),
        Some(p) => match position_of(apps, p) {
            Some(j) => (seq![apps[j]] + apps.remove(j), pages),
            None => match store_get(m, ui, p) {
                Some(lm) => (seq![pinned_extra_app(lm)] + apps, pages.push((p, page_for(lm.manifest, pins, cs)))),
                None => (apps, pages),
            },
        },
    }
}

/// The selection: the requested one if it has a page, else the pin if it
/// has one, else the first rail app.
pub open spec fn selection_spec(
    apps: Seq<RailAppV>,
    pages: Seq<(Seq<char>, Seq<AssembledSectionV>)>,
    selected: Option<Seq<char>>,
    pinned: Option<Seq<char>>,
) -> Option<Seq<char>> {
    if selected is Some && has_page(pages, selected->0) {
        selected
    } else if pinned is Some && has_page(pages, pinned->0) {
        pinned
    } else if apps.len() > 0 {
        Some(apps[0].manifest_id)
    } else {
        None
    }
}

/// The whole view model, from the rail `rv` the store computes.
pub open spec fn state_spec(
    rv: Seq<Matched>,
    m: Map<(Seq<char>, Seq<char>), LoadedManifest>,
    ui: Seq<char>,
    fg: Option<Seq<char>>,
    pins: Map<Seq<char>, Set<Seq<char>>>,
    cs: Seq<(String, AppCustomizations)>,
    selected: Option<Seq<char>>,
    pinned: Option<Seq<char>>,
    title: Option<Seq<char>>,
    name: Seq<char>,
) -> RailStateV {
    let fi = fg_index_spec(rv.map_values(|x: Matched| (x.kind, x.lm.manifest.id@)), title);
    let (a1, p1) = with_placeholder(base_apps(rv, fi), base_pages(rv, pins, cs), fi, fg, name);
    let (a2, p2) = with_pin(a1, p1, pinned, m, ui, pins, cs);
    let sel = selection_spec(a2, p2, selected, pinned);
    RailStateV {
        apps: a2,
        pages: p2,
        selected: sel,
        pinned_app: if pinned is Some && has_page(p2, pinned->0) {
            pinned
        } else {
            None
        },
        has_taskbar: match sel {
            Some(sid) => page_has_taskbar(page_lookup(p2, sid)),
            None => false,
        },
    }
}

proof fn lemma_pages_listed_in_rail(
    rv: Seq<Matched>,
    fi: Option<int>,
    pins: Map<Seq<char>, Set<Seq<char>>>,
    cs: Seq<(String, AppCustomizations)>,
    fg: Option<Seq<char>>,
    name: Seq<char>,
    id: Seq<char>,
)
    requires
        has_page(with_placeholder(base_apps(rv, fi), base_pages(rv, pins, cs), fi, fg, name).1, id),
    ensures
        position_of(with_placeholder(base_apps(rv, fi), base_pages(rv, pins, cs), fi, fg, name).0, id) is Some,
{
    let a0 = base_apps(rv, fi);
    let p0 = base_pages(rv, pins, cs);
    let (a1, p1) = with_placeholder(a0, p0, fi, fg, name);
    let j = choose|j: int| 0 <= j < p1.len() && p1[j].0 == id;
    if fi is None && fg is Some {
        if j < p0.len() {
            assert(a1[j + 1] == a0[j]);
            assert(a1[j + 1].manifest_id == id);
        } else {
            assert(a1[0].manifest_id == id);
        }
    } else {
        assert(a1[j].manifest_id == id);
    }
}

proof fn lemma_position_of(apps: Seq<RailAppV>, id: Seq<char>)
    ensures
        position_of(apps, id) matches Some(j) ==> 0 <= j < apps.len() && apps[j].manifest_id == id,
        position_of(apps, id) is None ==> forall|j: int| 0 <= j < apps.len() ==> apps[j].manifest_id != id,
{
    if exists|j: int| 0 <= j < apps.len() && apps[j].manifest_id == id {
        let w = choose|j: int| 0 <= j < apps.len() && apps[j].manifest_id == id;
        assert(exists|j: int| 0 <= j < apps.len() && apps[j].manifest_id == id && forall|k: int| 0 <= k < j ==> apps[k].manifest_id != id) by {
            lemma_first_match(apps, id, w);
        }
    }
}

proof fn lemma_first_match(apps: Seq<RailAppV>, id: Seq<char>, w: int)
    requires
        0 <= w < apps.len(),
        apps[w].manifest_id == id,
    ensures
        exists|j: int| 0 <= j < apps.len() && apps[j].manifest_id == id && forall|k: int| 0 <= k < j ==> apps[k].manifest_id != id,
    decreases w,
{
    if exists|k: int| 0 <= k < w && apps[k].manifest_id == id {
        let k = choose|k: int| 0 <= k < w && apps[k].manifest_id == id;
        lemma_first_match(apps, id, k);
    } else {
        assert(forall|k: int| 0 <= k < w ==> apps[k].manifest_id != id);
    }
}

proof fn lemma_store_get(m: Map<(Seq<char>, Seq<char>), LoadedManifest>, ui: Seq<char>, id: Seq<char>)
    ensures
        store_get(m, ui, id) matches Some(lm) ==> lm.manifest.id@ == id,
{
}

proof fn lemma_with_pin_leads(
    a1: Seq<RailAppV>,
    p1: Seq<(Seq<char>, Seq<AssembledSectionV>)>,
    pinned: Option<Seq<char>>,
    m: Map<(Seq<char>, Seq<char>), LoadedManifest>,
    ui: Seq<char>,
    pins: Map<Seq<char>, Set<Seq<char>>>,
    cs: Seq<(String, AppCustomizations)>,
)
    requires
        pinned is Some,
        has_page(with_pin(a1, p1, pinned, m, ui, pins, cs).1, pinned->0),
        has_page(p1, pinned->0) ==> position_of(a1, pinned->0) is Some,
    ensures
        with_pin(a1, p1, pinned, m, ui, pins, cs).0.len() > 0,
        with_pin(a1, p1, pinned, m, ui, pins, cs).0[0].manifest_id == pinned->0,
{
    let p = pinned->0;
    lemma_position_of(a1, p);
    lemma_store_get(m, ui, p);
    match position_of(a1, p) {
        Some(j) => {
            let a2 = seq![a1[j]] + a1.remove(j);
            assert(with_pin(a1, p1, pinned, m, ui, pins, cs).0 == a2);
            assert(a2[0] == a1[j]);
        },
        None => {
            match store_get(m, ui, p) {
                Some(lm) => {
                    let a2 = seq![pinned_extra_app(lm)] + a1;
                    assert(with_pin(a1, p1, pinned, m, ui, pins, cs).0 == a2);
                    assert(a2[0] == pinned_extra_app(lm));
                },
                None => {
                    assert(with_pin(a1, p1, pinned, m, ui, pins, cs).1 == p1);
                },
            }
        },
    }
}

/// A pinned app leads the rail: whenever the pinned app has a page in the
/// resulting state, it is the first app of the rail, even when the
/// foreground is another app.
pub proof fn lemma_pinned_app_leads_rail(
    rv: Seq<Matched>,
    m: Map<(Seq<char>, Seq<char>), LoadedManifest>,
    ui: Seq<char>,
    fg: Option<Seq<char>>,
    pins: Map<Seq<char>, Set<Seq<char>>>,
    cs: Seq<(String, AppCustomizations)>,
    selected: Option<Seq<char>>,
    pinned: Option<Seq<char>>,
    title: Option<Seq<char>>,
    name: Seq<char>,
)
    ensures
        ({
            let st = state_spec(rv, m, ui, fg, pins, cs, selected, pinned, title, name);
            pinned is Some && has_page(st.pages, pinned->0) ==> st.apps.len() > 0 && st.apps[0].manifest_id
                == pinned->0
        }),
        ({
            let st = state_spec(rv, m, ui, fg, pins, cs, selected, pinned, title, name);
            st.pinned_app is Some ==> st.apps.len() > 0 && st.apps[0].manifest_id == st.pinned_app->0
        }),
{
    let st = state_spec(rv, m, ui, fg, pins, cs, selected, pinned, title, name);
    let fi = fg_index_spec(rv.map_values(|x: Matched| (x.kind, x.lm.manifest.id@)), title);
    let (a1, p1) = with_placeholder(base_apps(rv, fi), base_pages(rv, pins, cs), fi, fg, name);
    let (a2, p2) = with_pin(a1, p1, pinned, m, ui, pins, cs);
    assert(st.apps == a2 && st.pages == p2);
    if pinned is Some && has_page(p2, pinned->0) {
        if has_page(p1, pinned->0) {
            lemma_pages_listed_in_rail(rv, fi, pins, cs, fg, name, pinned->0);
        }
        lemma_with_pin_leads(a1, p1, pinned, m, ui, pins, cs);
    }
}

fn kinds_of<'a>(rail: &Vec<Matched<'a>>) -> (r: Vec<(MatchKind, &'a str)>)
    ensures
        kid_view(r@) == rail@.map_values(|x: Matched| (x.kind, x.lm.manifest.id@)),
{
    let mut out: Vec<(MatchKind, &'a str)> = Vec::new();
    for i in 0..rail.len()
        invariant
            out@.len() == i,
            forall|j: int| 0 <= j < i ==> (#[trigger] out@[j]).0 == rail@[j].kind && out@[j].1@ == rail@[j].lm.manifest.id@,
    {
        let x = &rail[i];
        out.push((x.kind, x.lm.manifest.id.as_str()));
    }
    assert(kid_view(out@) =~= rail@.map_values(|x: Matched| (x.kind, x.lm.manifest.id@)));
    out
}

fn app_of(x: &Matched, is_fg: bool) -> (r: RailApp)
    ensures
        r@ == rail_app(*x, is_fg),
{
    let fallback = if is_fg && x.kind != MatchKind::Hosted {
        IconFallback::ForegroundExe
    } else {
        process_hint(&x.lm.manifest)
    };
    RailApp {
        manifest_id: x.lm.manifest.id.clone(),
        display_name: String::from_str(x.lm.manifest.display_name()),
        icon: IconPlan { file: icon_file(x.lm), fallback },
        is_foreground: is_fg,
        unsupported: false,
    }
}

fn page_position(pages: &Vec<(String, Vec<AssembledSection>)>, id: &str) -> (r: bool)
    ensures
        r == has_page(pages_view(pages@), id@),
{
    for j in 0..pages.len()
        invariant
            forall|k: int| 0 <= k < j ==> (#[trigger] pages@[k]).0@ != id@,
    {
        if str_eq(pages[j].0.as_str(), id) {
            assert(pages_view(pages@)[j as int].0 == id@);
            return true;
        }
    }
    assert forall|k: int| 0 <= k < pages_view(pages@).len() implies pages_view(pages@)[k].0 != id@ by {
        assert(pages_view(pages@)[k].0 == pages@[k].0@);
    }
    false
}

fn lookup_has_taskbar(pages: &Vec<(String, Vec<AssembledSection>)>, id: &str) -> (r: bool)
    ensures
        r == page_has_taskbar(page_lookup(pages_view(pages@), id@)),
{
    let mut j = pages.len();
    assert(pages_view(pages@).take(pages@.len() as int) =~= pages_view(pages@));
    while j > 0
        invariant
            j <= pages@.len(),
            page_lookup(pages_view(pages@).take(j as int), id@) == page_lookup(pages_view(pages@), id@),
        decreases j,
    {
        proof {
            assert(pages_view(pages@).take(j as int).drop_last() =~= pages_view(pages@).take(j - 1));
            assert(pages_view(pages@).take(j as int).last() == pages_view(pages@)[j - 1]);
        }
        if str_eq(pages[j - 1].0.as_str(), id) {
            let secs = &pages[j - 1].1;
            assert(page_lookup(pages_view(pages@), id@) == asections_view(secs@));
            for k in 0..secs.len()
                invariant
                    page_lookup(pages_view(pages@), id@) == asections_view(secs@),
                    forall|q: int| 0 <= q < k ==> (#[trigger] secs@[q]).kind != SectionKind::Taskbar,
            {
                if secs[k].kind == SectionKind::Taskbar {
                    assert(asections_view(secs@)[k as int].kind == SectionKind::Taskbar);
                    return true;
                }
            }
            assert forall|q: int| 0 <= q < asections_view(secs@).len() implies asections_view(secs@)[q].kind != SectionKind::Taskbar by {
                assert(asections_view(secs@)[q].kind == secs@[q].kind);
            }
            return false;
        }
        j = j - 1;
    }
    assert(pages_view(pages@).take(0) =~= Seq::<(Seq<char>, Seq<AssembledSectionV>)>::empty());
    false
}

/// The foreground entry of a rail.
fn rail_fg_index(rail: &Vec<Matched>, title_matched: Option<&str>) -> (r: Option<usize>)
    ensures
        (match r {
            Some(i) => Some(i as int),
            None => None,
        }) == fg_index_spec(rail@.map_values(|x: Matched| (x.kind, x.lm.manifest.id@)), opt_str(title_matched)),
{
    let kid = kinds_of(rail);
    let fi = foreground_entry(kid.as_slice(), title_matched);
    proof {
        let e2 = rail@.map_values(|x: Matched| (x.kind, x.lm.manifest.id@));
        let k = kid@;
        let title = opt_str(title_matched);
        let r = match fi {
            Some(i) => Some(i as int),
            None => None,
        };
        assert(kid_view(k) == e2);
        assert forall|j: int| 0 <= j < k.len() implies (#[trigger] e2[j]).0 == k[j].0 && e2[j].1 == k[j].1@ by {
            assert(e2[j] == kid_view(k)[j]);
        }
        assert forall|j: int| 0 <= j < k.len() implies (#[trigger] e2[j]).0 == k[j].0 by {}
        match title_matched {
            Some(tm) => {
                let t = tm@;
                assert(title == Some(t));
                assert forall|j: int| 0 <= j < k.len() implies (e2[j] == (MatchKind::Hosted, t)) == is_hosted_at(k, j, t) by {
                    assert(e2[j].0 == k[j].0 && e2[j].1 == k[j].1@);
                }
                let has = exists|i: int| 0 <= i < e2.len() && #[trigger] e2[i] == (MatchKind::Hosted, t);
                if hosted_in(k, t) {
                    let w = choose|i: int| 0 <= i < k.len() && #[trigger] is_hosted_at(k, i, t);
                    assert(e2[w] == (MatchKind::Hosted, t));
                    assert(has);
                    let i = fi->0 as int;
                    assert(e2[i] == (MatchKind::Hosted, t));
                    assert forall|j: int| 0 <= j < i implies #[trigger] e2[j] != (MatchKind::Hosted, t) by {
                        assert(!is_hosted_at(k, j, t));
                    }
                } else {
                    assert(!has) by {
                        if has {
                            let w = choose|i: int| 0 <= i < e2.len() && #[trigger] e2[i] == (MatchKind::Hosted, t);
                            assert(is_hosted_at(k, w, t));
                        }
                    }
                }
                assert(fg_ok(e2, title, r));
            },
            None => {
                assert(title is None);
                assert(fg_ok(e2, title, r));
            },
        }
        lemma_fg_unique(e2, title, r);
    }
    fi
}

fn rail_base(
    rail: &Vec<Matched>,
    fi: Option<usize>,
    pins: &PinStore,
    customs: &Vec<(String, AppCustomizations)>,
) -> (r: (Vec<RailApp>, Vec<(String, Vec<AssembledSection>)>))
    ensures
        apps_view(r.0@) == base_apps(rail@, match fi {
            Some(i) => Some(i as int),
            None => None,
        }),
        pages_view(r.1@) == base_pages(rail@, pins@, customs@),
{
    let ghost fis = match fi {
        Some(i) => Some(i as int),
        None => None,
    };
    let mut apps: Vec<RailApp> = Vec::new();
    let mut pages: Vec<(String, Vec<AssembledSection>)> = Vec::new();
    for i in 0..rail.len()
        invariant
            fis == (match fi {
                Some(q) => Some(q as int),
                None => None,
            }),
            apps@.len() == i,
            pages@.len() == i,
            forall|j: int| 0 <= j < i ==> (#[trigger] apps@[j])@ == rail_app(rail@[j], fis == Some(j)),
            forall|j: int| 0 <= j < i ==> (#[trigger] pages@[j]).0@ == rail@[j].lm.manifest.id@ && asections_view(pages@[j].1@)
                == page_for(rail@[j].lm.manifest, pins@, customs@),
    {
        let x = &rail[i];
        let is_fg = match fi {
            Some(q) => q == i,
            None => false,
        };
        apps.push(app_of(x, is_fg));
        pages.push((x.lm.manifest.id.clone(), page_of(&x.lm.manifest, pins, customs)));
    }
    assert(apps_view(apps@) =~= base_apps(rail@, fis));
    assert(pages_view(pages@) =~= base_pages(rail@, pins@, customs@));
    (apps, pages)
}

fn add_placeholder(
    apps: &mut Vec<RailApp>,
    pages: &mut Vec<(String, Vec<AssembledSection>)>,
    fi: Option<usize>,
    foreground: Option<&str>,
    unsupported_name: &str,
)
    ensures
        ({
            let w = with_placeholder(
                apps_view(old(apps)@),
                pages_view(old(pages)@),
                match fi {
                    Some(i) => Some(i as int),
                    None => None,
                },
                opt_str(foreground),
                unsupported_name@,
            );
            apps_view(final(apps)@) == w.0 && pages_view(final(pages)@) == w.1
        }),
{
    if fi.is_none() {
        match foreground {
            Some(exe) => {
                let mut id = String::from_str(UNSUPPORTED_PREFIX);
                let n = normalize_exe(exe);
                push_all(&mut id, n.as_str());
                let ghost a0 = apps_view(apps@);
                let ghost p0 = pages_view(pages@);
                apps.insert(
                    0,
                    RailApp {
                        manifest_id: id.clone(),
                        display_name: String::from_str(unsupported_name),
                        icon: IconPlan { file: None, fallback: IconFallback::ForegroundExe },
                        is_foreground: true,
                        unsupported: true,
                    },
                );
                pages.push((id, Vec::new()));
                proof {
                    assert(id@ == unsupported_id(exe@));
                    assert(apps_view(apps@) =~= seq![placeholder_app(exe@, unsupported_name@)] + a0);
                    assert(asections_view(Seq::<AssembledSection>::empty()) =~= Seq::<AssembledSectionV>::empty());
                    assert(pages_view(pages@).last() == (unsupported_id(exe@), Seq::<AssembledSectionV>::empty()));
                    assert(pages_view(pages@) =~= p0.push((unsupported_id(exe@), Seq::empty())));
                }
            },
            None => {},
        }
    }
}

fn add_pin(
    apps: &mut Vec<RailApp>,
    pages: &mut Vec<(String, Vec<AssembledSection>)>,
    pinned: Option<&str>,
    store: &ManifestStore,
    ui_locale: &str,
    pins: &PinStore,
    customs: &Vec<(String, AppCustomizations)>,
)
    ensures
        ({
            let w = with_pin(
                apps_view(old(apps)@),
                pages_view(old(pages)@),
                opt_str(pinned),
                store@,
                ui_locale@,
                pins@,
                customs@,
            );
            apps_view(final(apps)@) == w.0 && pages_view(final(pages)@) == w.1
        }),
{
    let ghost a1 = apps_view(apps@);
    let ghost p1 = pages_view(pages@);
    match pinned {
        Some(p) => {
            let mut pos: Option<usize> = None;
            for j in 0..apps.len()
                invariant
                    pos is None ==> forall|k: int| 0 <= k < j ==> (#[trigger] apps@[k]).manifest_id@ != p@,
                    pos matches Some(q) ==> q < apps@.len() && apps@[q as int].manifest_id@ == p@ && forall|k: int|
                        0 <= k < q ==> (#[trigger] apps@[k]).manifest_id@ != p@,
            {
                if pos.is_none() && str_eq(apps[j].manifest_id.as_str(), p) {
                    pos = Some(j);
                }
            }
            match pos {
                Some(q) => {
                    proof {
                        assert(a1[q as int].manifest_id == p@);
                        assert forall|k: int| 0 <= k < q implies a1[k].manifest_id != p@ by {
                            assert(a1[k].manifest_id == apps@[k].manifest_id@);
                        }
                        let c = choose|j: int|
                            0 <= j < a1.len() && a1[j].manifest_id == p@ && forall|k: int| 0 <= k < j ==> a1[k].manifest_id != p@;
                        if c < q {
                        } else if (q as int) < c {
                        }
                        assert(position_of(a1, p@) == Some(q as int));
                    }
                    let a = apps.remove(q);
                    apps.insert(0, a);
                    proof {
                        assert(apps_view(apps@) =~= seq![a1[q as int]] + a1.remove(q as int));
                    }
                },
                None => {
                    proof {
                        assert forall|k: int| 0 <= k < a1.len() implies a1[k].manifest_id != p@ by {
                            assert(a1[k].manifest_id == apps@[k].manifest_id@);
                        }
                        assert(position_of(a1, p@) is None);
                    }
                    match store.get(p, ui_locale) {
                        Some(lm) => {
                            proof {
                                let c = choose|l: LoadedManifest| crate::store::selected(store@, ui_locale@, l) && l.manifest.id@ == p@;
                                crate::store::lemma_selected_unique_pub(store@, ui_locale@, c, *lm);
                                assert(store_get(store@, ui_locale@, p@) == Some(*lm));
                            }
                            let app = RailApp {
                                manifest_id: String::from_str(p),
                                display_name: String::from_str(lm.manifest.display_name()),
                                icon: IconPlan {
                                    file: icon_file(lm),
                                    fallback: IconFallback::Process(normalize_exe(lm.manifest.primary_filter())),
                                },
                                is_foreground: false,
                                unsupported: false,
                            };
                            let page = page_of(&lm.manifest, pins, customs);
                            apps.insert(0, app);
                            pages.push((String::from_str(p), page));
                            proof {
                                assert(apps_view(apps@) =~= seq![pinned_extra_app(*lm)] + a1);
                                assert(pages_view(pages@) =~= p1.push((p@, page_for(lm.manifest, pins@, customs@))));
                            }
                        },
                        None => {
                            proof {
                                if exists|l: LoadedManifest| crate::store::selected(store@, ui_locale@, l) && l.manifest.id@ == p@ {
                                    let c = choose|l: LoadedManifest| crate::store::selected(store@, ui_locale@, l) && l.manifest.id@ == p@;
                                    assert(store@.dom().contains(crate::store::key_of(c)));
                                }
                            }
                        },
                    }
                },
            }
        },
        None => {},
    }
}

/// Build the overlay's view model for a foreground identity. `customs`
/// holds the customizations loaded for the rail's apps (an app without a
/// record has none); `unsupported_name` is the friendly name shown on the
/// placeholder when the foreground has no collection.
pub fn build_state(
    store: &ManifestStore,
    foreground: Option<&str>,
    ui_locale: &str,
    host_classes: &HostClasses,
    running: &Vec<String>,
    pins: &PinStore,
    customs: &Vec<(String, AppCustomizations)>,
    selected: Option<String>,
    pinned: Option<&str>,
    title_matched: Option<&str>,
    unsupported_name: &str,
) -> (r: RailState)
    ensures
        exists|rv: Seq<Matched>|
            rail_ok(store@, ui_locale@, opt_str(foreground), *host_classes, strs_view(running@), rv) && r@ == state_spec(
                rv,
                store@,
                ui_locale@,
                opt_str(foreground),
                pins@,
                customs@,
                crate::model::opt_view(selected),
                opt_str(pinned),
                opt_str(title_matched),
                unsupported_name@,
            ),
{
    let rail = store.match_foreground(foreground, ui_locale, host_classes, running);
    let fi = rail_fg_index(&rail, title_matched);
    let (mut apps, mut pages) = rail_base(&rail, fi, pins, customs);
    add_placeholder(&mut apps, &mut pages, fi, foreground, unsupported_name);
    add_pin(&mut apps, &mut pages, pinned, store, ui_locale, pins, customs);
    let sel: Option<String> = match &selected {
        Some(sid) if page_position(&pages, sid.as_str()) => Some(sid.clone()),
        _ => match pinned {
            Some(p) if page_position(&pages, p) => Some(String::from_str(p)),
            _ => if apps.len() > 0 {
                Some(apps[0].manifest_id.clone())
            } else {
                None
            },
        },
    };
    let has_taskbar = match &sel {
        Some(sid) => lookup_has_taskbar(&pages, sid.as_str()),
        None => false,
    };
    let pinned_app = match pinned {
        Some(p) => if page_position(&pages, p) {
            Some(String::from_str(p))
        } else {
            None
        },
        None => None,
    };
    let r = RailState { apps, pages, selected: sel, pinned_app, has_taskbar };
    proof {
        if apps_view(r.apps@).len() > 0 {
            assert(apps_view(r.apps@)[0].manifest_id == r.apps@[0].manifest_id@);
        }
    }
    r
}

} // verus!
