use quicuts::engine::Engine;
use quicuts::host::HostClasses;
use quicuts::model::{Manifest, TitleBinding};
use quicuts::parse::normalize;
use quicuts::pins::PinStore;
use quicuts::proto::{ForegroundInfo, Platform};
use quicuts::settings::Activation;
use quicuts::schema::{
    LaxBool, LaxStringList, RawCategory, RawEntry, RawKeyCombo, RawKeyToken, RawManifest,
};
use quicuts::store::{LoadedManifest, ManifestStore, MatchKind, Matched, SourceKind};

/// One section "S" with one entry "E" bound to Ctrl+A.
fn shortcuts() -> Option<Vec<RawCategory>> {
    Some(vec![RawCategory {
        section_name: Some("S".into()),
        properties: Some(vec![RawEntry {
            name: Some("E".into()),
            description: None,
            recommended: LaxBool(false),
            shortcut: Some(vec![RawKeyCombo {
                win: LaxBool(false),
                ctrl: LaxBool(true),
                shift: LaxBool(false),
                alt: LaxBool(false),
                keys: Some(vec![RawKeyToken::Str("A".into())]),
            }]),
        }]),
    }])
}

fn mk(id: &str, filter: &str, bg: bool) -> Manifest {
    let raw = RawManifest {
        package_name: Some(id.into()),
        name: Some(id.into()),
        window_filter: LaxStringList(vec![filter.into()]),
        background_process: LaxBool(bg),
        host: None,
        title_match: LaxStringList(Vec::new()),
        icon: None,
        shortcuts: shortcuts(),
    };
    normalize(&raw, id)
}

fn mk_hosted(id: &str, title_match: Option<&str>) -> Manifest {
    let raw = RawManifest {
        package_name: Some(id.into()),
        name: Some(id.into()),
        window_filter: LaxStringList(Vec::new()),
        background_process: LaxBool(false),
        host: Some("browser".into()),
        title_match: LaxStringList(title_match.map(|t| vec![t.to_string()]).unwrap_or_default()),
        icon: None,
        shortcuts: shortcuts(),
    };
    normalize(&raw, id)
}

fn loaded(m: Manifest, source: SourceKind) -> LoadedManifest {
    let path = format!("{}.en-US.yml", m.id);
    LoadedManifest { manifest: m, source, locale: "en-US".into(), path }
}

fn store_of(ms: Vec<Manifest>) -> ManifestStore {
    let mut store = ManifestStore::new();
    for m in ms {
        store.insert_loaded(loaded(m, SourceKind::Bundled));
    }
    store
}

fn ids<'a>(matched: &'a [Matched<'a>]) -> Vec<&'a str> {
    matched.iter().map(|m| m.lm.manifest.id.as_str()).collect()
}

fn running(names: &[&str]) -> Vec<String> {
    names.iter().map(|s| s.to_string()).collect()
}

#[test]
fn layering_later_source_wins() {
    let mut store = ManifestStore::new();
    store.insert_loaded(loaded(mk("A.App", "a.exe", false), SourceKind::Bundled));
    store.insert_loaded(loaded(mk("A.App", "different.exe", false), SourceKind::User));
    let lm = store.get("A.App", "en-US").unwrap();
    assert_eq!(lm.source, SourceKind::User);
    assert_eq!(lm.manifest.window_filters, vec!["different.exe"]);

    // Reloading bundled after user must NOT downgrade.
    store.insert_loaded(loaded(mk("A.App", "a.exe", false), SourceKind::Bundled));
    assert_eq!(store.get("A.App", "en-US").unwrap().source, SourceKind::User);
    assert_eq!(store.len(), 1);
}

#[test]
fn matching_rules() {
    let store = store_of(vec![
        mk("Shell", "*", true),
        mk("Chrome", "chrome.exe", false),
        mk("Bg", "telegram.exe", true),
    ]);
    let hc = HostClasses::builtin();

    // Foreground chrome, telegram not running: Chrome then Shell.
    let matched = store.match_foreground(Some("CHROME.EXE"), "en-US", &hc, &running(&[]));
    assert_eq!(ids(&matched), vec!["Chrome", "Shell"]);
    assert_eq!(matched[0].kind, MatchKind::Exact);
    assert_eq!(matched[1].kind, MatchKind::Background);

    // Telegram running: background manifest joins.
    let matched = store.match_foreground(Some("chrome"), "en-US", &hc, &running(&["telegram"]));
    assert_eq!(ids(&matched), vec!["Chrome", "Bg", "Shell"]);

    // Unknown foreground: only always-on Shell.
    let matched = store.match_foreground(Some("unknown.exe"), "en-US", &hc, &running(&[]));
    assert_eq!(ids(&matched), vec!["Shell"]);
}

#[test]
fn hosted_matching() {
    let store = store_of(vec![
        mk("Shell", "*", true),
        mk("Google.Chrome", "chrome.exe", false),
        mk_hosted("Google.Gmail", Some("- Gmail")),
        mk_hosted("Acme.Notion", None),
    ]);
    let hc = HostClasses::builtin();

    // Browser foreground: exact host first, hosted collections next
    // (sorted by id), background last.
    let matched = store.match_foreground(Some("chrome.exe"), "en-US", &hc, &running(&[]));
    assert_eq!(ids(&matched), vec!["Google.Chrome", "Acme.Notion", "Google.Gmail", "Shell"]);
    assert_eq!(matched[1].kind, MatchKind::Hosted);
    assert_eq!(matched[2].kind, MatchKind::Hosted);

    // Hosted collections match any browser in the class, not just Chrome.
    let matched = store.match_foreground(Some("firefox.exe"), "en-US", &hc, &running(&[]));
    assert_eq!(ids(&matched), vec!["Acme.Notion", "Google.Gmail", "Shell"]);

    // Non-browser foreground: hosted collections never appear.
    let matched = store.match_foreground(Some("notepad.exe"), "en-US", &hc, &running(&[]));
    assert_eq!(ids(&matched), vec!["Shell"]);

    // No foreground at all: hosted collections never appear.
    let matched = store.match_foreground(None, "en-US", &hc, &running(&[]));
    assert_eq!(ids(&matched), vec!["Shell"]);

    // A settings-extended browser exe admits hosted collections too.
    let hc_ext = HostClasses::with_extensions(&vec!["Thorium.exe".into()]);
    let matched = store.match_foreground(Some("thorium.exe"), "en-US", &hc_ext, &running(&[]));
    assert_eq!(ids(&matched), vec!["Acme.Notion", "Google.Gmail", "Shell"]);
}

#[test]
fn hosted_never_leaks_into_other_groups() {
    // A hosted manifest that also (wrongly) carries a wildcard filter and
    // background flag: host wins, other rules never see it.
    let raw = RawManifest {
        package_name: Some("Odd.App".into()),
        name: None,
        window_filter: LaxStringList(vec!["*".into()]),
        background_process: LaxBool(true),
        host: Some("browser".into()),
        title_match: LaxStringList(Vec::new()),
        icon: None,
        shortcuts: shortcuts(),
    };
    let store = store_of(vec![normalize(&raw, "Odd.App")]);
    let hc = HostClasses::builtin();
    let everything = running(&["*", "odd.app", "notepad", "chrome"]);

    let matched = store.match_foreground(Some("notepad.exe"), "en-US", &hc, &everything);
    assert!(matched.is_empty());
    let matched = store.match_foreground(Some("chrome.exe"), "en-US", &hc, &everything);
    assert_eq!(ids(&matched), vec!["Odd.App"]);
    assert_eq!(matched[0].kind, MatchKind::Hosted);
}

#[test]
fn title_matching() {
    let store = store_of(vec![
        mk_hosted("Google.Gmail", Some("- Gmail")),
        mk_hosted("Acme.Mail", Some("mail")),
        mk_hosted("Acme.NoPattern", None),
    ]);
    let hc = HostClasses::builtin();
    let none: [TitleBinding; 0] = [];

    // Case-insensitive substring; longest pattern wins over "mail".
    let hit = store.match_title(Some("chrome.exe"), Some("Inbox (3) - a@b.com - GMAIL"), "en-US", &hc, &none);
    assert_eq!(hit.unwrap().manifest.id, "Google.Gmail");

    // Only the shorter pattern hits.
    let hit = store.match_title(Some("firefox.exe"), Some("Fastmail: Inbox"), "en-US", &hc, &none);
    assert_eq!(hit.unwrap().manifest.id, "Acme.Mail");

    // Host-class gating: a non-browser window titled like Gmail never hits.
    assert!(store.match_title(Some("notepad.exe"), Some("x - Gmail"), "en-US", &hc, &none).is_none());

    // Missing exe or title: no match.
    assert!(store.match_title(None, Some("x - Gmail"), "en-US", &hc, &none).is_none());
    assert!(store.match_title(Some("chrome.exe"), None, "en-US", &hc, &none).is_none());

    // Unmatched title: no match.
    assert!(store.match_title(Some("chrome.exe"), Some("Example Domain"), "en-US", &hc, &none).is_none());
}

#[test]
fn user_binding_beats_manifest_pattern() {
    let store = store_of(vec![
        mk_hosted("Google.Gmail", Some("- Gmail")),
        mk_hosted("Acme.Mail", Some("mail")),
    ]);
    let hc = HostClasses::builtin();
    let bindings = [TitleBinding { pattern: "Carbon Register Mail".into(), manifest_id: "Acme.Mail".into() }];
    let hit = store.match_title(Some("chrome.exe"), Some("Carbon Register Mail - Gmail"), "en-US", &hc, &bindings);
    assert_eq!(hit.unwrap().manifest.id, "Acme.Mail");
}

#[test]
fn engine_reload_layers_and_lists_hosted() {
    let mut e = Engine::new();
    e.reload(vec![
        loaded(mk_hosted("Google.Gmail", Some("- Gmail")), SourceKind::Bundled),
        loaded(mk("Google.Chrome", "chrome.exe", false), SourceKind::Bundled),
        loaded(mk_hosted("Acme.Notion", None), SourceKind::User),
    ]);
    assert_eq!(e.store().len(), 3);
    let hosted = e.hosted_manifests();
    assert_eq!(hosted.len(), 2);
    assert_eq!(hosted[0].0, "Acme.Notion");
    assert_eq!(hosted[1], ("Google.Gmail".to_string(), "Google.Gmail".to_string(), vec!["- Gmail".to_string()]));

    let fg = ForegroundInfo {
        pid: 1,
        exe_path: None,
        exe_name: Some("chrome.exe".into()),
        title: Some("Inbox - Gmail".into()),
    };
    assert_eq!(e.title_match(&fg, &HostClasses::builtin(), &[]), Some("Google.Gmail".to_string()));

    // Reloading replaces everything.
    e.reload(Vec::new());
    assert!(e.store().is_empty());
}

fn engine_with(ms: Vec<Manifest>) -> Engine {
    let mut e = Engine::new();
    e.reload(ms.into_iter().map(|m| loaded(m, SourceKind::Bundled)).collect());
    e
}

fn fg_of(exe: &str) -> ForegroundInfo {
    ForegroundInfo { pid: 1, exe_path: None, exe_name: Some(exe.into()), title: None }
}

fn app_ids(st: &quicuts::engine::OverlayStatePayload) -> Vec<&str> {
    st.apps.iter().map(|a| a.manifest_id.as_str()).collect()
}

#[test]
fn overlay_state_for_a_browser_and_a_title_match() {
    let e = engine_with(vec![
        mk("Google.Chrome", "chrome.exe", false),
        mk_hosted("Google.Gmail", Some("- Gmail")),
        mk("Shell", "*", true),
    ]);
    let hc = HostClasses::builtin();
    let pins = PinStore::new();
    let act = Activation::default_for(Platform::Windows);
    let fg = fg_of("chrome.exe");
    let st = e.build_state(Some(&fg), &running(&[]), &pins, &Vec::new(), None, None, None, &hc, "all".into(), act, Platform::Windows, "Chrome");
    assert_eq!(app_ids(&st), vec!["Google.Chrome", "Google.Gmail", "Shell"]);
    assert!(st.apps[0].is_foreground && !st.apps[1].is_foreground);
    assert_eq!(st.selected.as_deref(), Some("Google.Chrome"));
    assert_eq!(st.pages.len(), 3);
    assert!(!st.has_taskbar);
    assert_eq!(st.combo_display_mode, "all");
    assert_eq!(st.chord, act.chord);

    let st = e.build_state(Some(&fg), &running(&[]), &pins, &Vec::new(), None, None, Some("Google.Gmail"), &hc, "all".into(), act, Platform::Windows, "Chrome");
    assert!(st.apps[1].is_foreground && !st.apps[0].is_foreground);
}

#[test]
fn overlay_state_for_an_unsupported_app_and_a_pin() {
    let e = engine_with(vec![
        mk("Google.Chrome", "chrome.exe", false),
        mk_hosted("Google.Gmail", Some("- Gmail")),
        mk("Shell", "*", true),
    ]);
    let hc = HostClasses::builtin();
    let pins = PinStore::new();
    let act = Activation::default_for(Platform::MacOs);
    let fg = fg_of("Notepad.exe");
    let st = e.build_state(Some(&fg), &running(&[]), &pins, &Vec::new(), None, None, None, &hc, "all".into(), act, Platform::MacOs, "Notepad");
    assert_eq!(app_ids(&st), vec!["unsupported:notepad", "Shell"]);
    assert!(st.apps[0].unsupported && st.apps[0].is_foreground);
    assert_eq!(st.apps[0].display_name, "Notepad");
    assert_eq!(st.selected.as_deref(), Some("unsupported:notepad"));

    // A pinned app leads the rail and is selected, even off its host.
    let st = e.build_state(Some(&fg), &running(&[]), &pins, &Vec::new(), None, Some("Google.Gmail"), None, &hc, "all".into(), act, Platform::MacOs, "Notepad");
    assert_eq!(app_ids(&st), vec!["Google.Gmail", "unsupported:notepad", "Shell"]);
    assert_eq!(st.selected.as_deref(), Some("Google.Gmail"));
    assert_eq!(st.pinned_app.as_deref(), Some("Google.Gmail"));
}
