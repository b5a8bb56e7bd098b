use quicuts::custom::AppCustomizations;
use quicuts::keys::Key;
use quicuts::model::{normalize_exe, Entry, KeyCombo, Manifest, Section};
use quicuts::page::{assemble, entry_key, SectionKind};
use quicuts::parse::{normalize, split_filename};
use quicuts::schema::{LaxBool, LaxStringList, RawCategory, RawManifest};

fn entry(name: &str, recommended: bool) -> Entry {
    Entry {
        name: name.into(),
        description: None,
        recommended,
        combos: vec![KeyCombo {
            win: false,
            ctrl: true,
            shift: false,
            alt: false,
            keys: vec![Key::Literal("A".into())],
        }],
    }
}

/// A manifest document with only `PackageName` set, as the YAML parser
/// gives it for `PackageName: <pkg>`.
fn raw(pkg: &str) -> RawManifest {
    RawManifest {
        package_name: Some(pkg.into()),
        name: None,
        window_filter: LaxStringList(Vec::new()),
        background_process: LaxBool(false),
        host: None,
        title_match: LaxStringList(Vec::new()),
        icon: None,
        shortcuts: None,
    }
}

fn section(name: &str) -> RawCategory {
    RawCategory { section_name: Some(name.into()), properties: None }
}

#[test]
fn normalize_exe_rules() {
    assert_eq!(normalize_exe("Notepad.exe"), "notepad");
    assert_eq!(normalize_exe("CHROME.EXE"), "chrome");
    assert_eq!(normalize_exe(r"C:\Program Files\App\app.exe"), "app");
    assert_eq!(normalize_exe("bash"), "bash");
}

#[test]
fn entry_key_stability() {
    let a = entry("New tab", true);
    let k1 = entry_key("File", &a);
    assert_eq!(k1, entry_key("File", &a.clone()));
    // Changing the combo changes the key.
    let mut b = a.clone();
    b.combos[0].shift = true;
    assert_ne!(k1, entry_key("File", &b));
    // Changing the section changes the key.
    assert_ne!(k1, entry_key("Edit", &a));
}

#[test]
fn assemble_order_and_sections() {
    let m = Manifest {
        id: "Test.App".into(),
        name: Some("Test".into()),
        window_filters: vec!["test.exe".into()],
        background_process: false,
        host: None,
        title_match: Vec::new(),
        icon: None,
        sections: vec![
            Section {
                name: "Meta".into(),
                is_taskbar: false,
                is_meta: true,
                entries: vec![entry("hidden", false)],
            },
            Section {
                name: "Taskbar Shortcuts".into(),
                is_taskbar: true,
                is_meta: false,
                entries: vec![entry("Open app N", false)],
            },
            Section {
                name: "General".into(),
                is_taskbar: false,
                is_meta: false,
                entries: vec![entry("Do thing", true), entry("Other", false)],
            },
        ],
    };
    let pinned: Vec<String> = vec![entry_key("General", &entry("Other", false))];
    let page = assemble(&m, &pinned, &AppCustomizations::new());
    let kinds: Vec<SectionKind> = page.sections.iter().map(|s| s.kind).collect();
    assert_eq!(
        kinds,
        vec![SectionKind::Pinned, SectionKind::Recommended, SectionKind::Category, SectionKind::Taskbar]
    );
    assert_eq!(page.sections[0].entries.len(), 1); // pinned "Other"
    assert_eq!(page.sections[1].entries[0].name, "Do thing");
    assert!(page.has_taskbar);
    // Meta section absent.
    assert!(page.sections.iter().all(|s| s.title != "Meta"));
}

#[test]
fn filename_split() {
    assert_eq!(
        split_filename("Google.Chrome.en-US.yml"),
        Some(("Google.Chrome".into(), "en-US".into()))
    );
    assert_eq!(
        split_filename("+WindowsNT.Shell.en-US.yml"),
        Some(("+WindowsNT.Shell".into(), "en-US".into()))
    );
    // No locale segment: whole stem is the package name.
    assert_eq!(split_filename("MyApp.yml"), Some(("MyApp".into(), "en-US".into())));
    // "Chrome" is not a locale.
    assert_eq!(
        split_filename("Google.Chrome.yml"),
        Some(("Google.Chrome".into(), "en-US".into()))
    );
    assert_eq!(split_filename("notyaml.txt"), None);
}

// The documents below are the YAML of the parser's own cases, written as
// the values the YAML layer hands to `normalize`.

#[test]
fn taskbar_section_with_trailing_text() {
    // PackageName: X / Shortcuts: - SectionName: <TASKBAR1-9>Taskbar Shortcuts
    let mut r = raw("X");
    r.shortcuts = Some(vec![section("<TASKBAR1-9>Taskbar Shortcuts")]);
    let m = normalize(&r, "X");
    assert!(m.sections[0].is_taskbar);
    assert!(!m.sections[0].is_meta);
    assert_eq!(m.sections[0].name, "Taskbar Shortcuts");
}

#[test]
fn meta_section_skipped() {
    let mut r = raw("X");
    r.shortcuts = Some(vec![section("<Internal>")]);
    let m = normalize(&r, "X");
    assert!(m.sections[0].is_meta);
}

#[test]
fn hosted_collection_fields() {
    // PackageName: Google.Gmail / Name: Gmail / Host: Browser
    // TitleMatch: " - Gmail " / Icon: Google.Gmail.png / Shortcuts:
    let mut r = raw("Google.Gmail");
    r.name = Some("Gmail".into());
    r.host = Some("Browser".into());
    r.title_match = LaxStringList(vec![" - Gmail ".into()]);
    r.icon = Some("Google.Gmail.png".into());
    let m = normalize(&r, "Google.Gmail");
    assert_eq!(m.host.as_deref(), Some("browser")); // lowercased
    assert_eq!(m.title_match, vec!["- Gmail"]); // trimmed
    assert_eq!(m.icon.as_deref(), Some("Google.Gmail.png"));
    assert!(m.window_filters.is_empty()); // Host manifests need no WindowFilter
}

#[test]
fn title_match_accepts_a_list() {
    let mut r = raw("X");
    r.host = Some("browser".into());
    r.title_match = LaxStringList(vec![" - Gmail ".into(), "".into(), "– Gmail".into()]);
    let m = normalize(&r, "X");
    assert_eq!(m.title_match, vec!["- Gmail", "– Gmail"]); // trimmed, empties dropped
}

#[test]
fn hosted_fields_absent_or_empty_are_none() {
    let m = normalize(&raw("X"), "X");
    assert_eq!(m.host, None);
    assert!(m.title_match.is_empty());
    assert_eq!(m.icon, None);

    // Host: "  " / TitleMatch: "" / Icon: " "
    let mut r = raw("X");
    r.host = Some("  ".into());
    r.title_match = LaxStringList(vec!["".into()]);
    r.icon = Some(" ".into());
    let m = normalize(&r, "X");
    assert_eq!(m.host, None);
    assert!(m.title_match.is_empty());
    assert_eq!(m.icon, None);
}

#[test]
fn tolerates_null_properties_and_missing_fields() {
    // BackgroundProcess: True / WindowFilter: "powertoys.exe"
    // Shortcuts: - SectionName: General, Properties: (null)
    let mut r = raw("Microsoft.PowerToys");
    r.name = Some("PowerToys".into());
    r.background_process = LaxBool::from_str_value("True");
    r.window_filter = LaxStringList(vec!["powertoys.exe".into()]);
    r.shortcuts = Some(vec![section("General")]);
    let m = normalize(&r, "Microsoft.PowerToys");
    assert!(m.background_process);
    assert_eq!(m.sections.len(), 1);
    assert!(m.sections[0].entries.is_empty());
}

/// `WindowFilter` accepts one identity or several; the first is the one
/// shown.
#[test]
fn window_filter_takes_a_string_or_a_list() {
    let mut r = raw("A");
    r.window_filter = LaxStringList(vec!["Notepad.exe".into()]);
    r.shortcuts = Some(Vec::new());
    let scalar = normalize(&r, "A.en-US.yml");
    assert_eq!(scalar.window_filters, vec!["Notepad.exe"]);
    assert_eq!(scalar.primary_filter(), "Notepad.exe");
    assert!(scalar.matches_identity("notepad"));
    assert!(!scalar.is_wildcard());

    let mut r = raw("B");
    r.window_filter = LaxStringList(vec![
        "org.mozilla.firefox".into(),
        "org.mozilla.firefoxdeveloperedition".into(),
    ]);
    r.shortcuts = Some(Vec::new());
    let list = normalize(&r, "B.en-US.yml");
    assert_eq!(list.window_filters.len(), 2);
    // Either edition matches; the first is the one shown.
    assert!(list.matches_identity("org.mozilla.firefox"));
    assert!(list.matches_identity("org.mozilla.firefoxdeveloperedition"));
    assert!(list.matches_identity("ORG.MOZILLA.FIREFOX"));
    assert!(!list.matches_identity("org.mozilla.thunderbird"));
    assert_eq!(list.primary_filter(), "org.mozilla.firefox");

    // Wildcard still works, and empty/missing stays empty.
    let mut r = raw("C");
    r.window_filter = LaxStringList(vec!["*".into()]);
    r.shortcuts = Some(Vec::new());
    let star = normalize(&r, "C.en-US.yml");
    assert!(star.is_wildcard());
    let mut r = raw("D");
    r.shortcuts = Some(Vec::new());
    let none = normalize(&r, "D.en-US.yml");
    assert!(none.window_filters.is_empty());
    assert_eq!(none.primary_filter(), "");
}
