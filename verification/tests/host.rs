use quicuts::host::HostClasses;
use quicuts::model::normalize_exe;

#[test]
fn builtin_browsers() {
    let hc = HostClasses::builtin();
    assert!(hc.contains("browser", "chrome"));
    assert!(hc.contains("browser", "CHROME.EXE"));
    assert!(hc.contains("browser", "msedge.exe"));
    assert!(hc.contains("browser", "firefox"));
    assert!(!hc.contains("browser", "notepad.exe"));
    assert!(!hc.contains("terminal", "chrome"));
}

/// The macOS agent reports bundle ids, so the browser class has to
/// recognize them as well as Windows exe stems.
#[test]
fn builtin_browser_bundle_ids() {
    let hc = HostClasses::builtin();
    assert!(hc.contains("browser", "com.apple.Safari"));
    assert!(hc.contains("browser", "com.google.Chrome"));
    assert!(hc.contains("browser", "org.mozilla.firefox"));
    // Firefox Developer Edition is a distinct id, not a suffix of the
    // release one — substring matching would be wrong here, so assert
    // the exact id is listed in its own right.
    assert!(hc.contains("browser", "org.mozilla.firefoxdeveloperedition"));
    assert!(hc.contains("browser", "com.microsoft.edgemac"));
    // Bundle ids are matched whole: a mail client is not a browser just
    // because it shares a vendor prefix with one.
    assert!(!hc.contains("browser", "com.apple.mail"));
    assert!(!hc.contains("browser", "com.google"));
    assert!(!hc.contains("browser", "com.googlecode.iterm2"));
}

/// `normalize_exe` lowercases and strips one trailing ".exe"; neither
/// must mangle the dots in a bundle id.
#[test]
fn bundle_ids_survive_normalization() {
    assert_eq!(normalize_exe("com.google.Chrome"), "com.google.chrome");
    let hc = HostClasses::builtin();
    assert!(hc.contains("BROWSER", "COM.GOOGLE.CHROME"));
}

#[test]
fn extensions_normalize() {
    let hc = HostClasses::with_extensions(&vec!["Thorium.EXE".into(), "  ".into()]);
    assert!(hc.contains("browser", "thorium"));
    assert!(hc.contains("Browser", "thorium.exe"));
    assert!(!hc.contains("browser", ""));
}
