//! Host classes for hosted collections: named groups of host identities a
//! hosted manifest can match via `Host: <class>`. The built-in lists are
//! owned centrally; users extend them in settings.

use vstd::prelude::*;

use crate::model::{normalize_exe, normalize_exe_spec, strs_view};
use crate::text::{chars_eq_str, chars_of, lower_chars, lower_seq, str_eq, trim, trim_chars};

verus! {

/// The only host class today: web apps living inside a browser.
pub const BROWSER_CLASS: &'static str = "browser";

/// Built-in browser identities, pre-normalized (lowercase, no ".exe"):
/// exe stems as a Windows agent reports them, then bundle identifiers as a
/// macOS agent reports them. The two namespaces cannot collide (a bundle id
/// always contains dots, an exe stem never does).
pub open spec fn builtin_browsers_spec() -> Seq<Seq<char>> {
    seq![
        "chrome"@,
        "msedge"@,
        "firefox"@,
        "brave"@,
        "opera"@,
        "opera_gx"@,
        "vivaldi"@,
        "chromium"@,
        "arc"@,
        "zen"@,
        "librewolf"@,
        "waterfox"@,
        "com.apple.safari"@,
        "com.apple.safaritechnologypreview"@,
        "com.google.chrome"@,
        "com.google.chrome.beta"@,
        "com.google.chrome.canary"@,
        "com.microsoft.edgemac"@,
        "com.microsoft.edgemac.beta"@,
        "org.mozilla.firefox"@,
        "org.mozilla.firefoxdeveloperedition"@,
        "org.mozilla.nightly"@,
        "com.brave.browser"@,
        "com.brave.browser.beta"@,
        "com.operasoftware.opera"@,
        "com.operasoftware.operagx"@,
        "com.vivaldi.vivaldi"@,
        "org.chromium.chromium"@,
        "company.thebrowser.browser"@,
        "app.zen-browser.zen"@,
        "org.mozilla.librewolf"@,
        "net.waterfox.waterfox"@,
        "com.kagi.kagimacos"@
    ]
}

pub fn builtin_browsers() -> (r: Vec<String>)
    ensures
        strs_view(r@) == builtin_browsers_spec(),
{
    let mut v: Vec<String> = Vec::new();
    v.push(String::from_str("chrome"));
    v.push(String::from_str("msedge"));
    v.push(String::from_str("firefox"));
    v.push(String::from_str("brave"));
    v.push(String::from_str("opera"));
    v.push(String::from_str("opera_gx"));
    v.push(String::from_str("vivaldi"));
    v.push(String::from_str("chromium"));
    v.push(String::from_str("arc"));
    v.push(String::from_str("zen"));
    v.push(String::from_str("librewolf"));
    v.push(String::from_str("waterfox"));
    v.push(String::from_str("com.apple.safari"));
    v.push(String::from_str("com.apple.safaritechnologypreview"));
    v.push(String::from_str("com.google.chrome"));
    v.push(String::from_str("com.google.chrome.beta"));
    v.push(String::from_str("com.google.chrome.canary"));
    v.push(String::from_str("com.microsoft.edgemac"));
    v.push(String::from_str("com.microsoft.edgemac.beta"));
    v.push(String::from_str("org.mozilla.firefox"));
    v.push(String::from_str("org.mozilla.firefoxdeveloperedition"));
    v.push(String::from_str("org.mozilla.nightly"));
    v.push(String::from_str("com.brave.browser"));
    v.push(String::from_str("com.brave.browser.beta"));
    v.push(String::from_str("com.operasoftware.opera"));
    v.push(String::from_str("com.operasoftware.operagx"));
    v.push(String::from_str("com.vivaldi.vivaldi"));
    v.push(String::from_str("org.chromium.chromium"));
    v.push(String::from_str("company.thebrowser.browser"));
    v.push(String::from_str("app.zen-browser.zen"));
    v.push(String::from_str("org.mozilla.librewolf"));
    v.push(String::from_str("net.waterfox.waterfox"));
    v.push(String::from_str("com.kagi.kagimacos"));
    assert(strs_view(v@) =~= builtin_browsers_spec());
    v
}

/// Host class name -> merged identity set (built-in plus user extensions).
#[derive(Debug)]
pub struct HostClasses {
    browsers: Vec<String>,
}

impl View for HostClasses {
    type V = Set<Seq<char>>;

    /// Members of the browser class.
    closed spec fn view(&self) -> Set<Seq<char>> {
        Set::new(|m: Seq<char>| strs_view(self.browsers@).contains(m))
    }
}

/// Normalized, non-empty extension identities.
pub open spec fn extension_members(extra: Seq<Seq<char>>) -> Set<Seq<char>> {
    Set::new(
        |m: Seq<char>|
            exists|i: int|
                0 <= i < extra.len() && m == normalize_exe_spec(#[trigger] extra[i]) && m.len()
                    > 0,
    )
}

impl HostClasses {
    pub fn builtin() -> (r: HostClasses)
        ensures
            r@ == Set::new(|m: Seq<char>| builtin_browsers_spec().contains(m)),
    {
        let r = HostClasses { browsers: builtin_browsers() };
        assert(r@ =~= Set::new(|m: Seq<char>| builtin_browsers_spec().contains(m)));
        r
    }

    /// Built-in classes extended with user-supplied browser identities (any
    /// case, ".exe" optional, paths tolerated).
    pub fn with_extensions(extra_browser: &Vec<String>) -> (r: HostClasses)
        ensures
            r@ == Set::new(|m: Seq<char>| builtin_browsers_spec().contains(m)).union(
                extension_members(strs_view(extra_browser@)),
            ),
    {
        let mut v = builtin_browsers();
        let ghost base = strs_view(v@);
        let ghost ex = strs_view(extra_browser@);
        for i in 0..extra_browser.len()
            invariant
                base == builtin_browsers_spec(),
                ex == strs_view(extra_browser@),
                forall|m: Seq<char>|
                    #[trigger] strs_view(v@).contains(m) <==> (base.contains(m) || exists|j: int|
                        0 <= j < i && m == normalize_exe_spec(#[trigger] ex[j]) && m.len() > 0),
        {
            let n = normalize_exe(extra_browser[i].as_str());
            let ghost prev = strs_view(v@);
            if !n.as_str().is_empty() {
                v.push(n);
                assert(strs_view(v@) =~= prev.push(normalize_exe_spec(ex[i as int])));
            }
            proof {
                assert forall|m: Seq<char>|
                    #[trigger] strs_view(v@).contains(m) <==> (base.contains(m) || exists|j: int|
                        0 <= j < i + 1 && m == normalize_exe_spec(#[trigger] ex[j]) && m.len() > 0) by {
                    let cur = strs_view(v@);
                    if cur.contains(m) {
                        let k = choose|k: int| 0 <= k < cur.len() && cur[k] == m;
                        if k < prev.len() {
                            assert(prev[k] == m);
                            assert(prev.contains(m));
                            if !base.contains(m) {
                                let j = choose|j: int|
                                    0 <= j < i && m == normalize_exe_spec(#[trigger] ex[j]) && m.len() > 0;
                                assert(0 <= j < i + 1);
                            }
                        } else {
                            assert(m == normalize_exe_spec(ex[i as int]));
                        }
                    }
                    if base.contains(m) || exists|j: int|
                        0 <= j < i + 1 && m == normalize_exe_spec(#[trigger] ex[j]) && m.len() > 0 {
                        if base.contains(m) || exists|j: int|
                            0 <= j < i && m == normalize_exe_spec(#[trigger] ex[j]) && m.len() > 0 {
                            assert(prev.contains(m));
                            let k = choose|k: int| 0 <= k < prev.len() && prev[k] == m;
                            assert(cur[k] == m);
                        } else {
                            assert(m == normalize_exe_spec(ex[i as int]) && m.len() > 0);
                            assert(cur[cur.len() - 1] == m);
                        }
                    }
                }
            }
        }
        let r = HostClasses { browsers: v };
        assert(r@ =~= Set::new(|m: Seq<char>| builtin_browsers_spec().contains(m)).union(
            extension_members(ex),
        ));
        r
    }

    /// Is `exe` a member of `class`? `class` is compared trimmed and
    /// lowercase; `exe` is normalized before lookup.
    pub open spec fn contains_spec(self, class: Seq<char>, exe: Seq<char>) -> bool {
        lower_seq(trim(class)) == BROWSER_CLASS@ && self@.contains(normalize_exe_spec(exe))
    }

    pub fn contains(&self, class: &str, exe: &str) -> (r: bool)
        ensures
            r == self.contains_spec(class@, exe@),
    {
        let cv = chars_of(class);
        let ct = trim_chars(&cv);
        let cl = lower_chars(&ct);
        if !chars_eq_str(&cl, BROWSER_CLASS) {
            return false;
        }
        let n = normalize_exe(exe);
        for i in 0..self.browsers.len()
            invariant
                n@ == normalize_exe_spec(exe@),
                lower_seq(trim(class@)) == BROWSER_CLASS@,
                forall|j: int| 0 <= j < i ==> #[trigger] self.browsers@[j]@ != n@,
        {
            if str_eq(self.browsers[i].as_str(), n.as_str()) {
                assert(strs_view(self.browsers@)[i as int] == n@);
                assert(strs_view(self.browsers@).contains(n@));
                return true;
            }
        }
        assert(!strs_view(self.browsers@).contains(n@));
        false
    }
}

} // verus!
