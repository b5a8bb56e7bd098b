use quicuts::rail::foreground_entry;
use quicuts::store::MatchKind::{Background, Exact, Hosted, Wildcard};

/// A browser Quicuts has a manifest for: the host stays selected, and a
/// hosted collection in the rail must not steal the default.
#[test]
fn host_with_a_manifest_keeps_the_default() {
    let e = [(Exact, "Google.Chrome"), (Hosted, "Google.Gmail"), (Wildcard, "Apple.System")];
    assert_eq!(foreground_entry(&e, None), Some(0));
}

/// Regression (reported on a real Mac): Firefox has no entry in
/// `manifests-mac/`, so the first non-background match is Gmail — which
/// presented Gmail's shortcuts on a new-tab page, at every URL. The
/// default must fall through to the wildcard instead.
#[test]
fn host_without_a_manifest_does_not_default_to_a_hosted_collection() {
    let e = [(Hosted, "Google.Gmail"), (Hosted, "Yahoo.YahooMail"), (Wildcard, "Apple.System")];
    assert_eq!(foreground_entry(&e, None), Some(2));
}

/// ...but detection still wins when it has a match, manifest or not.
#[test]
fn title_match_selects_the_hosted_collection() {
    let e = [(Hosted, "Google.Gmail"), (Hosted, "Yahoo.YahooMail"), (Wildcard, "Apple.System")];
    assert_eq!(foreground_entry(&e, Some("Yahoo.YahooMail")), Some(1));
    let with_host = [(Exact, "Google.Chrome"), (Hosted, "Google.Gmail")];
    assert_eq!(foreground_entry(&with_host, Some("Google.Gmail")), Some(1));
}

/// A stale or uninstalled title match falls back to the same rule
/// rather than selecting nothing.
#[test]
fn unknown_title_match_falls_back() {
    let e = [(Exact, "Google.Chrome"), (Hosted, "Google.Gmail")];
    assert_eq!(foreground_entry(&e, Some("Acme.Nope")), Some(0));
}

/// Nothing but hosted/background: no foreground entry, so the panel
/// shows the unsupported-app placeholder instead of a web app.
#[test]
fn no_exact_or_wildcard_means_no_foreground_entry() {
    let e = [(Hosted, "Google.Gmail"), (Background, "+WindowsNT.Shell")];
    assert_eq!(foreground_entry(&e, None), None);
}
