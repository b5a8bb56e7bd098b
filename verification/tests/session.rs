use quicuts::session::next_selection;

#[test]
fn window_switch_resets_pin_first_then_match() {
    assert_eq!(next_selection(true, None, None, None), Some(None));
    assert_eq!(
        next_selection(true, None, Some("Gmail"), None),
        Some(Some("Gmail".into()))
    );
    assert_eq!(
        next_selection(true, None, Some("Gmail"), Some("Pin")),
        Some(Some("Pin".into()))
    );
}

#[test]
fn same_window_transitions_follow_match() {
    // Gained -> auto-select; lost -> revert (None falls back to host).
    assert_eq!(
        next_selection(false, None, Some("Gmail"), None),
        Some(Some("Gmail".into()))
    );
    assert_eq!(next_selection(false, Some("Gmail"), None, None), Some(None));
    // Changed site-to-site.
    assert_eq!(
        next_selection(false, Some("Gmail"), Some("Docs"), None),
        Some(Some("Docs".into()))
    );
}

#[test]
fn same_window_no_transition_keeps_manual_selection() {
    // Title churn re-matching the same id must not clobber the user's
    // rail click.
    assert_eq!(next_selection(false, Some("Gmail"), Some("Gmail"), None), None);
    assert_eq!(next_selection(false, None, None, None), None);
}

#[test]
fn pin_overrides_transitions() {
    assert_eq!(next_selection(false, None, Some("Gmail"), Some("Pin")), None);
    assert_eq!(next_selection(false, Some("Gmail"), None, Some("Pin")), None);
}
