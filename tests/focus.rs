use dictation_trigger::focus::{is_trigger_window_focused, TRIGGER_WINDOW_TITLE};

#[test]
fn primary_window_title_is_focused() {
    assert!(is_trigger_window_focused(Some("spaceduck")));
    assert!(is_trigger_window_focused(Some(TRIGGER_WINDOW_TITLE)));
}

#[test]
fn other_titles_are_not_focused() {
    assert!(!is_trigger_window_focused(Some("Dictation")));
    assert!(!is_trigger_window_focused(Some("")));
    assert!(!is_trigger_window_focused(Some("spaceduck ")));
    assert!(!is_trigger_window_focused(Some("Spaceduck")));
}

#[test]
fn failed_probe_counts_as_unfocused() {
    assert!(!is_trigger_window_focused(None));
}
