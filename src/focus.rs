use vstd::prelude::*;

verus! {

/// Title that identifies the application's primary window.
pub const TRIGGER_WINDOW_TITLE: &'static str = "spaceduck";

/// Whether the OS's key window is the application's primary window, given
/// that window's title as read from the OS. `None` stands for every way the
/// query can fail (no key window, no title, unreadable text); it counts as
/// unfocused, so a failed probe selects the global mode.
pub fn is_trigger_window_focused(key_window_title: Option<&str>) -> (r: bool)
    ensures
        r == match key_window_title {
            Some(t) => t@ == TRIGGER_WINDOW_TITLE@,
            None => false,
        },
{
    match key_window_title {
        Some(t) => {
            let actual = t.to_owned();
            let expected = TRIGGER_WINDOW_TITLE.to_owned();
            actual == expected
        },
        None => false,
    }
}

} // verus!
