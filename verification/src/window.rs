use vstd::prelude::*;

verus! {

/// The project the context menu acts on when it is opened from the
/// selection: the selected row, if one is selected.
pub fn context_menu_target(selected: i32) -> (target: Option<i32>)
    ensures
        target == (if selected >= 0 { Some(selected) } else { None::<i32> }),
{
    if selected >= 0 {
        Some(selected)
    } else {
        None
    }
}

/// Whether the window goes to the tray: it was minimized and is not being
/// restored from the tray.
pub fn should_hide_to_tray(minimized: bool, restoring: bool) -> (hide: bool)
    ensures
        hide == (minimized && !restoring),
{
    minimized && !restoring
}

/// The answer to the check for logs of properties that no longer exist.
pub open spec fn no_missing_logs_message() -> Seq<char> {
    "На данный момент нет несуществующих свойств в проектах."@
}

/// The answer to the check for logs of properties that no longer exist.
pub fn nonexistent_logs_message() -> (s: String)
    ensures
        s@ == no_missing_logs_message(),
{
    String::from_str("На данный момент нет несуществующих свойств в проектах.")
}

} // verus!
