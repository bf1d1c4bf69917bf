//! The window's events, and how the program finds its own top-level window
//! among those of the desktop.
use vstd::prelude::*;

use crate::options::Options;
use crate::text::{text_equals, trim, trimmed};

verus! {

/// What the window reports to the background task.
#[derive(Clone, Debug)]
pub enum WindowEvent {
    /// The user changed the settings to these.
    OptionsChanged(Options),
}

/// The title of the program's window.
pub open spec fn window_title() -> Seq<char> {
    "ShellProtectorOSC"@
}

/// Whether a top-level window is the program's own: it belongs to process
/// `pid` and its title, without surrounding whitespace, is the program's
/// window title.
pub fn is_app_window(window_pid: u32, pid: u32, title: &str) -> (res: bool)
    ensures
        res == (window_pid == pid && trim(title@) == window_title()),
{
    if window_pid != pid {
        return false;
    }
    text_equals(trimmed(title), "ShellProtectorOSC")
}

} // verus!
