//! What the tray icon and its menu ask of the window.
use vstd::prelude::*;

use crate::text::text_equals;

verus! {

/// What the tray asks for.
#[derive(Clone, Copy, Debug)]
pub enum TrayEvent {
    /// Bring the window back.
    ShowWindow,
    /// Quit the program.
    Quit,
}

/// The kinds of tray icon events the tray tells apart.
#[derive(Clone, Copy, Debug)]
pub enum TrayClick {
    /// A double click on the icon.
    DoubleClick,
    /// Any other click, move or hover.
    Other,
}

/// The menu entry that shows the window.
pub open spec fn open_item_id() -> Seq<char> {
    "open"@
}

/// The menu entry that quits.
pub open spec fn quit_item_id() -> Seq<char> {
    "quit"@
}

/// The event for a tray icon event: a double click shows the window.
pub fn tray_icon_event(click: TrayClick) -> (res: Option<TrayEvent>)
    ensures
        click is DoubleClick ==> res matches Some(TrayEvent::ShowWindow),
        click is Other ==> res is None,
{
    match click {
        TrayClick::DoubleClick => Some(TrayEvent::ShowWindow),
        TrayClick::Other => None,
    }
}

/// The event for a click on the menu entry with id `id`: "open" shows the
/// window, "quit" quits, any other entry does nothing.
pub fn menu_event(id: &str) -> (res: Option<TrayEvent>)
    ensures
        id@ == open_item_id() ==> res matches Some(TrayEvent::ShowWindow),
        id@ == quit_item_id() ==> res matches Some(TrayEvent::Quit),
        id@ != open_item_id() && id@ != quit_item_id() ==> res is None,
{
    proof {
        reveal_strlit("open");
        reveal_strlit("quit");
        assert("open"@[0] != "quit"@[0]);
    }
    if text_equals(id, "open") {
        Some(TrayEvent::ShowWindow)
    } else if text_equals(id, "quit") {
        Some(TrayEvent::Quit)
    } else {
        None
    }
}

} // verus!
