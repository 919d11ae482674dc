//! What the entries of the tray menu do.

use crate::text::same_text;
use vstd::prelude::*;
use vstd::string::StringExecFns;

verus! {

/// What the shell is asked to do when a menu entry is chosen.
#[derive(Debug, PartialEq, Eq)]
pub enum MenuAction {
    /// Open this URL in the browser.
    OpenBrowser { url: String },
    /// End the process with this exit code.
    Exit { code: i32 },
    /// Nothing.
    Ignore,
}

/// A `MenuAction` as a mathematical value.
pub enum MenuActionView {
    OpenBrowser { url: Seq<char> },
    Exit { code: i32 },
    Ignore,
}

impl View for MenuAction {
    type V = MenuActionView;

    open spec fn view(&self) -> MenuActionView {
        match self {
            MenuAction::OpenBrowser { url } => MenuActionView::OpenBrowser { url: url@ },
            MenuAction::Exit { code } => MenuActionView::Exit { code: *code },
            MenuAction::Ignore => MenuActionView::Ignore,
        }
    }
}

/// What the entry with the identifier `id` does: `open` opens the local
/// front end in the browser, `quit` ends the process with code 0, and no
/// other identifier does anything.
pub open spec fn action_of(id: Seq<char>) -> MenuActionView {
    if id == "open"@ {
        MenuActionView::OpenBrowser { url: "http://localhost:3000"@ }
    } else if id == "quit"@ {
        MenuActionView::Exit { code: 0 }
    } else {
        MenuActionView::Ignore
    }
}

/// What the shell is to do when the entry with the identifier `id` is chosen.
pub fn menu_action(id: &str) -> (action: MenuAction)
    ensures
        action@ == action_of(id@),
{
    if same_text(id, "open") {
        MenuAction::OpenBrowser { url: String::from_str("http://localhost:3000") }
    } else if same_text(id, "quit") {
        MenuAction::Exit { code: 0 }
    } else {
        MenuAction::Ignore
    }
}

} // verus!
