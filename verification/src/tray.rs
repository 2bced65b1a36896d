//! What the menu-bar icon does with clicks and menu choices.

use vstd::prelude::*;

use crate::text::same_text;

verus! {

/// What a tray menu entry asks for.
#[derive(Clone, Copy, Debug, PartialEq, Eq, Structural)]
pub enum MenuAction {
    OpenManager,
    NewNote,
    ShowAll,
    HideAll,
    Nothing,
}

/// The action of the tray menu entry with id `id`.
pub fn menu_action(id: &str) -> (r: MenuAction)
    ensures
        r == if id@ == "manager"@ {
            MenuAction::OpenManager
        } else if id@ == "new"@ {
            MenuAction::NewNote
        } else if id@ == "show-all"@ {
            MenuAction::ShowAll
        } else if id@ == "hide-all"@ {
            MenuAction::HideAll
        } else {
            MenuAction::Nothing
        },
{
    if same_text(id, "manager") {
        MenuAction::OpenManager
    } else if same_text(id, "new") {
        MenuAction::NewNote
    } else if same_text(id, "show-all") {
        MenuAction::ShowAll
    } else if same_text(id, "hide-all") {
        MenuAction::HideAll
    } else {
        MenuAction::Nothing
    }
}

/// What a click on the tray icon does to the manager window.
#[derive(Clone, Copy, Debug, PartialEq, Eq, Structural)]
pub enum ClickAction {
    Ignore,
    HideManager,
    ShowManager,
}

/// The response to a click on the tray icon: only the release of the left
/// button counts; it hides the manager window when that window exists and is
/// visible (`manager_visible` is `Some(visible)` when it exists, a visibility
/// that cannot be read counting as hidden), and shows it otherwise.
pub fn tray_click(left_release: bool, manager_visible: Option<bool>) -> (r: ClickAction)
    ensures
        !left_release ==> r == ClickAction::Ignore,
        left_release && manager_visible == Some(true) ==> r == ClickAction::HideManager,
        left_release && manager_visible != Some(true) ==> r == ClickAction::ShowManager,
{
    if !left_release {
        return ClickAction::Ignore;
    }
    match manager_visible {
        Some(true) => ClickAction::HideManager,
        _ => ClickAction::ShowManager,
    }
}

} // verus!
