use stickies::tray::{menu_action, tray_click, ClickAction, MenuAction};

#[test]
fn menu_entries() {
    assert_eq!(menu_action("manager"), MenuAction::OpenManager);
    assert_eq!(menu_action("new"), MenuAction::NewNote);
    assert_eq!(menu_action("show-all"), MenuAction::ShowAll);
    assert_eq!(menu_action("hide-all"), MenuAction::HideAll);
    assert_eq!(menu_action("quit"), MenuAction::Nothing);
}

#[test]
fn tray_click_toggles_manager() {
    assert_eq!(tray_click(false, Some(true)), ClickAction::Ignore);
    assert_eq!(tray_click(true, Some(true)), ClickAction::HideManager);
    assert_eq!(tray_click(true, Some(false)), ClickAction::ShowManager);
    assert_eq!(tray_click(true, None), ClickAction::ShowManager);
}
