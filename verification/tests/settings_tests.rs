use stickies::settings::{
    edit_mode_default, pin_color_default, pin_default, settings_for_save, settings_from_stored,
    with_data_dir, Settings, SettingsError, TargetOs,
};

#[test]
fn defaults() {
    assert!(pin_default());
    assert_eq!(edit_mode_default(), "vim");
    assert_eq!(pin_color_default(), "#d21f1f");
    let mac = Settings::default_for(TargetOs::MacOs);
    assert_eq!(mac.terminal, "Terminal");
    assert_eq!(mac.editor, "");
    assert!(mac.show_pin);
    assert_eq!(mac.pin_color, "#d21f1f");
    assert_eq!(mac.edit_mode, "vim");
    assert_eq!(mac.data_dir, "");
    assert_eq!(Settings::default_for(TargetOs::Other).terminal, "");
    assert_eq!(Settings::default_for(TargetOs::Windows).terminal, "");
}

fn custom() -> Settings {
    Settings {
        terminal: "kitty".to_string(),
        editor: "hx".to_string(),
        show_pin: false,
        pin_color: "#000".to_string(),
        edit_mode: "builtin".to_string(),
        data_dir: "/data".to_string(),
    }
}

#[test]
fn stored_settings() {
    let s = settings_from_stored(" \n", Some(custom()), TargetOs::Other);
    assert_eq!(s.editor, "");
    let s = settings_from_stored("{", None, TargetOs::MacOs);
    assert_eq!(s.terminal, "Terminal");
    let s = settings_from_stored("{...}", Some(custom()), TargetOs::MacOs);
    assert_eq!(s.terminal, "kitty");
}

#[test]
fn saving_keeps_data_dir_and_normalises() {
    let cur = custom();
    let s = settings_for_save(&cur, "Ghostty".into(), "nvim -u NONE".into(), true, " #AbC ", " VIM ")
        .unwrap();
    assert_eq!(s.terminal, "Ghostty");
    assert_eq!(s.editor, "nvim -u NONE");
    assert!(s.show_pin);
    assert_eq!(s.pin_color, "#AbC");
    assert_eq!(s.edit_mode, "vim");
    assert_eq!(s.data_dir, "/data");
    let b = settings_for_save(&cur, "".into(), "".into(), false, "#112233", "Builtin").unwrap();
    assert_eq!(b.edit_mode, "builtin");
}

#[test]
fn saving_refuses_bad_values_colour_first() {
    let cur = custom();
    let e = settings_for_save(&cur, "".into(), "".into(), true, "red", "vim").unwrap_err();
    assert_eq!(e, SettingsError::BadPinColor);
    let e = settings_for_save(&cur, "".into(), "".into(), true, "red", "emacs").unwrap_err();
    assert_eq!(e, SettingsError::BadPinColor);
    let e = settings_for_save(&cur, "".into(), "".into(), true, "#fff", "emacs").unwrap_err();
    assert_eq!(e, SettingsError::BadEditMode);
    let e = settings_for_save(&cur, "".into(), "".into(), true, "#fff", "vi m").unwrap_err();
    assert_eq!(e, SettingsError::BadEditMode);
    assert_eq!(SettingsError::BadPinColor.message(), "bad pin color, use #rgb or #rrggbb");
    assert_eq!(SettingsError::BadEditMode.message(), "edit mode is vim or builtin");
}

#[test]
fn default_settings_can_be_saved_again() {
    let d = Settings::default_for(TargetOs::MacOs);
    let s = settings_for_save(&d, d.terminal.clone(), d.editor.clone(), d.show_pin, &d.pin_color, &d.edit_mode)
        .unwrap();
    assert_eq!(s.pin_color, d.pin_color);
    assert_eq!(s.edit_mode, d.edit_mode);
}

#[test]
fn data_dir_is_trimmed() {
    let s = with_data_dir(custom(), "  ~/notes ");
    assert_eq!(s.data_dir, "~/notes");
    assert_eq!(s.terminal, "kitty");
    assert_eq!(with_data_dir(custom(), "   ").data_dir, "");
}

#[test]
fn ascii_edit_modes_are_saved_lowercase() {
    let cur = custom();
    for (raw, want) in [("vim", "vim"), ("ViM", "vim"), (" BUILTIN\t", "builtin")] {
        let s = settings_for_save(&cur, "".into(), "".into(), true, "#fff", raw).unwrap();
        assert_eq!(s.edit_mode, want);
    }
}
