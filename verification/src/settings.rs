//! Application settings: their defaults, how stored text becomes settings,
//! and which changes a user may save.

use vstd::prelude::*;

use crate::color::{checked_color, valid_color};
use crate::text::{
    all_white, ascii_lowered, is_ascii_text, is_blank, lowercase, owned, same_text, to_lowercase,
    trim, trim_str,
};

verus! {

/// The operating system the application runs on, as far as its behaviour
/// depends on it.
#[derive(Clone, Copy, Debug, PartialEq, Eq, Structural)]
pub enum TargetOs {
    MacOs,
    Windows,
    /// Linux and the other Unix-like systems.
    Other,
}

/// User settings.
#[derive(Debug)]
pub struct Settings {
    /// Terminal to open the editor in; empty for the system's choice.
    pub terminal: String,
    /// Editor command; empty to take it from the environment.
    pub editor: String,
    pub show_pin: bool,
    pub pin_color: String,
    /// `vim` (edit in a terminal) or `builtin` (edit in the note window).
    pub edit_mode: String,
    /// Directory for the notes; empty for the application data directory.
    pub data_dir: String,
}

/// Why a settings change was refused.
#[derive(Clone, Copy, Debug, PartialEq, Eq, Structural)]
pub enum SettingsError {
    BadPinColor,
    BadEditMode,
}

impl SettingsError {
    /// The text shown to the user for this error.
    pub fn message(&self) -> (r: String)
        ensures
            *self == SettingsError::BadPinColor ==> r@ == "bad pin color, use #rgb or #rrggbb"@,
            *self == SettingsError::BadEditMode ==> r@ == "edit mode is vim or builtin"@,
    {
        match self {
            SettingsError::BadPinColor => owned("bad pin color, use #rgb or #rrggbb"),
            SettingsError::BadEditMode => owned("edit mode is vim or builtin"),
        }
    }
}

/// Pin shown by default.
pub fn pin_default() -> (r: bool)
    ensures
        r,
{
    true
}

/// Edit mode by default.
pub fn edit_mode_default() -> (r: String)
    ensures
        r@ == "vim"@,
{
    owned("vim")
}

/// Pin colour by default.
pub fn pin_color_default() -> (r: String)
    ensures
        r@ == "#d21f1f"@,
{
    owned("#d21f1f")
}

/// Terminal by default: Terminal.app on macOS, the system's choice elsewhere.
pub open spec fn default_terminal(os: TargetOs) -> Seq<char> {
    if os == TargetOs::MacOs {
        "Terminal"@
    } else {
        Seq::<char>::empty()
    }
}

/// The settings by default on `os`.
pub open spec fn is_default_settings(s: Settings, os: TargetOs) -> bool {
    &&& s.terminal@ == default_terminal(os)
    &&& s.editor@ == Seq::<char>::empty()
    &&& s.show_pin
    &&& s.pin_color@ == "#d21f1f"@
    &&& s.edit_mode@ == "vim"@
    &&& s.data_dir@ == Seq::<char>::empty()
}

impl Settings {
    /// The settings by default on `os`.
    pub fn default_for(os: TargetOs) -> (r: Settings)
        ensures
            is_default_settings(r, os),
            os == TargetOs::MacOs ==> r.terminal@ == "Terminal"@,
            os != TargetOs::MacOs ==> r.terminal@.len() == 0,
            r.editor@.len() == 0,
            r.show_pin,
            r.pin_color@ == "#d21f1f"@,
            r.edit_mode@ == "vim"@,
            r.data_dir@.len() == 0,
    {
        let terminal = match os {
            TargetOs::MacOs => owned("Terminal"),
            _ => String::new(),
        };
        Settings {
            terminal,
            editor: String::new(),
            show_pin: true,
            pin_color: pin_color_default(),
            edit_mode: edit_mode_default(),
            data_dir: String::new(),
        }
    }
}

/// Settings read from the stored text `text`: the defaults when the text is
/// blank or did not parse (`parsed` is what parsing it gave), else the
/// parsed settings.
pub fn settings_from_stored(text: &str, parsed: Option<Settings>, os: TargetOs) -> (r: Settings)
    ensures
        all_white(text@) ==> is_default_settings(r, os),
        !all_white(text@) ==> match parsed {
            Some(p) => r == p,
            None => is_default_settings(r, os),
        },
{
    if is_blank(text) {
        return Settings::default_for(os);
    }
    match parsed {
        Some(p) => p,
        None => Settings::default_for(os),
    }
}

/// The edit mode that `raw` names: its lowercase form without surrounding
/// white space.
pub open spec fn edit_mode_of(raw: Seq<char>) -> Seq<char> {
    lowercase(trim(raw))
}

/// `mode` is one of the two edit modes.
pub open spec fn valid_edit_mode(mode: Seq<char>) -> bool {
    mode == "vim"@ || mode == "builtin"@
}

/// The settings after a user saves terminal, editor, pin and edit mode
/// (`save_settings`); the data directory stays that of `current`. The pin
/// colour must be `#rgb` or `#rrggbb` and is kept without surrounding white
/// space; the edit mode is kept in lowercase and must be `vim` or
/// `builtin`. The colour is checked first.
pub fn settings_for_save(
    current: &Settings,
    terminal: String,
    editor: String,
    show_pin: bool,
    pin_color: &str,
    edit_mode: &str,
) -> (r: Result<Settings, SettingsError>)
    ensures
        !valid_color(trim(pin_color@)) ==> r == Err::<Settings, SettingsError>(
            SettingsError::BadPinColor,
        ),
        valid_color(trim(pin_color@)) && !valid_edit_mode(edit_mode_of(edit_mode@)) ==> r == Err::<
            Settings,
            SettingsError,
        >(SettingsError::BadEditMode),
        valid_color(trim(pin_color@)) && valid_edit_mode(edit_mode_of(edit_mode@)) ==> (r matches Ok(
            s,
        ) && s.terminal == terminal && s.editor == editor && s.show_pin == show_pin && s.pin_color@
            == trim(pin_color@) && s.edit_mode@ == edit_mode_of(edit_mode@) && s.data_dir
            == current.data_dir),
        valid_color(trim(pin_color@)) && is_ascii_text(trim(edit_mode@)) ==> (r is Ok
            <==> valid_edit_mode(ascii_lowered(trim(edit_mode@)))),
        is_ascii_text(trim(edit_mode@)) ==> (r matches Ok(s) ==> s.edit_mode@ == ascii_lowered(
            trim(edit_mode@),
        )),
        r matches Ok(s) ==> (s.edit_mode@ == "vim"@ || s.edit_mode@ == "builtin"@),
        r matches Ok(s) ==> s.pin_color@ == trim(pin_color@) && (s.pin_color@.len() == 4
            || s.pin_color@.len() == 7) && s.pin_color@[0] == '#',
{
    let color = match checked_color(pin_color) {
        Some(c) => c,
        None => return Err(SettingsError::BadPinColor),
    };
    let mode = to_lowercase(trim_str(edit_mode));
    if !(same_text(mode.as_str(), "vim") || same_text(mode.as_str(), "builtin")) {
        return Err(SettingsError::BadEditMode);
    }
    Ok(
        Settings {
            terminal,
            editor,
            show_pin,
            pin_color: color,
            edit_mode: mode,
            data_dir: current.data_dir.clone(),
        },
    )
}

/// `s` with the data directory set to `path` without surrounding white
/// space (what `set_data_dir` saves).
pub fn with_data_dir(s: Settings, path: &str) -> (r: Settings)
    ensures
        r.data_dir@ == trim(path@),
        r.terminal == s.terminal,
        r.editor == s.editor,
        r.show_pin == s.show_pin,
        r.pin_color == s.pin_color,
        r.edit_mode == s.edit_mode,
{
    let mut s = s;
    s.data_dir = owned(trim_str(path));
    s
}

/// The default pin colour passes the colour check that saving settings
/// applies, unchanged by it.
pub proof fn law_default_pin_color_valid()
    ensures
        valid_color("#d21f1f"@),
        trim("#d21f1f"@) == "#d21f1f"@,
{
    reveal_strlit("#d21f1f");
    crate::text::lemma_trim_plain("#d21f1f"@);
}

} // verus!
