//! Logic of a desktop sticky-notes application: the note store, settings
//! validation, path and command composition for opening notes in an editor.

pub mod text;
pub mod notes;
pub mod clock;
pub mod color;
pub mod escape;
pub mod settings;
pub mod paths;
pub mod terminal;
pub mod tray;

pub use clock::now_ts;
pub use escape::{applescript_escape, shell_escape};
pub use settings::{edit_mode_default, pin_color_default, pin_default};
