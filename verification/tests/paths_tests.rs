use stickies::paths::{
    custom_notes_dir, edit_file_name, exe_candidates, expand_dir, gui_bundle_paths,
    is_absolute_path, is_edit_file_name, is_runnable, relocation_plan, PathError, Relocation,
};
use stickies::settings::TargetOs;

const UNIX: TargetOs = TargetOs::Other;
const WIN: TargetOs = TargetOs::Windows;

#[test]
fn expand_dir_cases() {
    assert_eq!(expand_dir(UNIX, "  /var/notes ", None), Ok("/var/notes".to_string()));
    assert_eq!(expand_dir(UNIX, "~", Some("/home/u")), Ok("/home/u".to_string()));
    assert_eq!(expand_dir(UNIX, "~/n", Some("/home/u")), Ok("/home/u/n".to_string()));
    assert_eq!(expand_dir(UNIX, "~/n", None), Err(PathError::NoHome));
    assert_eq!(expand_dir(UNIX, "   ", Some("/h")), Err(PathError::Empty));
    assert_eq!(expand_dir(UNIX, "notes", Some("/h")), Err(PathError::NotAbsolute));
    assert_eq!(expand_dir(UNIX, "~x", Some("/h")), Err(PathError::NotAbsolute));
    assert_eq!(expand_dir(UNIX, "~/n", Some("rel")), Err(PathError::NotAbsolute));
}

#[test]
fn expanded_paths_expand_to_themselves() {
    let p = expand_dir(UNIX, " ~/a ", Some("/home/u")).unwrap();
    assert_eq!(expand_dir(UNIX, &p, Some("/elsewhere")), Ok(p.clone()));
}

#[test]
fn path_error_messages() {
    assert_eq!(PathError::Empty.message(), "empty path");
    assert_eq!(PathError::NoHome.message(), "no HOME");
    assert_eq!(PathError::NotAbsolute.message(), "path must be absolute");
}

#[test]
fn custom_dir_blank_means_default() {
    assert_eq!(custom_notes_dir(UNIX, " ", None), Ok(None));
    assert_eq!(custom_notes_dir(UNIX, "/x", None), Ok(Some("/x".to_string())));
    assert_eq!(custom_notes_dir(UNIX, "x", None), Err(PathError::NotAbsolute));
}

#[test]
fn edit_files() {
    assert_eq!(edit_file_name("42"), "edit-42.md");
    assert!(is_edit_file_name(&edit_file_name("abc")));
    assert!(is_edit_file_name("edit-.md"));
    assert!(!is_edit_file_name("edit-x.txt"));
    assert!(!is_edit_file_name("notes.json"));
    assert!(!is_edit_file_name("edit.md"));
}

#[test]
fn exe_candidates_follow_path_then_extras() {
    assert_eq!(exe_candidates("./vim", "/bin"), vec!["./vim"]);
    assert_eq!(
        exe_candidates("vim", "/bin:/usr/local/bin"),
        vec![
            "/bin/vim",
            "/usr/local/bin/vim",
            "/opt/homebrew/bin/vim",
            "/opt/local/bin/vim",
        ]
    );
    assert_eq!(
        exe_candidates("nano", ""),
        vec!["/nano", "/opt/homebrew/bin/nano", "/usr/local/bin/nano", "/opt/local/bin/nano"]
    );
}

#[test]
fn gui_bundles() {
    assert_eq!(
        gui_bundle_paths("Ghostty", "ghostty", "/Users/me"),
        vec![
            "/Applications/Ghostty.app/Contents/MacOS/ghostty",
            "/Users/me/Applications/Ghostty.app/Contents/MacOS/ghostty",
        ]
    );
}

#[test]
fn runnable_files() {
    assert!(is_runnable(true, 0o755));
    assert!(is_runnable(true, 0o100));
    assert!(is_runnable(true, 0o001));
    assert!(!is_runnable(true, 0o644));
    assert!(!is_runnable(false, 0o755));
}

#[test]
fn expand_dir_on_macos_is_unix_like() {
    assert_eq!(expand_dir(TargetOs::MacOs, "~/n", Some("/Users/me")), Ok("/Users/me/n".to_string()));
    assert_eq!(expand_dir(TargetOs::MacOs, "C:\\x", None), Err(PathError::NotAbsolute));
}

#[test]
fn expand_dir_on_windows() {
    assert_eq!(expand_dir(WIN, " C:\\Notes ", None), Ok("C:\\Notes".to_string()));
    assert_eq!(
        expand_dir(WIN, "~/notes", Some("C:\\Users\\me")),
        Ok("C:\\Users\\me/notes".to_string())
    );
    assert_eq!(expand_dir(WIN, "/notes", None), Err(PathError::NotAbsolute));
    assert_eq!(expand_dir(WIN, "C:notes", None), Err(PathError::NotAbsolute));
    assert_eq!(custom_notes_dir(WIN, "d:/x", None), Ok(Some("d:/x".to_string())));
}

#[test]
fn absolute_paths_per_system() {
    for p in ["/", "/a/b"] {
        assert!(is_absolute_path(UNIX, p));
        assert!(is_absolute_path(TargetOs::MacOs, p));
        assert!(!is_absolute_path(WIN, p));
    }
    for p in ["C:\\", "c:/x", "\\\\server\\share", "//server/share/x", "\\\\?\\C:\\x", "\\\\.\\COM1"] {
        assert!(is_absolute_path(WIN, p), "{p}");
        assert!(!is_absolute_path(UNIX, p) || p.starts_with('/'), "{p}");
    }
    for p in ["", "C:", "C:x", "1:\\x", "\\\\server", "\\\\server\\", "\\\\\\share", "\\x", "rel"] {
        assert!(!is_absolute_path(WIN, p), "{p}");
    }
    assert!(!is_absolute_path(UNIX, "rel/x"));
}

#[test]
fn absolute_paths_match_std_here() {
    for p in ["/", "/a", "a", "", "./x", "~/x"] {
        assert_eq!(is_absolute_path(UNIX, p), std::path::Path::new(p).is_absolute(), "{p}");
    }
}

#[test]
fn relocation_cases() {
    let all = Relocation { merge_notes: true, move_edit_files: true, remove_old_store: true };
    assert_eq!(relocation_plan(true, true, false), all);
    assert_eq!(
        relocation_plan(true, true, true),
        Relocation { merge_notes: true, move_edit_files: true, remove_old_store: false }
    );
    assert_eq!(
        relocation_plan(true, false, false),
        Relocation { merge_notes: true, move_edit_files: true, remove_old_store: false }
    );
    assert_eq!(
        relocation_plan(false, true, false),
        Relocation { merge_notes: true, move_edit_files: false, remove_old_store: true }
    );
    let none = Relocation { merge_notes: false, move_edit_files: false, remove_old_store: false };
    assert_eq!(relocation_plan(false, true, true), none);
    assert_eq!(relocation_plan(false, false, false), none);
}
