//! File-system paths as text: the notes directory a setting names, the
//! files an edit session leaves behind, and where executables are looked for.

use vstd::prelude::*;

use crate::settings::TargetOs;
use crate::text::{
    chars_of, has_char, has_prefix, has_suffix, owned, push_text, same_text, split_on,
    split_on_char, starts_with, ends_with, string_from_chars, trim, trim_str, views,
};

verus! {

/// Why a directory setting was refused.
#[derive(Clone, Copy, Debug, PartialEq, Eq, Structural)]
pub enum PathError {
    Empty,
    NoHome,
    NotAbsolute,
}

impl PathError {
    /// The text shown to the user for this error.
    pub fn message(&self) -> (r: String)
        ensures
            *self == PathError::Empty ==> r@ == "empty path"@,
            *self == PathError::NoHome ==> r@ == "no HOME"@,
            *self == PathError::NotAbsolute ==> r@ == "path must be absolute"@,
    {
        match self {
            PathError::Empty => owned("empty path"),
            PathError::NoHome => owned("no HOME"),
            PathError::NotAbsolute => owned("path must be absolute"),
        }
    }
}

/// `t` names a path under the home directory: `~` alone or `~/...`.
pub open spec fn is_home_relative(t: Seq<char>) -> bool {
    t == seq!['~'] || starts_with(t, seq!['~', '/'])
}

/// A path separator on `os`: `/`, and on Windows `\` as well.
pub open spec fn is_sep(os: TargetOs, c: char) -> bool {
    c == '/' || (os == TargetOs::Windows && c == '\\')
}

/// An ASCII letter, as a Windows drive letter must be.
pub open spec fn is_ascii_letter(c: char) -> bool {
    ('a' <= c <= 'z') || ('A' <= c <= 'Z')
}

/// A drive prefix followed by the root: `C:\` or `C:/`.
pub open spec fn is_disk_rooted(p: Seq<char>) -> bool {
    p.len() >= 3 && is_ascii_letter(p[0]) && p[1] == ':' && is_sep(TargetOs::Windows, p[2])
}

/// A verbatim prefix `\\?\`, written with backslashes only (no `/` among
/// the first eight characters).
pub open spec fn is_verbatim(p: Seq<char>) -> bool {
    &&& p.len() >= 4
    &&& p[0] == '\\' && p[1] == '\\' && p[2] == '?' && p[3] == '\\'
    &&& forall|i: int| 0 <= i < p.len() && i < 8 ==> #[trigger] p[i] != '/'
}

/// A device prefix `\\.\` (either separator).
pub open spec fn is_device(p: Seq<char>) -> bool {
    p.len() >= 4 && is_sep(TargetOs::Windows, p[0]) && is_sep(TargetOs::Windows, p[1]) && p[2]
        == '.' && is_sep(TargetOs::Windows, p[3])
}

/// After two leading separators, `rest` is `server` and `share`, both not
/// empty: the first separator of `rest` is at `i > 0` and a character that is
/// not a separator follows it.
pub open spec fn is_unc_rest(rest: Seq<char>) -> bool {
    exists|i: int|
        0 < i && i + 1 < rest.len() && is_sep(TargetOs::Windows, #[trigger] rest[i]) && !is_sep(
            TargetOs::Windows,
            rest[i + 1],
        ) && forall|j: int| 0 <= j < i ==> !is_sep(TargetOs::Windows, #[trigger] rest[j])
}

/// A UNC prefix `\\server\share` (either separator).
pub open spec fn is_unc(p: Seq<char>) -> bool {
    p.len() >= 2 && is_sep(TargetOs::Windows, p[0]) && is_sep(TargetOs::Windows, p[1])
        && is_unc_rest(p.skip(2))
}

/// A path is absolute (`Path::is_absolute`) on Unix-like systems when it
/// starts with the root `/`; on Windows when it has a prefix and a root: a
/// drive with its root (`C:\`, `C:/`), or a verbatim, device or UNC prefix,
/// which carry their root.
pub open spec fn is_absolute_on(os: TargetOs, p: Seq<char>) -> bool {
    if os == TargetOs::Windows {
        is_disk_rooted(p) || is_verbatim(p) || is_device(p) || is_unc(p)
    } else {
        p.len() > 0 && p[0] == '/'
    }
}

/// What `expand_dir` gives on `os` for the setting `raw`, with `home` the
/// value of `HOME` if it is set.
pub open spec fn expanded(os: TargetOs, raw: Seq<char>, home: Option<Seq<char>>) -> Result<
    Seq<char>,
    PathError,
> {
    let t = trim(raw);
    if t.len() == 0 {
        Err(PathError::Empty)
    } else if is_home_relative(t) && home is None {
        Err(PathError::NoHome)
    } else {
        let p = if is_home_relative(t) {
            home->0 + t.skip(1)
        } else {
            t
        };
        if is_absolute_on(os, p) {
            Ok(p)
        } else {
            Err(PathError::NotAbsolute)
        }
    }
}

/// Whether `c` is a separator on `os`.
fn is_sep_char(os: TargetOs, c: char) -> (r: bool)
    ensures
        r == is_sep(os, c),
{
    c == '/' || (os == TargetOs::Windows && c == '\\')
}

/// Whether `v` holds a UNC prefix.
fn has_unc_prefix(v: &Vec<char>) -> (r: bool)
    ensures
        r == is_unc(v@),
{
    let w = TargetOs::Windows;
    if v.len() < 2 || !is_sep_char(w, v[0]) || !is_sep_char(w, v[1]) {
        return false;
    }
    let ghost rest = v@.skip(2);
    let mut i: usize = 2;
    while i < v.len() && !is_sep_char(w, v[i])
        invariant
            2 <= i <= v.len(),
            w == TargetOs::Windows,
            rest == v@.skip(2),
            forall|j: int| 0 <= j < i - 2 ==> !is_sep(TargetOs::Windows, #[trigger] rest[j]),
        decreases v.len() - i,
    {
        assert(rest[i - 2] == v@[i as int]);
        i = i + 1;
    }
    let ok = i > 2 && i < v.len() && v.len() - i > 1 && !is_sep_char(w, v[i + 1]);
    proof {
        if ok {
            let k = i - 2;
            assert(rest[k] == v@[i as int]);
            assert(rest[k + 1] == v@[i + 1]);
            assert(is_unc_rest(rest));
        } else if is_unc_rest(rest) {
            let k = choose|k: int|
                0 < k && k + 1 < rest.len() && is_sep(TargetOs::Windows, #[trigger] rest[k])
                    && !is_sep(TargetOs::Windows, rest[k + 1]) && forall|j: int|
                    0 <= j < k ==> !is_sep(TargetOs::Windows, #[trigger] rest[j]);
            if i < v.len() {
                assert(rest[i - 2] == v@[i as int]);
                if k < i - 2 {
                    assert(!is_sep(TargetOs::Windows, rest[k]));
                } else if k > i - 2 {
                    assert(!is_sep(TargetOs::Windows, rest[i - 2]));
                }
                assert(rest[k + 1] == v@[i + 1]);
            } else {
                assert(!is_sep(TargetOs::Windows, rest[k]));
            }
        }
    }
    ok
}

/// Whether `v` starts with a verbatim prefix.
fn has_verbatim_prefix(v: &Vec<char>) -> (r: bool)
    ensures
        r == is_verbatim(v@),
{
    if v.len() < 4 || v[0] != '\\' || v[1] != '\\' || v[2] != '?' || v[3] != '\\' {
        return false;
    }
    let mut i: usize = 0;
    while i < v.len() && i < 8
        invariant
            i <= v.len(),
            forall|j: int| 0 <= j < i ==> #[trigger] v@[j] != '/',
        decreases v.len() - i,
    {
        if v[i] == '/' {
            return false;
        }
        i = i + 1;
    }
    true
}

/// Whether `p` is absolute on `os` (`Path::is_absolute`).
pub fn is_absolute_path(os: TargetOs, p: &str) -> (r: bool)
    ensures
        r == is_absolute_on(os, p@),
{
    let v = chars_of(p);
    if os != TargetOs::Windows {
        return v.len() > 0 && v[0] == '/';
    }
    let w = TargetOs::Windows;
    let disk = v.len() >= 3 && (('a' <= v[0] && v[0] <= 'z') || ('A' <= v[0] && v[0] <= 'Z'))
        && v[1] == ':' && is_sep_char(w, v[2]);
    let device = v.len() >= 4 && is_sep_char(w, v[0]) && is_sep_char(w, v[1]) && v[2] == '.'
        && is_sep_char(w, v[3]);
    disk || has_verbatim_prefix(&v) || device || has_unc_prefix(&v)
}

/// The directory that the setting `raw` names on `os`: without surrounding
/// white space, a leading `~` replaced by `home`, and absolute.
pub fn expand_dir(os: TargetOs, raw: &str, home: Option<&str>) -> (r: Result<String, PathError>)
    ensures
        match expanded(os, raw@, match home {
            Some(h) => Some(h@),
            None => None,
        }) {
            Ok(p) => r matches Ok(s) && s@ == p,
            Err(e) => r == Err::<String, PathError>(e),
        },
{
    let t = trim_str(raw);
    if t.is_empty() {
        return Err(PathError::Empty);
    }
    let home_relative = same_text(t, "~") || has_prefix(t, "~/");
    proof {
        reveal_strlit("~");
        reveal_strlit("~/");
        assert("~"@ =~= seq!['~']);
        assert("~/"@ =~= seq!['~', '/']);
        assert(home_relative == is_home_relative(t@));
    }
    let p = if home_relative {
        match home {
            Some(h) => {
                let v = chars_of(t);
                let mut p = owned(h);
                let rest = string_from_chars(&v, 1, v.len());
                assert(v@.subrange(1, v.len() as int) =~= t@.skip(1));
                push_text(&mut p, rest.as_str());
                p
            },
            None => return Err(PathError::NoHome),
        }
    } else {
        owned(t)
    };
    if is_absolute_path(os, p.as_str()) {
        Ok(p)
    } else {
        Err(PathError::NotAbsolute)
    }
}

/// The custom notes directory that the `data_dir` setting `setting` names:
/// `None` (the application data directory) when it is blank.
pub fn custom_notes_dir(os: TargetOs, setting: &str, home: Option<&str>) -> (r: Result<
    Option<String>,
    PathError,
>)
    ensures
        trim(setting@).len() == 0 ==> r == Ok::<Option<String>, PathError>(None),
        trim(setting@).len() > 0 ==> match expanded(os, setting@, match home {
            Some(h) => Some(h@),
            None => None,
        }) {
            Ok(p) => r matches Ok(Some(s)) && s@ == p,
            Err(e) => r == Err::<Option<String>, PathError>(e),
        },
{
    if trim_str(setting).is_empty() {
        return Ok(None);
    }
    match expand_dir(os, setting, home) {
        Ok(p) => Ok(Some(p)),
        Err(e) => Err(e),
    }
}

/// Name of the file that holds note `id` while it is edited externally.
pub open spec fn edit_file(id: Seq<char>) -> Seq<char> {
    "edit-"@ + id + ".md"@
}

/// Name of the file that holds note `id` while it is edited externally.
pub fn edit_file_name(id: &str) -> (r: String)
    ensures
        r@ == edit_file(id@),
        r@ == "edit-"@ + id@ + ".md"@,
{
    let mut s = owned("edit-");
    push_text(&mut s, id);
    push_text(&mut s, ".md");
    s
}

/// `name` is that of an edit file: `edit-` first and `.md` last.
pub open spec fn is_edit_file(name: Seq<char>) -> bool {
    starts_with(name, "edit-"@) && ends_with(name, ".md"@)
}

/// Whether `name` is that of an edit file (these move along when the notes
/// directory changes).
pub fn is_edit_file_name(name: &str) -> (r: bool)
    ensures
        r == is_edit_file(name@),
{
    has_prefix(name, "edit-") && has_suffix(name, ".md")
}

/// Every edit file name is recognised as one.
pub proof fn law_edit_file_name_recognized(id: Seq<char>)
    ensures
        is_edit_file(edit_file(id)),
{
    let n = edit_file(id);
    assert(n.take("edit-"@.len() as int) =~= "edit-"@);
    assert(n.skip(n.len() - ".md"@.len()) =~= ".md"@);
}

/// `ds` with `e` appended unless it is there already.
pub open spec fn with_dir(ds: Seq<Seq<char>>, e: Seq<char>) -> Seq<Seq<char>> {
    if ds.contains(e) {
        ds
    } else {
        ds.push(e)
    }
}

/// Directories searched for a bare program name: those of `PATH` (the value
/// `path_var`) in order, then the usual package-manager directories that it
/// lacks, since GUI applications start with a short `PATH`.
pub open spec fn search_dirs(path_var: Seq<char>) -> Seq<Seq<char>> {
    with_dir(
        with_dir(with_dir(split_on(path_var, ':'), "/opt/homebrew/bin"@), "/usr/local/bin"@),
        "/opt/local/bin"@,
    )
}

/// Paths to try, in order, for the program `name`: `name` itself when it
/// holds a `/`, else `name` in each of the search directories.
pub open spec fn exe_paths(name: Seq<char>, path_var: Seq<char>) -> Seq<Seq<char>> {
    if name.contains('/') {
        seq![name]
    } else {
        search_dirs(path_var).map_values(|d: Seq<char>| d + "/"@ + name)
    }
}

/// The search directories are those of `PATH` in their order, followed by
/// at most three more, and `/opt/homebrew/bin`, `/usr/local/bin` and
/// `/opt/local/bin` are always among them.
pub proof fn law_search_dirs(path_var: Seq<char>)
    ensures
        ({
            let d = search_dirs(path_var);
            let p = split_on(path_var, ':');
            &&& p.len() <= d.len() <= p.len() + 3
            &&& forall|i: int| 0 <= i < p.len() ==> #[trigger] d[i] == p[i]
            &&& d.contains("/opt/homebrew/bin"@)
            &&& d.contains("/usr/local/bin"@)
            &&& d.contains("/opt/local/bin"@)
        }),
{
    let p = split_on(path_var, ':');
    let a = with_dir(p, "/opt/homebrew/bin"@);
    let b = with_dir(a, "/usr/local/bin"@);
    let d = with_dir(b, "/opt/local/bin"@);
    lemma_with_dir(p, "/opt/homebrew/bin"@);
    lemma_with_dir(a, "/usr/local/bin"@);
    lemma_with_dir(b, "/opt/local/bin"@);
    if a.contains("/opt/homebrew/bin"@) {
        let k = choose|k: int| 0 <= k < a.len() && a[k] == "/opt/homebrew/bin"@;
        assert(b[k] == a[k] && d[k] == b[k]);
    }
    if b.contains("/usr/local/bin"@) {
        let k = choose|k: int| 0 <= k < b.len() && b[k] == "/usr/local/bin"@;
        assert(d[k] == b[k]);
    }
    assert forall|i: int| 0 <= i < p.len() implies #[trigger] d[i] == p[i] by {
        assert(a[i] == p[i]);
        assert(b[i] == a[i]);
    }
}

/// `with_dir` keeps what was there and ends up holding `e`.
proof fn lemma_with_dir(ds: Seq<Seq<char>>, e: Seq<char>)
    ensures
        ds.len() <= with_dir(ds, e).len() <= ds.len() + 1,
        forall|i: int| 0 <= i < ds.len() ==> #[trigger] with_dir(ds, e)[i] == ds[i],
        with_dir(ds, e).contains(e),
{
    if !ds.contains(e) {
        assert(ds.push(e)[ds.len() as int] == e);
    }
}

/// Appends `e` to `ds` unless it is there already.
fn add_dir(ds: &mut Vec<String>, e: &str)
    ensures
        views(final(ds)@) == with_dir(views(old(ds)@), e@),
{
    let mut i: usize = 0;
    while i < ds.len()
        invariant
            i <= ds.len(),
            forall|k: int| 0 <= k < i ==> #[trigger] views(ds@)[k] != e@,
        decreases ds.len() - i,
    {
        if same_text(ds[i].as_str(), e) {
            assert(views(ds@)[i as int] == e@);
            assert(views(ds@).contains(e@));
            return;
        }
        i = i + 1;
    }
    assert(!views(ds@).contains(e@));
    let ghost before = views(ds@);
    ds.push(owned(e));
    assert(views(ds@) =~= before.push(e@));
}

/// Paths to try, in order, when looking for the program `name` (`find_exe`
/// takes the first that is an executable file), with `path_var` the value
/// of `PATH` (empty when unset).
pub fn exe_candidates(name: &str, path_var: &str) -> (r: Vec<String>)
    ensures
        views(r@) == exe_paths(name@, path_var@),
{
    if has_char(name, '/') {
        let mut r: Vec<String> = Vec::new();
        r.push(owned(name));
        assert(views(r@) =~= seq![name@]);
        return r;
    }
    let mut dirs = split_on_char(path_var, ':');
    add_dir(&mut dirs, "/opt/homebrew/bin");
    add_dir(&mut dirs, "/usr/local/bin");
    add_dir(&mut dirs, "/opt/local/bin");
    let mut out: Vec<String> = Vec::new();
    let mut i: usize = 0;
    while i < dirs.len()
        invariant
            i <= dirs.len(),
            views(dirs@) == search_dirs(path_var@),
            views(out@) == views(dirs@).take(i as int).map_values(
                |d: Seq<char>| d + "/"@ + name@,
            ),
        decreases dirs.len() - i,
    {
        let mut p = dirs[i].clone();
        push_text(&mut p, "/");
        push_text(&mut p, name);
        let ghost before = views(out@);
        let ghost pv = p@;
        assert(pv == views(dirs@)[i as int] + "/"@ + name@);
        out.push(p);
        assert(views(out@) =~= before.push(pv));
        assert(views(dirs@).take(i + 1) =~= views(dirs@).take(i as int).push(views(dirs@)[i as int]));
        assert(views(out@) =~= views(dirs@).take(i + 1).map_values(
            |d: Seq<char>| d + "/"@ + name@,
        ));
        i = i + 1;
    }
    assert(views(dirs@).take(dirs.len() as int) =~= views(dirs@));
    out
}

/// Where the executable `exe` of the application bundle `app` would be, in
/// `/Applications` and then in `home/Applications` (`gui_exe`).
pub fn gui_bundle_paths(app: &str, exe: &str, home: &str) -> (r: Vec<String>)
    ensures
        views(r@) == seq![
            "/Applications/"@ + app@ + ".app/Contents/MacOS/"@ + exe@,
            home@ + "/Applications/"@ + app@ + ".app/Contents/MacOS/"@ + exe@,
        ],
{
    let mut first = owned("/Applications/");
    push_text(&mut first, app);
    push_text(&mut first, ".app/Contents/MacOS/");
    push_text(&mut first, exe);
    let mut second = owned(home);
    push_text(&mut second, "/Applications/");
    push_text(&mut second, app);
    push_text(&mut second, ".app/Contents/MacOS/");
    push_text(&mut second, exe);
    let mut r: Vec<String> = Vec::new();
    r.push(first);
    r.push(second);
    assert(views(r@) =~= seq![
        "/Applications/"@ + app@ + ".app/Contents/MacOS/"@ + exe@,
        home@ + "/Applications/"@ + app@ + ".app/Contents/MacOS/"@ + exe@,
    ]);
    r
}

/// Whether a file with Unix permission bits `mode` may be run by someone:
/// it is a regular file and one of its three execute bits is set.
pub fn is_runnable(is_file: bool, mode: u32) -> (r: bool)
    ensures
        r == (is_file && (mode & 0o111) != 0),
{
    is_file && (mode & 0o111) != 0
}

/// A directory setting that expands at all expands to a path absolute on
/// that system, and that path, when it has no white space at either end,
/// expands to itself.
pub proof fn law_expand_dir_settles(os: TargetOs, raw: Seq<char>, home: Option<Seq<char>>)
    ensures
        expanded(os, raw, home) matches Ok(p) ==> is_absolute_on(os, p),
        expanded(os, raw, home) matches Ok(p) ==> (trim(p) == p ==> expanded(os, p, home) == Ok::<
            Seq<char>,
            PathError,
        >(p)),
{
    if let Ok(p) = expanded(os, raw, home) {
        if trim(p) == p {
            assert(p.len() > 0 && p[0] != '~') by {
                if os == TargetOs::Windows && is_unc(p) {
                    assert(p.len() >= 2);
                }
            }
            assert(p != seq!['~']);
            if p.len() >= 2 {
                assert(p.take(2)[0] == p[0]);
            }
            assert(!starts_with(p, seq!['~', '/']));
        }
    }
}

/// What moving the notes to another directory does with the files.
#[derive(Clone, Copy, Debug, PartialEq, Eq, Structural)]
pub struct Relocation {
    /// Merge the current notes into the store of the destination.
    pub merge_notes: bool,
    /// Move pending edit files to the destination.
    pub move_edit_files: bool,
    /// Remove the store file the notes were read from.
    pub remove_old_store: bool,
}

/// The file moves of `set_data_dir`. `to_custom`: the destination is a
/// custom directory (else the application data directory); `has_store`: the
/// current store file could be located; `store_in_destination`: that file
/// already lies in the destination directory. A custom destination always
/// gets the merged notes and the edit files; the default one only when the
/// notes lived elsewhere. The old store goes when it lay elsewhere.
pub fn relocation_plan(to_custom: bool, has_store: bool, store_in_destination: bool) -> (r:
    Relocation)
    ensures
        r.merge_notes == (to_custom || (has_store && !store_in_destination)),
        r.move_edit_files == to_custom,
        r.remove_old_store == (has_store && !store_in_destination),
{
    let moves_away = has_store && !store_in_destination;
    Relocation {
        merge_notes: to_custom || moves_away,
        move_edit_files: to_custom,
        remove_old_store: moves_away,
    }
}

} // verus!
