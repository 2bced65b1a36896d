//! Which editor to run, and the commands that open it on a note's file in a
//! terminal window.

use vstd::prelude::*;

use crate::escape::{applescript_escape, applescript_escaped, shell_escape, shell_quoted};
use crate::settings::TargetOs;
use crate::text::{
    ascii_lowered, is_ascii_text, has_text, contains_text, join_from, joined, lowercase, owned, push_text, same_text,
    split_words, to_lowercase, trim, trim_str, views, words,
};

verus! {

/// A program to start and its arguments.
pub struct CommandSpec {
    pub program: String,
    pub args: Vec<String>,
}

/// `c` starts `program` with arguments `args`.
pub open spec fn runs(c: CommandSpec, program: Seq<char>, args: Seq<Seq<char>>) -> bool {
    c.program@ == program && views(c.args@) == args
}

/// Appends an owned copy of `s`.
fn push_item(v: &mut Vec<String>, s: &str)
    ensures
        views(final(v)@) == views(old(v)@).push(s@),
{
    let ghost before = views(v@);
    v.push(owned(s));
    assert(views(v@) =~= before.push(s@));
}

/// Appends copies of all of `w`.
fn push_all(v: &mut Vec<String>, w: &Vec<String>)
    ensures
        views(final(v)@) == views(old(v)@) + views(w@),
{
    let ghost start = views(v@);
    let mut i: usize = 0;
    while i < w.len()
        invariant
            i <= w.len(),
            views(v@) == start + views(w@).take(i as int),
        decreases w.len() - i,
    {
        let ghost before = views(v@);
        v.push(w[i].clone());
        assert(views(v@) =~= before.push(views(w@)[i as int]));
        assert(views(w@).take(i + 1) =~= views(w@).take(i as int).push(views(w@)[i as int]));
        i = i + 1;
    }
    assert(views(w@).take(w.len() as int) =~= views(w@));
}

// ---------------------------------------------------------------- editor

/// `t` as a one-element list when it is not empty.
pub open spec fn if_present(t: Seq<char>) -> Seq<Seq<char>> {
    if t.len() > 0 {
        seq![t]
    } else {
        Seq::<Seq<char>>::empty()
    }
}

/// `v` trimmed, as a one-element list when set and not blank.
pub open spec fn env_candidate(v: Option<Seq<char>>) -> Seq<Seq<char>> {
    match v {
        Some(t) => if_present(trim(t)),
        None => Seq::<Seq<char>>::empty(),
    }
}

/// Editor commands to try, in order: the setting, `VISUAL`, `EDITOR` (each
/// without surrounding white space, skipped when blank or unset), then
/// `nvim`, `vim`, `vi`, `nano`.
pub open spec fn editor_candidate_list(
    setting: Seq<char>,
    visual: Option<Seq<char>>,
    editor: Option<Seq<char>>,
) -> Seq<Seq<char>> {
    if_present(trim(setting)) + env_candidate(visual) + env_candidate(editor) + seq![
        "nvim"@,
        "vim"@,
        "vi"@,
        "nano"@,
    ]
}

/// The view of an optional string.
pub open spec fn opt_view(v: Option<&str>) -> Option<Seq<char>> {
    match v {
        Some(s) => Some(s@),
        None => None,
    }
}

/// Appends `t` without surrounding white space unless it is blank.
fn push_trimmed(v: &mut Vec<String>, t: &str)
    ensures
        views(final(v)@) == views(old(v)@) + if_present(trim(t@)),
{
    let u = trim_str(t);
    if !u.is_empty() {
        push_item(v, u);
    } else {
        assert(views(v@) =~= views(v@) + if_present(trim(t@)));
    }
}

/// The editor candidates, position by position: the trimmed setting when
/// not blank, then the trimmed `VISUAL` when set and not blank, then the
/// trimmed `EDITOR` likewise, then `nvim`, `vim`, `vi`, `nano`; nothing else.
pub proof fn law_editor_candidate_order(
    setting: Seq<char>,
    visual: Option<Seq<char>>,
    editor: Option<Seq<char>>,
)
    ensures
        ({
            let l = editor_candidate_list(setting, visual, editor);
            let ks: int = if trim(setting).len() > 0 { 1 } else { 0 };
            let kv: int = if visual is Some && trim(visual->0).len() > 0 { 1 } else { 0 };
            let ke: int = if editor is Some && trim(editor->0).len() > 0 { 1 } else { 0 };
            &&& l.len() == ks + kv + ke + 4
            &&& ks == 1 ==> l[0] == trim(setting)
            &&& kv == 1 ==> l[ks] == trim(visual->0)
            &&& ke == 1 ==> l[ks + kv] == trim(editor->0)
            &&& l[ks + kv + ke] == "nvim"@
            &&& l[ks + kv + ke + 1] == "vim"@
            &&& l[ks + kv + ke + 2] == "vi"@
            &&& l[ks + kv + ke + 3] == "nano"@
        }),
{
    let a = if_present(trim(setting));
    let b = env_candidate(visual);
    let c = env_candidate(editor);
    let d = seq!["nvim"@, "vim"@, "vi"@, "nano"@];
    let l = editor_candidate_list(setting, visual, editor);
    assert(l == a + b + c + d);
    let ks = a.len() as int;
    let kv = b.len() as int;
    let ke = c.len() as int;
    if ks == 1 {
        assert(l[0] == a[0]);
    }
    if kv == 1 {
        assert(l[ks] == b[0]);
    }
    if ke == 1 {
        assert(l[ks + kv] == c[0]);
    }
    assert(l[ks + kv + ke] == d[0]);
    assert(l[ks + kv + ke + 1] == d[1]);
    assert(l[ks + kv + ke + 2] == d[2]);
    assert(l[ks + kv + ke + 3] == d[3]);
}

/// Editor commands to try, in order (the first part of `resolve_editor`),
/// with `visual` and `editor` the values of `VISUAL` and `EDITOR` if set.
pub fn editor_candidates(setting: &str, visual: Option<&str>, editor: Option<&str>) -> (r: Vec<
    String,
>)
    ensures
        views(r@) == editor_candidate_list(setting@, opt_view(visual), opt_view(editor)),
{
    let mut v: Vec<String> = Vec::new();
    push_trimmed(&mut v, setting);
    let ghost a = views(v@);
    match visual {
        Some(t) => push_trimmed(&mut v, t),
        None => {},
    }
    assert(views(v@) =~= a + env_candidate(opt_view(visual)));
    let ghost b = views(v@);
    match editor {
        Some(t) => push_trimmed(&mut v, t),
        None => {},
    }
    assert(views(v@) =~= b + env_candidate(opt_view(editor)));
    let ghost c = views(v@);
    push_item(&mut v, "nvim");
    push_item(&mut v, "vim");
    push_item(&mut v, "vi");
    push_item(&mut v, "nano");
    assert(views(v@) =~= c + seq!["nvim"@, "vim"@, "vi"@, "nano"@]);
    assert(views(v@) =~= editor_candidate_list(setting@, opt_view(visual), opt_view(editor)));
    v
}

/// The program of an editor command: its first word (`None` when blank).
pub fn command_program(cand: &str) -> (r: Option<String>)
    ensures
        words(cand@).len() == 0 ==> r is None,
        words(cand@).len() > 0 ==> (r matches Some(p) && p@ == words(cand@)[0]),
{
    let ws = split_words(cand);
    if ws.len() == 0 {
        None
    } else {
        assert(views(ws@)[0] == ws@[0]@);
        Some(ws[0].clone())
    }
}

/// The editor command with its program replaced by `path`: `path`, then
/// the other words of `cand` separated by single spaces.
pub open spec fn editor_line(path: Seq<char>, cand: Seq<char>) -> Seq<char> {
    let ws = words(cand);
    if ws.len() <= 1 {
        path
    } else {
        path + " "@ + joined(ws.skip(1), " "@)
    }
}

/// The editor that `resolve_editor` settles on: for the first candidate
/// with a program that was found (at `found[i]`), that path with the
/// candidate's flags; `vi` when none was found.
pub open spec fn chosen_editor(cands: Seq<Seq<char>>, found: Seq<Option<Seq<char>>>) -> Seq<char>
    decreases cands.len(),
{
    if cands.len() == 0 || found.len() == 0 {
        "vi"@
    } else if words(cands[0]).len() > 0 && found[0] is Some {
        editor_line(found[0]->0, cands[0])
    } else {
        chosen_editor(cands.drop_first(), found.drop_first())
    }
}

/// Candidate `i` has a program and that program was found.
pub open spec fn is_hit(cands: Seq<Seq<char>>, found: Seq<Option<Seq<char>>>, i: int) -> bool {
    0 <= i < cands.len() && i < found.len() && words(cands[i]).len() > 0 && found[i] is Some
}

/// The editor chosen is the first candidate whose program was found, with
/// its path in front of the candidate's flags; `vi` when there is none.
pub proof fn law_chosen_editor_first_hit(cands: Seq<Seq<char>>, found: Seq<Option<Seq<char>>>)
    ensures
        forall|i: int|
            is_hit(cands, found, i) && (forall|k: int| 0 <= k < i ==> !is_hit(cands, found, k))
                ==> #[trigger] chosen_editor(cands, found) == editor_line(found[i]->0, cands[i]),
        (forall|k: int| !is_hit(cands, found, k)) ==> chosen_editor(cands, found) == "vi"@,
        chosen_editor(cands, found) == "vi"@ || exists|i: int| #[trigger]
            is_hit(cands, found, i) && chosen_editor(cands, found) == editor_line(
                found[i]->0,
                cands[i],
            ),
    decreases cands.len(),
{
    if cands.len() > 0 && found.len() > 0 {
        let c2 = cands.drop_first();
        let f2 = found.drop_first();
        law_chosen_editor_first_hit(c2, f2);
        assert forall|i: int| 0 <= i < c2.len() implies (is_hit(c2, f2, i) <==> #[trigger] is_hit(
            cands,
            found,
            i + 1,
        )) by {
            assert(c2[i] == cands[i + 1]);
            if i < f2.len() {
                assert(f2[i] == found[i + 1]);
            }
        }
        if is_hit(cands, found, 0) {
        } else {
            assert forall|i: int|
                is_hit(cands, found, i) && (forall|k: int| 0 <= k < i ==> !is_hit(cands, found, k))
                    implies #[trigger] chosen_editor(cands, found) == editor_line(
                found[i]->0,
                cands[i],
            ) by {
                assert(i > 0);
                assert(is_hit(c2, f2, i - 1));
                assert forall|k: int| 0 <= k < i - 1 implies !is_hit(c2, f2, k) by {
                    assert(!is_hit(cands, found, k + 1));
                }
                assert(c2[i - 1] == cands[i]);
                assert(f2[i - 1] == found[i]);
            }
            if forall|k: int| !is_hit(cands, found, k) {
                assert forall|k: int| !is_hit(c2, f2, k) by {
                    if 0 <= k < c2.len() {
                        assert(!is_hit(cands, found, k + 1));
                    }
                }
            }
            if chosen_editor(cands, found) != "vi"@ {
                let j = choose|j: int| #[trigger]
                    is_hit(c2, f2, j) && chosen_editor(c2, f2) == editor_line(f2[j]->0, c2[j]);
                assert(is_hit(cands, found, j + 1));
                assert(c2[j] == cands[j + 1]);
                assert(f2[j] == found[j + 1]);
            }
        }
    }
}

/// Views of optional strings.
pub open spec fn opt_views(v: Seq<Option<String>>) -> Seq<Option<Seq<char>>> {
    v.map_values(
        |o: Option<String>|
            match o {
                Some(s) => Some(s@),
                None => None,
            },
    )
}

/// `cand` with its program replaced by `path`.
pub fn editor_with_path(path: &str, cand: &str) -> (r: String)
    ensures
        r@ == editor_line(path@, cand@),
{
    let ws = split_words(cand);
    let mut out = owned(path);
    if ws.len() > 1 {
        push_text(&mut out, " ");
        let rest = join_from(&ws, 1, " ");
        push_text(&mut out, rest.as_str());
    }
    out
}

/// The editor to run (`resolve_editor`): `found[i]` is where the program of
/// `cands[i]` was found as an executable, if it was.
pub fn choose_editor(cands: &Vec<String>, found: &Vec<Option<String>>) -> (r: String)
    ensures
        r@ == chosen_editor(views(cands@), opt_views(found@)),
{
    let mut i: usize = 0;
    assert(views(cands@).skip(0) =~= views(cands@));
    assert(opt_views(found@).skip(0) =~= opt_views(found@));
    while i < cands.len() && i < found.len()
        invariant
            i <= cands.len(),
            i <= found.len(),
            chosen_editor(views(cands@), opt_views(found@)) == chosen_editor(
                views(cands@).skip(i as int),
                opt_views(found@).skip(i as int),
            ),
        decreases cands.len() - i,
    {
        let ghost cs = views(cands@).skip(i as int);
        let ghost fs = opt_views(found@).skip(i as int);
        assert(cs[0] == cands@[i as int]@);
        let ws = split_words(cands[i].as_str());
        match &found[i] {
            Some(p) => {
                assert(fs[0] == Some(p@));
                if ws.len() > 0 {
                    return editor_with_path(p.as_str(), cands[i].as_str());
                }
            },
            None => {
                assert(fs[0] is None);
            },
        }
        assert(cs.drop_first() =~= views(cands@).skip(i + 1));
        assert(fs.drop_first() =~= opt_views(found@).skip(i + 1));
        i = i + 1;
    }
    owned("vi")
}

// ---------------------------------------------------------------- macOS

/// AppleScript that runs `cmd` (escaped) in Terminal.app.
pub open spec fn terminal_script(cmd: Seq<char>) -> Seq<char> {
    "tell application \"Terminal\" to do script \""@ + applescript_escaped(cmd)
        + "\"\ntell application \"Terminal\" to activate"@
}

/// AppleScript that runs `cmd` (escaped) in a new iTerm2 window.
pub open spec fn iterm_script(cmd: Seq<char>) -> Seq<char> {
    "tell application \"iTerm2\"\ncreate window with default profile command \""@
        + applescript_escaped(cmd) + "\"\nactivate\nend tell"@
}

/// How a terminal application on macOS is started: its command-line name,
/// its bundle name, the executable inside the bundle, and the arguments that
/// come before the command it should run.
pub open spec fn gui_terminal(name: Seq<char>, lower: Seq<char>) -> (
    Seq<char>,
    Seq<char>,
    Seq<char>,
    Seq<Seq<char>>,
) {
    if lower == "ghostty"@ {
        ("ghostty"@, "Ghostty"@, "ghostty"@, seq!["-e"@])
    } else if lower == "alacritty"@ {
        ("alacritty"@, "Alacritty"@, "alacritty"@, seq!["-e"@])
    } else if lower == "kitty"@ {
        ("kitty"@, "kitty"@, "kitty"@, Seq::<Seq<char>>::empty())
    } else if lower == "wezterm"@ {
        ("wezterm"@, "WezTerm"@, "wezterm"@, seq!["start"@, "--"@])
    } else if lower == "xterm"@ {
        ("xterm"@, "XQuartz"@, "xterm"@, seq!["-e"@])
    } else {
        (name, name, lower, seq!["-e"@])
    }
}

/// How to open a terminal on macOS.
pub enum MacLaunch {
    /// Run this command (`osascript` with a script).
    Run(CommandSpec),
    /// Start a terminal application: the first of `cli` on `PATH` and the
    /// bundle executables that exists, else `open -na app`.
    App { cli: String, app: String, exe: String, prefix: Vec<String> },
}

/// `osascript -e script`.
fn osascript(script: String) -> (r: CommandSpec)
    ensures
        runs(r, "osascript"@, seq!["-e"@, script@]),
{
    let mut args: Vec<String> = Vec::new();
    push_item(&mut args, "-e");
    let ghost before = views(args@);
    let ghost sv = script@;
    args.push(script);
    assert(views(args@) =~= before.push(sv));
    assert(views(args@) =~= seq!["-e"@, sv]);
    CommandSpec { program: owned("osascript"), args }
}

/// The launch of terminal application `app_name` (without surrounding white
/// space; blank means Terminal.app) to run the shell command `cmd`
/// (`open_terminal_macos`).
pub fn macos_launch(app_name: &str, cmd: &str) -> (r: MacLaunch)
    ensures
        ({
            let name = trim(app_name@);
            if name.len() == 0 || name == "Terminal"@ {
                r matches MacLaunch::Run(c) && runs(c, "osascript"@, seq!["-e"@, terminal_script(cmd@)])
            } else if name == "iTerm2"@ || name == "iTerm"@ {
                r matches MacLaunch::Run(c) && runs(c, "osascript"@, seq!["-e"@, iterm_script(cmd@)])
            } else {
                r matches MacLaunch::App { cli, app, exe, prefix } && (cli@, app@, exe@, views(prefix@))
                    == gui_terminal(name, lowercase(name)) && (is_ascii_text(name) ==> lowercase(name)
                    == ascii_lowered(name))
            }
        }),
        ({
            let name = trim(app_name@);
            let l = lowercase(name);
            let gui = !(name.len() == 0 || name == "Terminal"@ || name == "iTerm2"@ || name
                == "iTerm"@);
            &&& (name.len() == 0 || name == "Terminal"@) ==> (r matches MacLaunch::Run(c) && runs(
                c,
                "osascript"@,
                seq![
                    "-e"@,
                    "tell application \"Terminal\" to do script \""@ + applescript_escaped(cmd@)
                        + "\"\ntell application \"Terminal\" to activate"@,
                ],
            ))
            &&& gui && l == "ghostty"@ ==> (r matches MacLaunch::App { cli, app, exe, prefix } && cli@
                == "ghostty"@ && app@ == "Ghostty"@ && exe@ == "ghostty"@ && views(prefix@)
                == seq!["-e"@])
            &&& gui && l == "alacritty"@ ==> (r matches MacLaunch::App { cli, app, exe, prefix } && cli@
                == "alacritty"@ && app@ == "Alacritty"@ && exe@ == "alacritty"@ && views(prefix@)
                == seq!["-e"@])
            &&& gui && l == "kitty"@ ==> (r matches MacLaunch::App { cli, app, exe, prefix } && cli@
                == "kitty"@ && app@ == "kitty"@ && exe@ == "kitty"@ && views(prefix@).len() == 0)
            &&& gui && l == "wezterm"@ ==> (r matches MacLaunch::App { cli, app, exe, prefix } && cli@
                == "wezterm"@ && app@ == "WezTerm"@ && exe@ == "wezterm"@ && views(prefix@)
                == seq!["start"@, "--"@])
            &&& gui && l == "xterm"@ ==> (r matches MacLaunch::App { cli, app, exe, prefix } && cli@
                == "xterm"@ && app@ == "XQuartz"@ && exe@ == "xterm"@ && views(prefix@)
                == seq!["-e"@])
            &&& gui && l != "ghostty"@ && l != "alacritty"@ && l != "kitty"@ && l != "wezterm"@ && l
                != "xterm"@ ==> (r matches MacLaunch::App { cli, app, exe, prefix } && cli@ == name
                && app@ == name && exe@ == l && views(prefix@) == seq!["-e"@])
        }),
{
    let name = trim_str(app_name);
    if name.is_empty() || same_text(name, "Terminal") {
        let mut script = owned("tell application \"Terminal\" to do script \"");
        let esc = applescript_escape(cmd);
        push_text(&mut script, esc.as_str());
        push_text(&mut script, "\"\ntell application \"Terminal\" to activate");
        return MacLaunch::Run(osascript(script));
    }
    if same_text(name, "iTerm2") || same_text(name, "iTerm") {
        let mut script = owned("tell application \"iTerm2\"\ncreate window with default profile command \"");
        let esc = applescript_escape(cmd);
        push_text(&mut script, esc.as_str());
        push_text(&mut script, "\"\nactivate\nend tell");
        return MacLaunch::Run(osascript(script));
    }
    let lower = to_lowercase(name);
    let l = lower.as_str();
    proof {
        reveal_strlit("ghostty");
        reveal_strlit("alacritty");
        reveal_strlit("kitty");
        reveal_strlit("wezterm");
        reveal_strlit("xterm");
        assert("ghostty"@[0] != "alacritty"@[0]);
        assert("ghostty"@ != "alacritty"@);
        assert("ghostty"@[0] != "kitty"@[0]);
        assert("ghostty"@ != "kitty"@);
        assert("ghostty"@[0] != "wezterm"@[0]);
        assert("ghostty"@ != "wezterm"@);
        assert("ghostty"@[0] != "xterm"@[0]);
        assert("ghostty"@ != "xterm"@);
        assert("alacritty"@[0] != "kitty"@[0]);
        assert("alacritty"@ != "kitty"@);
        assert("alacritty"@[0] != "wezterm"@[0]);
        assert("alacritty"@ != "wezterm"@);
        assert("alacritty"@[0] != "xterm"@[0]);
        assert("alacritty"@ != "xterm"@);
        assert("kitty"@[0] != "wezterm"@[0]);
        assert("kitty"@ != "wezterm"@);
        assert("kitty"@[0] != "xterm"@[0]);
        assert("kitty"@ != "xterm"@);
        assert("wezterm"@[0] != "xterm"@[0]);
        assert("wezterm"@ != "xterm"@);
    }
    let mut prefix: Vec<String> = Vec::new();
    if same_text(l, "ghostty") {
        push_item(&mut prefix, "-e");
        MacLaunch::App { cli: owned("ghostty"), app: owned("Ghostty"), exe: owned("ghostty"), prefix }
    } else if same_text(l, "alacritty") {
        push_item(&mut prefix, "-e");
        MacLaunch::App {
            cli: owned("alacritty"),
            app: owned("Alacritty"),
            exe: owned("alacritty"),
            prefix,
        }
    } else if same_text(l, "kitty") {
        assert(views(prefix@) =~= Seq::<Seq<char>>::empty());
        MacLaunch::App { cli: owned("kitty"), app: owned("kitty"), exe: owned("kitty"), prefix }
    } else if same_text(l, "wezterm") {
        push_item(&mut prefix, "start");
        push_item(&mut prefix, "--");
        assert(views(prefix@) =~= seq!["start"@, "--"@]);
        MacLaunch::App { cli: owned("wezterm"), app: owned("WezTerm"), exe: owned("wezterm"), prefix }
    } else if same_text(l, "xterm") {
        push_item(&mut prefix, "-e");
        MacLaunch::App { cli: owned("xterm"), app: owned("XQuartz"), exe: owned("xterm"), prefix }
    } else {
        push_item(&mut prefix, "-e");
        MacLaunch::App { cli: owned(name), app: owned(name), exe: lower.clone(), prefix }
    }
}

/// `bin`, then `prefix`, then `sh -c cmd`: a terminal executable running `cmd`.
pub fn terminal_exec_command(bin: &str, prefix: &Vec<String>, cmd: &str) -> (r: CommandSpec)
    ensures
        runs(r, bin@, views(prefix@) + seq!["sh"@, "-c"@, cmd@]),
{
    let mut args: Vec<String> = Vec::new();
    push_all(&mut args, prefix);
    push_item(&mut args, "sh");
    push_item(&mut args, "-c");
    push_item(&mut args, cmd);
    assert(views(args@) =~= views(prefix@) + seq!["sh"@, "-c"@, cmd@]);
    CommandSpec { program: owned(bin), args }
}

/// `open -na app --args`, then `prefix`, then `sh -c cmd`: a new instance of
/// the application running `cmd` (the last resort when no executable of it
/// was found).
pub fn open_app_command(app: &str, prefix: &Vec<String>, cmd: &str) -> (r: CommandSpec)
    ensures
        runs(r, "open"@, seq!["-na"@, app@, "--args"@] + views(prefix@) + seq!["sh"@, "-c"@, cmd@]),
{
    let mut args: Vec<String> = Vec::new();
    push_item(&mut args, "-na");
    push_item(&mut args, app);
    push_item(&mut args, "--args");
    push_all(&mut args, prefix);
    push_item(&mut args, "sh");
    push_item(&mut args, "-c");
    push_item(&mut args, cmd);
    assert(views(args@) =~= seq!["-na"@, app@, "--args"@] + views(prefix@) + seq![
        "sh"@,
        "-c"@,
        cmd@,
    ]);
    CommandSpec { program: owned("open"), args }
}

// ---------------------------------------------------------------- any system

/// The shell command that edits `file` with `editor` and then closes the
/// shell.
pub open spec fn edit_command(editor: Seq<char>, file: Seq<char>) -> Seq<char> {
    editor + " "@ + shell_quoted(file) + "; exit"@
}

/// The shell command that edits `file` with `editor` and then closes the shell.
pub fn edit_command_line(editor: &str, file: &str) -> (r: String)
    ensures
        r@ == edit_command(editor@, file@),
        r@ == editor@ + " "@ + shell_quoted(file@) + "; exit"@,
        r@.take(editor@.len() as int) == editor@,
{
    proof {
        law_edit_command_starts_with_editor(editor@, file@);
    }
    let mut s = owned(editor);
    push_text(&mut s, " ");
    let q = shell_escape(file);
    push_text(&mut s, q.as_str());
    push_text(&mut s, "; exit");
    s
}

/// The edit command is the editor text unchanged, a space, the file as one
/// single-quoted shell word, and `; exit`; so it starts with the editor
/// text, and the shell reads the file back as written.
pub proof fn law_edit_command_starts_with_editor(editor: Seq<char>, file: Seq<char>)
    ensures
        edit_command(editor, file) == editor + " "@ + shell_quoted(file) + "; exit"@,
        edit_command(editor, file).take(editor.len() as int) == editor,
        crate::escape::shell_word_value(shell_quoted(file), false) == Some(file),
{
    assert((editor + " "@ + shell_quoted(file) + "; exit"@).take(editor.len() as int) =~= editor);
    crate::escape::law_shell_escape_reads_back(file);
}

/// How a terminal is opened on an editor session.
pub enum TerminalPlan {
    /// macOS: through `macos_launch`.
    Mac(MacLaunch),
    /// Start this command; fail with its error if it does not start.
    Run(CommandSpec),
    /// Start this command; if it does not start, fail with `failure`.
    Preferred { command: CommandSpec, failure: String },
    /// Start the first of these whose program is on `PATH` and starts; if
    /// none does, fail with `failure`.
    Search { commands: Vec<CommandSpec>, failure: String },
}

/// Arguments that make the terminal `term` run a command elsewhere than on
/// macOS: `--` for GNOME Terminal, none for kitty, `-e` for the others.
pub open spec fn exec_flags(term: Seq<char>) -> Seq<Seq<char>> {
    if contains_text(term, "gnome-terminal"@) {
        seq!["--"@]
    } else if term == "kitty"@ {
        Seq::<Seq<char>>::empty()
    } else {
        seq!["-e"@]
    }
}

/// What follows the flags: kitty gets the editor and file directly, the
/// others run the shell command through `sh -c`.
pub open spec fn exec_tail(term: Seq<char>, editor: Seq<char>, file: Seq<char>) -> Seq<Seq<char>> {
    if term == "kitty"@ {
        seq![editor, file]
    } else {
        seq!["sh"@, "-c"@, edit_command(editor, file)]
    }
}

/// `term`, `flags` and then what it runs (kitty: `editor file`; others:
/// `sh -c` with the edit command).
fn linux_command(term: &str, flags: Vec<String>, editor: &str, file: &str) -> (r: CommandSpec)
    ensures
        runs(r, term@, views(flags@) + exec_tail(term@, editor@, file@)),
{
    let mut args = flags;
    let ghost start = views(args@);
    if same_text(term, "kitty") {
        push_item(&mut args, editor);
        push_item(&mut args, file);
        assert(views(args@) =~= start + seq![editor@, file@]);
    } else {
        let cmd = edit_command_line(editor, file);
        push_item(&mut args, "sh");
        push_item(&mut args, "-c");
        push_item(&mut args, cmd.as_str());
        assert(views(args@) =~= start + seq!["sh"@, "-c"@, cmd@]);
    }
    CommandSpec { program: owned(term), args }
}

/// The terminals tried in order when none is set, with the flags that make
/// each run a command.
pub open spec fn fallback_terminals() -> Seq<(Seq<char>, Seq<Seq<char>>)> {
    seq![
        ("x-terminal-emulator"@, seq!["-e"@]),
        ("gnome-terminal"@, seq!["--"@]),
        ("konsole"@, seq!["-e"@]),
        ("alacritty"@, seq!["-e"@]),
        ("kitty"@, Seq::<Seq<char>>::empty()),
        ("xfce4-terminal"@, seq!["-e"@]),
        ("xterm"@, seq!["-e"@]),
    ]
}

/// Appends the fallback command for terminal `term` with flag list `flags`.
fn push_fallback(
    out: &mut Vec<CommandSpec>,
    term: &str,
    flag: Option<&str>,
    editor: &str,
    file: &str,
)
    ensures
        final(out)@.len() == old(out)@.len() + 1,
        forall|i: int| 0 <= i < old(out)@.len() ==> final(out)@[i] == old(out)@[i],
        runs(
            final(out)@.last(),
            term@,
            match flag {
                Some(f) => seq![f@],
                None => Seq::<Seq<char>>::empty(),
            } + exec_tail(term@, editor@, file@),
        ),
{
    let mut flags: Vec<String> = Vec::new();
    match flag {
        Some(f) => push_item(&mut flags, f),
        None => {},
    }
    assert(views(flags@) =~= match flag {
        Some(f) => seq![f@],
        None => Seq::<Seq<char>>::empty(),
    });
    let c = linux_command(term, flags, editor, file);
    out.push(c);
}

/// How `open_in_terminal` opens a terminal on `os` that runs `editor` on
/// `file`, with `pref` the terminal setting.
pub fn terminal_plan(os: TargetOs, editor: &str, file: &str, pref: &str) -> (r: TerminalPlan)
    ensures
        os == TargetOs::MacOs ==> (r matches TerminalPlan::Mac(m) && ({
            let name = trim(pref@);
            let cmd = edit_command(editor@, file@);
            if name.len() == 0 || name == "Terminal"@ {
                m matches MacLaunch::Run(c) && runs(c, "osascript"@, seq!["-e"@, terminal_script(cmd)])
            } else if name == "iTerm2"@ || name == "iTerm"@ {
                m matches MacLaunch::Run(c) && runs(c, "osascript"@, seq!["-e"@, iterm_script(cmd)])
            } else {
                m matches MacLaunch::App { cli, app, exe, prefix } && (cli@, app@, exe@, views(
                    prefix@,
                )) == gui_terminal(name, lowercase(name)) && (is_ascii_text(name) ==> lowercase(name)
                    == ascii_lowered(name))
            }
        })),
        os == TargetOs::Windows ==> (r matches TerminalPlan::Run(c) && runs(
            c,
            "cmd"@,
            seq!["/C"@, "start"@, ""@, editor@, file@],
        )),
        os == TargetOs::Other && trim(pref@).len() > 0 ==> ({
            let term = trim(pref@);
            r matches TerminalPlan::Preferred { command, failure } && runs(
                command,
                term,
                exec_flags(term) + exec_tail(term, editor@, file@),
            ) && failure@ == "cannot open terminal '"@ + term + "'"@
        }),
        os == TargetOs::Other && trim(pref@).len() == 0 ==> (r matches TerminalPlan::Search {
            commands,
            failure,
        } && commands@.len() == fallback_terminals().len() && (forall|i: int|
            0 <= i < commands@.len() ==> runs(
                #[trigger] commands@[i],
                fallback_terminals()[i].0,
                fallback_terminals()[i].1 + exec_tail(fallback_terminals()[i].0, editor@, file@),
            )) && failure@ == "no terminal emulator found"@),
        os == TargetOs::Other && trim(pref@).len() == 0 ==> (r matches TerminalPlan::Search {
            commands,
            ..
        } && commands@.len() == 7 && runs(
            commands@[0],
            "x-terminal-emulator"@,
            seq!["-e"@, "sh"@, "-c"@, editor@ + " "@ + shell_quoted(file@) + "; exit"@],
        ) && runs(
            commands@[1],
            "gnome-terminal"@,
            seq!["--"@, "sh"@, "-c"@, editor@ + " "@ + shell_quoted(file@) + "; exit"@],
        ) && runs(
            commands@[2],
            "konsole"@,
            seq!["-e"@, "sh"@, "-c"@, editor@ + " "@ + shell_quoted(file@) + "; exit"@],
        ) && runs(
            commands@[3],
            "alacritty"@,
            seq!["-e"@, "sh"@, "-c"@, editor@ + " "@ + shell_quoted(file@) + "; exit"@],
        ) && runs(commands@[4], "kitty"@, seq![editor@, file@]) && runs(
            commands@[5],
            "xfce4-terminal"@,
            seq!["-e"@, "sh"@, "-c"@, editor@ + " "@ + shell_quoted(file@) + "; exit"@],
        ) && runs(
            commands@[6],
            "xterm"@,
            seq!["-e"@, "sh"@, "-c"@, editor@ + " "@ + shell_quoted(file@) + "; exit"@],
        )),
        os == TargetOs::Other && trim(pref@).len() > 0 && trim(pref@) == "kitty"@ ==> (
        r matches TerminalPlan::Preferred { command, .. } && runs(
            command,
            "kitty"@,
            seq![editor@, file@],
        )),
        os == TargetOs::Other && trim(pref@).len() > 0 && trim(pref@) != "kitty"@ ==> (
        r matches TerminalPlan::Preferred { command, .. } && runs(
            command,
            trim(pref@),
            (if contains_text(trim(pref@), "gnome-terminal"@) {
                seq!["--"@]
            } else {
                seq!["-e"@]
            }) + seq!["sh"@, "-c"@, editor@ + " "@ + shell_quoted(file@) + "; exit"@],
        )),
{
    match os {
        TargetOs::MacOs => {
            let cmd = edit_command_line(editor, file);
            if trim_str(pref).is_empty() {
                let m = macos_launch("Terminal", cmd.as_str());
                proof {
                    reveal_strlit("Terminal");
                    crate::text::lemma_trim_plain("Terminal"@);
                }
                TerminalPlan::Mac(m)
            } else {
                TerminalPlan::Mac(macos_launch(pref, cmd.as_str()))
            }
        },
        TargetOs::Windows => {
            let mut args: Vec<String> = Vec::new();
            push_item(&mut args, "/C");
            push_item(&mut args, "start");
            push_item(&mut args, "");
            push_item(&mut args, editor);
            push_item(&mut args, file);
            assert(views(args@) =~= seq!["/C"@, "start"@, ""@, editor@, file@]);
            TerminalPlan::Run(CommandSpec { program: owned("cmd"), args })
        },
        TargetOs::Other => {
            let term = trim_str(pref);
            if !term.is_empty() {
                let mut flags: Vec<String> = Vec::new();
                if has_text(term, "gnome-terminal") {
                    push_item(&mut flags, "--");
                } else if same_text(term, "kitty") {
                } else {
                    push_item(&mut flags, "-e");
                }
                assert(views(flags@) =~= exec_flags(term@));
                let command = linux_command(term, flags, editor, file);
                proof {
                    reveal_strlit("kitty");
                    reveal_strlit("gnome-terminal");
                    let cmd = edit_command(editor@, file@);
                    if term@ == "kitty"@ {
                        assert(!contains_text(term@, "gnome-terminal"@));
                        assert(Seq::<Seq<char>>::empty() + seq![editor@, file@] =~= seq![
                            editor@,
                            file@,
                        ]);
                    }
                }
                let mut failure = owned("cannot open terminal '");
                push_text(&mut failure, term);
                push_text(&mut failure, "'");
                TerminalPlan::Preferred { command, failure }
            } else {
                let mut commands: Vec<CommandSpec> = Vec::new();
                push_fallback(&mut commands, "x-terminal-emulator", Some("-e"), editor, file);
                push_fallback(&mut commands, "gnome-terminal", Some("--"), editor, file);
                push_fallback(&mut commands, "konsole", Some("-e"), editor, file);
                push_fallback(&mut commands, "alacritty", Some("-e"), editor, file);
                push_fallback(&mut commands, "kitty", None, editor, file);
                push_fallback(&mut commands, "xfce4-terminal", Some("-e"), editor, file);
                push_fallback(&mut commands, "xterm", Some("-e"), editor, file);
                assert forall|i: int| 0 <= i < commands@.len() implies runs(
                    #[trigger] commands@[i],
                    fallback_terminals()[i].0,
                    fallback_terminals()[i].1 + exec_tail(fallback_terminals()[i].0, editor@, file@),
                ) by {
                    assert(seq!["-e"@] =~= seq!["-e"@] + Seq::<Seq<char>>::empty());
                }
                proof {
                    reveal_strlit("kitty");
                    reveal_strlit("x-terminal-emulator");
                    reveal_strlit("gnome-terminal");
                    reveal_strlit("konsole");
                    reveal_strlit("alacritty");
                    reveal_strlit("xfce4-terminal");
                    reveal_strlit("xterm");
                    let cmd = edit_command(editor@, file@);
                    assert("x-terminal-emulator"@.len() != "kitty"@.len() || "x-terminal-emulator"@[1] != "kitty"@[1]);
                    assert("x-terminal-emulator"@ != "kitty"@);
                    assert("gnome-terminal"@.len() != "kitty"@.len() || "gnome-terminal"@[1] != "kitty"@[1]);
                    assert("gnome-terminal"@ != "kitty"@);
                    assert("konsole"@.len() != "kitty"@.len() || "konsole"@[1] != "kitty"@[1]);
                    assert("konsole"@ != "kitty"@);
                    assert("alacritty"@.len() != "kitty"@.len() || "alacritty"@[1] != "kitty"@[1]);
                    assert("alacritty"@ != "kitty"@);
                    assert("xfce4-terminal"@.len() != "kitty"@.len() || "xfce4-terminal"@[1] != "kitty"@[1]);
                    assert("xfce4-terminal"@ != "kitty"@);
                    assert("xterm"@.len() != "kitty"@.len() || "xterm"@[1] != "kitty"@[1]);
                    assert("xterm"@ != "kitty"@);
                    assert(seq!["-e"@] + seq!["sh"@, "-c"@, cmd] =~= seq!["-e"@, "sh"@, "-c"@, cmd]);
                    assert(seq!["--"@] + seq!["sh"@, "-c"@, cmd] =~= seq!["--"@, "sh"@, "-c"@, cmd]);
                    assert(Seq::<Seq<char>>::empty() + seq![editor@, file@] =~= seq![editor@, file@]);
                    assert(runs(commands@[0], fallback_terminals()[0].0, fallback_terminals()[0].1
                        + exec_tail(fallback_terminals()[0].0, editor@, file@)));
                    assert(runs(commands@[1], fallback_terminals()[1].0, fallback_terminals()[1].1
                        + exec_tail(fallback_terminals()[1].0, editor@, file@)));
                    assert(runs(commands@[2], fallback_terminals()[2].0, fallback_terminals()[2].1
                        + exec_tail(fallback_terminals()[2].0, editor@, file@)));
                    assert(runs(commands@[3], fallback_terminals()[3].0, fallback_terminals()[3].1
                        + exec_tail(fallback_terminals()[3].0, editor@, file@)));
                    assert(runs(commands@[4], fallback_terminals()[4].0, fallback_terminals()[4].1
                        + exec_tail(fallback_terminals()[4].0, editor@, file@)));
                    assert(runs(commands@[5], fallback_terminals()[5].0, fallback_terminals()[5].1
                        + exec_tail(fallback_terminals()[5].0, editor@, file@)));
                    assert(runs(commands@[6], fallback_terminals()[6].0, fallback_terminals()[6].1
                        + exec_tail(fallback_terminals()[6].0, editor@, file@)));
                }
                TerminalPlan::Search { commands, failure: owned("no terminal emulator found") }
            }
        },
    }
}

// ---------------------------------------------------------------- listing

/// A terminal that may be installed: its display name, the paths whose
/// existence shows it is, and the commands whose presence on `PATH` does.
pub struct TerminalProbe {
    pub name: String,
    pub bundle_paths: Vec<String>,
    pub commands: Vec<String>,
}

/// `p` has display name `name`, bundle paths `paths` and commands `cmds`.
pub open spec fn probe_is(
    p: TerminalProbe,
    name: Seq<char>,
    paths: Seq<Seq<char>>,
    cmds: Seq<Seq<char>>,
) -> bool {
    p.name@ == name && views(p.bundle_paths@) == paths && views(p.commands@) == cmds
}

/// Directories that hold application bundles on macOS.
pub open spec fn bundle_dirs(home: Seq<char>) -> Seq<Seq<char>> {
    seq![
        "/Applications"@,
        home + "/Applications"@,
        "/System/Applications"@,
        "/System/Applications/Utilities"@,
    ]
}

/// Terminals known on macOS: display name, bundle, command (if any).
pub open spec fn macos_terminals() -> Seq<(Seq<char>, Seq<char>, Seq<Seq<char>>)> {
    seq![
        ("Terminal"@, "Terminal.app"@, Seq::<Seq<char>>::empty()),
        ("iTerm2"@, "iTerm.app"@, seq!["iterm2"@]),
        ("Alacritty"@, "Alacritty.app"@, seq!["alacritty"@]),
        ("kitty"@, "kitty.app"@, seq!["kitty"@]),
        ("WezTerm"@, "WezTerm.app"@, seq!["wezterm"@]),
        ("Ghostty"@, "Ghostty.app"@, seq!["ghostty"@]),
    ]
}

/// Terminals known elsewhere than on macOS and Windows, each found by its command.
pub open spec fn unix_terminals() -> Seq<Seq<char>> {
    seq![
        "gnome-terminal"@,
        "konsole"@,
        "alacritty"@,
        "kitty"@,
        "xfce4-terminal"@,
        "xterm"@,
        "wezterm"@,
    ]
}

/// Where the bundle `bundle` may lie on macOS: `/Applications`, the home
/// directory's `Applications`, `/System/Applications` and its `Utilities`.
pub open spec fn bundle_locations(home: Seq<char>, bundle: Seq<char>) -> Seq<Seq<char>> {
    seq![
        "/Applications/"@ + bundle,
        home + "/Applications/"@ + bundle,
        "/System/Applications/"@ + bundle,
        "/System/Applications/Utilities/"@ + bundle,
    ]
}

/// The bundle `bundle` in each of the bundle directories.
fn bundle_paths_for(bundle: &str, home: &str) -> (r: Vec<String>)
    ensures
        views(r@) == bundle_dirs(home@).map_values(|d: Seq<char>| d + "/"@ + bundle@),
        views(r@) == bundle_locations(home@, bundle@),
{
    proof {
        reveal_strlit("/Applications");
        reveal_strlit("/");
        reveal_strlit("/Applications/");
        reveal_strlit("/System/Applications");
        reveal_strlit("/System/Applications/");
        reveal_strlit("/System/Applications/Utilities");
        reveal_strlit("/System/Applications/Utilities/");
        assert("/Applications"@ + "/"@ =~= "/Applications/"@);
        assert("/System/Applications"@ + "/"@ =~= "/System/Applications/"@);
        assert("/System/Applications/Utilities"@ + "/"@ =~= "/System/Applications/Utilities/"@);
        assert(home@ + "/Applications"@ + "/"@ + bundle@ =~= home@ + "/Applications/"@ + bundle@);
        assert("/Applications"@ + "/"@ + bundle@ =~= "/Applications/"@ + bundle@);
        assert("/System/Applications"@ + "/"@ + bundle@ =~= "/System/Applications/"@ + bundle@);
        assert("/System/Applications/Utilities"@ + "/"@ + bundle@
            =~= "/System/Applications/Utilities/"@ + bundle@);
    }
    let mut r: Vec<String> = Vec::new();
    let mut a = owned("/Applications");
    push_text(&mut a, "/");
    push_text(&mut a, bundle);
    let mut b = owned(home);
    push_text(&mut b, "/Applications");
    push_text(&mut b, "/");
    push_text(&mut b, bundle);
    let mut c = owned("/System/Applications");
    push_text(&mut c, "/");
    push_text(&mut c, bundle);
    let mut d = owned("/System/Applications/Utilities");
    push_text(&mut d, "/");
    push_text(&mut d, bundle);
    push_item(&mut r, a.as_str());
    push_item(&mut r, b.as_str());
    push_item(&mut r, c.as_str());
    push_item(&mut r, d.as_str());
    assert(views(r@) =~= bundle_dirs(home@).map_values(|d: Seq<char>| d + "/"@ + bundle@));
    r
}

/// Appends the macOS probe for `name` with bundle `bundle` and command `cmd`.
fn push_macos_probe(out: &mut Vec<TerminalProbe>, name: &str, bundle: &str, cmd: Option<&str>, home: &str)
    ensures
        final(out)@.len() == old(out)@.len() + 1,
        forall|i: int| 0 <= i < old(out)@.len() ==> final(out)@[i] == old(out)@[i],
        probe_is(
            final(out)@.last(),
            name@,
            bundle_dirs(home@).map_values(|d: Seq<char>| d + "/"@ + bundle@),
            match cmd {
                Some(c) => seq![c@],
                None => Seq::<Seq<char>>::empty(),
            },
        ),
        views(final(out)@.last().bundle_paths@) == bundle_locations(home@, bundle@),
{
    let mut commands: Vec<String> = Vec::new();
    match cmd {
        Some(c) => push_item(&mut commands, c),
        None => {},
    }
    assert(views(commands@) =~= match cmd {
        Some(c) => seq![c@],
        None => Seq::<Seq<char>>::empty(),
    });
    out.push(TerminalProbe { name: owned(name), bundle_paths: bundle_paths_for(bundle, home), commands });
}

/// Appends the probe for the command-line terminal `cmd`.
fn push_unix_probe(out: &mut Vec<TerminalProbe>, cmd: &str)
    ensures
        final(out)@.len() == old(out)@.len() + 1,
        forall|i: int| 0 <= i < old(out)@.len() ==> final(out)@[i] == old(out)@[i],
        probe_is(final(out)@.last(), cmd@, Seq::<Seq<char>>::empty(), seq![cmd@]),
{
    let mut commands: Vec<String> = Vec::new();
    push_item(&mut commands, cmd);
    let paths: Vec<String> = Vec::new();
    assert(views(paths@) =~= Seq::<Seq<char>>::empty());
    out.push(TerminalProbe { name: owned(cmd), bundle_paths: paths, commands });
}

/// The terminals `list_terminals` looks for on `os`, in order, with
/// `home` the home directory (empty when unknown). Windows has none to look
/// for.
pub fn terminal_probes(os: TargetOs, home: &str) -> (r: Vec<TerminalProbe>)
    ensures
        os == TargetOs::MacOs ==> r@.len() == macos_terminals().len() && forall|i: int|
            0 <= i < r@.len() ==> probe_is(
                #[trigger] r@[i],
                macos_terminals()[i].0,
                bundle_dirs(home@).map_values(|d: Seq<char>| d + "/"@ + macos_terminals()[i].1),
                macos_terminals()[i].2,
            ),
        os == TargetOs::Other ==> r@.len() == unix_terminals().len() && forall|i: int|
            0 <= i < r@.len() ==> probe_is(
                #[trigger] r@[i],
                unix_terminals()[i],
                Seq::<Seq<char>>::empty(),
                seq![unix_terminals()[i]],
            ),
        os == TargetOs::Windows ==> r@.len() == 0,
        os == TargetOs::MacOs ==> ({
            &&& r@.len() == 6
            &&& probe_is(r@[0], "Terminal"@, bundle_locations(home@, "Terminal.app"@), seq![])
            &&& probe_is(r@[1], "iTerm2"@, bundle_locations(home@, "iTerm.app"@), seq!["iterm2"@])
            &&& probe_is(
                r@[2],
                "Alacritty"@,
                bundle_locations(home@, "Alacritty.app"@),
                seq!["alacritty"@],
            )
            &&& probe_is(r@[3], "kitty"@, bundle_locations(home@, "kitty.app"@), seq!["kitty"@])
            &&& probe_is(r@[4], "WezTerm"@, bundle_locations(home@, "WezTerm.app"@), seq!["wezterm"@])
            &&& probe_is(r@[5], "Ghostty"@, bundle_locations(home@, "Ghostty.app"@), seq!["ghostty"@])
        }),
        os == TargetOs::Other ==> ({
            &&& r@.len() == 7
            &&& probe_is(r@[0], "gnome-terminal"@, seq![], seq!["gnome-terminal"@])
            &&& probe_is(r@[1], "konsole"@, seq![], seq!["konsole"@])
            &&& probe_is(r@[2], "alacritty"@, seq![], seq!["alacritty"@])
            &&& probe_is(r@[3], "kitty"@, seq![], seq!["kitty"@])
            &&& probe_is(r@[4], "xfce4-terminal"@, seq![], seq!["xfce4-terminal"@])
            &&& probe_is(r@[5], "xterm"@, seq![], seq!["xterm"@])
            &&& probe_is(r@[6], "wezterm"@, seq![], seq!["wezterm"@])
        }),
{
    let mut r: Vec<TerminalProbe> = Vec::new();
    match os {
        TargetOs::MacOs => {
            push_macos_probe(&mut r, "Terminal", "Terminal.app", None, home);
            push_macos_probe(&mut r, "iTerm2", "iTerm.app", Some("iterm2"), home);
            push_macos_probe(&mut r, "Alacritty", "Alacritty.app", Some("alacritty"), home);
            push_macos_probe(&mut r, "kitty", "kitty.app", Some("kitty"), home);
            push_macos_probe(&mut r, "WezTerm", "WezTerm.app", Some("wezterm"), home);
            push_macos_probe(&mut r, "Ghostty", "Ghostty.app", Some("ghostty"), home);
        },
        TargetOs::Other => {
            push_unix_probe(&mut r, "gnome-terminal");
            push_unix_probe(&mut r, "konsole");
            push_unix_probe(&mut r, "alacritty");
            push_unix_probe(&mut r, "kitty");
            push_unix_probe(&mut r, "xfce4-terminal");
            push_unix_probe(&mut r, "xterm");
            push_unix_probe(&mut r, "wezterm");
        },
        TargetOs::Windows => {},
    }
    r
}

/// Names of the probes found (`hits[i]` tells whether `probes[i]` was).
pub open spec fn found_names(probes: Seq<TerminalProbe>, hits: Seq<bool>) -> Seq<Seq<char>>
    decreases probes.len(),
{
    if probes.len() == 0 || hits.len() < probes.len() {
        Seq::<Seq<char>>::empty()
    } else {
        let front = found_names(probes.drop_last(), hits.take(probes.len() - 1));
        if hits[probes.len() - 1] {
            front.push(probes.last().name@)
        } else {
            front
        }
    }
}

/// The terminals to offer (`list_terminals`), given which probes were found:
/// on Windows always Windows Terminal and cmd; elsewhere the names of those
/// found, in order, and on macOS Terminal when none was.
pub fn select_terminals(os: TargetOs, probes: &Vec<TerminalProbe>, hits: &Vec<bool>) -> (r: Vec<
    String,
>)
    requires
        hits.len() == probes.len(),
    ensures
        os == TargetOs::Windows ==> views(r@) == seq!["Windows Terminal"@, "cmd"@],
        os != TargetOs::Windows ==> ({
            let found = found_names(probes@, hits@);
            if os == TargetOs::MacOs && found.len() == 0 {
                views(r@) == seq!["Terminal"@]
            } else {
                views(r@) == found
            }
        }),
{
    let mut r: Vec<String> = Vec::new();
    if os == TargetOs::Windows {
        push_item(&mut r, "Windows Terminal");
        push_item(&mut r, "cmd");
        assert(views(r@) =~= seq!["Windows Terminal"@, "cmd"@]);
        return r;
    }
    let mut i: usize = 0;
    assert(views(r@) =~= Seq::<Seq<char>>::empty());
    while i < probes.len()
        invariant
            i <= probes.len() == hits.len(),
            views(r@) == found_names(probes@.take(i as int), hits@.take(i as int)),
        decreases probes.len() - i,
    {
        assert(probes@.take(i + 1).drop_last() =~= probes@.take(i as int));
        assert(hits@.take(i + 1).take(i as int) =~= hits@.take(i as int));
        assert(probes@.take(i + 1).last() == probes@[i as int]);
        if hits[i] {
            push_item(&mut r, probes[i].name.as_str());
        }
        i = i + 1;
    }
    assert(probes@.take(probes.len() as int) =~= probes@);
    assert(hits@.take(hits.len() as int) =~= hits@);
    if os == TargetOs::MacOs && r.len() == 0 {
        push_item(&mut r, "Terminal");
        assert(views(r@) =~= seq!["Terminal"@]);
    }
    r
}

// ---------------------------------------------------------------- search

/// What to do next while looking for a terminal among fallback commands.
#[derive(Clone, Copy, Debug, PartialEq, Eq, Structural)]
pub enum SearchAction {
    /// Find out whether the program of command `i` is on `PATH`.
    Probe(usize),
    /// Start command `i`.
    Launch(usize),
    /// A terminal started: the search is over.
    Succeeded,
    /// No command is left: the search failed.
    Failed,
}

/// A search through `count` fallback commands, at command `current`.
pub struct TerminalSearch {
    pub count: usize,
    pub current: usize,
}

/// The action after command `current` is given up: probe the next one, or
/// fail when none is left.
pub open spec fn move_on(current: int, count: int) -> SearchAction {
    if current + 1 < count {
        SearchAction::Probe((current + 1) as usize)
    } else {
        SearchAction::Failed
    }
}

impl TerminalSearch {
    /// A search through `count` commands and its first action: probe the
    /// first command, or fail when there is none.
    pub fn new(count: usize) -> (r: (TerminalSearch, SearchAction))
        ensures
            r.0.count == count,
            r.0.current == 0,
            r.1 == if count > 0 {
                SearchAction::Probe(0)
            } else {
                SearchAction::Failed
            },
    {
        let action = if count > 0 {
            SearchAction::Probe(0)
        } else {
            SearchAction::Failed
        };
        (TerminalSearch { count, current: 0 }, action)
    }

    /// Advances past the current command.
    fn advance(&mut self) -> (r: SearchAction)
        requires
            old(self).current < old(self).count,
        ensures
            final(self).count == old(self).count,
            r == move_on(old(self).current as int, old(self).count as int),
            r is Probe ==> final(self).current == old(self).current + 1,
            old(self).current + 1 < old(self).count ==> r == SearchAction::Probe(
                (old(self).current + 1) as usize,
            ) && final(self).current == old(self).current + 1,
            old(self).current + 1 >= old(self).count ==> r == SearchAction::Failed,
    {
        if self.current + 1 < self.count {
            self.current = self.current + 1;
            SearchAction::Probe(self.current)
        } else {
            SearchAction::Failed
        }
    }

    /// After probing the current command: start it when its program is on
    /// `PATH`, else move on to the next.
    pub fn after_probe(&mut self, on_path: bool) -> (r: SearchAction)
        requires
            old(self).current < old(self).count,
        ensures
            final(self).count == old(self).count,
            on_path ==> r == SearchAction::Launch(old(self).current) && final(self).current == old(
                self,
            ).current,
            !on_path ==> r == move_on(old(self).current as int, old(self).count as int),
            !on_path && old(self).current + 1 < old(self).count ==> r == SearchAction::Probe(
                (old(self).current + 1) as usize,
            ) && final(self).current == old(self).current + 1,
            !on_path && old(self).current + 1 == old(self).count ==> r == SearchAction::Failed,
            r matches SearchAction::Probe(i) ==> i == final(self).current < final(self).count,
            r matches SearchAction::Launch(i) ==> i == final(self).current < final(self).count,
    {
        if on_path {
            SearchAction::Launch(self.current)
        } else {
            self.advance()
        }
    }

    /// After starting the current command: done when it started, else move
    /// on to the next.
    pub fn after_launch(&mut self, started: bool) -> (r: SearchAction)
        requires
            old(self).current < old(self).count,
        ensures
            final(self).count == old(self).count,
            started ==> r == SearchAction::Succeeded,
            !started ==> r == move_on(old(self).current as int, old(self).count as int),
            !started && old(self).current + 1 < old(self).count ==> r == SearchAction::Probe(
                (old(self).current + 1) as usize,
            ) && final(self).current == old(self).current + 1,
            !started && old(self).current + 1 == old(self).count ==> r == SearchAction::Failed,
            r matches SearchAction::Probe(i) ==> i == final(self).current < final(self).count,
    {
        if started {
            SearchAction::Succeeded
        } else {
            self.advance()
        }
    }
}

} // verus!
