use stickies::settings::TargetOs;
use stickies::terminal::{
    choose_editor, command_program, edit_command_line, editor_candidates, editor_with_path,
    macos_launch, open_app_command, select_terminals, terminal_exec_command, terminal_plan,
    terminal_probes, CommandSpec, MacLaunch, SearchAction, TerminalPlan, TerminalSearch,
};

fn strs(v: &[&str]) -> Vec<String> {
    v.iter().map(|s| s.to_string()).collect()
}

fn assert_runs(c: &CommandSpec, program: &str, args: &[&str]) {
    assert_eq!(c.program, program);
    assert_eq!(c.args, strs(args));
}

#[test]
fn editor_candidate_order() {
    assert_eq!(
        editor_candidates("  hx ", Some(" code -w "), Some("   ")),
        strs(&["hx", "code -w", "nvim", "vim", "vi", "nano"])
    );
    assert_eq!(editor_candidates("", None, Some("emacs")), strs(&["emacs", "nvim", "vim", "vi", "nano"]));
}

#[test]
fn editor_choice_keeps_flags() {
    let cands = strs(&["nvim -u  NONE", "vim"]);
    assert_eq!(command_program(&cands[0]), Some("nvim".to_string()));
    assert_eq!(command_program("   "), None);
    let found = vec![Some("/opt/homebrew/bin/nvim".to_string()), Some("/usr/bin/vim".to_string())];
    assert_eq!(choose_editor(&cands, &found), "/opt/homebrew/bin/nvim -u NONE");
    let found = vec![None, Some("/usr/bin/vim".to_string())];
    assert_eq!(choose_editor(&cands, &found), "/usr/bin/vim");
    assert_eq!(choose_editor(&cands, &vec![None, None]), "vi");
    assert_eq!(editor_with_path("/bin/x", "x"), "/bin/x");
}

#[test]
fn edit_command_quotes_the_file() {
    assert_eq!(edit_command_line("/usr/bin/vim", "/tmp/it's.md"), "/usr/bin/vim '/tmp/it'\\''s.md'; exit");
}

#[test]
fn macos_terminal_app_uses_applescript() {
    match macos_launch("  ", "vim 'f'") {
        MacLaunch::Run(c) => {
            assert_eq!(c.program, "osascript");
            assert_eq!(c.args[0], "-e");
            assert_eq!(
                c.args[1],
                "tell application \"Terminal\" to do script \"vim 'f'\"\ntell application \"Terminal\" to activate"
            );
        }
        _ => panic!("expected a script"),
    }
    match macos_launch("iTerm", "say \"x\"") {
        MacLaunch::Run(c) => assert_eq!(
            c.args[1],
            "tell application \"iTerm2\"\ncreate window with default profile command \"say \\\"x\\\"\"\nactivate\nend tell"
        ),
        _ => panic!("expected a script"),
    }
}

#[test]
fn macos_gui_terminals() {
    match macos_launch(" GhosTTY ", "c") {
        MacLaunch::App { cli, app, exe, prefix } => {
            assert_eq!((cli.as_str(), app.as_str(), exe.as_str()), ("ghostty", "Ghostty", "ghostty"));
            assert_eq!(prefix, strs(&["-e"]));
        }
        _ => panic!(),
    }
    match macos_launch("WezTerm", "c") {
        MacLaunch::App { app, prefix, .. } => {
            assert_eq!(app, "WezTerm");
            assert_eq!(prefix, strs(&["start", "--"]));
        }
        _ => panic!(),
    }
    match macos_launch("kitty", "c") {
        MacLaunch::App { prefix, .. } => assert!(prefix.is_empty()),
        _ => panic!(),
    }
    match macos_launch("Hyper", "c") {
        MacLaunch::App { cli, app, exe, prefix } => {
            assert_eq!((cli.as_str(), app.as_str(), exe.as_str()), ("Hyper", "Hyper", "hyper"));
            assert_eq!(prefix, strs(&["-e"]));
        }
        _ => panic!(),
    }
}

#[test]
fn gui_terminal_commands() {
    let prefix = strs(&["-e"]);
    assert_runs(&terminal_exec_command("/x/ghostty", &prefix, "vim f"), "/x/ghostty", &["-e", "sh", "-c", "vim f"]);
    assert_runs(
        &open_app_command("Ghostty", &prefix, "vim f"),
        "open",
        &["-na", "Ghostty", "--args", "-e", "sh", "-c", "vim f"],
    );
}

#[test]
fn plans_per_system() {
    match terminal_plan(TargetOs::Windows, "notepad", "C:\\n.md", "x") {
        TerminalPlan::Run(c) => assert_runs(&c, "cmd", &["/C", "start", "", "notepad", "C:\\n.md"]),
        _ => panic!(),
    }
    match terminal_plan(TargetOs::MacOs, "vim", "/f", "") {
        TerminalPlan::Mac(MacLaunch::Run(c)) => assert!(c.args[1].contains("Terminal")),
        _ => panic!(),
    }
    match terminal_plan(TargetOs::Other, "vim", "/f", " gnome-terminal ") {
        TerminalPlan::Preferred { command, failure } => {
            assert_runs(&command, "gnome-terminal", &["--", "sh", "-c", "vim '/f'; exit"]);
            assert_eq!(failure, "cannot open terminal 'gnome-terminal'");
        }
        _ => panic!(),
    }
    match terminal_plan(TargetOs::Other, "vim", "/f", "kitty") {
        TerminalPlan::Preferred { command, .. } => assert_runs(&command, "kitty", &["vim", "/f"]),
        _ => panic!(),
    }
    match terminal_plan(TargetOs::Other, "vim", "/f", "xterm") {
        TerminalPlan::Preferred { command, .. } => {
            assert_runs(&command, "xterm", &["-e", "sh", "-c", "vim '/f'; exit"])
        }
        _ => panic!(),
    }
    match terminal_plan(TargetOs::Other, "vim", "/f", "") {
        TerminalPlan::Search { commands, failure } => {
            assert_eq!(commands.len(), 7);
            assert_runs(&commands[0], "x-terminal-emulator", &["-e", "sh", "-c", "vim '/f'; exit"]);
            assert_runs(&commands[4], "kitty", &["vim", "/f"]);
            assert_eq!(failure, "no terminal emulator found");
        }
        _ => panic!(),
    }
}

#[test]
fn terminal_listing() {
    let probes = terminal_probes(TargetOs::MacOs, "/Users/me");
    assert_eq!(probes.len(), 6);
    assert_eq!(probes[0].name, "Terminal");
    assert!(probes[0].commands.is_empty());
    assert_eq!(
        probes[1].bundle_paths,
        strs(&[
            "/Applications/iTerm.app",
            "/Users/me/Applications/iTerm.app",
            "/System/Applications/iTerm.app",
            "/System/Applications/Utilities/iTerm.app",
        ])
    );
    assert_eq!(probes[5].commands, strs(&["ghostty"]));
    let none = vec![false; 6];
    assert_eq!(select_terminals(TargetOs::MacOs, &probes, &none), strs(&["Terminal"]));
    let some = vec![false, true, false, false, false, true];
    assert_eq!(select_terminals(TargetOs::MacOs, &probes, &some), strs(&["iTerm2", "Ghostty"]));

    let unix = terminal_probes(TargetOs::Other, "");
    assert_eq!(unix.len(), 7);
    assert_eq!(unix[6].name, "wezterm");
    assert_eq!(select_terminals(TargetOs::Other, &unix, &vec![false; 7]), Vec::<String>::new());
    let hits = vec![true, false, false, false, false, true, false];
    assert_eq!(select_terminals(TargetOs::Other, &unix, &hits), strs(&["gnome-terminal", "xterm"]));

    let win = terminal_probes(TargetOs::Windows, "");
    assert!(win.is_empty());
    assert_eq!(select_terminals(TargetOs::Windows, &win, &vec![]), strs(&["Windows Terminal", "cmd"]));
}

/// Runs a search where `on_path[i]` and `starts[i]` answer the probes.
fn run_search(on_path: &[bool], starts: &[bool]) -> (Vec<SearchAction>, SearchAction) {
    let (mut s, mut a) = TerminalSearch::new(on_path.len());
    let mut seen = vec![];
    loop {
        seen.push(a);
        a = match a {
            SearchAction::Probe(i) => s.after_probe(on_path[i]),
            SearchAction::Launch(i) => s.after_launch(starts[i]),
            done => return (seen, done),
        };
    }
}

#[test]
fn search_launches_the_first_terminal_that_is_found_and_starts() {
    let (seen, end) = run_search(&[false, true, true], &[false, false, true]);
    assert_eq!(end, SearchAction::Succeeded);
    assert_eq!(
        seen,
        vec![
            SearchAction::Probe(0),
            SearchAction::Probe(1),
            SearchAction::Launch(1),
            SearchAction::Probe(2),
            SearchAction::Launch(2),
            SearchAction::Succeeded,
        ]
    );
}

#[test]
fn search_fails_when_nothing_starts() {
    assert_eq!(run_search(&[], &[]).1, SearchAction::Failed);
    assert_eq!(run_search(&[false, false], &[true, true]).1, SearchAction::Failed);
    assert_eq!(run_search(&[true], &[false]).1, SearchAction::Failed);
}
