use stickies::escape::{applescript_escape, shell_escape};

#[test]
fn shell_escape_quotes_and_escapes_single_quotes() {
    assert_eq!(shell_escape("/tmp/a b.md"), "'/tmp/a b.md'");
    assert_eq!(shell_escape("it's"), "'it'\\''s'");
    assert_eq!(shell_escape(""), "''");
    assert_eq!(shell_escape("''"), "''\\'''\\'''");
}

#[test]
fn applescript_escape_doubles_backslashes_and_escapes_quotes() {
    assert_eq!(applescript_escape(r#"say "hi" \o/"#), r#"say \"hi\" \\o/"#);
    assert_eq!(applescript_escape("plain"), "plain");
    assert_eq!(applescript_escape(""), "");
}

/// Reads a word made of single-quoted parts and backslash escapes as sh does.
fn sh_value(s: &str) -> Option<String> {
    let mut out = String::new();
    let mut quoted = false;
    let mut it = s.chars();
    while let Some(c) = it.next() {
        if quoted {
            if c == '\'' {
                quoted = false;
            } else {
                out.push(c);
            }
        } else if c == '\'' {
            quoted = true;
        } else if c == '\\' {
            out.push(it.next()?);
        } else {
            return None;
        }
    }
    if quoted {
        None
    } else {
        Some(out)
    }
}

#[test]
fn shell_reads_escaped_text_back() {
    for s in ["", "a", "it's", "'''", "a b; rm -rf ~", "$HOME `x` \"q\""] {
        assert_eq!(sh_value(&shell_escape(s)), Some(s.to_string()));
    }
}

#[test]
fn applescript_reads_escaped_text_back() {
    for s in ["", "\\", "\"", "a \"b\" \\c\\"] {
        let e = applescript_escape(s);
        let mut out = String::new();
        let mut it = e.chars();
        while let Some(c) = it.next() {
            if c == '\\' {
                out.push(it.next().unwrap());
            } else {
                assert_ne!(c, '"');
                out.push(c);
            }
        }
        assert_eq!(out, s);
    }
}

#[test]
fn applescript_escape_length_and_quote_runs() {
    for s in ["", "\\", "\"", "a \"b\" \\c\\", "\\\"", "x\\\\\"y"] {
        let e = applescript_escape(s);
        let extra = s.matches('\\').count() + s.matches('"').count();
        assert_eq!(e.chars().count(), s.chars().count() + extra);
        let cs: Vec<char> = e.chars().collect();
        for (i, c) in cs.iter().enumerate() {
            if *c == '"' {
                let run = cs[..i].iter().rev().take_while(|&&b| b == '\\').count();
                assert_eq!(run % 2, 1, "{e}");
            }
        }
    }
}
