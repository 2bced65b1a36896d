//! Quoting of text for a POSIX shell and for AppleScript string literals.

use vstd::prelude::*;

use crate::text::{chars_of, push_char};

verus! {

/// How one character appears inside single quotes: a quote closes the
/// quoting, adds an escaped quote and opens it again.
pub open spec fn shell_quoted_char(c: char) -> Seq<char> {
    if c == '\'' {
        seq!['\'', '\\', '\'', '\'']
    } else {
        seq![c]
    }
}

/// The characters of `s`, each as `shell_quoted_char` writes it.
pub open spec fn shell_quoted_body(s: Seq<char>) -> Seq<char>
    decreases s.len(),
{
    if s.len() == 0 {
        Seq::<char>::empty()
    } else {
        shell_quoted_body(s.drop_last()) + shell_quoted_char(s.last())
    }
}

/// `s` as one single-quoted shell word.
pub open spec fn shell_quoted(s: Seq<char>) -> Seq<char> {
    seq!['\''] + shell_quoted_body(s) + seq!['\'']
}

/// How one character appears inside an AppleScript string literal.
pub open spec fn applescript_char(c: char) -> Seq<char> {
    if c == '\\' {
        seq!['\\', '\\']
    } else if c == '"' {
        seq!['\\', '"']
    } else {
        seq![c]
    }
}

/// The characters of `s`, each as `applescript_char` writes it.
pub open spec fn applescript_escaped(s: Seq<char>) -> Seq<char>
    decreases s.len(),
{
    if s.len() == 0 {
        Seq::<char>::empty()
    } else {
        applescript_escaped(s.drop_last()) + applescript_char(s.last())
    }
}

/// Appends the characters of `piece` to `out`.
fn push_chars(out: &mut String, piece: &[char])
    ensures
        final(out)@ == old(out)@ + piece@,
{
    let ghost start = out@;
    let mut k: usize = 0;
    while k < piece.len()
        invariant
            k <= piece.len(),
            out@ == start + piece@.take(k as int),
        decreases piece.len() - k,
    {
        push_char(out, piece[k]);
        assert(piece@.take(k + 1) =~= piece@.take(k as int).push(piece@[k as int]));
        k = k + 1;
    }
    assert(piece@.take(piece.len() as int) =~= piece@);
}

/// `s` wrapped in single quotes for a POSIX shell, each `'` written as
/// `'\''`, so that the shell reads it back as one word.
pub fn shell_escape(s: &str) -> (r: String)
    ensures
        r@ == shell_quoted(s@),
{
    let v = chars_of(s);
    let mut out = String::new();
    push_char(&mut out, '\'');
    let mut i: usize = 0;
    assert(v@.take(0) =~= Seq::<char>::empty());
    while i < v.len()
        invariant
            i <= v.len(),
            v@ == s@,
            out@ == seq!['\''] + shell_quoted_body(v@.take(i as int)),
        decreases v.len() - i,
    {
        let c = v[i];
        assert(v@.take(i + 1).drop_last() =~= v@.take(i as int));
        assert(v@.take(i + 1).last() == c);
        if c == '\'' {
            let piece = ['\'', '\\', '\'', '\''];
            push_chars(&mut out, &piece);
            assert(piece@ =~= shell_quoted_char(c));
        } else {
            push_char(&mut out, c);
            assert(seq![c] =~= shell_quoted_char(c));
        }
        assert(out@ =~= seq!['\''] + shell_quoted_body(v@.take(i + 1)));
        i = i + 1;
    }
    push_char(&mut out, '\'');
    assert(v@.take(v.len() as int) =~= v@);
    assert(out@ =~= shell_quoted(s@));
    out
}

/// `s` with `\` written as `\\` and `"` as `\"`, ready to stand between
/// double quotes in AppleScript.
pub fn applescript_escape(s: &str) -> (r: String)
    ensures
        r@ == applescript_escaped(s@),
{
    let v = chars_of(s);
    let mut out = String::new();
    let mut i: usize = 0;
    assert(v@.take(0) =~= Seq::<char>::empty());
    while i < v.len()
        invariant
            i <= v.len(),
            v@ == s@,
            out@ == applescript_escaped(v@.take(i as int)),
        decreases v.len() - i,
    {
        let c = v[i];
        assert(v@.take(i + 1).drop_last() =~= v@.take(i as int));
        assert(v@.take(i + 1).last() == c);
        if c == '\\' || c == '"' {
            push_char(&mut out, '\\');
            push_char(&mut out, c);
        } else {
            push_char(&mut out, c);
        }
        assert(out@ =~= applescript_escaped(v@.take(i + 1)));
        i = i + 1;
    }
    assert(v@.take(v.len() as int) =~= v@);
    out
}

/// `o` with `s` put in front of the text it holds.
pub open spec fn prefixed(s: Seq<char>, o: Option<Seq<char>>) -> Option<Seq<char>> {
    match o {
        Some(t) => Some(s + t),
        None => None,
    }
}

/// The value a POSIX shell gives a word made only of single-quoted parts
/// and backslash-escaped characters (`quoted`: whether a single quote is
/// open). `None` for anything else: an unquoted plain or special character,
/// a trailing backslash, or a quote left open.
pub open spec fn shell_word_value(s: Seq<char>, quoted: bool) -> Option<Seq<char>>
    decreases s.len(),
{
    if s.len() == 0 {
        if quoted {
            None
        } else {
            Some(Seq::<char>::empty())
        }
    } else if quoted {
        if s[0] == '\'' {
            shell_word_value(s.drop_first(), false)
        } else {
            prefixed(seq![s[0]], shell_word_value(s.drop_first(), true))
        }
    } else if s[0] == '\'' {
        shell_word_value(s.drop_first(), true)
    } else if s[0] == '\\' && s.len() >= 2 {
        prefixed(seq![s[1]], shell_word_value(s.drop_first().drop_first(), false))
    } else {
        None
    }
}

/// `shell_quoted_body` read from the front.
proof fn lemma_shell_body_front(s: Seq<char>)
    requires
        s.len() > 0,
    ensures
        shell_quoted_body(s) == shell_quoted_char(s[0]) + shell_quoted_body(s.drop_first()),
    decreases s.len(),
{
    if s.len() == 1 {
        assert(s.drop_last() =~= Seq::<char>::empty());
        assert(s.drop_first() =~= Seq::<char>::empty());
        assert(shell_quoted_body(s) =~= shell_quoted_char(s[0]));
    } else {
        lemma_shell_body_front(s.drop_last());
        assert(s.drop_last().drop_first() =~= s.drop_first().drop_last());
        assert(s.drop_first().last() == s.last());
        assert(s.drop_last()[0] == s[0]);
        assert(shell_quoted_body(s) =~= shell_quoted_char(s[0]) + shell_quoted_body(
            s.drop_first(),
        ));
    }
}

/// Inside single quotes, the quoted body of `s` reads back as `s`.
proof fn lemma_shell_body_value(s: Seq<char>, t: Seq<char>)
    ensures
        shell_word_value(shell_quoted_body(s) + t, true) == prefixed(s, shell_word_value(t, true)),
    decreases s.len(),
{
    if s.len() == 0 {
        assert(shell_quoted_body(s) + t =~= t);
        assert(prefixed(s, shell_word_value(t, true)) =~= shell_word_value(t, true)) by {
            if let Some(v) = shell_word_value(t, true) {
                assert(s + v =~= v);
            }
        }
    } else {
        lemma_shell_body_front(s);
        let rest = shell_quoted_body(s.drop_first()) + t;
        lemma_shell_body_value(s.drop_first(), t);
        let c = s[0];
        let all = shell_quoted_body(s) + t;
        assert(all =~= shell_quoted_char(c) + rest);
        if c == '\'' {
            assert(all[0] == '\'');
            assert(all.drop_first()[0] == '\\');
            assert(all.drop_first()[1] == '\'');
            assert(all.drop_first().drop_first().drop_first()[0] == '\'');
            let a1 = all.drop_first();
            let a3 = a1.drop_first().drop_first();
            assert(a3.drop_first() =~= rest);
            assert(shell_word_value(a3, false) == shell_word_value(rest, true));
            assert(shell_word_value(a1, false) == prefixed(seq!['\''], shell_word_value(a3, false)));
            assert(shell_word_value(all, true) == shell_word_value(a1, false));
        } else {
            assert(all[0] == c);
            assert(all.drop_first() =~= rest);
            assert(shell_word_value(all, true) == prefixed(seq![c], shell_word_value(rest, true)));
        }
        match shell_word_value(t, true) {
            Some(v) => {
                assert(seq![c] + (s.drop_first() + v) =~= s + v);
            },
            None => {},
        }
    }
}

/// A shell reads what `shell_escape` writes back as the text it was given, in
/// one word.
pub proof fn law_shell_escape_reads_back(s: Seq<char>)
    ensures
        shell_word_value(shell_quoted(s), false) == Some(s),
{
    let q = shell_quoted(s);
    assert(q[0] == '\'');
    assert(q.drop_first() =~= shell_quoted_body(s) + seq!['\'']);
    lemma_shell_body_value(s, seq!['\'']);
    let last = seq!['\''];
    assert(last[0] == '\'');
    assert(last.drop_first() =~= Seq::<char>::empty());
    assert(shell_word_value(Seq::<char>::empty(), false) == Some(Seq::<char>::empty()));
    assert(shell_word_value(last, true) == Some(Seq::<char>::empty()));
    assert(s + Seq::<char>::empty() =~= s);
}

/// The text between the double quotes of an AppleScript string literal
/// read back: `\x` stands for `x`; an unescaped `"` or a trailing `\`
/// makes it no such text (`None`).
pub open spec fn applescript_value(s: Seq<char>) -> Option<Seq<char>>
    decreases s.len(),
{
    if s.len() == 0 {
        Some(Seq::<char>::empty())
    } else if s[0] == '\\' {
        if s.len() >= 2 {
            prefixed(seq![s[1]], applescript_value(s.drop_first().drop_first()))
        } else {
            None
        }
    } else if s[0] == '"' {
        None
    } else {
        prefixed(seq![s[0]], applescript_value(s.drop_first()))
    }
}

/// `applescript_escaped` read from the front.
proof fn lemma_applescript_front(s: Seq<char>)
    requires
        s.len() > 0,
    ensures
        applescript_escaped(s) == applescript_char(s[0]) + applescript_escaped(s.drop_first()),
    decreases s.len(),
{
    if s.len() == 1 {
        assert(s.drop_last() =~= Seq::<char>::empty());
        assert(s.drop_first() =~= Seq::<char>::empty());
        assert(applescript_escaped(s) =~= applescript_char(s[0]));
    } else {
        lemma_applescript_front(s.drop_last());
        assert(s.drop_last().drop_first() =~= s.drop_first().drop_last());
        assert(s.drop_first().last() == s.last());
        assert(s.drop_last()[0] == s[0]);
        assert(applescript_escaped(s) =~= applescript_char(s[0]) + applescript_escaped(
            s.drop_first(),
        ));
    }
}

/// AppleScript reads what `applescript_escape` writes, put between double
/// quotes, back as the text it was given.
pub proof fn law_applescript_escape_reads_back(s: Seq<char>)
    ensures
        applescript_value(applescript_escaped(s)) == Some(s),
    decreases s.len(),
{
    if s.len() == 0 {
        assert(applescript_escaped(s) =~= Seq::<char>::empty());
        assert(s =~= Seq::<char>::empty());
    } else {
        lemma_applescript_front(s);
        law_applescript_escape_reads_back(s.drop_first());
        let c = s[0];
        let e = applescript_escaped(s);
        let rest = applescript_escaped(s.drop_first());
        if c == '\\' || c == '"' {
            assert(e[0] == '\\');
            assert(e[1] == c);
            assert(e.drop_first().drop_first() =~= rest);
        } else {
            assert(e[0] == c);
            assert(e.drop_first() =~= rest);
        }
        assert(seq![c] + s.drop_first() =~= s);
    }
}

/// Number of occurrences of `c` in `s`.
pub open spec fn count_char(s: Seq<char>, c: char) -> nat
    decreases s.len(),
{
    if s.len() == 0 {
        0
    } else {
        count_char(s.drop_last(), c) + if s.last() == c {
            1nat
        } else {
            0nat
        }
    }
}

/// `applescript_escape` adds one character for each backslash and each
/// double quote, and keeps all the others.
pub proof fn law_applescript_escape_length(s: Seq<char>)
    ensures
        applescript_escaped(s).len() == s.len() + count_char(s, '\\') + count_char(s, '"'),
    decreases s.len(),
{
    if s.len() > 0 {
        law_applescript_escape_length(s.drop_last());
    }
}

/// Length of the run of backslashes that ends just before position `i` of `e`.
pub open spec fn backslashes_before(e: Seq<char>, i: int) -> nat
    decreases i,
{
    if i <= 0 || i > e.len() {
        0
    } else if e[i - 1] == '\\' {
        1 + backslashes_before(e, i - 1)
    } else {
        0
    }
}

/// Appending text leaves the runs before existing positions as they were.
proof fn lemma_backslashes_before_append(a: Seq<char>, b: Seq<char>, i: int)
    requires
        0 <= i <= a.len(),
    ensures
        backslashes_before(a + b, i) == backslashes_before(a, i),
    decreases i,
{
    if i > 0 {
        assert((a + b)[i - 1] == a[i - 1]);
        lemma_backslashes_before_append(a, b, i - 1);
    }
}

/// The escaped text ends in an even run of backslashes.
proof fn lemma_escaped_trailing_even(s: Seq<char>)
    ensures
        backslashes_before(applescript_escaped(s), applescript_escaped(s).len() as int) % 2 == 0,
    decreases s.len(),
{
    if s.len() > 0 {
        let p = applescript_escaped(s.drop_last());
        let c = s.last();
        let e = applescript_escaped(s);
        lemma_escaped_trailing_even(s.drop_last());
        assert(e == p + applescript_char(c));
        if c == '\\' {
            lemma_backslashes_before_append(p, applescript_char(c), p.len() as int);
            assert(e[e.len() - 1] == '\\');
            assert(e[e.len() - 2] == '\\');
            assert(e.len() == p.len() + 2);
            assert(backslashes_before(e, p.len() + 1int) == 1 + backslashes_before(e, p.len() as int));
            assert(backslashes_before(e, e.len() as int) == 1 + backslashes_before(e, p.len() + 1int));
        } else {
            assert(e[e.len() - 1] == c);
        }
    }
}

/// Every double quote in escaped text follows an odd run of backslashes, so
/// none of them ends the AppleScript string.
pub proof fn law_applescript_quotes_escaped(s: Seq<char>)
    ensures
        forall|i: int|
            0 <= i < applescript_escaped(s).len() && applescript_escaped(s)[i] == '"'
                ==> #[trigger] backslashes_before(applescript_escaped(s), i) % 2 == 1,
    decreases s.len(),
{
    if s.len() > 0 {
        let p = applescript_escaped(s.drop_last());
        let c = s.last();
        let e = applescript_escaped(s);
        let tail = applescript_char(c);
        law_applescript_quotes_escaped(s.drop_last());
        lemma_escaped_trailing_even(s.drop_last());
        assert(e == p + tail);
        assert forall|i: int| 0 <= i < e.len() && e[i] == '"' implies #[trigger] backslashes_before(
            e,
            i,
        ) % 2 == 1 by {
            if i < p.len() {
                assert(e[i] == p[i]);
                lemma_backslashes_before_append(p, tail, i);
                assert(backslashes_before(p, i) % 2 == 1);
            } else {
                assert(c == '"');
                assert(i == p.len() + 1);
                assert(e[i - 1] == '\\');
                lemma_backslashes_before_append(p, tail, p.len() as int);
                assert(backslashes_before(e, i) == 1 + backslashes_before(e, p.len() as int));
            }
        }
    }
}

} // verus!
