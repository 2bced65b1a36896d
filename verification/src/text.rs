//! Character-level helpers on strings, each stated over `Seq<char>`.

use vstd::prelude::*;

verus! {

broadcast use vstd::string::group_string_axioms;

/// Unicode `White_Space`, the property behind `char::is_whitespace`
/// (and so behind `str::trim` and `str::split_whitespace`).
pub open spec fn is_white(c: char) -> bool {
    let u = c as u32;
    ||| 9 <= u <= 13
    ||| u == 32
    ||| u == 0x85
    ||| u == 0xA0
    ||| u == 0x1680
    ||| 0x2000 <= u <= 0x200A
    ||| u == 0x2028
    ||| u == 0x2029
    ||| u == 0x202F
    ||| u == 0x205F
    ||| u == 0x3000
}

/// Number of white characters at the front of `s`.
pub open spec fn lead_white(s: Seq<char>) -> nat
    decreases s.len(),
{
    if s.len() > 0 && is_white(s[0]) {
        1 + lead_white(s.drop_first())
    } else {
        0
    }
}

/// Number of white characters at the back of `s`.
pub open spec fn trail_white(s: Seq<char>) -> nat
    decreases s.len(),
{
    if s.len() > 0 && is_white(s.last()) {
        1 + trail_white(s.drop_last())
    } else {
        0
    }
}

/// `s` without leading white space.
pub open spec fn trim_start(s: Seq<char>) -> Seq<char> {
    s.skip(lead_white(s) as int)
}

/// `s` without trailing white space.
pub open spec fn trim_end(s: Seq<char>) -> Seq<char> {
    s.take(s.len() - trail_white(s))
}

/// `s` without leading and trailing white space (`str::trim`).
pub open spec fn trim(s: Seq<char>) -> Seq<char> {
    trim_end(trim_start(s))
}

/// Every character of `s` is white space.
pub open spec fn all_white(s: Seq<char>) -> bool {
    forall|i: int| 0 <= i < s.len() ==> is_white(#[trigger] s[i])
}

pub proof fn lemma_lead_white_bound(s: Seq<char>)
    ensures
        lead_white(s) <= s.len(),
        forall|i: int| 0 <= i < lead_white(s) ==> is_white(#[trigger] s[i]),
        lead_white(s) < s.len() ==> !is_white(s[lead_white(s) as int]),
    decreases s.len(),
{
    if s.len() > 0 && is_white(s[0]) {
        lemma_lead_white_bound(s.drop_first());
        assert forall|i: int| 0 <= i < lead_white(s) implies is_white(#[trigger] s[i]) by {
            if i > 0 {
                assert(s[i] == s.drop_first()[i - 1]);
            }
        }
    }
}

pub proof fn lemma_trail_white_bound(s: Seq<char>)
    ensures
        trail_white(s) <= s.len(),
        forall|i: int| s.len() - trail_white(s) <= i < s.len() ==> is_white(#[trigger] s[i]),
        trail_white(s) < s.len() ==> !is_white(s[s.len() - trail_white(s) - 1]),
    decreases s.len(),
{
    if s.len() > 0 && is_white(s.last()) {
        lemma_trail_white_bound(s.drop_last());
        assert forall|i: int| s.len() - trail_white(s) <= i < s.len() implies is_white(
            #[trigger] s[i],
        ) by {
            if i < s.len() - 1 {
                assert(s[i] == s.drop_last()[i]);
            }
        }
    }
}

/// The trimmed text is empty exactly when every character is white space.
pub proof fn lemma_trim_empty_iff_all_white(s: Seq<char>)
    ensures
        (trim(s).len() == 0) <==> all_white(s),
{
    lemma_lead_white_bound(s);
    let t = trim_start(s);
    lemma_trail_white_bound(t);
    if trim(s).len() == 0 {
        assert forall|i: int| 0 <= i < s.len() implies is_white(#[trigger] s[i]) by {
            if i >= lead_white(s) {
                assert(s[i] == t[i - lead_white(s)]);
            }
        }
    }
    if all_white(s) && lead_white(s) < s.len() {
        assert(is_white(s[lead_white(s) as int]));
    }
}

/// The characters of `s`, in order.
pub fn chars_of(s: &str) -> (r: Vec<char>)
    ensures
        r@ == s@,
{
    let mut out: Vec<char> = Vec::new();
    for c in it: s.chars()
        invariant
            out@ == it.seq().take(it.index()),
            it.seq() == s@,
    {
        out.push(c);
    }
    out
}

/// Whether `c` is white space (`char::is_whitespace`).
pub fn is_white_char(c: char) -> (r: bool)
    ensures
        r == is_white(c),
{
    let u = c as u32;
    (9 <= u && u <= 13) || u == 32 || u == 0x85 || u == 0xA0 || u == 0x1680 || (0x2000 <= u && u
        <= 0x200A) || u == 0x2028 || u == 0x2029 || u == 0x202F || u == 0x205F || u == 0x3000
}

/// Index of the first character of `v` that is not white space, or `v.len()`.
fn first_non_white(v: &Vec<char>) -> (r: usize)
    ensures
        r == lead_white(v@),
{
    let mut i: usize = 0;
    assert(v@.skip(0) =~= v@);
    while i < v.len() && is_white_char(v[i])
        invariant
            i <= v.len(),
            lead_white(v@) == i + lead_white(v@.skip(i as int)),
        decreases v.len() - i,
    {
        assert(v@.skip(i as int).drop_first() =~= v@.skip(i + 1));
        i = i + 1;
    }
    i
}

/// Number of white characters at the back of `v@.take(end)`.
fn count_trailing_white(v: &Vec<char>, end: usize) -> (r: usize)
    requires
        end <= v.len(),
    ensures
        r == trail_white(v@.take(end as int)),
{
    let mut j: usize = end;
    while j > 0 && is_white_char(v[j - 1])
        invariant
            j <= end <= v.len(),
            trail_white(v@.take(end as int)) == (end - j) + trail_white(v@.take(j as int)),
        decreases j,
    {
        assert(v@.take(j as int).drop_last() =~= v@.take(j - 1));
        j = j - 1;
    }
    end - j
}

/// `trim` as one slice of the text it trims.
pub proof fn lemma_trim_as_subrange(s: Seq<char>)
    ensures
        lead_white(s) == s.len() ==> trim(s) =~= Seq::<char>::empty(),
        lead_white(s) < s.len() ==> trail_white(s) < s.len() - lead_white(s) && trim(s)
            =~= s.subrange(lead_white(s) as int, s.len() - trail_white(s)),
{
    lemma_lead_white_bound(s);
    let lo = lead_white(s) as int;
    if lo < s.len() {
        lemma_trail_white_suffix(s, lo);
        assert(trim_start(s) =~= s.skip(lo));
    }
}

/// `s` with leading and trailing white space removed (`str::trim`).
pub fn trim_str(s: &str) -> (r: &str)
    ensures
        r@ == trim(s@),
{
    let v = chars_of(s);
    let lo = first_non_white(&v);
    proof {
        lemma_lead_white_bound(s@);
        lemma_trim_as_subrange(s@);
    }
    if lo == v.len() {
        return s.substring_char(lo, lo);
    }
    let tail = count_trailing_white(&v, v.len());
    assert(v@.take(v.len() as int) =~= v@);
    assert(tail == trail_white(s@));
    assert(tail < v.len() - lo);
    s.substring_char(lo, v.len() - tail)
}

/// The trailing white run of `s` is the trailing white run of any suffix
/// that still holds a non-white character.
proof fn lemma_trail_white_suffix(s: Seq<char>, k: int)
    requires
        0 <= k < s.len(),
        !is_white(s[k]),
    ensures
        trail_white(s.skip(k)) == trail_white(s),
        trail_white(s) < s.len() - k,
    decreases s.len(),
{
    if s.len() - 1 == k {
        assert(s.skip(k).last() == s.last());
    } else {
        assert(s.skip(k).last() == s.last());
        if is_white(s.last()) {
            assert(s.skip(k).drop_last() =~= s.drop_last().skip(k));
            assert(s.drop_last()[k] == s[k]);
            lemma_trail_white_suffix(s.drop_last(), k);
        }
    }
}

/// Whether `s` holds nothing but white space (`s.trim().is_empty()`).
pub fn is_blank(s: &str) -> (r: bool)
    ensures
        r == (trim(s@).len() == 0),
        r == all_white(s@),
{
    proof {
        lemma_trim_empty_iff_all_white(s@);
    }
    let t = trim_str(s);
    t.is_empty()
}

/// Appends one character (`String::push`).
#[verifier::external_body]
pub(crate) fn push_char(s: &mut String, c: char)
    ensures
        final(s)@ == old(s)@.push(c),
{
    s.push(c);
}

/// A string holding the characters of `v@.subrange(from, to)`.
pub fn string_from_chars(v: &Vec<char>, from: usize, to: usize) -> (r: String)
    requires
        from <= to <= v.len(),
    ensures
        r@ == v@.subrange(from as int, to as int),
{
    let mut out = String::new();
    let mut i = from;
    while i < to
        invariant
            from <= i <= to <= v.len(),
            out@ == v@.subrange(from as int, i as int),
        decreases to - i,
    {
        push_char(&mut out, v[i]);
        assert(v@.subrange(from as int, i + 1) =~= v@.subrange(from as int, i as int).push(v@[i as int]));
        i = i + 1;
    }
    out
}

/// An owned copy of `s`.
pub fn owned(s: &str) -> (r: String)
    ensures
        r@ == s@,
{
    <String as StringExecFns>::from_str(s)
}

/// Appends all characters of `t` to `s`.
pub fn push_text(s: &mut String, t: &str)
    ensures
        final(s)@ == old(s)@ + t@,
{
    s.append(t);
}

/// Whether `a` and `b` hold the same characters.
pub fn same_text(a: &str, b: &str) -> (r: bool)
    ensures
        r == (a@ == b@),
{
    let x = chars_of(a);
    let y = chars_of(b);
    if x.len() != y.len() {
        return false;
    }
    let mut i: usize = 0;
    while i < x.len()
        invariant
            i <= x.len() == y.len(),
            x@ == a@,
            y@ == b@,
            forall|k: int| 0 <= k < i ==> x@[k] == y@[k],
        decreases x.len() - i,
    {
        if x[i] != y[i] {
            return false;
        }
        i = i + 1;
    }
    assert(x@ =~= y@);
    true
}

/// `p` is a prefix of `s`.
pub open spec fn starts_with(s: Seq<char>, p: Seq<char>) -> bool {
    p.len() <= s.len() && s.take(p.len() as int) == p
}

/// `p` is a suffix of `s`.
pub open spec fn ends_with(s: Seq<char>, p: Seq<char>) -> bool {
    p.len() <= s.len() && s.skip(s.len() - p.len()) == p
}

/// `p` occurs in `s` as a contiguous piece.
pub open spec fn contains_text(s: Seq<char>, p: Seq<char>) -> bool {
    exists|i: int| 0 <= i <= s.len() - p.len() && #[trigger] s.subrange(i, i + p.len()) == p
}

/// Whether `v@.subrange(at, at + p.len())` is `p`.
fn matches_at(v: &Vec<char>, p: &Vec<char>, at: usize) -> (r: bool)
    requires
        at + p.len() <= v.len(),
    ensures
        r == (v@.subrange(at as int, at + p.len()) == p@),
{
    let mut k: usize = 0;
    while k < p.len()
        invariant
            k <= p.len(),
            at + p.len() <= v.len(),
            forall|j: int| 0 <= j < k ==> v@[at + j] == p@[j],
        decreases p.len() - k,
    {
        if v[at + k] != p[k] {
            assert(v@.subrange(at as int, at + p.len())[k as int] != p@[k as int]);
            return false;
        }
        k = k + 1;
    }
    assert(v@.subrange(at as int, at + p.len()) =~= p@);
    true
}

/// Whether `s` starts with `p` (`str::starts_with`).
pub fn has_prefix(s: &str, p: &str) -> (r: bool)
    ensures
        r == starts_with(s@, p@),
{
    let v = chars_of(s);
    let q = chars_of(p);
    if q.len() > v.len() {
        return false;
    }
    let r = matches_at(&v, &q, 0);
    assert(v@.subrange(0, q.len() as int) =~= v@.take(q.len() as int));
    r
}

/// Whether `s` ends with `p` (`str::ends_with`).
pub fn has_suffix(s: &str, p: &str) -> (r: bool)
    ensures
        r == ends_with(s@, p@),
{
    let v = chars_of(s);
    let q = chars_of(p);
    if q.len() > v.len() {
        return false;
    }
    let r = matches_at(&v, &q, v.len() - q.len());
    assert(v@.subrange((v.len() - q.len()) as int, v.len() as int) =~= v@.skip(
        v.len() - q.len(),
    ));
    r
}

/// Whether `p` occurs in `s` (`str::contains`).
pub fn has_text(s: &str, p: &str) -> (r: bool)
    ensures
        r == contains_text(s@, p@),
{
    let v = chars_of(s);
    let q = chars_of(p);
    if q.len() > v.len() {
        return false;
    }
    let last = v.len() - q.len();
    let mut i: usize = 0;
    loop
        invariant
            q.len() <= v.len(),
            last == v.len() - q.len(),
            i <= last,
            v@ == s@,
            q@ == p@,
            forall|j: int| 0 <= j < i ==> #[trigger] v@.subrange(j, j + q.len()) != q@,
        ensures
            forall|j: int| 0 <= j <= last ==> #[trigger] v@.subrange(j, j + q.len()) != q@,
        decreases last - i,
    {
        if matches_at(&v, &q, i) {
            return true;
        }
        if i == last {
            break;
        }
        i = i + 1;
    }
    false
}

/// Whether `c` occurs in `s` (`str::contains` with a `char`).
pub fn has_char(s: &str, c: char) -> (r: bool)
    ensures
        r == s@.contains(c),
{
    let v = chars_of(s);
    let mut i: usize = 0;
    while i < v.len()
        invariant
            i <= v.len(),
            v@ == s@,
            forall|j: int| 0 <= j < i ==> v@[j] != c,
        decreases v.len() - i,
    {
        if v[i] == c {
            assert(s@[i as int] == c);
            return true;
        }
        i = i + 1;
    }
    false
}

/// Pieces of `s` between occurrences of `sep`, empty pieces included, as
/// `str::split` with a `char` gives them (one empty piece for empty `s`).
pub open spec fn split_on(s: Seq<char>, sep: char) -> Seq<Seq<char>>
    decreases s.len(),
{
    if s.len() == 0 {
        seq![Seq::<char>::empty()]
    } else {
        let front = split_on(s.drop_last(), sep);
        if s.last() == sep {
            front.push(Seq::<char>::empty())
        } else {
            front.update(front.len() - 1, front.last().push(s.last()))
        }
    }
}

pub proof fn lemma_split_on_nonempty(s: Seq<char>, sep: char)
    ensures
        split_on(s, sep).len() >= 1,
    decreases s.len(),
{
    if s.len() > 0 {
        lemma_split_on_nonempty(s.drop_last(), sep);
    }
}

/// Views of a sequence of strings.
pub open spec fn views(v: Seq<String>) -> Seq<Seq<char>> {
    v.map_values(|w: String| w@)
}

/// The pieces of `s` between occurrences of `sep` (`str::split`).
pub fn split_on_char(s: &str, sep: char) -> (r: Vec<String>)
    ensures
        views(r@) == split_on(s@, sep),
{
    let v = chars_of(s);
    let mut done: Vec<String> = Vec::new();
    let mut cur = String::new();
    let mut i: usize = 0;
    assert(v@.take(0) =~= Seq::<char>::empty());
    assert(views(done@).push(cur@) =~= split_on(v@.take(0), sep));
    while i < v.len()
        invariant
            i <= v.len(),
            v@ == s@,
            views(done@).push(cur@) == split_on(v@.take(i as int), sep),
        decreases v.len() - i,
    {
        let c = v[i];
        let ghost before = v@.take(i as int);
        assert(v@.take(i + 1).drop_last() =~= before);
        assert(v@.take(i + 1).last() == c);
        proof {
            lemma_split_on_nonempty(before, sep);
        }
        if c == sep {
            let piece = cur;
            done.push(piece);
            cur = String::new();
            assert(views(done@) =~= split_on(before, sep));
        } else {
            let ghost old_done = views(done@);
            push_char(&mut cur, c);
            assert(views(done@).push(cur@) =~= split_on(before, sep).update(
                split_on(before, sep).len() - 1,
                split_on(before, sep).last().push(c),
            ));
        }
        i = i + 1;
    }
    assert(v@.take(v.len() as int) =~= v@);
    done.push(cur);
    done
}

/// State of a left-to-right scan for white-space separated words: the
/// words finished so far and the word being read.
pub open spec fn scan_words(s: Seq<char>) -> (Seq<Seq<char>>, Seq<char>)
    decreases s.len(),
{
    if s.len() == 0 {
        (Seq::<Seq<char>>::empty(), Seq::<char>::empty())
    } else {
        let (done, cur) = scan_words(s.drop_last());
        let c = s.last();
        if is_white(c) {
            if cur.len() > 0 {
                (done.push(cur), Seq::<char>::empty())
            } else {
                (done, Seq::<char>::empty())
            }
        } else {
            (done, cur.push(c))
        }
    }
}

/// The maximal runs of non-white characters of `s`, in order
/// (`str::split_whitespace`).
pub open spec fn words(s: Seq<char>) -> Seq<Seq<char>> {
    let (done, cur) = scan_words(s);
    if cur.len() > 0 {
        done.push(cur)
    } else {
        done
    }
}

/// A word: not empty, and without white space.
pub open spec fn is_word(w: Seq<char>) -> bool {
    w.len() > 0 && forall|i: int| 0 <= i < w.len() ==> !is_white(#[trigger] w[i])
}

proof fn lemma_scan_words_shape(s: Seq<char>)
    ensures
        forall|k: int| 0 <= k < scan_words(s).0.len() ==> is_word(#[trigger] scan_words(s).0[k]),
        forall|i: int| 0 <= i < scan_words(s).1.len() ==> !is_white(#[trigger] scan_words(s).1[i]),
        scan_words(s).1.len() <= s.len(),
        scan_words(s).1.len() > 0 ==> scan_words(s).1 == s.skip(s.len() - scan_words(s).1.len()),
    decreases s.len(),
{
    if s.len() > 0 {
        let p = s.drop_last();
        lemma_scan_words_shape(p);
        let (done, cur) = scan_words(p);
        let c = s.last();
        if !is_white(c) {
            let nc = cur.push(c);
            assert forall|i: int| 0 <= i < nc.len() implies !is_white(#[trigger] nc[i]) by {
                if i < cur.len() {
                    assert(nc[i] == cur[i]);
                }
            }
            if cur.len() > 0 {
                assert(nc =~= s.skip(s.len() - nc.len()));
            } else {
                assert(nc =~= s.skip(s.len() - 1));
            }
        } else if cur.len() > 0 {
            let nd = done.push(cur);
            assert forall|k: int| 0 <= k < nd.len() implies is_word(#[trigger] nd[k]) by {
                if k < done.len() {
                    assert(nd[k] == done[k]);
                }
            }
        }
    }
}

/// Every word is non-empty and holds no white space; text without white
/// space is one word, and blank text has none.
pub proof fn law_words_shape(s: Seq<char>)
    ensures
        forall|k: int| 0 <= k < words(s).len() ==> is_word(#[trigger] words(s)[k]),
        is_word(s) ==> words(s) == seq![s],
        all_white(s) ==> words(s).len() == 0,
    decreases s.len(),
{
    lemma_scan_words_shape(s);
    let (done, cur) = scan_words(s);
    if cur.len() > 0 {
        assert forall|k: int| 0 <= k < words(s).len() implies is_word(#[trigger] words(s)[k]) by {
            if k < done.len() {
                assert(words(s)[k] == done[k]);
            }
        }
    }
    if is_word(s) {
        lemma_word_scan(s);
    }
    if all_white(s) {
        lemma_blank_scan(s);
    }
}

/// Scanning a word leaves nothing finished and the whole word being read.
proof fn lemma_word_scan(s: Seq<char>)
    requires
        forall|i: int| 0 <= i < s.len() ==> !is_white(#[trigger] s[i]),
    ensures
        scan_words(s).0.len() == 0,
        scan_words(s).1 == s,
    decreases s.len(),
{
    if s.len() > 0 {
        let p = s.drop_last();
        assert forall|i: int| 0 <= i < p.len() implies !is_white(#[trigger] p[i]) by {
            assert(p[i] == s[i]);
        }
        lemma_word_scan(p);
        assert(!is_white(s[s.len() - 1]));
        assert(p.push(s.last()) =~= s);
    }
}

/// Scanning blank text finds nothing.
proof fn lemma_blank_scan(s: Seq<char>)
    requires
        all_white(s),
    ensures
        scan_words(s).0.len() == 0,
        scan_words(s).1.len() == 0,
    decreases s.len(),
{
    if s.len() > 0 {
        let p = s.drop_last();
        assert forall|i: int| 0 <= i < p.len() implies is_white(#[trigger] p[i]) by {
            assert(p[i] == s[i]);
        }
        lemma_blank_scan(p);
        assert(is_white(s[s.len() - 1]));
    }
}

/// The words of `s` (`str::split_whitespace`).
pub fn split_words(s: &str) -> (r: Vec<String>)
    ensures
        views(r@) == words(s@),
{
    let v = chars_of(s);
    let mut done: Vec<String> = Vec::new();
    let mut cur = String::new();
    let mut i: usize = 0;
    assert(v@.take(0) =~= Seq::<char>::empty());
    assert(views(done@) =~= Seq::<Seq<char>>::empty());
    while i < v.len()
        invariant
            i <= v.len(),
            v@ == s@,
            (views(done@), cur@) == scan_words(v@.take(i as int)),
        decreases v.len() - i,
    {
        let c = v[i];
        assert(v@.take(i + 1).drop_last() =~= v@.take(i as int));
        assert(v@.take(i + 1).last() == c);
        if is_white_char(c) {
            if !cur.as_str().is_empty() {
                let piece = cur;
                done.push(piece);
                assert(views(done@) =~= scan_words(v@.take(i as int)).0.push(piece@));
            }
            cur = String::new();
        } else {
            push_char(&mut cur, c);
        }
        i = i + 1;
    }
    assert(v@.take(v.len() as int) =~= v@);
    if !cur.as_str().is_empty() {
        let piece = cur;
        done.push(piece);
        assert(views(done@) =~= scan_words(s@).0.push(piece@));
    }
    done
}

/// The lowercase form of a text as `str::to_lowercase` gives it (Unicode
/// lowercase mapping, with its context rules).
pub uninterp spec fn lowercase(s: Seq<char>) -> Seq<char>;

/// `c` with `A`..`Z` mapped to `a`..`z`.
pub open spec fn ascii_lower(c: char) -> char {
    if 'A' <= c <= 'Z' {
        ((c as u32) + 32) as char
    } else {
        c
    }
}

/// `s` with `A`..`Z` mapped to `a`..`z`.
pub open spec fn ascii_lowered(s: Seq<char>) -> Seq<char> {
    s.map_values(|c: char| ascii_lower(c))
}

/// Every character of `s` is ASCII.
pub open spec fn is_ascii_text(s: Seq<char>) -> bool {
    forall|i: int| 0 <= i < s.len() ==> (#[trigger] s[i] as u32) < 128
}

/// `str::to_lowercase`. Its result is named by `lowercase`; the one fact
/// stated of it is that on ASCII text it maps `A`..`Z` to `a`..`z` and keeps
/// every other character, as the Unicode lowercase mapping does there.
#[verifier::external_body]
pub(crate) fn to_lowercase(s: &str) -> (r: String)
    ensures
        r@ == lowercase(s@),
        is_ascii_text(s@) ==> r@ == ascii_lowered(s@),
{
    s.to_lowercase()
}

/// Pieces of `ws` with `sep` between each two (`[&str]::join`).
pub open spec fn joined(ws: Seq<Seq<char>>, sep: Seq<char>) -> Seq<char>
    decreases ws.len(),
{
    if ws.len() == 0 {
        Seq::<char>::empty()
    } else if ws.len() == 1 {
        ws[0]
    } else {
        joined(ws.drop_last(), sep) + sep + ws.last()
    }
}

/// The strings `ws[from..]` with `sep` between each two.
pub fn join_from(ws: &Vec<String>, from: usize, sep: &str) -> (r: String)
    requires
        from <= ws.len(),
    ensures
        r@ == joined(views(ws@).skip(from as int), sep@),
{
    let mut out = String::new();
    let mut i = from;
    assert(views(ws@).skip(from as int).take(0) =~= Seq::<Seq<char>>::empty());
    while i < ws.len()
        invariant
            from <= i <= ws.len(),
            out@ == joined(views(ws@).skip(from as int).take(i - from), sep@),
        decreases ws.len() - i,
    {
        let ghost part = views(ws@).skip(from as int);
        assert(part.take(i + 1 - from).drop_last() =~= part.take(i - from));
        assert(part.take(i + 1 - from).last() == ws@[i as int]@);
        if i > from {
            push_text(&mut out, sep);
        } else {
            assert(part.take(1)[0] == ws@[i as int]@);
        }
        push_text(&mut out, ws[i].as_str());
        i = i + 1;
    }
    assert(views(ws@).skip(from as int).take(ws.len() - from) =~= views(ws@).skip(from as int));
    out
}

/// A text without white space at either end is its own trim.
pub proof fn lemma_trim_plain(s: Seq<char>)
    requires
        s.len() > 0,
        !is_white(s[0]),
        !is_white(s.last()),
    ensures
        trim(s) == s,
{
    assert(lead_white(s) == 0);
    assert(s.skip(0) =~= s);
    assert(trail_white(s) == 0);
    assert(s.take(s.len() as int) =~= s);
}

/// Trimming twice is trimming once.
pub proof fn law_trim_idempotent(s: Seq<char>)
    ensures
        trim(trim(s)) == trim(s),
{
    lemma_trim_as_subrange(s);
    lemma_lead_white_bound(s);
    lemma_trail_white_bound(s);
    let t = trim(s);
    if lead_white(s) == s.len() {
        assert(lead_white(t) == 0);
        assert(t.skip(0) =~= t);
        assert(trail_white(t) == 0);
        assert(t.take(0) =~= t);
    } else {
        let lo = lead_white(s) as int;
        let hi = s.len() - trail_white(s);
        assert(t[0] == s[lo]);
        assert(t.last() == s[hi - 1]);
        lemma_trim_plain(t);
    }
}

/// Extending the last piece extends the joined text.
proof fn lemma_joined_extend_last(ws: Seq<Seq<char>>, sep: Seq<char>, c: char)
    requires
        ws.len() > 0,
    ensures
        joined(ws.update(ws.len() - 1, ws.last().push(c)), sep) == joined(ws, sep).push(c),
{
    let u = ws.update(ws.len() - 1, ws.last().push(c));
    if ws.len() == 1 {
        assert(u[0] == ws[0].push(c));
    } else {
        assert(u.drop_last() =~= ws.drop_last());
        assert(u.last() == ws.last().push(c));
        assert(joined(u, sep) =~= joined(ws, sep).push(c));
    }
}

/// Splitting on `sep` and joining the pieces with `sep` gives the text
/// back, and no piece holds `sep`.
pub proof fn law_split_on_round_trip(s: Seq<char>, sep: char)
    ensures
        joined(split_on(s, sep), seq![sep]) == s,
        forall|k: int| 0 <= k < split_on(s, sep).len() ==> !(#[trigger] split_on(s, sep)[k]).contains(
            sep,
        ),
    decreases s.len(),
{
    if s.len() == 0 {
        assert(joined(split_on(s, sep), seq![sep]) =~= s);
    } else {
        let p = s.drop_last();
        let f = split_on(p, sep);
        law_split_on_round_trip(p, sep);
        lemma_split_on_nonempty(p, sep);
        let c = s.last();
        let t = split_on(s, sep);
        if c == sep {
            assert(t.drop_last() =~= f);
            assert(joined(t, seq![sep]) =~= s);
            assert forall|k: int| 0 <= k < t.len() implies !(#[trigger] t[k]).contains(sep) by {
                if k < f.len() {
                    assert(t[k] == f[k]);
                }
            }
        } else {
            lemma_joined_extend_last(f, seq![sep], c);
            assert(p.push(c) =~= s);
            assert forall|k: int| 0 <= k < t.len() implies !(#[trigger] t[k]).contains(sep) by {
                if k < f.len() - 1 {
                    assert(t[k] == f[k]);
                } else {
                    let w = f.last().push(c);
                    assert(t[k] == w);
                    if w.contains(sep) {
                        let j = choose|j: int| 0 <= j < w.len() && w[j] == sep;
                        if j < f.last().len() {
                            assert(f.last()[j] == sep);
                            assert(f[f.len() - 1].contains(sep));
                        }
                    }
                }
            }
        }
    }
}

/// Trimming removes white space at both ends and nothing else: the result
/// is a contiguous piece of the text, every character cut away is white, and
/// the result neither starts nor ends with white space.
pub proof fn law_trim_shape(s: Seq<char>)
    ensures
        (trim(s).len() == 0) <==> all_white(s),
        exists|lo: int|
            0 <= lo && lo + trim(s).len() <= s.len() && #[trigger] s.subrange(lo, lo + trim(s).len())
                == trim(s) && (forall|i: int| 0 <= i < lo ==> is_white(#[trigger] s[i])) && (forall|
                i: int,
            |
                lo + trim(s).len() <= i < s.len() ==> is_white(#[trigger] s[i])),
        trim(s).len() > 0 ==> !is_white(trim(s)[0]) && !is_white(trim(s).last()),
{
    lemma_trim_empty_iff_all_white(s);
    lemma_trim_as_subrange(s);
    lemma_lead_white_bound(s);
    lemma_trail_white_bound(s);
    let lo = lead_white(s) as int;
    if lo == s.len() {
        assert(s.subrange(lo, lo) =~= trim(s));
    } else {
        let hi = s.len() - trail_white(s);
        assert(s.subrange(lo, hi) == trim(s));
        assert(trim(s)[0] == s[lo]);
        assert(trim(s).last() == s[hi - 1]);
        assert(lo + trim(s).len() == hi);
    }
    assert(s.subrange(lo, lo + trim(s).len()) == trim(s));
    assert(forall|i: int| 0 <= i < lo ==> is_white(#[trigger] s[i]));
    assert(forall|i: int| lo + trim(s).len() <= i < s.len() ==> is_white(#[trigger] s[i]));
}

/// The words laid end to end.
pub open spec fn concat(ws: Seq<Seq<char>>) -> Seq<char>
    decreases ws.len(),
{
    if ws.len() == 0 {
        Seq::<char>::empty()
    } else {
        concat(ws.drop_last()) + ws.last()
    }
}

/// The characters of `s` that are not white space, in order.
pub open spec fn without_white(s: Seq<char>) -> Seq<char>
    decreases s.len(),
{
    if s.len() == 0 {
        Seq::<char>::empty()
    } else if is_white(s.last()) {
        without_white(s.drop_last())
    } else {
        without_white(s.drop_last()).push(s.last())
    }
}

proof fn lemma_scan_concat(s: Seq<char>)
    ensures
        concat(scan_words(s).0) + scan_words(s).1 == without_white(s),
    decreases s.len(),
{
    if s.len() > 0 {
        let p = s.drop_last();
        lemma_scan_concat(p);
        let (done, cur) = scan_words(p);
        let c = s.last();
        if is_white(c) {
            if cur.len() > 0 {
                assert(done.push(cur).drop_last() =~= done);
                assert(concat(done.push(cur)) + Seq::<char>::empty() =~= concat(done) + cur);
            } else {
                assert(concat(done) + Seq::<char>::empty() =~= concat(done) + cur);
            }
        } else {
            assert(concat(done) + cur.push(c) =~= (concat(done) + cur).push(c));
        }
    }
}

/// Splitting into words loses and repeats nothing: the words laid end to
/// end are the text without its white space.
pub proof fn law_words_keep_all_text(s: Seq<char>)
    ensures
        concat(words(s)) == without_white(s),
{
    lemma_scan_concat(s);
    let (done, cur) = scan_words(s);
    if cur.len() > 0 {
        assert(done.push(cur).drop_last() =~= done);
    } else {
        assert(concat(done) + cur =~= concat(done));
    }
}

} // verus!
