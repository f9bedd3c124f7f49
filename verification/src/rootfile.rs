//! The root-credentials bootstrap file.
//!
//! A small structured text file, logically `{ root: { creds: { name, pass } } }`,
//! read once at startup to create the initial administrative user. The
//! accepted shape is a table-style subset of the usual configuration
//! syntax: blank lines, `#` comments, CRLF line ends and surrounding
//! whitespace are tolerated; the `name` and `pass` entries may come in
//! either order under a `[root.creds]` (or `[root.credentials]`) header;
//! values are quoted strings in which `\"` and `\\` escapes are
//! recognized. [`parse_root_spec`] is the authoritative definition.

use vstd::prelude::*;

verus! {

use crate::text::{match_lit, string_push};
use vstd::string::StrSliceExecFns;

/// The layout of the root file.
#[derive(Clone, Debug)]
pub struct RootFile {
    /// The root-section.
    pub root: Root,
}

/// The layout of the `[root]`-section in the root file.
#[derive(Clone, Debug)]
pub struct Root {
    /// The credentials of the root user.
    pub creds: RootCreds,
}

/// The layout of the `[root.creds]`-section in the root file.
#[derive(Clone, Debug)]
pub struct RootCreds {
    /// The name of the root user.
    pub name: String,
    /// The password for the root user.
    pub pass: String,
}

/// A field value that the canonical rendering [`root_file_text`] writes
/// literally: it holds no quote, no backslash and no line break.
pub open spec fn wf_field(x: Seq<char>) -> bool {
    forall|k: int| 0 <= k < x.len() ==> x[k] != '"' && x[k] != '\\' && x[k] != '\n'
}

/// The canonical text of a root file carrying the given name and password.
pub open spec fn root_file_text(name: Seq<char>, pass: Seq<char>) -> Seq<char> {
    "[root.creds]\nname = \""@ + name + "\"\npass = \""@ + pass + "\"\n"@
}

/// Whitespace inside a line: spaces, tabs, and the carriage return of a
/// CRLF line end.
pub open spec fn is_line_ws(c: char) -> bool {
    c == ' ' || c == '\t' || c == '\r'
}

/// Index just past the run of line-whitespace of `s` that starts at `i`.
pub open spec fn ws_run_end(s: Seq<char>, i: int) -> int
    decreases s.len() - i,
{
    if 0 <= i && i < s.len() && is_line_ws(s[i]) {
        ws_run_end(s, i + 1)
    } else {
        i
    }
}

/// Index of the first character of the run of line-whitespace of `s` that
/// ends just before `i`.
pub open spec fn ws_suffix_start(s: Seq<char>, i: int) -> int
    decreases i,
{
    if 0 < i && i <= s.len() && is_line_ws(s[i - 1]) {
        ws_suffix_start(s, i - 1)
    } else {
        i
    }
}

/// `s` with leading and trailing line-whitespace removed.
pub open spec fn trimmed(s: Seq<char>) -> Seq<char> {
    let lo = ws_run_end(s, 0);
    let hi = ws_suffix_start(s, s.len() as int);
    if lo <= hi {
        s.subrange(lo, hi)
    } else {
        Seq::empty()
    }
}

/// Index just past the run of key characters (anything but whitespace and
/// `=`) of `s` that starts at `i`.
pub open spec fn key_end(s: Seq<char>, i: int) -> int
    decreases s.len() - i,
{
    if 0 <= i && i < s.len() && !is_line_ws(s[i]) && s[i] != '=' {
        key_end(s, i + 1)
    } else {
        i
    }
}

/// Reads a quoted value of `t` from `i` (just past the opening quote) up to
/// its closing quote, decoding the `\"` and `\\` escapes; yields the value
/// and the index just past the closing quote, or `None` on an unterminated
/// string or an unrecognized escape.
pub open spec fn scan_qstr(t: Seq<char>, i: int, acc: Seq<char>) -> Option<(Seq<char>, int)>
    decreases t.len() - i,
{
    if i < 0 || i >= t.len() {
        None
    } else if t[i] == '"' {
        Some((acc, i + 1))
    } else if t[i] == '\\' {
        if i + 1 < t.len() && (t[i + 1] == '"' || t[i + 1] == '\\') {
            scan_qstr(t, i + 2, acc.push(t[i + 1]))
        } else {
            None
        }
    } else {
        scan_qstr(t, i + 1, acc.push(t[i]))
    }
}

/// Reads one `key = "value"` entry out of the trimmed line `t`, tolerating
/// whitespace around `=` and a trailing `#` comment.
pub open spec fn parse_keyval(t: Seq<char>) -> Option<(Seq<char>, Seq<char>)> {
    let ke = key_end(t, 0);
    if ke <= 0 {
        None
    } else {
        let p1 = ws_run_end(t, ke);
        if !(p1 < t.len() && t[p1] == '=') {
            None
        } else {
            let p2 = ws_run_end(t, p1 + 1);
            if !(p2 < t.len() && t[p2] == '"') {
                None
            } else {
                match scan_qstr(t, p2 + 1, Seq::empty()) {
                    None => None,
                    Some(ve) => {
                        let p3 = ws_run_end(t, ve.1);
                        if p3 == t.len() || (p3 < t.len() && t[p3] == '#') {
                            Some((t.subrange(0, ke), ve.0))
                        } else {
                            None
                        }
                    },
                }
            }
        }
    }
}

/// Processes one raw line: blank lines and comments are skipped, a
/// `[root.creds]`/`[root.credentials]` header opens the credentials table,
/// any other header closes it, and inside it the `name` and `pass` entries
/// are collected, a duplicate of either being an error. The state is the
/// in-credentials flag and the entries found so far.
pub open spec fn line_step(
    raw: Seq<char>,
    in_creds: bool,
    nm: Option<Seq<char>>,
    pw: Option<Seq<char>>,
) -> Option<(bool, Option<Seq<char>>, Option<Seq<char>>)> {
    let t = trimmed(raw);
    if t.len() == 0 {
        Some((in_creds, nm, pw))
    } else if t[0] == '#' {
        Some((in_creds, nm, pw))
    } else if t == "[root]"@ {
        Some((false, nm, pw))
    } else if t == "[root.creds]"@ || t == "[root.credentials]"@ {
        Some((true, nm, pw))
    } else if t[0] == '[' {
        Some((false, nm, pw))
    } else {
        match parse_keyval(t) {
            None => None,
            Some(kv) => {
                if !in_creds {
                    Some((in_creds, nm, pw))
                } else if kv.0 == "name"@ {
                    if nm is Some {
                        None
                    } else {
                        Some((in_creds, Some(kv.1), pw))
                    }
                } else if kv.0 == "pass"@ {
                    if pw is Some {
                        None
                    } else {
                        Some((in_creds, nm, Some(kv.1)))
                    }
                } else {
                    Some((in_creds, nm, pw))
                }
            },
        }
    }
}

/// Runs [`line_step`] over the lines of `s` from position `i` on, with
/// `acc` the part of the current line read so far; at the end both entries
/// must have been found.
pub open spec fn parse_lines(
    s: Seq<char>,
    i: int,
    acc: Seq<char>,
    in_creds: bool,
    nm: Option<Seq<char>>,
    pw: Option<Seq<char>>,
) -> Option<(Seq<char>, Seq<char>)>
    decreases s.len() - i,
{
    if i < 0 || i >= s.len() {
        match line_step(acc, in_creds, nm, pw) {
            None => None,
            Some(st) => match (st.1, st.2) {
                (Some(n), Some(p)) => Some((n, p)),
                _ => None,
            },
        }
    } else if s[i] == '\n' {
        match line_step(acc, in_creds, nm, pw) {
            None => None,
            Some(st) => parse_lines(s, i + 1, Seq::empty(), st.0, st.1, st.2),
        }
    } else {
        parse_lines(s, i + 1, acc.push(s[i]), in_creds, nm, pw)
    }
}

/// What a root-credentials text means: the name and password it carries,
/// or `None` when it is not of the accepted shape.
pub open spec fn parse_root_spec(s: Seq<char>) -> Option<(Seq<char>, Seq<char>)> {
    parse_lines(s, 0, Seq::empty(), false, None, None)
}

pub proof fn lemma_ws_run_end_props(s: Seq<char>, i: int)
    requires
        0 <= i <= s.len(),
    ensures
        i <= ws_run_end(s, i) <= s.len(),
        forall|k: int| i <= k < ws_run_end(s, i) ==> is_line_ws(#[trigger] s[k]),
        ws_run_end(s, i) == s.len() || !is_line_ws(s[ws_run_end(s, i)]),
    decreases s.len() - i,
{
    if i < s.len() && is_line_ws(s[i]) {
        lemma_ws_run_end_props(s, i + 1);
    }
}

pub proof fn lemma_ws_run_end_determined(s: Seq<char>, i: int, m: int)
    requires
        0 <= i <= m <= s.len(),
        forall|k: int| i <= k < m ==> is_line_ws(#[trigger] s[k]),
        m == s.len() || !is_line_ws(s[m]),
    ensures
        ws_run_end(s, i) == m,
    decreases m - i,
{
    if i < m {
        lemma_ws_run_end_determined(s, i + 1, m);
    }
}

pub proof fn lemma_ws_suffix_start_props(s: Seq<char>, i: int)
    requires
        0 <= i <= s.len(),
    ensures
        0 <= ws_suffix_start(s, i) <= i,
    decreases i,
{
    if 0 < i && is_line_ws(s[i - 1]) {
        lemma_ws_suffix_start_props(s, i - 1);
    }
}

pub proof fn lemma_ws_suffix_start_determined(s: Seq<char>, i: int, m: int)
    requires
        0 <= m <= i <= s.len(),
        forall|k: int| m <= k < i ==> is_line_ws(#[trigger] s[k]),
        m == 0 || !is_line_ws(s[m - 1]),
    ensures
        ws_suffix_start(s, i) == m,
    decreases i - m,
{
    if m < i {
        lemma_ws_suffix_start_determined(s, i - 1, m);
    }
}

pub proof fn lemma_key_end_props(s: Seq<char>, i: int)
    requires
        0 <= i <= s.len(),
    ensures
        i <= key_end(s, i) <= s.len(),
    decreases s.len() - i,
{
    if i < s.len() && !is_line_ws(s[i]) && s[i] != '=' {
        lemma_key_end_props(s, i + 1);
    }
}

pub proof fn lemma_key_end_determined(s: Seq<char>, i: int, m: int)
    requires
        0 <= i <= m <= s.len(),
        forall|k: int| i <= k < m ==> !is_line_ws(#[trigger] s[k]) && s[k] != '=',
        m == s.len() || is_line_ws(s[m]) || s[m] == '=',
    ensures
        key_end(s, i) == m,
    decreases m - i,
{
    if i < m {
        lemma_key_end_determined(s, i + 1, m);
    }
}

/// Stepping over a newline-free region only accumulates it onto the
/// current line.
proof fn lemma_parse_lines_plain(
    s: Seq<char>,
    i: int,
    j: int,
    acc: Seq<char>,
    ic: bool,
    nm: Option<Seq<char>>,
    pw: Option<Seq<char>>,
)
    requires
        0 <= i <= j <= s.len(),
        forall|k: int| i <= k < j ==> #[trigger] s[k] != '\n',
    ensures
        parse_lines(s, i, acc, ic, nm, pw) == parse_lines(s, j, acc + s.subrange(i, j), ic, nm, pw),
    decreases j - i,
{
    if i == j {
        assert(acc + s.subrange(i, j) =~= acc);
    } else {
        lemma_parse_lines_plain(s, i + 1, j, acc.push(s[i]), ic, nm, pw);
        assert(acc.push(s[i]) + s.subrange(i + 1, j) =~= acc + s.subrange(i, j));
    }
}

/// Scanning over a region free of quotes and backslashes only accumulates
/// it onto the value.
proof fn lemma_scan_qstr_plain(t: Seq<char>, i: int, j: int, acc: Seq<char>)
    requires
        0 <= i <= j <= t.len(),
        forall|k: int| i <= k < j ==> #[trigger] t[k] != '"' && t[k] != '\\',
    ensures
        scan_qstr(t, i, acc) == scan_qstr(t, j, acc + t.subrange(i, j)),
    decreases j - i,
{
    if i == j {
        assert(acc + t.subrange(i, j) =~= acc);
    } else {
        lemma_scan_qstr_plain(t, i + 1, j, acc.push(t[i]));
        assert(acc.push(t[i]) + t.subrange(i + 1, j) =~= acc + t.subrange(i, j));
    }
}

/// Evaluates one canonical `name = "v"` line.
proof fn lemma_keyval_name(v: Seq<char>)
    requires
        wf_field(v),
    ensures
        ({
            let l = "name = \""@ + v + "\""@;
            &&& l.len() == 9 + v.len()
            &&& l[0] == 'n'
            &&& trimmed(l) == l
            &&& parse_keyval(l) == Some::<(Seq<char>, Seq<char>)>(("name"@, v))
        }),
{
    reveal_strlit("name = \"");
    reveal_strlit("\"");
    reveal_strlit("name");
    let l = "name = \""@ + v + "\""@;
    let n1 = v.len() as int;
    assert(l.len() == 9 + n1);
    assert(l[0] == 'n' && l[1] == 'a' && l[2] == 'm' && l[3] == 'e' && l[4] == ' ' && l[5] == '='
        && l[6] == ' ' && l[7] == '"');
    assert(l[8 + n1] == '"');
    assert(forall|k: int| 0 <= k < n1 ==> l[8 + k] == v[k]);
    lemma_ws_run_end_determined(l, 0, 0);
    lemma_ws_suffix_start_determined(l, l.len() as int, l.len() as int);
    assert(l.subrange(0, l.len() as int) =~= l);
    lemma_key_end_determined(l, 0, 4);
    lemma_ws_run_end_determined(l, 4, 5);
    lemma_ws_run_end_determined(l, 6, 7);
    lemma_scan_qstr_plain(l, 8, 8 + n1, Seq::empty());
    assert(Seq::empty() + l.subrange(8, 8 + n1) =~= v);
    assert(scan_qstr(l, 8 + n1, v) == Some::<(Seq<char>, int)>((v, 9 + n1)));
    lemma_ws_run_end_determined(l, 9 + n1, 9 + n1);
    assert(l.subrange(0, 4) =~= "name"@);
}

/// Evaluates one canonical `pass = "v"` line.
proof fn lemma_keyval_pass(v: Seq<char>)
    requires
        wf_field(v),
    ensures
        ({
            let l = "pass = \""@ + v + "\""@;
            &&& l.len() == 9 + v.len()
            &&& l[0] == 'p'
            &&& trimmed(l) == l
            &&& parse_keyval(l) == Some::<(Seq<char>, Seq<char>)>(("pass"@, v))
        }),
{
    reveal_strlit("pass = \"");
    reveal_strlit("\"");
    reveal_strlit("pass");
    let l = "pass = \""@ + v + "\""@;
    let n1 = v.len() as int;
    assert(l.len() == 9 + n1);
    assert(l[0] == 'p' && l[1] == 'a' && l[2] == 's' && l[3] == 's' && l[4] == ' ' && l[5] == '='
        && l[6] == ' ' && l[7] == '"');
    assert(l[8 + n1] == '"');
    assert(forall|k: int| 0 <= k < n1 ==> l[8 + k] == v[k]);
    lemma_ws_run_end_determined(l, 0, 0);
    lemma_ws_suffix_start_determined(l, l.len() as int, l.len() as int);
    assert(l.subrange(0, l.len() as int) =~= l);
    lemma_key_end_determined(l, 0, 4);
    lemma_ws_run_end_determined(l, 4, 5);
    lemma_ws_run_end_determined(l, 6, 7);
    lemma_scan_qstr_plain(l, 8, 8 + n1, Seq::empty());
    assert(Seq::empty() + l.subrange(8, 8 + n1) =~= v);
    assert(scan_qstr(l, 8 + n1, v) == Some::<(Seq<char>, int)>((v, 9 + n1)));
    lemma_ws_run_end_determined(l, 9 + n1, 9 + n1);
    assert(l.subrange(0, 4) =~= "pass"@);
}

/// Law: the canonical rendering of a name and a password is among the
/// accepted texts, and it reads back exactly those fields.
#[verifier::rlimit(80)]
pub proof fn lemma_canonical_root_file(nm: Seq<char>, pw: Seq<char>)
    requires
        wf_field(nm),
        wf_field(pw),
    ensures
        parse_root_spec(root_file_text(nm, pw)) == Some((nm, pw)),
{
    reveal_strlit("[root.creds]\nname = \"");
    reveal_strlit("\"\npass = \"");
    reveal_strlit("\"\n");
    reveal_strlit("[root.creds]");
    reveal_strlit("[root.credentials]");
    reveal_strlit("[root]");
    reveal_strlit("name = \"");
    reveal_strlit("pass = \"");
    reveal_strlit("\"");
    let s = root_file_text(nm, pw);
    let n1 = nm.len() as int;
    let n2 = pw.len() as int;
    let l1 = "[root.creds]"@;
    let l2 = "name = \""@ + nm + "\""@;
    let l3 = "pass = \""@ + pw + "\""@;
    assert(s.len() == 33 + n1 + n2);
    assert(s[12] == '\n' && s[22 + n1] == '\n' && s[32 + n1 + n2] == '\n');
    // line one: the credentials header
    assert(forall|k: int| 0 <= k < 12 ==> #[trigger] s[k] != '\n');
    lemma_parse_lines_plain(s, 0, 12, Seq::empty(), false, None, None);
    assert(Seq::empty() + s.subrange(0, 12) =~= l1);
    assert(line_step(l1, false, None::<Seq<char>>, None::<Seq<char>>) == Some(
        (true, None::<Seq<char>>, None::<Seq<char>>),
    )) by {
        lemma_ws_run_end_determined(l1, 0, 0);
        lemma_ws_suffix_start_determined(l1, 12, 12);
        assert(l1.subrange(0, 12) =~= l1);
    }
    assert(parse_root_spec(s) == parse_lines(s, 13, Seq::empty(), true, None, None));
    // line two: the name entry
    assert(forall|k: int| 13 <= k < 22 + n1 ==> #[trigger] s[k] != '\n');
    lemma_parse_lines_plain(s, 13, 22 + n1, Seq::empty(), true, None, None);
    assert(Seq::empty() + s.subrange(13, 22 + n1) =~= l2);
    lemma_keyval_name(nm);
    assert(line_step(l2, true, None::<Seq<char>>, None::<Seq<char>>) == Some(
        (true, Some(nm), None::<Seq<char>>),
    ));
    assert(parse_root_spec(s) == parse_lines(s, 23 + n1, Seq::empty(), true, Some(nm), None));
    // line three: the password entry
    assert(forall|k: int| 23 + n1 <= k < 32 + n1 + n2 ==> #[trigger] s[k] != '\n');
    lemma_parse_lines_plain(s, 23 + n1, 32 + n1 + n2, Seq::empty(), true, Some(nm), None);
    assert(Seq::empty() + s.subrange(23 + n1, 32 + n1 + n2) =~= l3);
    lemma_keyval_pass(pw);
    assert(line_step(l3, true, Some(nm), None::<Seq<char>>) == Some(
        (true, Some(nm), Some(pw)),
    ));
    assert(parse_root_spec(s) == parse_lines(
        s,
        33 + n1 + n2,
        Seq::empty(),
        true,
        Some(nm),
        Some(pw),
    ));
    // the trailing newline leaves one empty line
    assert(line_step(Seq::<char>::empty(), true, Some(nm), Some(pw)) == Some(
        (true, Some(nm), Some(pw)),
    )) by {
        assert(trimmed(Seq::<char>::empty()).len() == 0);
    }
}

fn is_line_ws_exec(c: char) -> (b: bool)
    ensures
        b == is_line_ws(c),
{
    c == ' ' || c == '\t' || c == '\r'
}

fn ws_run_end_exec(t: &str, start: usize) -> (j: usize)
    requires
        start <= t@.len(),
    ensures
        j == ws_run_end(t@, start as int),
{
    let n: usize = t.unicode_len();
    let mut i: usize = start;
    while i < n
        invariant
            start <= i <= n,
            n == t@.len(),
            forall|k: int| start <= k < i ==> is_line_ws(#[trigger] t@[k]),
        decreases n - i,
    {
        let c = t.get_char(i);
        if !is_line_ws_exec(c) {
            proof {
                lemma_ws_run_end_determined(t@, start as int, i as int);
            }
            return i;
        }
        i = i + 1;
    }
    proof {
        lemma_ws_run_end_determined(t@, start as int, n as int);
    }
    n
}

fn ws_suffix_start_exec(t: &str, from: usize) -> (j: usize)
    requires
        from <= t@.len(),
    ensures
        j == ws_suffix_start(t@, from as int),
{
    let mut i: usize = from;
    while i > 0
        invariant
            0 <= i <= from <= t@.len(),
            forall|k: int| i <= k < from ==> is_line_ws(#[trigger] t@[k]),
        decreases i,
    {
        let c = t.get_char(i - 1);
        if !is_line_ws_exec(c) {
            proof {
                lemma_ws_suffix_start_determined(t@, from as int, i as int);
            }
            return i;
        }
        i = i - 1;
    }
    proof {
        lemma_ws_suffix_start_determined(t@, from as int, 0);
    }
    0
}

fn key_end_exec(t: &str, start: usize) -> (j: usize)
    requires
        start <= t@.len(),
    ensures
        j == key_end(t@, start as int),
{
    let n: usize = t.unicode_len();
    let mut i: usize = start;
    while i < n
        invariant
            start <= i <= n,
            n == t@.len(),
            forall|k: int| start <= k < i ==> !is_line_ws(#[trigger] t@[k]) && t@[k] != '=',
        decreases n - i,
    {
        let c = t.get_char(i);
        if is_line_ws_exec(c) || c == '=' {
            proof {
                lemma_key_end_determined(t@, start as int, i as int);
            }
            return i;
        }
        i = i + 1;
    }
    proof {
        lemma_key_end_determined(t@, start as int, n as int);
    }
    n
}

/// Whether the view of `t` is exactly the view of the literal `pat`.
fn str_eq_lit(t: &str, pat: &str) -> (b: bool)
    ensures
        b == (t@ == pat@),
{
    let n: usize = t.unicode_len();
    let m: usize = pat.unicode_len();
    if n != m {
        return false;
    }
    let r = match_lit(t, 0, pat);
    proof {
        assert(t@.subrange(0, pat@.len() as int) =~= t@);
    }
    r
}

/// Processes one raw line of the credentials text, mirroring [`line_step`].
fn line_step_exec(raw: &str, in_creds: bool, nm: Option<String>, pw: Option<String>) -> (r: Option<
    (bool, Option<String>, Option<String>),
>)
    ensures
        match line_step(raw@, in_creds, nm.deep_view(), pw.deep_view()) {
            Some(st) => r matches Some(rt) && rt.0 == st.0 && rt.1.deep_view() == st.1
                && rt.2.deep_view() == st.2,
            None => r is None,
        },
{
    let n: usize = raw.unicode_len();
    let lo = ws_run_end_exec(raw, 0);
    let hi = ws_suffix_start_exec(raw, n);
    proof {
        lemma_ws_run_end_props(raw@, 0);
        lemma_ws_suffix_start_props(raw@, n as int);
    }
    if lo >= hi {
        proof {
            assert(trimmed(raw@).len() == 0);
        }
        return Some((in_creds, nm, pw));
    }
    let t = raw.substring_char(lo, hi);
    proof {
        assert(t@ == trimmed(raw@));
    }
    let tn: usize = hi - lo;
    let c0 = t.get_char(0);
    if c0 == '#' {
        return Some((in_creds, nm, pw));
    }
    if str_eq_lit(t, "[root]") {
        return Some((false, nm, pw));
    }
    if str_eq_lit(t, "[root.creds]") || str_eq_lit(t, "[root.credentials]") {
        return Some((true, nm, pw));
    }
    if c0 == '[' {
        return Some((false, nm, pw));
    }
    // key = "value"
    let ke = key_end_exec(t, 0);
    proof {
        lemma_key_end_props(t@, 0);
    }
    if ke == 0 {
        return None;
    }
    let p1 = ws_run_end_exec(t, ke);
    proof {
        lemma_ws_run_end_props(t@, ke as int);
    }
    if p1 >= tn || t.get_char(p1) != '=' {
        return None;
    }
    let p2 = ws_run_end_exec(t, p1 + 1);
    proof {
        lemma_ws_run_end_props(t@, p1 + 1);
    }
    if p2 >= tn || t.get_char(p2) != '"' {
        return None;
    }
    let mut i: usize = p2 + 1;
    let mut val = String::new();
    loop
        invariant
            p2 + 1 <= i <= tn,
            tn == t@.len(),
            scan_qstr(t@, p2 + 1, Seq::empty()) == scan_qstr(t@, i as int, val@),
            t@ == trimmed(raw@),
            0 < tn,
            t@[0] != '#',
            t@ != "[root]"@,
            t@ != "[root.creds]"@,
            t@ != "[root.credentials]"@,
            t@[0] != '[',
            ke == key_end(t@, 0),
            0 < ke <= tn,
            p1 == ws_run_end(t@, ke as int),
            p1 < tn,
            t@[p1 as int] == '=',
            p2 == ws_run_end(t@, p1 + 1),
            p2 < tn,
            t@[p2 as int] == '"',
        ensures
            i < tn,
            t@[i as int] == '"',
            scan_qstr(t@, p2 + 1, Seq::empty()) == Some::<(Seq<char>, int)>((val@, i + 1)),
        decreases tn - i,
    {
        if i >= tn {
            proof {
                assert(scan_qstr(t@, i as int, val@) is None);
            }
            return None;
        }
        let c = t.get_char(i);
        if c == '"' {
            break;
        }
        if c == '\\' {
            if i + 1 < tn {
                let c2 = t.get_char(i + 1);
                if c2 == '"' || c2 == '\\' {
                    string_push(&mut val, c2);
                    i = i + 2;
                } else {
                    proof {
                        assert(scan_qstr(t@, i as int, val@) is None);
                    }
                    return None;
                }
            } else {
                proof {
                    assert(scan_qstr(t@, i as int, val@) is None);
                }
                return None;
            }
        } else {
            string_push(&mut val, c);
            i = i + 1;
        }
    }
    let p3 = ws_run_end_exec(t, i + 1);
    proof {
        lemma_ws_run_end_props(t@, i + 1);
    }
    if !(p3 == tn || t.get_char(p3) == '#') {
        return None;
    }
    proof {
        assert(parse_keyval(t@) == Some::<(Seq<char>, Seq<char>)>((t@.subrange(0, ke as int), val@)));
    }
    if !in_creds {
        return Some((in_creds, nm, pw));
    }
    let is_name = ke == 4 && match_lit(t, 0, "name");
    let is_pass = ke == 4 && match_lit(t, 0, "pass");
    proof {
        reveal_strlit("name");
        reveal_strlit("pass");
    }
    if is_name {
        if nm.is_some() {
            return None;
        }
        return Some((in_creds, Some(val), pw));
    }
    if is_pass {
        if pw.is_some() {
            return None;
        }
        return Some((in_creds, nm, Some(val)));
    }
    proof {
        let key = t@.subrange(0, ke as int);
        assert(key.len() == ke as int);
        assert(key != "name"@) by {
            if key == "name"@ {
                assert(ke == 4);
            }
        }
        assert(key != "pass"@) by {
            if key == "pass"@ {
                assert(ke == 4);
            }
        }
    }
    Some((in_creds, nm, pw))
}

/// Parses the text of a root-credentials file.
///
/// [`parse_root_spec`] pins exactly what is accepted and what is read back;
/// [`lemma_canonical_root_file`] shows the canonical rendering among it.
pub fn parse_root_file(s: &str) -> (r: Option<RootFile>)
    ensures
        match parse_root_spec(s@) {
            Some(f) => r matches Some(rf) && rf.root.creds.name@ == f.0 && rf.root.creds.pass@
                == f.1,
            None => r is None,
        },
{
    let n: usize = s.unicode_len();
    let mut i: usize = 0;
    let mut line = String::new();
    let mut in_creds = false;
    let mut nm: Option<String> = None;
    let mut pw: Option<String> = None;
    loop
        invariant
            i <= n,
            n == s@.len(),
            parse_lines(s@, i as int, line@, in_creds, nm.deep_view(), pw.deep_view())
                == parse_root_spec(s@),
        ensures
            i == n,
            parse_lines(s@, i as int, line@, in_creds, nm.deep_view(), pw.deep_view())
                == parse_root_spec(s@),
        decreases n - i,
    {
        if i >= n {
            break;
        }
        let c = s.get_char(i);
        if c == '\n' {
            match line_step_exec(line.as_str(), in_creds, nm, pw) {
                None => {
                    return None;
                },
                Some((ic2, nm2, pw2)) => {
                    in_creds = ic2;
                    nm = nm2;
                    pw = pw2;
                    line = String::new();
                },
            }
        } else {
            string_push(&mut line, c);
        }
        i = i + 1;
    }
    match line_step_exec(line.as_str(), in_creds, nm, pw) {
        None => None,
        Some((_, nm2, pw2)) => match (nm2, pw2) {
            (Some(name), Some(pass)) => Some(
                RootFile { root: Root { creds: RootCreds { name, pass } } },
            ),
            _ => None,
        },
    }
}

} // verus!
