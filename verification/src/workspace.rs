//! Workspace file access for the agent and the file panel: path checks that
//! keep every access inside the workspace, the glob and grep rules, and the
//! edit, write and delete decisions with their messages.

use vstd::prelude::*;
use crate::text::{
    chars_end_with, chars_of, chars_range, chars_start_with, concat_str, contains_seq, ends_with,
    find_from, find_seq, lemma_find_seq_found, owned, starts_with, string_of,
};

verus! {

// ---------- relative paths ----------

pub open spec fn err_absolute() -> Seq<char> {
    "不允许绝对路径"@
}

pub open spec fn err_parent() -> Seq<char> {
    "路径不允许 .. 穿越"@
}

pub open spec fn err_empty_path() -> Seq<char> {
    "路径为空"@
}

/// A path separator: `/`, or `\` as Windows writes it.
pub open spec fn is_sep(c: char) -> bool {
    c == '/' || c == '\\'
}

pub open spec fn sep_pred() -> spec_fn(char) -> bool {
    |c: char| is_sep(c)
}

/// Whether a path is absolute: it starts with a separator or with a drive
/// letter and `:`.
pub open spec fn absolute_path(rel: Seq<char>) -> bool {
    (rel.len() > 0 && is_sep(rel[0])) || (rel.len() >= 2 && crate::text::is_ascii_alpha(rel[0])
        && rel[1] == ':')
}

/// Decides `absolute_path`.
pub fn is_absolute_path(c: &[char]) -> (r: bool)
    ensures
        r == absolute_path(c@),
{
    (c.len() > 0 && (c[0] == '/' || c[0] == '\\')) || (c.len() >= 2 && crate::text::char_is_ascii_alpha(c[0])
        && c[1] == ':')
}

/// The components of a path separated by `/` or `\`: empty ones and `.`
/// dropped.
pub open spec fn components(s: Seq<char>) -> Seq<Seq<char>>
    decreases s.len(),
{
    if s.len() == 0 {
        Seq::empty()
    } else {
        match crate::text::first_index(s, sep_pred()) {
            None => if s == seq!['.'] {
                Seq::empty()
            } else {
                seq![s]
            },
            Some(i) => {
                proof {
                    crate::text::lemma_first_index(s, sep_pred());
                }
                let head = s.take(i);
                let rest = components(s.skip(i + 1));
                if head.len() == 0 || head == seq!['.'] {
                    rest
                } else {
                    seq![head] + rest
                }
            },
        }
    }
}

/// A workspace-relative path made safe: absolute paths and `..` refused,
/// `.` and empty components dropped, at least one component left; the
/// result joined with `/`. Both `/` and `\` separate components, so a
/// Windows path cannot slip a `..` past the check.
pub open spec fn safe_rel_spec(rel: Seq<char>) -> Result<Seq<char>, Seq<char>> {
    if absolute_path(rel) {
        Err(err_absolute())
    } else {
        let cs = components(rel);
        if cs.contains(seq!['.', '.']) {
            Err(err_parent())
        } else if cs.len() == 0 {
            Err(err_empty_path())
        } else {
            Ok(crate::text::joined(cs, seq!['/']))
        }
    }
}

pub(crate) fn split_components(s: &[char]) -> (r: Vec<String>)
    ensures
        crate::text::views(r@) == components(s@),
{
    let mut out: Vec<String> = Vec::new();
    let mut p: usize = 0;
    assert(s@.skip(0) == s@);
    while p < s.len()
        invariant
            p <= s.len(),
            components(s@) == crate::text::views(out@) + components(s@.skip(p as int)),
        decreases s.len() - p,
    {
        let ghost rest = s@.skip(p as int);
        let mut q: usize = p;
        while q < s.len() && s[q] != '/' && s[q] != '\\'
            invariant
                p <= q <= s.len(),
                forall|j: int| p <= j < q ==> !is_sep(#[trigger] s@[j]),
            decreases s.len() - q,
        {
            q = q + 1;
        }
        proof {
            assert forall|j: int| 0 <= j < q - p implies !(#[trigger] sep_pred()(rest[j])) by {
                assert(rest[j] == s@[p + j]);
            }
            if q < s.len() {
                assert(rest[q - p] == s@[q as int]);
                crate::text::lemma_first_index_is(rest, sep_pred(), q - p);
            } else {
                crate::text::lemma_first_index_none(rest, sep_pred());
            }
        }
        let part = chars_range(s, p, q);
        let is_dot = part.len() == 1 && part[0] == '.';
        assert(is_dot == (part@ == seq!['.'])) by {
            if part@ == seq!['.'] {
                assert(part@.len() == 1);
            }
            if part.len() == 1 && part@[0] == '.' {
                assert(part@ =~= seq!['.']);
            }
        }
        let ghost before = out@;
        if q == s.len() {
            assert(part@ == rest);
            if !is_dot {
                out.push(string_of(part.as_slice()));
            }
            assert(s@.skip(q as int).len() == 0);
            assert(components(s@.skip(q as int)) =~= Seq::<Seq<char>>::empty());
            assert(crate::text::views(out@) + components(s@.skip(q as int)) =~= crate::text::views(before) + components(rest));
            p = q;
        } else {
            assert(part@ == rest.take(q - p));
            if part.len() > 0 && !is_dot {
                out.push(string_of(part.as_slice()));
            }
            assert(rest.skip((q - p) + 1) =~= s@.skip(q + 1));
            assert(crate::text::views(out@) + components(s@.skip(q + 1)) =~= crate::text::views(before) + components(rest));
            p = q + 1;
        }
    }
    assert(components(s@.skip(p as int)) =~= Seq::<Seq<char>>::empty());
    assert(crate::text::views(out@) + Seq::<Seq<char>>::empty() =~= crate::text::views(out@));
    out
}

/// Checks a workspace-relative path (see `safe_rel_spec`).
pub fn safe_rel(rel: &str) -> (r: Result<String, String>)
    ensures
        match r {
            Ok(p) => safe_rel_spec(rel@) == Ok::<Seq<char>, Seq<char>>(p@),
            Err(e) => safe_rel_spec(rel@) == Err::<Seq<char>, Seq<char>>(e@),
        },
{
    let c = chars_of(rel);
    if is_absolute_path(c.as_slice()) {
        return Err(owned("不允许绝对路径"));
    }
    let parts = split_components(c.as_slice());
    let dd = vec!['.', '.'];
    assert(dd@ == seq!['.', '.']);
    if crate::text::contains_string(&parts, dd.as_slice()) {
        return Err(owned("路径不允许 .. 穿越"));
    }
    if parts.len() == 0 {
        return Err(owned("路径为空"));
    }
    let sl = vec!['/'];
    let sep = string_of(sl.as_slice());
    assert(sep@ == seq!['/']);
    assert(!(c@.len() > 0 && c@[0] == '/'));
    Ok(crate::text::join_strings(&parts, sep.as_str()))
}

// ---------- glob ----------

pub open spec fn regex_special(c: char) -> bool {
    c == '.' || c == '+' || c == '(' || c == ')' || c == '[' || c == ']' || c == '{' || c == '}' || c == '^'
        || c == '$' || c == '|' || c == '\\'
}

pub open spec fn any_segment() -> Seq<char> {
    seq!['[', '^', '/', ']', '*']
}

pub open spec fn any_path() -> Seq<char> {
    seq!['.', '*']
}

/// The regex body of a glob from position `i`: `**` any path, `*` any run
/// without `/`, `?` one character but `/`, regex characters escaped.
pub open spec fn glob_body(p: Seq<char>, i: int) -> Seq<char>
    decreases p.len() - i,
{
    if i >= p.len() || i < 0 {
        Seq::empty()
    } else {
        let c = p[i];
        if c == '*' {
            if i + 1 < p.len() && p[i + 1] == '*' {
                any_path() + glob_body(p, i + 2)
            } else {
                any_segment() + glob_body(p, i + 1)
            }
        } else if c == '?' {
            seq!['[', '^', '/', ']'] + glob_body(p, i + 1)
        } else if regex_special(c) {
            seq!['\\', c] + glob_body(p, i + 1)
        } else {
            seq![c] + glob_body(p, i + 1)
        }
    }
}

/// A glob as an anchored regex (see `glob_body`).
pub open spec fn glob_regex_spec(p: Seq<char>) -> Seq<char> {
    seq!['^'] + glob_body(p, 0) + seq!['$']
}

fn push_all(out: &mut Vec<char>, s: &[char])
    ensures
        final(out)@ == old(out)@ + s@,
{
    let mut i: usize = 0;
    let ghost base = out@;
    while i < s.len()
        invariant
            i <= s.len(),
            out@ == base + s@.take(i as int),
        decreases s.len() - i,
    {
        out.push(s[i]);
        i = i + 1;
        assert(out@ == base + s@.take(i as int));
    }
    assert(s@.take(s.len() as int) == s@);
}

/// Turns a glob into an anchored regex (see `glob_regex_spec`).
pub fn glob_to_regex(pattern: &str) -> (r: String)
    ensures
        r@ == glob_regex_spec(pattern@),
        forall|t: Seq<char>| #[trigger] simple_match_spec(r@, t) == glob_matches(pattern@, t),
{
    let p = chars_of(pattern);
    let mut out: Vec<char> = vec!['^'];
    let mut i: usize = 0;
    while i < p.len()
        invariant
            i <= p.len(),
            p@ == pattern@,
            out@ + glob_body(p@, i as int) == seq!['^'] + glob_body(p@, 0),
        decreases p.len() - i,
    {
        let c = p[i];
        let ghost before = out@;
        if c == '*' {
            if i + 1 < p.len() && p[i + 1] == '*' {
                let s = vec!['.', '*'];
                push_all(&mut out, s.as_slice());
                assert(out@ + glob_body(p@, i + 2) =~= before + glob_body(p@, i as int));
                i = i + 2;
            } else {
                let s = vec!['[', '^', '/', ']', '*'];
                push_all(&mut out, s.as_slice());
                assert(out@ + glob_body(p@, i + 1) =~= before + glob_body(p@, i as int));
                i = i + 1;
            }
        } else if c == '?' {
            let s = vec!['[', '^', '/', ']'];
            push_all(&mut out, s.as_slice());
            assert(out@ + glob_body(p@, i + 1) =~= before + glob_body(p@, i as int));
            i = i + 1;
        } else if c == '.' || c == '+' || c == '(' || c == ')' || c == '[' || c == ']' || c == '{' || c == '}'
            || c == '^' || c == '$' || c == '|' || c == '\\' {
            out.push('\\');
            out.push(c);
            assert(out@ + glob_body(p@, i + 1) =~= before + glob_body(p@, i as int));
            i = i + 1;
        } else {
            out.push(c);
            assert(out@ + glob_body(p@, i + 1) =~= before + glob_body(p@, i as int));
            i = i + 1;
        }
    }
    assert(glob_body(p@, i as int) =~= Seq::<char>::empty());
    out.push('$');
    assert(out@ =~= glob_regex_spec(pattern@));
    assert forall|t: Seq<char>| #[trigger] simple_match_spec(out@, t) == glob_matches(pattern@, t) by {
        lemma_glob_regex_matches(pattern@, t);
    }
    string_of(out.as_slice())
}

} // verus!

verus! {

// ---------- matching generated globs ----------

/// One piece of a glob: `**` any path, `*` any run without `/`, `?` one
/// character but `/`, or a character that stands for itself.
pub enum GlobTok {
    AnyPath,
    AnySeg,
    OneChar,
    Lit(char),
}

pub open spec fn one_char_re() -> Seq<char> {
    seq!['[', '^', '/', ']']
}

/// The pieces of a glob from position `i`.
pub open spec fn glob_tokens(p: Seq<char>, i: int) -> Seq<GlobTok>
    decreases p.len() - i,
{
    if i >= p.len() || i < 0 {
        Seq::empty()
    } else if p[i] == '*' {
        if i + 1 < p.len() && p[i + 1] == '*' {
            seq![GlobTok::AnyPath] + glob_tokens(p, i + 2)
        } else {
            seq![GlobTok::AnySeg] + glob_tokens(p, i + 1)
        }
    } else if p[i] == '?' {
        seq![GlobTok::OneChar] + glob_tokens(p, i + 1)
    } else {
        seq![GlobTok::Lit(p[i])] + glob_tokens(p, i + 1)
    }
}

/// The pieces of a regex body in the form `glob_to_regex` writes: `\c` the
/// character `c`, `.*` any path, `[^/]*` any run without `/`, `[^/]` one
/// character but `/`, any other character itself.
pub open spec fn re_tokens(s: Seq<char>) -> Seq<GlobTok>
    decreases s.len(),
{
    if s.len() == 0 {
        Seq::empty()
    } else if s[0] == '\\' && s.len() >= 2 {
        seq![GlobTok::Lit(s[1])] + re_tokens(s.skip(2))
    } else if starts_with(s, any_path()) {
        seq![GlobTok::AnyPath] + re_tokens(s.skip(2))
    } else if starts_with(s, any_segment()) {
        seq![GlobTok::AnySeg] + re_tokens(s.skip(5))
    } else if starts_with(s, one_char_re()) {
        seq![GlobTok::OneChar] + re_tokens(s.skip(4))
    } else {
        seq![GlobTok::Lit(s[0])] + re_tokens(s.skip(1))
    }
}

/// A regex without its anchors: one leading `^` and one trailing `$`.
pub open spec fn re_body(re: Seq<char>) -> Seq<char> {
    let a = if re.len() > 0 && re[0] == '^' {
        re.skip(1)
    } else {
        re
    };
    if a.len() > 0 && a.last() == '$' {
        a.drop_last()
    } else {
        a
    }
}

/// Whether the pieces from `i` on match the text from `j` to its end.
pub open spec fn toks_match(t: Seq<GlobTok>, i: int, s: Seq<char>, j: int) -> bool
    decreases t.len() - i, s.len() - j,
{
    if i < 0 || j < 0 || i > t.len() || j > s.len() {
        false
    } else if i == t.len() {
        j == s.len()
    } else {
        match t[i] {
            GlobTok::AnyPath => toks_match(t, i + 1, s, j) || (j < s.len() && toks_match(t, i, s, j + 1)),
            GlobTok::AnySeg => toks_match(t, i + 1, s, j) || (j < s.len() && s[j] != '/' && toks_match(
                t,
                i,
                s,
                j + 1,
            )),
            GlobTok::OneChar => j < s.len() && s[j] != '/' && toks_match(t, i + 1, s, j + 1),
            GlobTok::Lit(c) => j < s.len() && s[j] == c && toks_match(t, i + 1, s, j + 1),
        }
    }
}

/// Whether a whole path matches a glob: `**` stands for any run of
/// characters, `*` for any run without `/`, `?` for one character but `/`,
/// every other character for itself.
pub open spec fn glob_matches(p: Seq<char>, text: Seq<char>) -> bool {
    toks_match(glob_tokens(p, 0), 0, text, 0)
}

/// Whether a path matches a regex in the form `glob_to_regex` writes
/// (anchored, with `.*`, `[^/]*`, `[^/]` and escaped characters).
pub open spec fn simple_match_spec(re: Seq<char>, text: Seq<char>) -> bool {
    toks_match(re_tokens(re_body(re)), 0, text, 0)
}

proof fn lemma_re_tokens_piece(piece: Seq<char>, rest: Seq<char>, tok: GlobTok)
    requires
        rest.len() > 0 ==> rest[0] != '*',
        (piece =~= seq!['\\', piece[1]] && tok == GlobTok::Lit(piece[1])) || (piece =~= any_path() && tok
            == GlobTok::AnyPath) || (piece =~= any_segment() && tok == GlobTok::AnySeg) || (piece
            =~= one_char_re() && tok == GlobTok::OneChar) || (piece.len() == 1 && piece[0] != '\\'
            && piece[0] != '.' && piece[0] != '[' && tok == GlobTok::Lit(piece[0])),
    ensures
        re_tokens(piece + rest) == seq![tok] + re_tokens(rest),
{
    let s = piece + rest;
    assert(s.skip(piece.len() as int) =~= rest);
    assert(s.take(piece.len() as int) =~= piece);
    if piece =~= one_char_re() {
        assert(!starts_with(s, any_segment())) by {
            if s.len() >= 5 {
                assert(s[4] == rest[0]);
                assert(s.take(5)[4] != any_segment()[4]);
            }
        }
        assert(!starts_with(s, any_path())) by {
            assert(s.take(2)[0] != any_path()[0]);
        }
    } else if piece =~= any_segment() {
        assert(!starts_with(s, any_path())) by {
            assert(s.take(2)[0] != any_path()[0]);
        }
    } else if piece.len() == 1 && piece[0] != '\\' && piece[0] != '.' && piece[0] != '[' && tok == GlobTok::Lit(piece[0]) {
        assert(!starts_with(s, any_path())) by {
            if s.len() >= 2 {
                assert(s.take(2)[0] != any_path()[0]);
            }
        }
        assert(!starts_with(s, any_segment())) by {
            if s.len() >= 5 {
                assert(s.take(5)[0] != any_segment()[0]);
            }
        }
        assert(!starts_with(s, one_char_re())) by {
            if s.len() >= 4 {
                assert(s.take(4)[0] != one_char_re()[0]);
            }
        }
    }
}

proof fn lemma_glob_body_head(p: Seq<char>, i: int)
    ensures
        glob_body(p, i).len() > 0 ==> glob_body(p, i)[0] != '*',
{
}

/// The pieces of a glob's regex body are the glob's own pieces.
pub proof fn lemma_re_tokens_of_glob(p: Seq<char>, i: int)
    requires
        0 <= i,
    ensures
        re_tokens(glob_body(p, i)) == glob_tokens(p, i),
    decreases p.len() - i,
{
    if i < p.len() {
        let c = p[i];
        if c == '*' {
            if i + 1 < p.len() && p[i + 1] == '*' {
                lemma_re_tokens_of_glob(p, i + 2);
                lemma_glob_body_head(p, i + 2);
                lemma_re_tokens_piece(any_path(), glob_body(p, i + 2), GlobTok::AnyPath);
            } else {
                lemma_re_tokens_of_glob(p, i + 1);
                lemma_glob_body_head(p, i + 1);
                lemma_re_tokens_piece(any_segment(), glob_body(p, i + 1), GlobTok::AnySeg);
            }
        } else {
            lemma_re_tokens_of_glob(p, i + 1);
            lemma_glob_body_head(p, i + 1);
            if c == '?' {
                lemma_re_tokens_piece(one_char_re(), glob_body(p, i + 1), GlobTok::OneChar);
            } else if regex_special(c) {
                lemma_re_tokens_piece(seq!['\\', c], glob_body(p, i + 1), GlobTok::Lit(c));
            } else {
                lemma_re_tokens_piece(seq![c], glob_body(p, i + 1), GlobTok::Lit(c));
            }
        }
    }
}

/// A regex made by `glob_to_regex` matches a path exactly when the glob
/// does.
pub proof fn lemma_glob_regex_matches(p: Seq<char>, text: Seq<char>)
    ensures
        simple_match_spec(glob_regex_spec(p), text) == glob_matches(p, text),
{
    let re = glob_regex_spec(p);
    assert(re.skip(1) =~= glob_body(p, 0) + seq!['$']);
    assert((glob_body(p, 0) + seq!['$']).drop_last() =~= glob_body(p, 0));
    assert(re_body(re) == glob_body(p, 0));
    lemma_re_tokens_of_glob(p, 0);
}

proof fn lemma_push_tokens(all: Seq<GlobTok>, before: Seq<GlobTok>, tok: GlobTok, r1: Seq<GlobTok>, r2: Seq<GlobTok>)
    requires
        all == before + r1,
        r1 == seq![tok] + r2,
    ensures
        all == before.push(tok) + r2,
{
    assert(before + (seq![tok] + r2) =~= before.push(tok) + r2);
}

fn re_tokens_of(s: &[char]) -> (r: Vec<GlobTok>)
    ensures
        r@ == re_tokens(s@),
{
    let mut out: Vec<GlobTok> = Vec::new();
    let mut i: usize = 0;
    assert(s@.skip(0) =~= s@);
    while i < s.len()
        invariant
            i <= s.len(),
            re_tokens(s@) == out@ + re_tokens(s@.skip(i as int)),
        decreases s.len() - i,
    {
        let ghost rest = s@.skip(i as int);
        let ghost before = out@;
        let n = s.len() - i;
        assert(rest.len() == n && rest[0] == s@[i as int]);
        if s[i] == '\\' && n >= 2 {
            assert(rest[1] == s@[i + 1]);
            let tok = GlobTok::Lit(s[i + 1]);
            out.push(tok);
            assert(rest.skip(2) =~= s@.skip(i + 2));
            proof {
                lemma_push_tokens(re_tokens(s@), before, tok, re_tokens(rest), re_tokens(s@.skip(i + 2)));
            }
            i = i + 2;
        } else if n >= 2 && s[i] == '.' && s[i + 1] == '*' {
            assert(rest[1] == s@[i + 1]);
            assert(rest.take(2) =~= any_path());
            out.push(GlobTok::AnyPath);
            assert(rest.skip(2) =~= s@.skip(i + 2));
            proof {
                lemma_push_tokens(re_tokens(s@), before, GlobTok::AnyPath, re_tokens(rest), re_tokens(s@.skip(i + 2)));
            }
            i = i + 2;
        } else if n >= 4 && s[i] == '[' && s[i + 1] == '^' && s[i + 2] == '/' && s[i + 3] == ']' {
            assert(rest[1] == s@[i + 1] && rest[2] == s@[i + 2] && rest[3] == s@[i + 3]);
            assert(!starts_with(rest, any_path())) by {
                assert(rest.take(2)[0] != any_path()[0]);
            }
            if n >= 5 && s[i + 4] == '*' {
                assert(rest[4] == s@[i + 4]);
                assert(rest.take(5) =~= any_segment());
                out.push(GlobTok::AnySeg);
                assert(rest.skip(5) =~= s@.skip(i + 5));
                proof {
                    lemma_push_tokens(re_tokens(s@), before, GlobTok::AnySeg, re_tokens(rest), re_tokens(s@.skip(i + 5)));
                }
                i = i + 5;
            } else {
                assert(!starts_with(rest, any_segment())) by {
                    if rest.len() >= 5 {
                        assert(rest[4] == s@[i + 4]);
                        assert(rest.take(5)[4] != any_segment()[4]);
                    }
                }
                assert(rest.take(4) =~= one_char_re());
                out.push(GlobTok::OneChar);
                assert(rest.skip(4) =~= s@.skip(i + 4));
                proof {
                    lemma_push_tokens(re_tokens(s@), before, GlobTok::OneChar, re_tokens(rest), re_tokens(s@.skip(i + 4)));
                }
                i = i + 4;
            }
        } else {
            assert(!starts_with(rest, any_path())) by {
                if rest.len() >= 2 && rest.take(2) == any_path() {
                    assert(rest[0] == rest.take(2)[0] && rest[1] == rest.take(2)[1]);
                    assert(rest[1] == s@[i + 1]);
                }
            }
            assert(!starts_with(rest, any_segment())) by {
                if rest.len() >= 5 && rest.take(5) == any_segment() {
                    assert(rest[0] == rest.take(5)[0] && rest[1] == rest.take(5)[1]);
                    assert(rest[2] == rest.take(5)[2] && rest[3] == rest.take(5)[3]);
                    assert(rest[1] == s@[i + 1] && rest[2] == s@[i + 2] && rest[3] == s@[i + 3]);
                }
            }
            assert(!starts_with(rest, one_char_re())) by {
                if rest.len() >= 4 && rest.take(4) == one_char_re() {
                    assert(rest[0] == rest.take(4)[0] && rest[1] == rest.take(4)[1]);
                    assert(rest[2] == rest.take(4)[2] && rest[3] == rest.take(4)[3]);
                    assert(rest[1] == s@[i + 1] && rest[2] == s@[i + 2] && rest[3] == s@[i + 3]);
                }
            }
            let tok = GlobTok::Lit(s[i]);
            out.push(tok);
            assert(rest.skip(1) =~= s@.skip(i + 1));
            proof {
                lemma_push_tokens(re_tokens(s@), before, tok, re_tokens(rest), re_tokens(s@.skip(i + 1)));
            }
            i = i + 1;
        }
    }
    assert(s@.skip(i as int) =~= Seq::<char>::empty());
    assert(out@ + Seq::<GlobTok>::empty() =~= out@);
    out
}

/// One step of the matching table: whether the piece at `i` and those after
/// match the text from `j`, given the answers for the later positions.
fn step_match(t: &GlobTok, c: Option<char>, skip_piece: bool, take_char: bool, stay: bool) -> (r: bool)
    ensures
        r == match *t {
            GlobTok::AnyPath => skip_piece || (c is Some && stay),
            GlobTok::AnySeg => skip_piece || (c matches Some(x) && x != '/' && stay),
            GlobTok::OneChar => c matches Some(x) && x != '/' && take_char,
            GlobTok::Lit(l) => c matches Some(x) && x == l && take_char,
        },
{
    match t {
        GlobTok::AnyPath => skip_piece || (c.is_some() && stay),
        GlobTok::AnySeg => skip_piece || (match c {
            Some(x) => x != '/' && stay,
            None => false,
        }),
        GlobTok::OneChar => match c {
            Some(x) => x != '/' && take_char,
            None => false,
        },
        GlobTok::Lit(l) => match c {
            Some(x) => x == *l && take_char,
            None => false,
        },
    }
}

/// Matches a path against a regex in the form `glob_to_regex` writes (see
/// `simple_match_spec`); for such a regex, exactly when the glob matches
/// (`lemma_glob_regex_matches`).
pub fn simple_regex_match(re: &str, text: &str) -> (r: bool)
    ensures
        r == simple_match_spec(re@, text@),
{
    let rc = chars_of(re);
    let start: usize = if rc.len() > 0 && rc[0] == '^' { 1 } else { 0 };
    let mut end: usize = rc.len();
    if end > start && rc[end - 1] == '$' {
        end = end - 1;
    }
    let body = chars_range(rc.as_slice(), start, end);
    proof {
        let a = if re@.len() > 0 && re@[0] == '^' { re@.skip(1) } else { re@ };
        assert(a =~= re@.subrange(start as int, rc.len() as int));
        if a.len() > 0 && a.last() == '$' {
            assert(a.drop_last() =~= re@.subrange(start as int, end as int));
        } else {
            assert(a =~= re@.subrange(start as int, end as int));
        }
    }
    assert(body@ == re_body(re@));
    let toks = re_tokens_of(body.as_slice());
    let tc = chars_of(text);
    let ghost t = toks@;
    let ghost s = text@;
    let m = tc.len();
    let n = toks.len();
    // the row for position n: only the end of the text matches
    let mut next: Vec<bool> = Vec::new();
    let mut j: usize = 0;
    while j < m
        invariant
            j <= m,
            m == tc.len(),
            tc@ == s,
            n == t.len(),
            next.len() == j,
            forall|k: int| 0 <= k < j ==> next@[k] == toks_match(t, n as int, s, k),
        decreases m - j,
    {
        next.push(false);
        j = j + 1;
    }
    next.push(true);
    let mut i: usize = n;
    while i > 0
        invariant
            i <= n,
            n == t.len(),
            toks@ == t,
            m == tc.len(),
            tc@ == s,
            next.len() == m + 1,
            forall|k: int| 0 <= k <= m ==> next@[k] == toks_match(t, i as int, s, k),
        decreases i,
    {
        let ii = i - 1;
        let mut cur: Vec<bool> = Vec::new();
        let mut z: usize = 0;
        while z < m
            invariant
                z <= m,
                cur.len() == z,
            decreases m - z,
        {
            cur.push(false);
            z = z + 1;
        }
        let last = step_match(&toks[ii], None, next[m], false, false);
        assert(last == toks_match(t, ii as int, s, m as int));
        cur.push(last);
        let mut jj: usize = m;
        while jj > 0
            invariant
                jj <= m,
                ii < n,
                n == t.len(),
                toks@ == t,
                m == tc.len(),
                tc@ == s,
                next.len() == m + 1,
                cur.len() == m + 1,
                forall|k: int| 0 <= k <= m ==> next@[k] == toks_match(t, ii + 1, s, k),
                forall|k: int| jj <= k <= m ==> cur@[k] == toks_match(t, ii as int, s, k),
            decreases jj,
        {
            let j = jj - 1;
            let v = step_match(&toks[ii], Some(tc[j]), next[j], next[j + 1], cur[j + 1]);
            assert(v == toks_match(t, ii as int, s, j as int));
            cur.set(j, v);
            jj = j;
        }
        next = cur;
        i = ii;
    }
    next[0]
}

pub open spec fn any_dir_prefix() -> Seq<char> {
    seq!['*', '*', '/']
}

/// Whether a workspace path matches a glob; a glob starting with `**/` also
/// matches at the root.
pub open spec fn glob_hit_spec(pattern: Seq<char>, rel: Seq<char>) -> bool {
    simple_match_spec(glob_regex_spec(pattern), rel) || (starts_with(pattern, any_dir_prefix())
        && simple_match_spec(glob_regex_spec(pattern.skip(3)), rel))
}

/// Decides whether a workspace path matches a glob (see `glob_hit_spec`).
pub fn glob_hit(pattern: &str, rel: &str) -> (r: bool)
    ensures
        r == glob_hit_spec(pattern@, rel@),
        r == (glob_matches(pattern@, rel@) || (starts_with(pattern@, any_dir_prefix()) && glob_matches(
            pattern@.skip(3),
            rel@,
        ))),
{
    proof {
        lemma_glob_regex_matches(pattern@, rel@);
        lemma_glob_regex_matches(pattern@.skip(3), rel@);
    }
    let re = glob_to_regex(pattern);
    if simple_regex_match(re.as_str(), rel) {
        return true;
    }
    let pc = chars_of(pattern);
    let pre = vec!['*', '*', '/'];
    assert(pre@ == any_dir_prefix());
    if chars_start_with(pc.as_slice(), pre.as_slice()) {
        let rest = chars_range(pc.as_slice(), 3, pc.len());
        assert(rest@ == pattern@.skip(3));
        let rs = string_of(rest.as_slice());
        let re2 = glob_to_regex(rs.as_str());
        return simple_regex_match(re2.as_str(), rel);
    }
    false
}

} // verus!

verus! {

// ---------- glob and grep results ----------

/// The first paths, in order, that match the glob.
pub open spec fn glob_filtered(pattern: Seq<char>, rels: Seq<Seq<char>>) -> Seq<Seq<char>>
    decreases rels.len(),
{
    if rels.len() == 0 {
        Seq::empty()
    } else {
        let prev = glob_filtered(pattern, rels.drop_last());
        if glob_hit_spec(pattern, rels.last()) {
            prev.push(rels.last())
        } else {
            prev
        }
    }
}

/// Most paths a glob or lines a grep returns.
pub const MAX_HITS: usize = 200;

pub open spec fn first_n(s: Seq<Seq<char>>, n: int) -> Seq<Seq<char>> {
    if n >= s.len() {
        s
    } else {
        s.take(n)
    }
}

/// The files a glob finds: the first 200 matching paths (in walk order),
/// sorted.
pub fn select_glob(pattern: &str, rels: Vec<String>) -> (r: Vec<String>)
    ensures
        crate::text::views(r@).to_multiset() == first_n(glob_filtered(pattern@, crate::text::views(rels@)), 200).to_multiset(),
        crate::text::sorted_lex(crate::text::views(r@)),
{
    let ghost all = crate::text::views(rels@);
    let mut picked: Vec<String> = Vec::new();
    let mut i: usize = 0;
    assert(all.take(0) =~= Seq::<Seq<char>>::empty());
    while i < rels.len() && picked.len() < MAX_HITS
        invariant
            i <= rels.len(),
            all == crate::text::views(rels@),
            picked.len() <= MAX_HITS,
            crate::text::views(picked@) == first_n(glob_filtered(pattern@, all.take(i as int)), 200),
            picked.len() < MAX_HITS ==> glob_filtered(pattern@, all.take(i as int)).len() == picked.len(),
        decreases rels.len() - i,
    {
        assert(all.take(i + 1).drop_last() == all.take(i as int));
        assert(all.take(i + 1).last() == rels@[i as int]@);
        let ghost before = picked@;
        if glob_hit(pattern, rels[i].as_str()) {
            picked.push(owned(rels[i].as_str()));
            assert(crate::text::views(picked@) =~= crate::text::views(before).push(rels@[i as int]@));
        }
        i = i + 1;
    }
    proof {
        if i < rels.len() {
            lemma_filtered_prefix(pattern@, all, i as int);
        } else {
            assert(all.take(i as int) == all);
        }
    }
    crate::text::sort_strings(picked)
}

/// Past 200 hits, later paths change nothing of the first 200.
pub proof fn lemma_filtered_prefix(pattern: Seq<char>, all: Seq<Seq<char>>, i: int)
    requires
        0 <= i <= all.len(),
        glob_filtered(pattern, all.take(i)).len() >= 200,
    ensures
        first_n(glob_filtered(pattern, all), 200) == first_n(glob_filtered(pattern, all.take(i)), 200),
    decreases all.len() - i,
{
    if i == all.len() {
        assert(all.take(i) == all);
    } else {
        let f1 = glob_filtered(pattern, all.take(i));
        let f2 = glob_filtered(pattern, all.take(i + 1));
        assert(all.take(i + 1).drop_last() == all.take(i));
        assert(f2.take(200) =~= f1.take(200));
        lemma_filtered_prefix(pattern, all, i + 1);
    }
}

/// Whether a file passes grep's file-name filter (`*.ts`): its path ends
/// with the filter, leading `*` removed.
pub open spec fn file_filter_spec(filter: Option<Seq<char>>, rel: Seq<char>) -> bool {
    match filter {
        None => true,
        Some(f) => ends_with(rel, crate::text::trim_leading(f, '*')),
    }
}

/// Applies grep's file-name filter (see `file_filter_spec`).
pub fn passes_file_filter(filter: Option<&str>, rel: &str) -> (r: bool)
    ensures
        r == file_filter_spec(crate::skills::opt_str_view(filter), rel@),
{
    match filter {
        None => true,
        Some(f) => {
            let fc = chars_of(f);
            let t = crate::text::trim_leading_chars(fc.as_slice(), '*');
            let rc = chars_of(rel);
            chars_end_with(rc.as_slice(), t.as_slice())
        },
    }
}

/// Whether each line matches `pattern` by the `regex` crate
/// (`Regex::is_match`); `None` when the pattern does not compile.
pub uninterp spec fn regex_matches_each(pattern: Seq<char>, lines: Seq<Seq<char>>) -> Option<Seq<bool>>;

/// Tests each line against `pattern` with the `regex` crate (`Regex::new`
/// once, then `Regex::is_match` per line); `None` when the pattern does not
/// compile. The answers are named by `regex_matches_each`, one per line.
#[verifier::external_body]
fn regex_match_lines(pattern: &str, lines: &Vec<String>) -> (r: Option<Vec<bool>>)
    ensures
        match r {
            Some(v) => regex_matches_each(pattern@, crate::text::views(lines@)) == Some(v@) && v@.len()
                == lines@.len(),
            None => regex_matches_each(pattern@, crate::text::views(lines@)) is None,
        },
{
    let re = regex::Regex::new(pattern).ok()?;
    Some(lines.iter().map(|l| re.is_match(l)).collect())
}

/// Whether line `i` is a hit: by the regex, or, when the pattern does not
/// compile, by containing the pattern as text.
pub open spec fn line_hit(pattern: Seq<char>, lines: Seq<Seq<char>>, i: int) -> bool {
    match regex_matches_each(pattern, lines) {
        Some(m) => 0 <= i < m.len() && m[i],
        None => contains_seq(lines[i], pattern),
    }
}

/// A grep hit as the model reads it: `path:line: text`.
pub open spec fn hit_text(rel: Seq<char>, num: nat, line: Seq<char>) -> Seq<char> {
    rel + seq![':'] + crate::text::decimal(num) + seq![':', ' '] + line
}

/// The hits of one file, in line order.
pub open spec fn file_hits(rel: Seq<char>, pattern: Seq<char>, lines: Seq<Seq<char>>, n: int) -> Seq<Seq<char>>
    decreases n,
{
    if n <= 0 {
        Seq::empty()
    } else {
        let prev = file_hits(rel, pattern, lines, n - 1);
        if line_hit(pattern, lines, n - 1) {
            prev.push(hit_text(rel, n as nat, lines[n - 1]))
        } else {
            prev
        }
    }
}

/// The grep hits of one file's text, at most `room` of them (see
/// `file_hits`).
pub fn grep_file(rel: &str, content: &str, pattern: &str, room: usize) -> (r: Vec<String>)
    ensures
        crate::text::views(r@) == first_n(
            file_hits(rel@, pattern@, crate::text::lines_of(content@), crate::text::lines_of(content@).len() as int),
            room as int,
        ),
{
    let lines = crate::text::split_lines(content);
    let ghost ls = crate::text::views(lines@);
    let flags = regex_match_lines(pattern, &lines);
    let pc = chars_of(pattern);
    let mut out: Vec<String> = Vec::new();
    let mut i: usize = 0;
    while i < lines.len() && out.len() < room
        invariant
            i <= lines.len(),
            ls == crate::text::views(lines@),
            ls == crate::text::lines_of(content@),
            pc@ == pattern@,
            out.len() <= room,
            match flags {
                Some(v) => regex_matches_each(pattern@, ls) == Some(v@),
                None => regex_matches_each(pattern@, ls) is None,
            },
            crate::text::views(out@) == first_n(file_hits(rel@, pattern@, ls, i as int), room as int),
            out.len() < room ==> file_hits(rel@, pattern@, ls, i as int).len() == out.len(),
        decreases lines.len() - i,
    {
        let hit = match &flags {
            Some(v) => i < v.len() && v[i],
            None => {
                let lc = chars_of(lines[i].as_str());
                assert(lc@.skip(0) == lc@);
                find_from(lc.as_slice(), pc.as_slice(), 0).is_some()
            },
        };
        assert(hit == line_hit(pattern@, ls, i as int));
        let ghost before = out@;
        if hit {
            let colon = vec![':'];
            let colon_sp = vec![':', ' '];
            let a = concat_str(rel, string_of(colon.as_slice()).as_str());
            let num: u64 = (i + 1) as u64;
            assert(num as nat == (i + 1) as nat);
            let b = concat_str(a.as_str(), crate::text::u64_to_string(num).as_str());
            let c = concat_str(b.as_str(), string_of(colon_sp.as_slice()).as_str());
            let line = concat_str(c.as_str(), lines[i].as_str());
            assert(lines@[i as int]@ == ls[i as int]);
            assert(line@ =~= hit_text(rel@, (i + 1) as nat, ls[i as int]));
            out.push(line);
            assert(crate::text::views(out@) =~= crate::text::views(before).push(hit_text(rel@, (i + 1) as nat, ls[i as int])));
        }
        i = i + 1;
    }
    proof {
        if i < lines.len() {
            lemma_hits_prefix(rel@, pattern@, ls, i as int, room as int);
        }
    }
    out
}

/// Once `room` hits are found, later lines change nothing of the first.
pub proof fn lemma_hits_prefix(rel: Seq<char>, pattern: Seq<char>, ls: Seq<Seq<char>>, i: int, room: int)
    requires
        0 <= i <= ls.len(),
        0 <= room,
        file_hits(rel, pattern, ls, i).len() >= room,
    ensures
        first_n(file_hits(rel, pattern, ls, ls.len() as int), room) == first_n(file_hits(rel, pattern, ls, i), room),
    decreases ls.len() - i,
{
    if i < ls.len() {
        let f1 = file_hits(rel, pattern, ls, i);
        let f2 = file_hits(rel, pattern, ls, i + 1);
        assert(f2.take(room) =~= f1.take(room));
        lemma_hits_prefix(rel, pattern, ls, i + 1, room);
    }
}

} // verus!

verus! {

// ---------- writing, editing, deleting ----------

/// Most bytes a file written or edited by the agent may hold (10 MB).
pub const MAX_WRITE_BYTES: usize = 10485760;

/// The non-overlapping occurrences of `p` in `s`, left to right.
pub open spec fn count_occ(s: Seq<char>, p: Seq<char>) -> nat
    decreases s.len(),
{
    if p.len() == 0 {
        0
    } else {
        match find_seq(s, p) {
            None => 0,
            Some(i) => {
                proof {
                    lemma_find_seq_found(s, p);
                }
                1 + count_occ(s.skip(i + p.len()), p)
            },
        }
    }
}

/// The text with the first occurrence of `old` replaced by `new`.
pub open spec fn replace_first(s: Seq<char>, old: Seq<char>, new: Seq<char>) -> Seq<char> {
    match find_seq(s, old) {
        None => s,
        Some(i) => s.take(i) + new + s.skip(i + old.len()),
    }
}

/// The checks an edit passes before the file is touched.
pub open spec fn edit_args_spec(old: Seq<char>, new: Seq<char>) -> Result<(), Seq<char>> {
    if old.len() == 0 {
        Err("old_string 不能为空"@)
    } else if old == new {
        Err("old_string 与 new_string 相同"@)
    } else {
        Ok(())
    }
}

/// Checks the strings of an edit (see `edit_args_spec`).
pub fn check_edit_args(old: &str, new: &str) -> (r: Result<(), String>)
    ensures
        match r {
            Ok(()) => edit_args_spec(old@, new@) == Ok::<(), Seq<char>>(()),
            Err(e) => edit_args_spec(old@, new@) == Err::<(), Seq<char>>(e@),
        },
{
    if old.is_empty() {
        return Err(owned("old_string 不能为空"));
    }
    if crate::text::str_eq(old, new) {
        return Err(owned("old_string 与 new_string 相同"));
    }
    Ok(())
}

/// An edit of a file's text: `old` must occur exactly once; the edited text
/// must stay within 10 MB. The edited text and the message for the model.
pub open spec fn edit_spec(original: Seq<char>, old: Seq<char>, new: Seq<char>, rel: Seq<char>) -> Result<(Seq<char>, Seq<char>), Seq<char>> {
    let n = count_occ(original, old);
    if n == 0 {
        Err("未在 "@ + rel + " 中找到匹配内容（old_string 不存在）"@)
    } else if n > 1 {
        Err("old_string 在 "@ + rel + " 中出现 "@ + crate::text::decimal(n) + " 次，不是唯一匹配；请补充更多上下文"@)
    } else {
        let edited = replace_first(original, old, new);
        let size = crate::agent::utf8_size(edited);
        if size > 10485760 {
            Err("编辑后内容超过 10485760 字节上限"@)
        } else {
            Ok((edited, "已编辑 "@ + rel + "（"@ + crate::text::decimal(size) + " 字节）"@))
        }
    }
}

fn count_occurrences(s: &[char], p: &[char]) -> (r: usize)
    requires
        p.len() > 0,
    ensures
        r as nat == count_occ(s@, p@),
{
    let mut n: usize = 0;
    let mut at: usize = 0;
    assert(s@.skip(0) == s@);
    while at <= s.len()
        invariant
            at <= s.len() + 1,
            p.len() > 0,
            n <= at,
            at <= s.len() ==> count_occ(s@, p@) == n + count_occ(s@.skip(at as int), p@),
            at > s.len() ==> count_occ(s@, p@) == n,
        decreases s.len() + 1 - at,
    {
        match find_from(s, p, at) {
            None => {
                return n;
            },
            Some(i) => {
                proof {
                    lemma_find_seq_found(s@.skip(at as int), p@);
                }
                assert(s@.skip(at as int).skip((i - at) + p.len()) =~= s@.skip(i + p.len()));
                n = n + 1;
                at = i + p.len();
                if at == s.len() {
                    assert(s@.skip(at as int).len() == 0);
                    assert(count_occ(s@.skip(at as int), p@) == 0);
                    return n;
                }
            },
        }
    }
    n
}

fn char_bytes(s: &[char]) -> (r: usize)
    ensures
        r as nat == crate::agent::utf8_size(s@) || (r == usize::MAX && crate::agent::utf8_size(s@) >= usize::MAX),
{
    let mut total: usize = 0;
    let mut i: usize = 0;
    while i < s.len()
        invariant
            i <= s.len(),
            total as nat == crate::agent::utf8_size(s@.take(i as int)) || (total == usize::MAX
                && crate::agent::utf8_size(s@.take(i as int)) >= usize::MAX),
        decreases s.len() - i,
    {
        assert(s@.take(i + 1).drop_last() == s@.take(i as int));
        let u = s[i] as u32;
        let w: usize = if u < 0x80 {
            1
        } else if u < 0x800 {
            2
        } else if u < 0x10000 {
            3
        } else {
            4
        };
        assert(w as nat == crate::agent::utf8_len(s@[i as int]));
        total = total.saturating_add(w);
        i = i + 1;
    }
    assert(s@.take(s.len() as int) == s@);
    total
}

/// Applies an edit to a file's text (see `edit_spec`); the arguments passed
/// `check_edit_args`.
pub fn apply_edit(original: &str, old: &str, new: &str, rel: &str) -> (r: Result<(String, String), String>)
    requires
        old@.len() > 0,
    ensures
        match r {
            Ok((t, m)) => edit_spec(original@, old@, new@, rel@) == Ok::<(Seq<char>, Seq<char>), Seq<char>>((t@, m@)),
            Err(e) => edit_spec(original@, old@, new@, rel@) == Err::<(Seq<char>, Seq<char>), Seq<char>>(e@),
        },
{
    let oc = chars_of(original);
    let pc = chars_of(old);
    let n = count_occurrences(oc.as_slice(), pc.as_slice());
    if n == 0 {
        let a = concat_str("未在 ", rel);
        return Err(concat_str(a.as_str(), " 中找到匹配内容（old_string 不存在）"));
    }
    if n > 1 {
        let a = concat_str("old_string 在 ", rel);
        let b = concat_str(a.as_str(), " 中出现 ");
        let c = concat_str(b.as_str(), crate::text::u64_to_string(n as u64).as_str());
        return Err(concat_str(c.as_str(), " 次，不是唯一匹配；请补充更多上下文"));
    }
    assert(oc@.skip(0) == oc@);
    let i = match find_from(oc.as_slice(), pc.as_slice(), 0) {
        Some(i) => i,
        None => {
            return Err(String::new());
        },
    };
    assert(find_seq(oc@, pc@) == Some(i as int));
    proof {
        lemma_find_seq_found(oc@, pc@);
    }
    let plen = pc.len();
    let olen = oc.len();
    assert(i + plen <= olen);
    let head = chars_range(oc.as_slice(), 0, i);
    let tail = chars_range(oc.as_slice(), i + plen, olen);
    let edited = concat_str(concat_str(string_of(head.as_slice()).as_str(), new).as_str(), string_of(tail.as_slice()).as_str());
    assert(edited@ =~= replace_first(original@, old@, new@));
    let ec = chars_of(edited.as_str());
    let size = char_bytes(ec.as_slice());
    if size > MAX_WRITE_BYTES {
        return Err(owned("编辑后内容超过 10485760 字节上限"));
    }
    let a = concat_str("已编辑 ", rel);
    let b = concat_str(a.as_str(), "（");
    let c = concat_str(b.as_str(), crate::text::u64_to_string(size as u64).as_str());
    let msg = concat_str(c.as_str(), " 字节）");
    Ok((edited, msg))
}

/// Whether content is small enough to write, and its size in bytes.
pub open spec fn write_check_spec(content: Seq<char>) -> Result<nat, Seq<char>> {
    if crate::agent::utf8_size(content) > 10485760 {
        Err("内容超过 10485760 字节上限"@)
    } else {
        Ok(crate::agent::utf8_size(content))
    }
}

/// Checks the size of content to write (see `write_check_spec`).
pub fn check_write(content: &str) -> (r: Result<usize, String>)
    ensures
        match r {
            Ok(n) => write_check_spec(content@) == Ok::<nat, Seq<char>>(n as nat),
            Err(e) => write_check_spec(content@) == Err::<nat, Seq<char>>(e@),
        },
{
    let c = chars_of(content);
    let size = char_bytes(c.as_slice());
    if size > MAX_WRITE_BYTES {
        return Err(owned("内容超过 10485760 字节上限"));
    }
    Ok(size)
}

pub open spec fn write_message_spec(existed: bool, rel: Seq<char>, size: nat) -> Seq<char> {
    (if existed {
        "已覆盖"@
    } else {
        "已创建"@
    }) + seq![' '] + rel + "（"@ + crate::text::decimal(size) + " 字节）"@
}

/// The message of a successful write: overwritten or created, path, size.
pub fn write_message(existed: bool, rel: &str, size: usize) -> (r: String)
    ensures
        r@ == write_message_spec(existed, rel@, size as nat),
{
    let head = if existed { "已覆盖" } else { "已创建" };
    let sp = vec![' '];
    let a = concat_str(head, string_of(sp.as_slice()).as_str());
    let b = concat_str(a.as_str(), rel);
    let c = concat_str(b.as_str(), "（");
    let d = concat_str(c.as_str(), crate::text::u64_to_string(size as u64).as_str());
    concat_str(d.as_str(), " 字节）")
}

/// What deleting a path does: a missing path and a directory are refused.
pub open spec fn delete_spec(exists: bool, is_dir: bool, rel: Seq<char>) -> Result<Seq<char>, Seq<char>> {
    if !exists {
        Err("文件不存在: "@ + rel)
    } else if is_dir {
        Err(rel + " 是目录，仅支持删除文件"@)
    } else {
        Ok("已删除 "@ + rel)
    }
}

/// Decides a delete and its message (see `delete_spec`).
pub fn delete_decision(exists: bool, is_dir: bool, rel: &str) -> (r: Result<String, String>)
    ensures
        match r {
            Ok(m) => delete_spec(exists, is_dir, rel@) == Ok::<Seq<char>, Seq<char>>(m@),
            Err(e) => delete_spec(exists, is_dir, rel@) == Err::<Seq<char>, Seq<char>>(e@),
        },
{
    if !exists {
        return Err(concat_str("文件不存在: ", rel));
    }
    if is_dir {
        return Err(concat_str(rel, " 是目录，仅支持删除文件"));
    }
    Ok(concat_str("已删除 ", rel))
}

/// Largest file, in bytes, that is read whole.
pub const MAX_READ_BYTES: u64 = 1048576;

/// Whether a file can be read whole: it must be a file, of at most 1 MiB.
pub open spec fn read_spec(is_file: bool, len: u64, rel: Seq<char>) -> Result<(), Seq<char>> {
    if !is_file {
        Err("文件不存在: "@ + rel)
    } else if len > 1048576 {
        Err("文件超过 1MB，请分块处理"@)
    } else {
        Ok(())
    }
}

/// Decides whether a file may be read (see `read_spec`); `len` is the
/// file's size, looked at only for a file.
pub fn read_decision(is_file: bool, len: u64, rel: &str) -> (r: Result<(), String>)
    ensures
        match r {
            Ok(()) => read_spec(is_file, len, rel@) == Ok::<(), Seq<char>>(()),
            Err(e) => read_spec(is_file, len, rel@) == Err::<(), Seq<char>>(e@),
        },
{
    if !is_file {
        return Err(concat_str("文件不存在: ", rel));
    }
    if len > MAX_READ_BYTES {
        return Err(owned("文件超过 1MB，请分块处理"));
    }
    Ok(())
}

// ---------- walking the tree ----------

/// Directories the file tree never enters.
pub open spec fn skipped_dir(name: Seq<char>) -> bool {
    name == "node_modules"@ || name == ".git"@ || name == "target"@ || name == "dist"@ || name == "build"@
        || name == ".next"@ || name == ".venv"@ || name == "vendor"@
}

/// Entries the file tree leaves out: hidden ones and the skipped
/// directories.
pub open spec fn skip_entry_spec(name: Seq<char>, is_dir: bool) -> bool {
    (name.len() > 0 && name[0] == '.') || (is_dir && skipped_dir(name))
}

/// Decides whether the file tree leaves an entry out (see `skip_entry_spec`).
pub fn skip_entry(name: &str, is_dir: bool) -> (r: bool)
    ensures
        r == skip_entry_spec(name@, is_dir),
{
    let c = chars_of(name);
    if c.len() > 0 && c[0] == '.' {
        return true;
    }
    is_dir && (crate::text::str_eq(name, "node_modules") || crate::text::str_eq(name, ".git")
        || crate::text::str_eq(name, "target") || crate::text::str_eq(name, "dist") || crate::text::str_eq(
        name,
        "build",
    ) || crate::text::str_eq(name, ".next") || crate::text::str_eq(name, ".venv") || crate::text::str_eq(
        name,
        "vendor",
    ))
}

/// Hidden entries (a leading `.`) are left out of a directory listing.
pub fn is_hidden(name: &str) -> (r: bool)
    ensures
        r == (name@.len() > 0 && name@[0] == '.'),
{
    let c = chars_of(name);
    c.len() > 0 && c[0] == '.'
}

/// A path with `\` separators turned into `/`.
pub open spec fn slashed(s: Seq<char>) -> Seq<char> {
    s.map_values(|c: char| if c == '\\' { '/' } else { c })
}

pub fn to_slashes(s: &str) -> (r: String)
    ensures
        r@ == slashed(s@),
{
    let c = chars_of(s);
    let mut out: Vec<char> = Vec::new();
    let mut i: usize = 0;
    while i < c.len()
        invariant
            i <= c.len(),
            out@ == slashed(c@.take(i as int)),
        decreases c.len() - i,
    {
        out.push(if c[i] == '\\' { '/' } else { c[i] });
        assert(slashed(c@.take(i + 1)) =~= slashed(c@.take(i as int)).push(if c@[i as int] == '\\' { '/' } else { c@[i as int] }));
        i = i + 1;
    }
    assert(c@.take(c.len() as int) == c@);
    string_of(out.as_slice())
}

// ---------- workspaces ----------

/// A workspace name, trimmed; a blank one is refused.
pub fn workspace_name(name: &str) -> (r: Result<String, String>)
    ensures
        match r {
            Ok(n) => n@ == trim_spec_of(name@) && n@.len() > 0,
            Err(e) => trim_spec_of(name@).len() == 0 && e@ == "工作区名称不能为空"@,
        },
{
    let t = crate::text::trim_str(name);
    if t.as_str().is_empty() {
        return Err(owned("工作区名称不能为空"));
    }
    Ok(t)
}

pub open spec fn trim_spec_of(s: Seq<char>) -> Seq<char> {
    crate::text::trim_spec(s)
}

/// The default workspace cannot be deleted.
pub fn check_workspace_delete(id: &str) -> (r: Result<(), String>)
    ensures
        r is Ok <==> id@ != "default"@,
        r matches Err(e) ==> e@ == "FORBIDDEN:默认工作区不可删除"@,
{
    if crate::text::str_eq(id, "default") {
        return Err(owned("FORBIDDEN:默认工作区不可删除"));
    }
    Ok(())
}

/// The values an update writes: the given order and path, else the
/// current ones.
pub fn workspace_update(input: &crate::models::WorkspaceInput, cur: &crate::models::Workspace) -> (r: (i64, Option<String>))
    ensures
        r.0 == (match input.order_index {
            Some(o) => o,
            None => cur.order_index,
        }),
        r.1 == (match input.path {
            Some(p) => Some(p),
            None => cur.path,
        }),
{
    let order = match input.order_index {
        Some(o) => o,
        None => cur.order_index,
    };
    let path = match &input.path {
        Some(p) => Some(p.clone()),
        None => crate::models::clone_opt_string(&cur.path),
    };
    (order, path)
}

/// The project path under which a new workspace is looked up first, so that
/// one path makes one workspace: a given, non-blank path.
pub fn lookup_path(path: &Option<String>) -> (r: Option<String>)
    ensures
        match *path {
            Some(p) => if !crate::text::is_blank(p@) {
                r == Some(p)
            } else {
                r is None
            },
            None => r is None,
        },
{
    match path {
        Some(p) => {
            let c = chars_of(p.as_str());
            if crate::text::chars_blank(c.as_slice()) {
                None
            } else {
                Some(p.clone())
            }
        },
        None => None,
    }
}

} // verus!
