//! Skills: reusable AI workflows. A skill is a list of steps (`input`,
//! `llm`, `condition`, `tool`, `message`); this module holds the template
//! language, the `contains(...)` conditions and the step engine's decisions.

use vstd::prelude::*;
use crate::text::{
    alphanumeric, char_is_alphanumeric, chars_end_with, chars_of, chars_range, chars_start_with,
    concat_str, contains_seq, ends_with, find_from, find_seq, lemma_find_seq_found,
    lowercase, owned, starts_with, string_of, to_lowercase, trim_chars, trim_spec,
};

verus! {

// ---------- ids ----------

pub open spec fn id_char(c: char) -> bool {
    alphanumeric(c) || c == '-' || c == '_'
}

/// The characters of `s` that may appear in an id, in order.
pub open spec fn id_filter(s: Seq<char>) -> Seq<char>
    decreases s.len(),
{
    if s.len() == 0 {
        s
    } else if id_char(s.last()) {
        id_filter(s.drop_last()).push(s.last())
    } else {
        id_filter(s.drop_last())
    }
}

/// Keeps only alphanumerics, `-` and `_` (an id that is safe as a file
/// name).
pub fn keep_id_chars(id: &str) -> (r: String)
    ensures
        r@ == id_filter(id@),
{
    let c = chars_of(id);
    let mut out: Vec<char> = Vec::new();
    let mut i: usize = 0;
    while i < c.len()
        invariant
            i <= c.len(),
            c@ == id@,
            out@ == id_filter(c@.take(i as int)),
        decreases c.len() - i,
    {
        assert(c@.take(i + 1).drop_last() == c@.take(i as int));
        assert(c@.take(i + 1).last() == c@[i as int]);
        let ch = c[i];
        if char_is_alphanumeric(ch) || ch == '-' || ch == '_' {
            out.push(ch);
        }
        i = i + 1;
    }
    assert(c@.take(c.len() as int) == c@);
    string_of(out.as_slice())
}

/// A skill id made safe: only alphanumerics, `-` and `_` remain.
pub fn sanitize_skill_id(id: &str) -> (r: String)
    ensures
        r@ == id_filter(id@),
{
    keep_id_chars(id)
}

// ---------- variable scope ----------

/// The variables a skill run can refer to: the run's inputs (`selection`,
/// `file`, `clipboard`) and each finished step's `step_id.output`.
pub struct Scope {
    entries: Vec<(String, String)>,
}

/// Bindings in order; a later binding of a name replaces an earlier one.
pub open spec fn bindings_map(s: Seq<(String, String)>) -> Map<Seq<char>, Seq<char>>
    decreases s.len(),
{
    if s.len() == 0 {
        Map::empty()
    } else {
        bindings_map(s.drop_last()).insert(s.last().0@, s.last().1@)
    }
}

impl View for Scope {
    type V = Map<Seq<char>, Seq<char>>;

    closed spec fn view(&self) -> Map<Seq<char>, Seq<char>> {
        bindings_map(self.entries@)
    }
}

impl Scope {
    /// An empty scope.
    pub fn new() -> (r: Scope)
        ensures
            r@ == Map::<Seq<char>, Seq<char>>::empty(),
    {
        Scope { entries: Vec::new() }
    }

    /// Binds `key` to `value`, replacing any earlier binding.
    pub fn insert(&mut self, key: String, value: String)
        ensures
            final(self)@ == old(self)@.insert(key@, value@),
    {
        let ghost before = self.entries@;
        self.entries.push((key, value));
        assert(self.entries@.drop_last() == before);
    }

    /// The value bound to `key`, if any.
    pub fn get(&self, key: &str) -> (r: Option<String>)
        ensures
            match r {
                Some(v) => self@.contains_key(key@) && self@[key@] == v@,
                None => !self@.contains_key(key@),
            },
    {
        let mut n: usize = self.entries.len();
        assert(self.entries@.take(n as int) == self.entries@);
        while n > 0
            invariant
                n <= self.entries.len(),
                self@.contains_key(key@) == bindings_map(self.entries@.take(n as int)).contains_key(
                    key@,
                ),
                self@.contains_key(key@) ==> self@[key@] == bindings_map(
                    self.entries@.take(n as int),
                )[key@],
            decreases n,
        {
            let ghost t = self.entries@.take(n as int);
            assert(t.drop_last() == self.entries@.take(n - 1));
            assert(t.last() == self.entries@[n - 1]);
            if crate::text::str_eq(self.entries[n - 1].0.as_str(), key) {
                return Some(owned(self.entries[n - 1].1.as_str()));
            }
            n = n - 1;
        }
        None
    }
}

/// Reading a name gives back what was last written under it; writing one
/// name leaves every other name as it was.
pub proof fn lemma_scope_read_after_write(
    before: Map<Seq<char>, Seq<char>>,
    key: Seq<char>,
    value: Seq<char>,
    other: Seq<char>,
)
    requires
        other != key,
    ensures
        before.insert(key, value)[key] == value,
        before.insert(key, value).contains_key(other) == before.contains_key(other),
        before.contains_key(other) ==> before.insert(key, value)[other] == before[other],
{
}

// ---------- templates ----------

pub open spec fn open_braces() -> Seq<char> {
    seq!['{', '{']
}

pub open spec fn close_braces() -> Seq<char> {
    seq!['}', '}']
}

/// The value a template shows for a name: its binding, or nothing.
pub open spec fn lookup_or_empty(scope: Map<Seq<char>, Seq<char>>, key: Seq<char>) -> Seq<char> {
    if scope.contains_key(key) {
        scope[key]
    } else {
        Seq::empty()
    }
}

/// `{{name}}` replaced by the value of `name` (trimmed), an unknown name by
/// nothing; an unterminated `{{` stays as it is.
pub open spec fn template_spec(rest: Seq<char>, scope: Map<Seq<char>, Seq<char>>) -> Seq<char>
    decreases rest.len(),
{
    match find_seq(rest, open_braces()) {
        None => rest,
        Some(s) => {
            proof {
                lemma_find_seq_found(rest, open_braces());
            }
            if s + 2 > rest.len() {
                rest
            } else {
                let after = rest.skip(s + 2);
                match find_seq(after, close_braces()) {
                    Some(e) => {
                        proof {
                            lemma_find_seq_found(after, close_braces());
                        }
                        if e + 2 > after.len() {
                            rest
                        } else {
                            rest.take(s) + lookup_or_empty(scope, trim_spec(after.take(e)))
                                + template_spec(after.skip(e + 2), scope)
                        }
                    },
                    None => rest.take(s) + open_braces() + template_spec(after, scope),
                }
            }
        },
    }
}

/// A pattern whose first element does not occur in `pre` is found right
/// after `pre` when what follows starts with it.
pub proof fn lemma_find_after_prefix<A>(pre: Seq<A>, rest: Seq<A>, pat: Seq<A>)
    requires
        pat.len() >= 1,
        forall|i: int| 0 <= i < pre.len() ==> pre[i] != pat[0],
        starts_with(rest, pat),
    ensures
        find_seq(pre + rest, pat) == Some(pre.len() as int),
    decreases pre.len(),
{
    let s = pre + rest;
    if pre.len() == 0 {
        assert(s =~= rest);
    } else {
        assert(s.take(pat.len() as int)[0] == pre[0]);
        assert(s.drop_first() =~= pre.drop_first() + rest);
        lemma_find_after_prefix(pre.drop_first(), rest, pat);
    }
}

/// A pattern whose first element does not occur in `s` is not found.
pub proof fn lemma_find_none<A>(s: Seq<A>, pat: Seq<A>)
    requires
        pat.len() >= 1,
        forall|i: int| 0 <= i < s.len() ==> s[i] != pat[0],
    ensures
        find_seq(s, pat) is None,
    decreases s.len(),
{
    if s.len() >= pat.len() {
        assert(s.take(pat.len() as int)[0] == s[0]);
        lemma_find_none(s.drop_first(), pat);
    }
}

/// A placeholder is filled: in text made of `pre`, `{{key}}` and `post`
/// (no `{` in `pre` or `post`, no `}` in `key`), the template shows `pre`,
/// the value bound to the trimmed key, and `post`.
pub proof fn lemma_template_fills(pre: Seq<char>, key: Seq<char>, post: Seq<char>, scope: Map<Seq<char>, Seq<char>>)
    requires
        forall|i: int| 0 <= i < pre.len() ==> pre[i] != '{',
        forall|i: int| 0 <= i < post.len() ==> post[i] != '{',
        forall|i: int| 0 <= i < key.len() ==> key[i] != '}',
    ensures
        template_spec(pre + open_braces() + key + close_braces() + post, scope) == pre + (if scope.contains_key(
            trim_spec(key),
        ) {
            scope[trim_spec(key)]
        } else {
            Seq::empty()
        }) + post,
{
    let t = pre + open_braces() + key + close_braces() + post;
    let rest1 = open_braces() + key + close_braces() + post;
    assert(t =~= pre + rest1);
    assert(rest1.take(2) =~= open_braces());
    lemma_find_after_prefix(pre, rest1, open_braces());
    let after = t.skip(pre.len() as int + 2);
    assert(after =~= key + (close_braces() + post));
    assert((close_braces() + post).take(2) =~= close_braces());
    lemma_find_after_prefix(key, close_braces() + post, close_braces());
    assert(after.take(key.len() as int) =~= key);
    assert(after.skip(key.len() as int + 2) =~= post);
    assert(t.take(pre.len() as int) =~= pre);
    lemma_find_none(post, open_braces());
    assert(template_spec(post, scope) == post);
    assert(find_seq(t, open_braces()) == Some(pre.len() as int));
    assert(find_seq(after, close_braces()) == Some(key.len() as int));
    assert(template_spec(t, scope) == t.take(pre.len() as int) + lookup_or_empty(scope, trim_spec(after.take(key.len() as int)))
        + template_spec(after.skip(key.len() as int + 2), scope));
}

fn append_chars(out: &mut Vec<char>, s: &[char])
    ensures
        final(out)@ == old(out)@ + s@,
{
    let mut i: usize = 0;
    let ghost base = out@;
    while i < s.len()
        invariant
            i <= s.len(),
            out@ == base + s@.take(i as int),
        decreases s.len() - i,
    {
        out.push(s[i]);
        i = i + 1;
        assert(out@ == base + s@.take(i as int));
    }
    assert(s@.take(s.len() as int) == s@);
}

/// Fills a template from the scope (see `template_spec`).
pub fn resolve_template(text: &str, scope: &Scope) -> (r: String)
    ensures
        r@ == template_spec(text@, scope@),
{
    let chars = chars_of(text);
    let open = vec!['{', '{'];
    let close = vec!['}', '}'];
    let mut out: Vec<char> = Vec::new();
    let mut p: usize = 0;
    assert(chars@.skip(0) == chars@);
    loop
        invariant
            p <= chars.len(),
            chars@ == text@,
            open@ == open_braces(),
            close@ == close_braces(),
            template_spec(text@, scope@) == out@ + template_spec(chars@.skip(p as int), scope@),
        decreases chars.len() - p,
    {
        let ghost rest = chars@.skip(p as int);
        match find_from(chars.as_slice(), open.as_slice(), p) {
            None => {
                let tail = chars_range(chars.as_slice(), p, chars.len());
                assert(tail@ == rest);
                append_chars(&mut out, tail.as_slice());
                return string_of(out.as_slice());
            },
            Some(s) => {
                proof {
                    lemma_find_seq_found(rest, open_braces());
                }
                let head = chars_range(chars.as_slice(), p, s);
                assert(head@ == rest.take(s - p));
                append_chars(&mut out, head.as_slice());
                let a = s + 2;
                assert(rest.skip((s - p) + 2) =~= chars@.skip(a as int));
                match find_from(chars.as_slice(), close.as_slice(), a) {
                    Some(e) => {
                        proof {
                            lemma_find_seq_found(chars@.skip(a as int), close_braces());
                        }
                        let raw = chars_range(chars.as_slice(), a, e);
                        assert(raw@ == chars@.skip(a as int).take(e - a));
                        let key = trim_chars(raw.as_slice());
                        let ks = string_of(key.as_slice());
                        match scope.get(ks.as_str()) {
                            Some(v) => {
                                let vc = chars_of(v.as_str());
                                append_chars(&mut out, vc.as_slice());
                            },
                            None => {},
                        }
                        assert(chars@.skip(a as int).skip((e - a) + 2) =~= chars@.skip(e + 2));
                        p = e + 2;
                    },
                    None => {
                        append_chars(&mut out, open.as_slice());
                        p = a;
                    },
                }
            },
        }
    }
}

} // verus!

verus! {

// ---------- conditions ----------

pub open spec fn err_only_contains() -> Seq<char> {
    "condition 仅支持 contains(...)"@
}

pub open spec fn err_parens() -> Seq<char> {
    "condition 缺少括号"@
}

pub open spec fn err_needle_quoted() -> Seq<char> {
    "condition 的 needle 必须是引号字符串"@
}

pub open spec fn err_no_needle() -> Seq<char> {
    "condition 缺少 needle"@
}

pub open spec fn err_unpaired() -> Seq<char> {
    "condition 引号不配对"@
}

pub open spec fn err_no_source() -> Seq<char> {
    "condition 缺少 source"@
}

pub open spec fn is_quote(c: char) -> bool {
    c == '\'' || c == '"'
}

/// The text between `contains(` and `)`, trimmed.
pub open spec fn contains_args(expr: Seq<char>) -> Result<Seq<char>, Seq<char>> {
    let e = trim_spec(expr);
    if !starts_with(e, "contains"@) {
        Err(err_only_contains())
    } else {
        let s1 = crate::text::trim_start_spec(e.skip("contains"@.len() as int));
        if !(s1.len() > 0 && s1[0] == '(') {
            Err(err_parens())
        } else {
            let s2 = crate::text::trim_end_spec(s1.skip(1));
            if !(s2.len() > 0 && s2.last() == ')') {
                Err(err_parens())
            } else {
                Ok(trim_spec(s2.drop_last()))
            }
        }
    }
}

/// `contains(source, 'needle')` split into (source, needle): the needle is
/// the last quoted string, the source what comes before it without the
/// separating comma.
pub open spec fn parse_contains_spec(expr: Seq<char>) -> Result<(Seq<char>, Seq<char>), Seq<char>> {
    match contains_args(expr) {
        Err(m) => Err(m),
        Ok(inner) => {
            if inner.len() == 0 {
                Err(err_no_needle())
            } else if !is_quote(inner.last()) {
                Err(err_needle_quoted())
            } else {
                let close = inner.len() - 1;
                match crate::text::last_index_of(inner.take(close), inner.last()) {
                    None => Err(err_unpaired()),
                    Some(open) => {
                        let needle = inner.subrange(open + 1, close);
                        let source = trim_spec(
                            crate::text::trim_trailing(trim_spec(inner.take(open)), ','),
                        );
                        if source.len() == 0 {
                            Err(err_no_source())
                        } else {
                            Ok((source, needle))
                        }
                    },
                }
            }
        },
    }
}

fn contains_args_chars(expr: &str) -> (r: Result<Vec<char>, String>)
    ensures
        match r {
            Ok(v) => contains_args(expr@) == Ok::<Seq<char>, Seq<char>>(v@),
            Err(m) => contains_args(expr@) == Err::<Seq<char>, Seq<char>>(m@),
        },
{
    let c = chars_of(expr);
    let e = trim_chars(c.as_slice());
    let kw = chars_of("contains");
    if !chars_start_with(e.as_slice(), kw.as_slice()) {
        return Err(owned("condition 仅支持 contains(...)"));
    }
    let rest = chars_range(e.as_slice(), kw.len(), e.len());
    assert(rest@ == e@.skip("contains"@.len() as int));
    let s1 = crate::text::trim_start_chars(rest.as_slice());
    if !(s1.len() > 0 && s1[0] == '(') {
        return Err(owned("condition 缺少括号"));
    }
    let s1b = chars_range(s1.as_slice(), 1, s1.len());
    assert(s1b@ == s1@.skip(1));
    let s2 = crate::text::trim_end_chars(s1b.as_slice());
    if !(s2.len() > 0 && s2[s2.len() - 1] == ')') {
        return Err(owned("condition 缺少括号"));
    }
    let s2b = chars_range(s2.as_slice(), 0, s2.len() - 1);
    assert(s2b@ == s2@.drop_last());
    Ok(trim_chars(s2b.as_slice()))
}

/// Splits `contains(source, 'needle')` (see `parse_contains_spec`).
pub fn parse_contains(expr: &str) -> (r: Result<(String, String), String>)
    ensures
        match r {
            Ok((a, b)) => parse_contains_spec(expr@) == Ok::<(Seq<char>, Seq<char>), Seq<char>>(
                (a@, b@),
            ),
            Err(m) => parse_contains_spec(expr@) == Err::<(Seq<char>, Seq<char>), Seq<char>>(m@),
        },
{
    let inner = match contains_args_chars(expr) {
        Ok(v) => v,
        Err(m) => return Err(m),
    };
    if inner.len() == 0 {
        return Err(owned("condition 缺少 needle"));
    }
    let close = inner.len() - 1;
    let q = inner[close];
    if !(q == '\'' || q == '"') {
        return Err(owned("condition 的 needle 必须是引号字符串"));
    }
    let open = match crate::text::rfind_before(inner.as_slice(), q, close) {
        Some(k) => k,
        None => return Err(owned("condition 引号不配对")),
    };
    let needle = chars_range(inner.as_slice(), open + 1, close);
    let head = chars_range(inner.as_slice(), 0, open);
    assert(head@ == inner@.take(open as int));
    let t1 = trim_chars(head.as_slice());
    let t2 = crate::text::trim_trailing_chars(t1.as_slice(), ',');
    let source = trim_chars(t2.as_slice());
    if source.len() == 0 {
        return Err(owned("condition 缺少 source"));
    }
    Ok((string_of(source.as_slice()), string_of(needle.as_slice())))
}

/// The result of a condition: whether the source text contains the needle,
/// ignoring case. A `{{name}}` source reads the scope (an unknown name reads
/// as empty); a quoted source is taken literally; any other source, a lone
/// quote character among them, is refused.
pub open spec fn eval_condition_spec(expr: Seq<char>, scope: Map<Seq<char>, Seq<char>>) -> Result<
    bool,
    Seq<char>,
> {
    match parse_contains_spec(expr) {
        Err(m) => Err(m),
        Ok((source, needle)) => {
            if starts_with(source, open_braces()) && ends_with(source, close_braces()) {
                let key = trim_spec(source.subrange(2, source.len() - 2));
                Ok(contains_seq(lowercase(lookup_or_empty(scope, key)), lowercase(needle)))
            } else if source.len() >= 2 && ((starts_with(source, seq!['\'']) && ends_with(source, seq!['\'']))
                || (starts_with(source, seq!['"']) && ends_with(source, seq!['"']))) {
                Ok(contains_seq(lowercase(source.subrange(1, source.len() - 1)), lowercase(needle)))
            } else {
                Err("condition source 无法识别: "@ + source)
            }
        },
    }
}

/// Evaluates `contains( {{step.output}}, 'text' )` against the scope,
/// ignoring case (see `eval_condition_spec`).
pub fn eval_condition(expr: &str, scope: &Scope) -> (r: Result<bool, String>)
    ensures
        match r {
            Ok(b) => eval_condition_spec(expr@, scope@) == Ok::<bool, Seq<char>>(b),
            Err(m) => eval_condition_spec(expr@, scope@) == Err::<bool, Seq<char>>(m@),
        },
{
    let (source, needle) = match parse_contains(expr) {
        Ok(p) => p,
        Err(m) => return Err(m),
    };
    let sc = chars_of(source.as_str());
    let ob = vec!['{', '{'];
    let cb = vec!['}', '}'];
    let sq = vec!['\''];
    let dq = vec!['"'];
    assert(ob@ == open_braces() && cb@ == close_braces());
    assert(sq@ == seq!['\''] && dq@ == seq!['"']);
    let resolved: String;
    if chars_start_with(sc.as_slice(), ob.as_slice()) && chars_end_with(sc.as_slice(), cb.as_slice()) {
        assert(sc.len() >= 4) by {
            if sc.len() < 4 {
                assert(sc@[0] == '{' && sc@[1] == '{');
                assert(sc@[sc.len() - 1] == '}' && sc@[sc.len() - 2] == '}');
            }
        }
        let raw = chars_range(sc.as_slice(), 2, sc.len() - 2);
        let key = trim_chars(raw.as_slice());
        let ks = string_of(key.as_slice());
        resolved = match scope.get(ks.as_str()) {
            Some(v) => v,
            None => String::new(),
        };
    } else if sc.len() >= 2 && ((chars_start_with(sc.as_slice(), sq.as_slice()) && chars_end_with(sc.as_slice(), sq.as_slice()))
        || (chars_start_with(sc.as_slice(), dq.as_slice()) && chars_end_with(sc.as_slice(), dq.as_slice()))) {
        let lit = chars_range(sc.as_slice(), 1, sc.len() - 1);
        resolved = string_of(lit.as_slice());
    } else {
        return Err(concat_str("condition source 无法识别: ", source.as_str()));
    }
    let hay = to_lowercase(resolved.as_str());
    let pat = to_lowercase(needle.as_str());
    let hc = chars_of(hay.as_str());
    let pc = chars_of(pat.as_str());
    assert(hc@.skip(0) == hc@);
    let found = find_from(hc.as_slice(), pc.as_slice(), 0);
    Ok(found.is_some())
}

} // verus!

verus! {

// ---------- the step engine ----------

/// Most step visits in one run; a condition loop stops here.
pub const MAX_STEP_VISITS: usize = 64;

/// Where a run stands: the next step to execute, the visits made so far and
/// the variables bound so far.
pub struct SkillRun {
    pub index: usize,
    pub visits: usize,
    pub scope: Scope,
}

impl SkillRun {
    /// A run at the first step with the caller's variables.
    pub fn start(vars: Scope) -> (r: SkillRun)
        ensures
            r.index == 0,
            r.visits == 0,
            r.scope@ == vars@,
    {
        SkillRun { index: 0, visits: 0, scope: vars }
    }
}

/// What the caller of the engine does next.
#[derive(Debug)]
pub enum SkillAction {
    /// Every step ran; the run is over.
    Done,
    /// The run was cancelled.
    Cancelled,
    /// The run stops with an error (of a step, when `step_id` is set).
    Failed { step_id: Option<String>, error: String },
    /// Ask the user for the output of an `input` step.
    AskInput { step_id: String, label: String },
    /// Call the model; its answer is the step's output.
    CallLlm { step_id: String, prompt: String, system: Option<String> },
    /// Call an MCP tool; its text is the step's output.
    CallTool { step_id: String, server: Option<String>, tool: String, args: String },
    /// Show the final message; the run is over.
    ShowMessage { step_id: String, content: String },
    /// A condition moved the run; ask again.
    Jumped,
}

/// `SkillAction` with its text as character sequences.
pub enum ActionView {
    Done,
    Cancelled,
    Failed { step_id: Option<Seq<char>>, error: Seq<char> },
    AskInput { step_id: Seq<char>, label: Seq<char> },
    CallLlm { step_id: Seq<char>, prompt: Seq<char>, system: Option<Seq<char>> },
    CallTool { step_id: Seq<char>, server: Option<Seq<char>>, tool: Seq<char>, args: Seq<char> },
    ShowMessage { step_id: Seq<char>, content: Seq<char> },
    Jumped,
}

pub open spec fn opt_view(o: Option<String>) -> Option<Seq<char>> {
    match o {
        Some(s) => Some(s@),
        None => None,
    }
}

pub open spec fn text_or(o: Option<String>, d: Seq<char>) -> Seq<char> {
    match o {
        Some(s) => s@,
        None => d,
    }
}

pub open spec fn action_view(a: SkillAction) -> ActionView {
    match a {
        SkillAction::Done => ActionView::Done,
        SkillAction::Cancelled => ActionView::Cancelled,
        SkillAction::Failed { step_id, error } => ActionView::Failed {
            step_id: opt_view(step_id),
            error: error@,
        },
        SkillAction::AskInput { step_id, label } => ActionView::AskInput {
            step_id: step_id@,
            label: label@,
        },
        SkillAction::CallLlm { step_id, prompt, system } => ActionView::CallLlm {
            step_id: step_id@,
            prompt: prompt@,
            system: opt_view(system),
        },
        SkillAction::CallTool { step_id, server, tool, args } => ActionView::CallTool {
            step_id: step_id@,
            server: opt_view(server),
            tool: tool@,
            args: args@,
        },
        SkillAction::ShowMessage { step_id, content } => ActionView::ShowMessage {
            step_id: step_id@,
            content: content@,
        },
        SkillAction::Jumped => ActionView::Jumped,
    }
}

/// The index of the step with this id (the last one, when ids repeat).
pub open spec fn step_index_of(steps: Seq<crate::models::SkillStep>, id: Seq<char>) -> Option<int>
    decreases steps.len(),
{
    if steps.len() == 0 {
        None
    } else if steps.last().id@ == id {
        Some(steps.len() - 1)
    } else {
        step_index_of(steps.drop_last(), id)
    }
}

/// Where a condition step leads: the then/else target when it names a
/// step, else the next step.
pub open spec fn jump_target(steps: Seq<crate::models::SkillStep>, target: Option<String>, i: int) -> int {
    match target {
        Some(t) => match step_index_of(steps, t@) {
            Some(j) => j,
            None => i + 1,
        },
        None => i + 1,
    }
}

pub open spec fn limit_error() -> Seq<char> {
    "步骤执行次数超限，可能存在条件死循环"@
}

/// The engine's next move for a run at `index` with `visits` made, and the
/// index and visits it leaves. Finished runs report `Done`; cancelled runs
/// `Cancelled`; each visit counts, and the 65th fails (leaving the count).
pub open spec fn next_action_spec(
    def: crate::models::SkillDef,
    index: int,
    visits: int,
    scope: Map<Seq<char>, Seq<char>>,
    cancelled: bool,
) -> (ActionView, int, int) {
    let steps = def.steps@;
    if index >= steps.len() {
        (ActionView::Done, index, visits)
    } else if cancelled {
        (ActionView::Cancelled, index, visits)
    } else if visits + 1 > 64 {
        (ActionView::Failed { step_id: None, error: limit_error() }, index, visits)
    } else {
        let step = steps[index];
        let v = visits + 1;
        let kind = step.step_type@;
        if kind == "input"@ {
            (ActionView::AskInput { step_id: step.id@, label: text_or(step.content, Seq::empty()) }, index, v)
        } else if kind == "llm"@ {
            (
                ActionView::CallLlm {
                    step_id: step.id@,
                    prompt: template_spec(text_or(step.prompt, Seq::empty()), scope),
                    system: if def.source@ == "global"@ {
                        None
                    } else {
                        opt_view(def.system_prompt)
                    },
                },
                index,
                v,
            )
        } else if kind == "condition"@ {
            match eval_condition_spec(text_or(step.condition, Seq::empty()), scope) {
                Ok(pass) => (
                    ActionView::Jumped,
                    jump_target(
                        steps,
                        if pass {
                            step.then_step
                        } else {
                            step.else_step
                        },
                        index,
                    ),
                    v,
                ),
                Err(e) => (ActionView::Failed { step_id: Some(step.id@), error: e }, index, v),
            }
        } else if kind == "message"@ {
            (
                ActionView::ShowMessage {
                    step_id: step.id@,
                    content: template_spec(text_or(step.content, Seq::empty()), scope),
                },
                index,
                v,
            )
        } else if kind == "tool"@ {
            (
                ActionView::CallTool {
                    step_id: step.id@,
                    server: opt_view(step.server),
                    tool: text_or(step.tool, Seq::empty()),
                    args: template_spec(text_or(step.args, "{}"@), scope),
                },
                index,
                v,
            )
        } else {
            (ActionView::Failed { step_id: Some(step.id@), error: "未知步骤类型: "@ + kind }, index, v)
        }
    }
}

/// A tool step fills its arguments from the scope: when the step's args
/// are `pre`, a placeholder `{{key}}` and `post` (no `{` in `pre` or `post`,
/// no `}` in `key`), the tool is called with `pre`, the value bound to the
/// trimmed key, and `post`; the step's id, server and tool are passed on.
pub proof fn lemma_tool_step_fills_args(
    def: crate::models::SkillDef,
    index: int,
    visits: int,
    scope: Map<Seq<char>, Seq<char>>,
    pre: Seq<char>,
    key: Seq<char>,
    post: Seq<char>,
)
    requires
        0 <= index < def.steps@.len(),
        visits < 64,
        def.steps@[index].step_type@ == "tool"@,
        opt_view(def.steps@[index].args) == Some(pre + open_braces() + key + close_braces() + post),
        forall|i: int| 0 <= i < pre.len() ==> pre[i] != '{',
        forall|i: int| 0 <= i < post.len() ==> post[i] != '{',
        forall|i: int| 0 <= i < key.len() ==> key[i] != '}',
    ensures
        next_action_spec(def, index, visits, scope, false).0 == (ActionView::CallTool {
            step_id: def.steps@[index].id@,
            server: opt_view(def.steps@[index].server),
            tool: text_or(def.steps@[index].tool, Seq::empty()),
            args: pre + (if scope.contains_key(trim_spec(key)) {
                scope[trim_spec(key)]
            } else {
                Seq::empty()
            }) + post,
        }),
{
    reveal_strlit("tool");
    reveal_strlit("input");
    reveal_strlit("llm");
    reveal_strlit("condition");
    reveal_strlit("message");
    assert("tool"@.len() == 4 && "input"@.len() == 5 && "llm"@.len() == 3 && "condition"@.len() == 9
        && "message"@.len() == 7);
    lemma_template_fills(pre, key, post, scope);
}

/// A tool step whose args hold no `{` passes them on unchanged ("{}" when
/// the step has none).
pub proof fn lemma_tool_step_plain_args(
    def: crate::models::SkillDef,
    index: int,
    visits: int,
    scope: Map<Seq<char>, Seq<char>>,
)
    requires
        0 <= index < def.steps@.len(),
        visits < 64,
        def.steps@[index].step_type@ == "tool"@,
        forall|i: int|
            0 <= i < text_or(def.steps@[index].args, "{}"@).len() ==> text_or(def.steps@[index].args, "{}"@)[i]
                != '{' || text_or(def.steps@[index].args, "{}"@) == "{}"@,
    ensures
        next_action_spec(def, index, visits, scope, false).0 matches ActionView::CallTool { args, .. } && args
            == text_or(def.steps@[index].args, "{}"@),
{
    reveal_strlit("tool");
    reveal_strlit("input");
    reveal_strlit("llm");
    reveal_strlit("condition");
    reveal_strlit("message");
    reveal_strlit("{}");
    assert("tool"@.len() == 4 && "input"@.len() == 5 && "llm"@.len() == 3 && "condition"@.len() == 9
        && "message"@.len() == 7);
    let a = text_or(def.steps@[index].args, "{}"@);
    if a == "{}"@ {
        let pre = Seq::<char>::empty();
        assert(a =~= pre + seq!['{', '}']);
        assert(seq!['{', '}'].take(2)[0] == '{');
        assert(find_seq(a, open_braces()) is None) by {
            assert(a.len() == 2);
            assert(a.take(2) != open_braces()) by {
                assert(a.take(2)[1] != open_braces()[1]);
            }
            assert(a.drop_first().len() == 1);
            assert(find_seq(a.drop_first(), open_braces()) is None);
        }
    } else {
        lemma_find_none(a, open_braces());
    }
}

fn find_step(steps: &Vec<crate::models::SkillStep>, id: &str) -> (r: Option<usize>)
    ensures
        match r {
            Some(j) => step_index_of(steps@, id@) == Some(j as int) && j < steps.len(),
            None => step_index_of(steps@, id@) is None,
        },
{
    let mut n: usize = steps.len();
    assert(steps@.take(n as int) == steps@);
    while n > 0
        invariant
            n <= steps.len(),
            step_index_of(steps@, id@) == step_index_of(steps@.take(n as int), id@),
        decreases n,
    {
        assert(steps@.take(n as int).drop_last() == steps@.take(n - 1));
        assert(steps@.take(n as int).last() == steps@[n - 1]);
        if crate::text::str_eq(steps[n - 1].id.as_str(), id) {
            return Some(n - 1);
        }
        n = n - 1;
    }
    None
}

fn text_or_empty(o: &Option<String>) -> (r: String)
    ensures
        r@ == text_or(*o, Seq::empty()),
{
    match o {
        Some(s) => owned(s.as_str()),
        None => String::new(),
    }
}

fn opt_owned(o: &Option<String>) -> (r: Option<String>)
    ensures
        opt_view(r) == opt_view(*o),
{
    match o {
        Some(s) => Some(owned(s.as_str())),
        None => None,
    }
}

/// Decides the next move of a skill run (see `next_action_spec`), moving the
/// run on for conditions and counting the visit.
pub fn next_action(def: &crate::models::SkillDef, run: &mut SkillRun, cancelled: bool) -> (r: SkillAction)
    ensures
        (action_view(r), final(run).index as int, final(run).visits as int) == next_action_spec(
            *def,
            old(run).index as int,
            old(run).visits as int,
            old(run).scope@,
            cancelled,
        ),
        final(run).scope@ == old(run).scope@,
{
    let i = run.index;
    if i >= def.steps.len() {
        return SkillAction::Done;
    }
    if cancelled {
        return SkillAction::Cancelled;
    }
    if run.visits >= MAX_STEP_VISITS {
        return SkillAction::Failed { step_id: None, error: owned("步骤执行次数超限，可能存在条件死循环") };
    }
    run.visits = run.visits + 1;
    let step = &def.steps[i];
    let kind = step.step_type.as_str();
    if crate::text::str_eq(kind, "input") {
        SkillAction::AskInput { step_id: owned(step.id.as_str()), label: text_or_empty(&step.content) }
    } else if crate::text::str_eq(kind, "llm") {
        let p = text_or_empty(&step.prompt);
        let prompt = resolve_template(p.as_str(), &run.scope);
        let system = if crate::text::str_eq(def.source.as_str(), "global") {
            None
        } else {
            opt_owned(&def.system_prompt)
        };
        SkillAction::CallLlm { step_id: owned(step.id.as_str()), prompt, system }
    } else if crate::text::str_eq(kind, "condition") {
        let cond = text_or_empty(&step.condition);
        match eval_condition(cond.as_str(), &run.scope) {
            Ok(pass) => {
                let target = if pass { &step.then_step } else { &step.else_step };
                let next = match target {
                    Some(t) => match find_step(&def.steps, t.as_str()) {
                        Some(j) => j,
                        None => i + 1,
                    },
                    None => i + 1,
                };
                run.index = next;
                SkillAction::Jumped
            },
            Err(e) => SkillAction::Failed { step_id: Some(owned(step.id.as_str())), error: e },
        }
    } else if crate::text::str_eq(kind, "message") {
        let c = text_or_empty(&step.content);
        SkillAction::ShowMessage { step_id: owned(step.id.as_str()), content: resolve_template(c.as_str(), &run.scope) }
    } else if crate::text::str_eq(kind, "tool") {
        let a = match &step.args {
            Some(s) => owned(s.as_str()),
            None => owned("{}"),
        };
        SkillAction::CallTool {
            step_id: owned(step.id.as_str()),
            server: opt_owned(&step.server),
            tool: text_or_empty(&step.tool),
            args: resolve_template(a.as_str(), &run.scope),
        }
    } else {
        SkillAction::Failed { step_id: Some(owned(step.id.as_str())), error: concat_str("未知步骤类型: ", kind) }
    }
}

/// The variable under which a step's output is kept: `step_id.output`.
pub open spec fn output_key(step_id: Seq<char>) -> Seq<char> {
    step_id + ".output"@
}

/// Records the output of the current step (an answered input, a model
/// answer or a tool result) and moves to the next step.
pub fn complete_step(def: &crate::models::SkillDef, run: &mut SkillRun, output: String)
    requires
        old(run).index < def.steps.len(),
    ensures
        final(run).index == old(run).index + 1,
        final(run).visits == old(run).visits,
        final(run).scope@ == old(run).scope@.insert(
            output_key(def.steps@[old(run).index as int].id@),
            output@,
        ),
{
    let key = concat_str(def.steps[run.index].id.as_str(), ".output");
    run.scope.insert(key, output);
    run.index = run.index + 1;
}

/// A run never makes more than 64 visits before it stops: any move other
/// than a final one leaves at most 64 visits counted.
pub proof fn lemma_visits_bounded(
    def: crate::models::SkillDef,
    index: int,
    visits: int,
    scope: Map<Seq<char>, Seq<char>>,
    cancelled: bool,
)
    requires
        0 <= visits,
    ensures
        ({
            let (a, _, v) = next_action_spec(def, index, visits, scope, cancelled);
            (a is AskInput || a is CallLlm || a is CallTool || a is Jumped) ==> v <= 64 && v == visits + 1
        }),
{
}

} // verus!

verus! {

// ---------- skill files ----------

/// A step with its text as character sequences.
pub struct StepView {
    pub id: Seq<char>,
    pub step_type: Seq<char>,
    pub prompt: Option<Seq<char>>,
    pub content: Option<Seq<char>>,
    pub condition: Option<Seq<char>>,
    pub then_step: Option<Seq<char>>,
    pub else_step: Option<Seq<char>>,
    pub tool: Option<Seq<char>>,
    pub server: Option<Seq<char>>,
    pub args: Option<Seq<char>>,
}

/// A skill with its text as character sequences.
pub struct SkillView {
    pub id: Seq<char>,
    pub name: Seq<char>,
    pub description: Seq<char>,
    pub icon: Option<Seq<char>>,
    pub model: Option<Seq<char>>,
    pub system_prompt: Option<Seq<char>>,
    pub steps: Seq<StepView>,
    pub source: Seq<char>,
    pub enabled: bool,
}

pub open spec fn step_view(s: crate::models::SkillStep) -> StepView {
    StepView {
        id: s.id@,
        step_type: s.step_type@,
        prompt: opt_view(s.prompt),
        content: opt_view(s.content),
        condition: opt_view(s.condition),
        then_step: opt_view(s.then_step),
        else_step: opt_view(s.else_step),
        tool: opt_view(s.tool),
        server: opt_view(s.server),
        args: opt_view(s.args),
    }
}

pub open spec fn steps_view(s: Seq<crate::models::SkillStep>) -> Seq<StepView> {
    s.map_values(|t: crate::models::SkillStep| step_view(t))
}

pub open spec fn skill_view(d: crate::models::SkillDef) -> SkillView {
    SkillView {
        id: d.id@,
        name: d.name@,
        description: d.description@,
        icon: opt_view(d.icon),
        model: opt_view(d.model),
        system_prompt: opt_view(d.system_prompt),
        steps: steps_view(d.steps@),
        source: d.source@,
        enabled: d.enabled,
    }
}

pub open spec fn skill_result_view(r: Result<crate::models::SkillDef, String>) -> Result<SkillView, Seq<char>> {
    match r {
        Ok(d) => Ok(skill_view(d)),
        Err(e) => Err(e@),
    }
}

pub open spec fn seq_or(o: Option<Seq<char>>, d: Seq<char>) -> Seq<char> {
    match o {
        Some(s) => s,
        None => d,
    }
}

pub open spec fn field_result_view(r: Result<Option<String>, String>) -> Result<Option<Seq<char>>, Seq<char>> {
    match r {
        Ok(o) => Ok(opt_view(o)),
        Err(e) => Err(e@),
    }
}

pub open spec fn fields_result_view(r: Result<Vec<Option<String>>, String>) -> Result<Seq<Option<Seq<char>>>, Seq<char>> {
    match r {
        Ok(v) => Ok(v@.map_values(|o: Option<String>| opt_view(o))),
        Err(e) => Err(e@),
    }
}

pub open spec fn str_views(s: Seq<&str>) -> Seq<Seq<char>> {
    s.map_values(|k: &str| k@)
}

/// What `serde_yml` reads, as an optional string, under the top-level key
/// `key` of the YAML document `text`.
pub uninterp spec fn yaml_str_field(text: Seq<char>, key: Seq<char>) -> Result<Option<Seq<char>>, Seq<char>>;

/// The length of the list of mappings `serde_yml` reads under the top-level
/// key `key` of the YAML document `text` (`None` when the key is absent).
pub uninterp spec fn yaml_list_len(text: Seq<char>, key: Seq<char>) -> Result<Option<nat>, Seq<char>>;

/// What `serde_yml` reads, as an optional string, under `field` of item
/// `index` of the list of mappings under the top-level key `key`.
pub uninterp spec fn yaml_item_str_field(text: Seq<char>, key: Seq<char>, index: int, field: Seq<char>) -> Result<Option<Seq<char>>, Seq<char>>;

/// Reads the string under the top-level `key` of a YAML document with
/// `serde_yml`: the document as a `serde_yml::Mapping` (`from_str`), the
/// entry by `Mapping::get`, and its value as an `Option<String>`
/// (`from_value`); errors carry `serde_yml`'s message. What the parser
/// makes of a text is named by `yaml_str_field` and not described.
#[verifier::external_body]
#[allow(deprecated)]
fn read_yaml_str(text: &str, key: &str) -> (r: Result<Option<String>, String>)
    ensures
        field_result_view(r) == yaml_str_field(text@, key@),
{
    let doc: serde_yml::Mapping = serde_yml::from_str(text).map_err(|e| e.to_string())?;
    match doc.get(key) {
        None => Ok(None),
        Some(v) => serde_yml::from_value::<Option<String>>(v.clone()).map_err(|e| e.to_string()),
    }
}

/// The number of items under the top-level `key` of a YAML document read
/// with `serde_yml` as a `Vec<serde_yml::Mapping>` (`None` when the key is
/// absent); errors carry `serde_yml`'s message. The outcome is named by
/// `yaml_list_len` and not described.
#[verifier::external_body]
#[allow(deprecated)]
fn read_yaml_list_len(text: &str, key: &str) -> (r: Result<Option<usize>, String>)
    ensures
        match r {
            Ok(Some(n)) => yaml_list_len(text@, key@) == Ok::<Option<nat>, Seq<char>>(Some(n as nat)),
            Ok(None) => yaml_list_len(text@, key@) == Ok::<Option<nat>, Seq<char>>(None),
            Err(e) => yaml_list_len(text@, key@) == Err::<Option<nat>, Seq<char>>(e@),
        },
{
    let doc: serde_yml::Mapping = serde_yml::from_str(text).map_err(|e| e.to_string())?;
    match doc.get(key) {
        None => Ok(None),
        Some(v) => serde_yml::from_value::<Vec<serde_yml::Mapping>>(v.clone()).map(|items| Some(items.len())).map_err(|e| e.to_string()),
    }
}

/// Reads the string under `field` of item `index` of the list of mappings
/// under the top-level `key` of a YAML document with `serde_yml` (absent
/// entries read as `None`); errors carry `serde_yml`'s message. The outcome
/// is named by `yaml_item_str_field` and not described.
#[verifier::external_body]
#[allow(deprecated)]
fn read_yaml_item_str(text: &str, key: &str, index: usize, field: &str) -> (r: Result<Option<String>, String>)
    ensures
        field_result_view(r) == yaml_item_str_field(text@, key@, index as int, field@),
{
    let doc: serde_yml::Mapping = serde_yml::from_str(text).map_err(|e| e.to_string())?;
    let items: Vec<serde_yml::Mapping> = match doc.get(key) {
        None => Vec::new(),
        Some(v) => serde_yml::from_value(v.clone()).map_err(|e| e.to_string())?,
    };
    match items.get(index).and_then(|m| m.get(field)) {
        None => Ok(None),
        Some(v) => serde_yml::from_value::<Option<String>>(v.clone()).map_err(|e| e.to_string()),
    }
}

/// The strings under several top-level keys, or the first error.
pub open spec fn yaml_fields(text: Seq<char>, keys: Seq<Seq<char>>) -> Result<Seq<Option<Seq<char>>>, Seq<char>>
    decreases keys.len(),
{
    if keys.len() == 0 {
        Ok(Seq::empty())
    } else {
        match yaml_fields(text, keys.drop_last()) {
            Err(e) => Err(e),
            Ok(vs) => match yaml_str_field(text, keys.last()) {
                Err(e) => Err(e),
                Ok(v) => Ok(vs.push(v)),
            },
        }
    }
}

/// The strings under several fields of one list item, or the first error.
pub open spec fn yaml_item_fields(text: Seq<char>, key: Seq<char>, index: int, fields: Seq<Seq<char>>) -> Result<Seq<Option<Seq<char>>>, Seq<char>>
    decreases fields.len(),
{
    if fields.len() == 0 {
        Ok(Seq::empty())
    } else {
        match yaml_item_fields(text, key, index, fields.drop_last()) {
            Err(e) => Err(e),
            Ok(vs) => match yaml_item_str_field(text, key, index, fields.last()) {
                Err(e) => Err(e),
                Ok(v) => Ok(vs.push(v)),
            },
        }
    }
}

/// An error among the first keys is the error of them all.
pub proof fn lemma_yaml_fields_err(text: Seq<char>, keys: Seq<Seq<char>>, j: int, e: Seq<char>)
    requires
        0 <= j <= keys.len(),
        yaml_fields(text, keys.take(j)) == Err::<Seq<Option<Seq<char>>>, Seq<char>>(e),
    ensures
        yaml_fields(text, keys) == Err::<Seq<Option<Seq<char>>>, Seq<char>>(e),
    decreases keys.len(),
{
    if j == keys.len() {
        assert(keys.take(j) == keys);
    } else {
        assert(keys.drop_last().take(j) == keys.take(j));
        lemma_yaml_fields_err(text, keys.drop_last(), j, e);
    }
}

/// An error among the first fields is the error of them all.
pub proof fn lemma_yaml_item_fields_err(text: Seq<char>, key: Seq<char>, index: int, fields: Seq<Seq<char>>, j: int, e: Seq<char>)
    requires
        0 <= j <= fields.len(),
        yaml_item_fields(text, key, index, fields.take(j)) == Err::<Seq<Option<Seq<char>>>, Seq<char>>(e),
    ensures
        yaml_item_fields(text, key, index, fields) == Err::<Seq<Option<Seq<char>>>, Seq<char>>(e),
    decreases fields.len(),
{
    if j == fields.len() {
        assert(fields.take(j) == fields);
    } else {
        assert(fields.drop_last().take(j) == fields.take(j));
        lemma_yaml_item_fields_err(text, key, index, fields.drop_last(), j, e);
    }
}

fn read_yaml_fields(text: &str, keys: &Vec<&str>) -> (r: Result<Vec<Option<String>>, String>)
    ensures
        fields_result_view(r) == yaml_fields(text@, str_views(keys@)),
{
    let mut out: Vec<Option<String>> = Vec::new();
    let mut i: usize = 0;
    assert(str_views(keys@).take(0) =~= Seq::<Seq<char>>::empty());
    assert(out@.map_values(|o: Option<String>| opt_view(o)) =~= Seq::<Option<Seq<char>>>::empty());
    while i < keys.len()
        invariant
            i <= keys.len(),
            yaml_fields(text@, str_views(keys@).take(i as int)) == Ok::<Seq<Option<Seq<char>>>, Seq<char>>(
                out@.map_values(|o: Option<String>| opt_view(o)),
            ),
        decreases keys.len() - i,
    {
        let ghost prefix = str_views(keys@).take(i + 1);
        assert(prefix.drop_last() == str_views(keys@).take(i as int));
        assert(prefix.last() == keys@[i as int]@);
        let ghost before = out@;
        match read_yaml_str(text, keys[i]) {
            Err(e) => {
                proof {
                    lemma_yaml_fields_err(text@, str_views(keys@), i + 1, e@);
                }
                return Err(e);
            },
            Ok(v) => {
                out.push(v);
                assert(out@.map_values(|o: Option<String>| opt_view(o)) =~= before.map_values(
                    |o: Option<String>| opt_view(o),
                ).push(opt_view(out@.last())));
            },
        }
        i = i + 1;
    }
    assert(str_views(keys@).take(keys.len() as int) == str_views(keys@));
    Ok(out)
}

fn read_yaml_item_fields(text: &str, key: &str, index: usize, fields: &Vec<&str>) -> (r: Result<Vec<Option<String>>, String>)
    ensures
        fields_result_view(r) == yaml_item_fields(text@, key@, index as int, str_views(fields@)),
{
    let mut out: Vec<Option<String>> = Vec::new();
    let mut i: usize = 0;
    assert(str_views(fields@).take(0) =~= Seq::<Seq<char>>::empty());
    assert(out@.map_values(|o: Option<String>| opt_view(o)) =~= Seq::<Option<Seq<char>>>::empty());
    while i < fields.len()
        invariant
            i <= fields.len(),
            yaml_item_fields(text@, key@, index as int, str_views(fields@).take(i as int)) == Ok::<Seq<Option<Seq<char>>>, Seq<char>>(
                out@.map_values(|o: Option<String>| opt_view(o)),
            ),
        decreases fields.len() - i,
    {
        let ghost prefix = str_views(fields@).take(i + 1);
        assert(prefix.drop_last() == str_views(fields@).take(i as int));
        assert(prefix.last() == fields@[i as int]@);
        let ghost before = out@;
        match read_yaml_item_str(text, key, index, fields[i]) {
            Err(e) => {
                proof {
                    lemma_yaml_item_fields_err(text@, key@, index as int, str_views(fields@), i + 1, e@);
                }
                return Err(e);
            },
            Ok(v) => {
                out.push(v);
                assert(out@.map_values(|o: Option<String>| opt_view(o)) =~= before.map_values(
                    |o: Option<String>| opt_view(o),
                ).push(opt_view(out@.last())));
            },
        }
        i = i + 1;
    }
    assert(str_views(fields@).take(fields.len() as int) == str_views(fields@));
    Ok(out)
}

} // verus!

verus! {

/// Lemma: a successful read of several keys gives one value per key.
pub proof fn lemma_yaml_fields_len(text: Seq<char>, keys: Seq<Seq<char>>)
    ensures
        yaml_fields(text, keys) matches Ok(vs) ==> vs.len() == keys.len(),
    decreases keys.len(),
{
    if keys.len() > 0 {
        lemma_yaml_fields_len(text, keys.drop_last());
    }
}

/// Lemma: a successful read of several item fields gives one value per field.
pub proof fn lemma_yaml_item_fields_len(text: Seq<char>, key: Seq<char>, index: int, fields: Seq<Seq<char>>)
    ensures
        yaml_item_fields(text, key, index, fields) matches Ok(vs) ==> vs.len() == fields.len(),
    decreases fields.len(),
{
    if fields.len() > 0 {
        lemma_yaml_item_fields_len(text, key, index, fields.drop_last());
    }
}

pub open spec fn dashes() -> Seq<char> {
    seq!['-', '-', '-']
}

pub open spec fn err_no_open_marker() -> Seq<char> {
    "缺少 YAML Frontmatter 开始标记 (---)"@
}

pub open spec fn err_no_close_marker() -> Seq<char> {
    "缺少 YAML Frontmatter 结束标记 (---)"@
}

/// A SKILL.md split into its YAML frontmatter (between the first two `---`
/// after leading whitespace) and its trimmed Markdown body.
pub open spec fn split_frontmatter_spec(content: Seq<char>) -> Result<(Seq<char>, Seq<char>), Seq<char>> {
    let t = crate::text::trim_start_spec(content);
    if !starts_with(t, dashes()) {
        Err(err_no_open_marker())
    } else {
        let rest = t.skip(3);
        match find_seq(rest, dashes()) {
            None => Err(err_no_close_marker()),
            Some(e) => Ok((rest.take(e), trim_spec(rest.skip(e + 3)))),
        }
    }
}

/// Splits a SKILL.md into frontmatter and body (see `split_frontmatter_spec`).
pub fn split_frontmatter(content: &str) -> (r: Result<(String, String), String>)
    ensures
        match r {
            Ok((f, b)) => split_frontmatter_spec(content@) == Ok::<(Seq<char>, Seq<char>), Seq<char>>((f@, b@)),
            Err(e) => split_frontmatter_spec(content@) == Err::<(Seq<char>, Seq<char>), Seq<char>>(e@),
        },
{
    let c = chars_of(content);
    let t = crate::text::trim_start_chars(c.as_slice());
    let d = vec!['-', '-', '-'];
    assert(d@ == dashes());
    if !chars_start_with(t.as_slice(), d.as_slice()) {
        return Err(owned("缺少 YAML Frontmatter 开始标记 (---)"));
    }
    let rest = chars_range(t.as_slice(), 3, t.len());
    assert(rest@ == t@.skip(3));
    assert(rest@.skip(0) == rest@);
    match find_from(rest.as_slice(), d.as_slice(), 0) {
        None => Err(owned("缺少 YAML Frontmatter 结束标记 (---)")),
        Some(e) => {
            proof {
                lemma_find_seq_found(rest@, dashes());
            }
            let fm = chars_range(rest.as_slice(), 0, e);
            let tail = chars_range(rest.as_slice(), e + 3, rest.len());
            assert(fm@ == rest@.take(e as int));
            assert(tail@ == rest@.skip(e + 3));
            let body = trim_chars(tail.as_slice());
            Ok((string_of(fm.as_slice()), string_of(body.as_slice())))
        },
    }
}

pub open spec fn all_id_chars(s: Seq<char>) -> bool {
    forall|i: int| 0 <= i < s.len() ==> id_char(#[trigger] s[i])
}

fn chars_all_id(s: &[char]) -> (r: bool)
    ensures
        r == all_id_chars(s@),
{
    let mut i: usize = 0;
    while i < s.len()
        invariant
            i <= s.len(),
            forall|j: int| 0 <= j < i ==> id_char(#[trigger] s@[j]),
        decreases s.len() - i,
    {
        let ch = s[i];
        if !(char_is_alphanumeric(ch) || ch == '-' || ch == '_') {
            assert(!id_char(s@[i as int]));
            return false;
        }
        i = i + 1;
    }
    true
}

pub open spec fn frontmatter_keys() -> Seq<Seq<char>> {
    seq!["id"@, "name"@, "description"@, "icon"@, "model"@, "system_prompt"@, "systemPrompt"@]
}

pub open spec fn prompt_suffix() -> Seq<char> {
    "\n\n---\n用户输入：\n{{input.output}}"@
}

/// The prompt of the model step of a Markdown skill: its body (a default
/// request when empty) followed by the user's input.
pub open spec fn markdown_prompt(body: Seq<char>) -> Seq<char> {
    (if body.len() == 0 {
        "请执行该任务。"@
    } else {
        body
    }) + prompt_suffix()
}

pub open spec fn bare_step(id: Seq<char>, kind: Seq<char>, prompt: Option<Seq<char>>, content: Option<Seq<char>>) -> StepView {
    StepView {
        id,
        step_type: kind,
        prompt,
        content,
        condition: None,
        then_step: None,
        else_step: None,
        tool: None,
        server: None,
        args: None,
    }
}

/// The three steps every Markdown skill runs: ask for input, run the model
/// on the body's instructions, show the answer.
pub open spec fn markdown_steps(body: Seq<char>) -> Seq<StepView> {
    seq![
        bare_step("input"@, "input"@, None, Some("请输入需要处理的内容或要求"@)),
        bare_step("execute"@, "llm"@, Some(markdown_prompt(body)), None),
        bare_step("output"@, "message"@, None, Some("{{execute.output}}"@)),
    ]
}

/// A standard SKILL.md read as a skill: the frontmatter's fields (the
/// fallback id when it names none), checked id and name, and the three
/// standard steps.
pub open spec fn markdown_skill_spec(content: Seq<char>, fallback_id: Seq<char>) -> Result<SkillView, Seq<char>> {
    match split_frontmatter_spec(content) {
        Err(e) => Err(e),
        Ok((fm, body)) => match yaml_fields(fm, frontmatter_keys()) {
            Err(e) => Err("Frontmatter 解析失败: "@ + e),
            Ok(v) => {
                let raw_id = trim_spec(seq_or(v[0], fallback_id));
                if raw_id.len() == 0 {
                    Err("Skill id 不能为空"@)
                } else if !all_id_chars(raw_id) {
                    Err("Skill id 包含非法字符，仅支持字母数字与 - _: "@ + raw_id)
                } else if !(v[1] matches Some(n) && trim_spec(n).len() > 0) {
                    Err("Skill name 不能为空"@)
                } else {
                    Ok(SkillView {
                        id: raw_id,
                        name: trim_spec(v[1]->0),
                        description: seq_or(v[2], Seq::empty()),
                        icon: v[3],
                        model: v[4],
                        system_prompt: if v[5] is Some {
                            v[5]
                        } else {
                            v[6]
                        },
                        steps: markdown_steps(body),
                        source: "user"@,
                        enabled: true,
                    })
                }
            },
        },
    }
}

fn plain_step(id: &str, kind: &str, prompt: Option<String>, content: Option<String>) -> (r: crate::models::SkillStep)
    ensures
        step_view(r) == bare_step(id@, kind@, opt_view(prompt), opt_view(content)),
{
    crate::models::SkillStep {
        id: owned(id),
        step_type: owned(kind),
        prompt,
        content,
        condition: None,
        then_step: None,
        else_step: None,
        tool: None,
        server: None,
        args: None,
    }
}

fn markdown_steps_of(body: &str) -> (r: Vec<crate::models::SkillStep>)
    ensures
        steps_view(r@) == markdown_steps(body@),
{
    let head = if body.is_empty() {
        owned("请执行该任务。")
    } else {
        owned(body)
    };
    let prompt = concat_str(head.as_str(), "\n\n---\n用户输入：\n{{input.output}}");
    let a = plain_step("input", "input", None, Some(owned("请输入需要处理的内容或要求")));
    let b = plain_step("execute", "llm", Some(prompt), None);
    let c = plain_step("output", "message", None, Some(owned("{{execute.output}}")));
    let r = vec![a, b, c];
    assert(steps_view(r@) =~= markdown_steps(body@));
    r
}

/// Reads a standard SKILL.md (YAML frontmatter and Markdown body) as a
/// skill (see `markdown_skill_spec`).
pub fn parse_skill_markdown(content: &str, fallback_id: &str) -> (r: Result<crate::models::SkillDef, String>)
    ensures
        skill_result_view(r) == markdown_skill_spec(content@, fallback_id@),
{
    let (fm, body) = match split_frontmatter(content) {
        Ok(p) => p,
        Err(e) => return Err(e),
    };
    let keys: Vec<&str> = vec!["id", "name", "description", "icon", "model", "system_prompt", "systemPrompt"];
    assert(str_views(keys@) =~= frontmatter_keys());
    let v = match read_yaml_fields(fm.as_str(), &keys) {
        Ok(v) => v,
        Err(e) => return Err(concat_str("Frontmatter 解析失败: ", e.as_str())),
    };
    proof {
        lemma_yaml_fields_len(fm@, frontmatter_keys());
    }
    let ghost vv = v@.map_values(|o: Option<String>| opt_view(o));
    assert(vv.len() == 7);
    assert(opt_view(v@[0]) == vv[0] && opt_view(v@[1]) == vv[1] && opt_view(v@[2]) == vv[2]);
    assert(opt_view(v@[3]) == vv[3] && opt_view(v@[4]) == vv[4] && opt_view(v@[5]) == vv[5]);
    assert(opt_view(v@[6]) == vv[6]);
    let raw_src = match &v[0] {
        Some(s) => owned(s.as_str()),
        None => owned(fallback_id),
    };
    let rc = chars_of(raw_src.as_str());
    let raw_id = trim_chars(rc.as_slice());
    if raw_id.len() == 0 {
        return Err(owned("Skill id 不能为空"));
    }
    if !chars_all_id(raw_id.as_slice()) {
        let shown = string_of(raw_id.as_slice());
        return Err(concat_str("Skill id 包含非法字符，仅支持字母数字与 - _: ", shown.as_str()));
    }
    let name = match &v[1] {
        Some(n) => {
            let nc = chars_of(n.as_str());
            let t = trim_chars(nc.as_slice());
            if t.len() == 0 {
                return Err(owned("Skill name 不能为空"));
            }
            string_of(t.as_slice())
        },
        None => return Err(owned("Skill name 不能为空")),
    };
    let description = match &v[2] {
        Some(s) => owned(s.as_str()),
        None => String::new(),
    };
    let system_prompt = match &v[5] {
        Some(s) => Some(owned(s.as_str())),
        None => opt_owned(&v[6]),
    };
    let steps = markdown_steps_of(body.as_str());
    let d = crate::models::SkillDef {
        id: string_of(raw_id.as_slice()),
        name,
        description,
        icon: opt_owned(&v[3]),
        model: opt_owned(&v[4]),
        system_prompt,
        steps,
        source: owned("user"),
        enabled: true,
    };
    Ok(d)
}

} // verus!

verus! {

pub open spec fn legacy_keys() -> Seq<Seq<char>> {
    seq!["id"@, "name"@, "description"@, "icon"@, "model"@, "systemPrompt"@]
}

pub open spec fn legacy_step_keys() -> Seq<Seq<char>> {
    seq!["id"@, "type"@, "prompt"@, "content"@, "condition"@, "then"@, "else"@, "tool"@, "server"@, "args"@]
}

/// Item `i` of a legacy workflow's `steps`, when it reads and has its `id`
/// and `type`.
pub open spec fn legacy_step(text: Seq<char>, i: int) -> Option<StepView> {
    match yaml_item_fields(text, "steps"@, i, legacy_step_keys()) {
        Err(_) => None,
        Ok(v) => if v[0] is Some && v[1] is Some {
            Some(StepView {
                id: v[0]->0,
                step_type: v[1]->0,
                prompt: v[2],
                content: v[3],
                condition: v[4],
                then_step: v[5],
                else_step: v[6],
                tool: v[7],
                server: v[8],
                args: v[9],
            })
        } else {
            None
        },
    }
}

/// The first `n` steps of a legacy workflow, when they all read.
pub open spec fn legacy_steps(text: Seq<char>, n: nat) -> Option<Seq<StepView>>
    decreases n,
{
    if n == 0 {
        Some(Seq::empty())
    } else {
        match legacy_steps(text, (n - 1) as nat) {
            None => None,
            Some(s) => match legacy_step(text, n - 1) {
                None => None,
                Some(st) => Some(s.push(st)),
            },
        }
    }
}

/// Lemma: once a step fails to read, so do all longer prefixes.
pub proof fn lemma_legacy_steps_none(text: Seq<char>, i: nat, n: nat)
    requires
        i <= n,
        legacy_steps(text, i) is None,
    ensures
        legacy_steps(text, n) is None,
    decreases n,
{
    if i < n {
        lemma_legacy_steps_none(text, i, (n - 1) as nat);
    }
}

/// A legacy YAML workflow (no frontmatter): read only when the whole
/// document reads, its sanitized id (or the file stem) is not empty, it has
/// a name and at least one step.
pub open spec fn legacy_skill_spec(text: Seq<char>, stem: Seq<char>) -> Option<SkillView> {
    match yaml_fields(text, legacy_keys()) {
        Err(_) => None,
        Ok(v) => match yaml_list_len(text, "steps"@) {
            Err(_) => None,
            Ok(len) => {
                let n: nat = match len {
                    Some(k) => k,
                    None => 0,
                };
                match legacy_steps(text, n) {
                    None => None,
                    Some(steps) => {
                        let safe = id_filter(trim_spec(seq_or(v[0], stem)));
                        if safe.len() > 0 && v[1] is Some && steps.len() > 0 {
                            Some(SkillView {
                                id: safe,
                                name: v[1]->0,
                                description: seq_or(v[2], Seq::empty()),
                                icon: v[3],
                                model: v[4],
                                system_prompt: v[5],
                                steps,
                                source: "user"@,
                                enabled: true,
                            })
                        } else {
                            None
                        }
                    },
                }
            },
        },
    }
}

pub open spec fn opt_skill_view(o: Option<crate::models::SkillDef>) -> Option<SkillView> {
    match o {
        Some(d) => Some(skill_view(d)),
        None => None,
    }
}

fn parse_legacy(content: &str, stem: &str) -> (r: Option<crate::models::SkillDef>)
    ensures
        opt_skill_view(r) == legacy_skill_spec(content@, stem@),
{
    let keys: Vec<&str> = vec!["id", "name", "description", "icon", "model", "systemPrompt"];
    assert(str_views(keys@) =~= legacy_keys());
    let v = match read_yaml_fields(content, &keys) {
        Ok(v) => v,
        Err(_) => return None,
    };
    proof {
        lemma_yaml_fields_len(content@, legacy_keys());
    }
    let ghost vv = v@.map_values(|o: Option<String>| opt_view(o));
    assert(vv.len() == 6);
    assert(opt_view(v@[0]) == vv[0] && opt_view(v@[1]) == vv[1] && opt_view(v@[2]) == vv[2]);
    assert(opt_view(v@[3]) == vv[3] && opt_view(v@[4]) == vv[4] && opt_view(v@[5]) == vv[5]);
    let n: usize = match read_yaml_list_len(content, "steps") {
        Ok(Some(k)) => k,
        Ok(None) => 0,
        Err(_) => return None,
    };
    let fields: Vec<&str> = vec!["id", "type", "prompt", "content", "condition", "then", "else", "tool", "server", "args"];
    assert(str_views(fields@) =~= legacy_step_keys());
    let mut steps: Vec<crate::models::SkillStep> = Vec::new();
    let mut i: usize = 0;
    assert(steps_view(steps@) =~= Seq::<StepView>::empty());
    while i < n
        invariant
            i <= n,
            str_views(fields@) == legacy_step_keys(),
            legacy_steps(content@, i as nat) == Some(steps_view(steps@)),
            yaml_fields(content@, legacy_keys()) is Ok,
            yaml_list_len(content@, "steps"@) is Ok,
            (match yaml_list_len(content@, "steps"@) {
                Ok(Some(k)) => k,
                _ => 0nat,
            }) == n,
        decreases n - i,
    {
        let f = match read_yaml_item_fields(content, "steps", i, &fields) {
            Ok(f) => f,
            Err(_) => {
                assert(legacy_step(content@, i as int) is None);
                proof {
                    lemma_legacy_steps_none(content@, (i + 1) as nat, n as nat);
                }
                return None;
            },
        };
        proof {
            lemma_yaml_item_fields_len(content@, "steps"@, i as int, legacy_step_keys());
        }
        let ghost fv = f@.map_values(|o: Option<String>| opt_view(o));
        assert(fv.len() == 10);
        assert(opt_view(f@[0]) == fv[0] && opt_view(f@[1]) == fv[1] && opt_view(f@[2]) == fv[2]);
        assert(opt_view(f@[3]) == fv[3] && opt_view(f@[4]) == fv[4] && opt_view(f@[5]) == fv[5]);
        assert(opt_view(f@[6]) == fv[6] && opt_view(f@[7]) == fv[7] && opt_view(f@[8]) == fv[8]);
        assert(opt_view(f@[9]) == fv[9]);
        let id = match &f[0] {
            Some(s) => owned(s.as_str()),
            None => {
                proof {
                    lemma_legacy_steps_none(content@, (i + 1) as nat, n as nat);
                }
                return None;
            },
        };
        let kind = match &f[1] {
            Some(s) => owned(s.as_str()),
            None => {
                proof {
                    lemma_legacy_steps_none(content@, (i + 1) as nat, n as nat);
                }
                return None;
            },
        };
        let step = crate::models::SkillStep {
            id,
            step_type: kind,
            prompt: opt_owned(&f[2]),
            content: opt_owned(&f[3]),
            condition: opt_owned(&f[4]),
            then_step: opt_owned(&f[5]),
            else_step: opt_owned(&f[6]),
            tool: opt_owned(&f[7]),
            server: opt_owned(&f[8]),
            args: opt_owned(&f[9]),
        };
        let ghost before = steps@;
        steps.push(step);
        assert(steps_view(steps@) =~= steps_view(before).push(step_view(steps@.last())));
        i = i + 1;
    }
    let raw_src = match &v[0] {
        Some(s) => owned(s.as_str()),
        None => owned(stem),
    };
    let trimmed = crate::text::trim_str(raw_src.as_str());
    let safe = keep_id_chars(trimmed.as_str());
    if safe.as_str().is_empty() || v[1].is_none() || steps.len() == 0 {
        return None;
    }
    let name = match &v[1] {
        Some(s) => owned(s.as_str()),
        None => return None,
    };
    let description = match &v[2] {
        Some(s) => owned(s.as_str()),
        None => String::new(),
    };
    Some(crate::models::SkillDef {
        id: safe,
        name,
        description,
        icon: opt_owned(&v[3]),
        model: opt_owned(&v[4]),
        system_prompt: opt_owned(&v[5]),
        steps,
        source: owned("user"),
        enabled: true,
    })
}

pub open spec fn err_not_a_skill() -> Seq<char> {
    "Skill 必须为标准 SKILL.md 格式（以 --- YAML Frontmatter 开头）或包含有效 steps 的工作流定义"@
}

/// A skill file read as a skill: a SKILL.md when it starts (after
/// whitespace) with `---`, else a legacy workflow, else an error.
pub open spec fn skill_file_spec(content: Seq<char>, stem: Seq<char>) -> Result<SkillView, Seq<char>> {
    let t = crate::text::trim_start_spec(content);
    if starts_with(t, dashes()) {
        markdown_skill_spec(t, stem)
    } else {
        match legacy_skill_spec(content, stem) {
            Some(d) => Ok(d),
            None => Err(err_not_a_skill()),
        }
    }
}

/// Reads a skill file whose name (without extension) is `stem` (see
/// `skill_file_spec`).
pub fn parse_skill_with_stem(content: &str, stem: &str) -> (r: Result<crate::models::SkillDef, String>)
    ensures
        skill_result_view(r) == skill_file_spec(content@, stem@),
{
    let c = chars_of(content);
    let t = crate::text::trim_start_chars(c.as_slice());
    let d = vec!['-', '-', '-'];
    assert(d@ == dashes());
    if chars_start_with(t.as_slice(), d.as_slice()) {
        let ts = string_of(t.as_slice());
        return parse_skill_markdown(ts.as_str(), stem);
    }
    match parse_legacy(content, stem) {
        Some(def) => Ok(def),
        None => Err(owned("Skill 必须为标准 SKILL.md 格式（以 --- YAML Frontmatter 开头）或包含有效 steps 的工作流定义")),
    }
}

/// Reads skill text submitted by the user (the fallback id is
/// `custom-skill`).
pub fn parse_skill(content: &str) -> (r: Result<crate::models::SkillDef, String>)
    ensures
        skill_result_view(r) == skill_file_spec(content@, "custom-skill"@),
{
    parse_skill_with_stem(content, "custom-skill")
}

/// The SKILL.md of the built-in `code-review` skill.
pub const CODE_REVIEW_SKILL_MD: &'static str = "---\nname: code-review\ndescription: 审查代码中的潜在缺陷、安全性隐患与代码风格规范\nicon: git-pull-request\nsystem_prompt: 你是一位资深代码审查专家，请严谨、具体地指出代码中的问题。\n---\n\n# Code Review\n\n对用户提供的代码进行多维度审查：\n\n## 审查重点\n1. **潜在缺陷与边界条件 (Bugs & Edge Cases)**：空指针、越界、并发竞态条件、资源泄露。\n2. **安全性隐患 (Security)**：注入、敏感信息泄漏、未鉴权访问、越权。\n3. **架构与代码风格 (Architecture & Best Practices)**：坏味道、DRY 原则、异常处理规范。\n\n## 输出格式\n- 指出具体行号与潜在影响；\n- 提供清晰修复建议与推荐实现代码。\n";

/// The SKILL.md of the built-in `explain-error` skill.
pub const EXPLAIN_ERROR_SKILL_MD: &'static str = "---\nname: explain-error\ndescription: 分析错误堆栈与异常原因，提供根本原因排查与修复步骤\nicon: bug\nsystem_prompt: 你是一位经验丰富的系统排错专家，善于从报错堆栈中定位根因并给出切实可行的解决方案。\n---\n\n# Explain Error\n\n定位报错的根本原因并提供修复指南：\n\n## 排查步骤\n1. **识别核心错误 (Identify Root Cause)**：分析调用栈最深处的异常与触发上下文。\n2. **原因剖析 (Mechanism)**：解释为什么会出现该异常（如网络中断、类型不匹配、并发冲突）。\n3. **修复步骤 (Step-by-step Fix)**：给出最小修复方案与预防再次发生的最佳实践。\n";

pub open spec fn with_source(v: SkillView, source: Seq<char>) -> SkillView {
    SkillView {
        id: v.id,
        name: v.name,
        description: v.description,
        icon: v.icon,
        model: v.model,
        system_prompt: v.system_prompt,
        steps: v.steps,
        source,
        enabled: v.enabled,
    }
}

pub open spec fn builtin_entry(r: Result<SkillView, Seq<char>>) -> Seq<SkillView> {
    match r {
        Ok(v) => seq![with_source(v, "builtin"@)],
        Err(_) => Seq::empty(),
    }
}

/// The built-in skills: each bundled SKILL.md that reads, marked `builtin`.
pub open spec fn builtin_spec() -> Seq<SkillView> {
    builtin_entry(markdown_skill_spec(CODE_REVIEW_SKILL_MD@, "code-review"@)) + builtin_entry(
        markdown_skill_spec(EXPLAIN_ERROR_SKILL_MD@, "explain-error"@),
    )
}

pub open spec fn skills_view(v: Seq<crate::models::SkillDef>) -> Seq<SkillView> {
    v.map_values(|d: crate::models::SkillDef| skill_view(d))
}

/// The skills bundled with the application (see `builtin_spec`).
pub fn builtin_skills() -> (r: Vec<crate::models::SkillDef>)
    ensures
        skills_view(r@) == builtin_spec(),
{
    let mut out: Vec<crate::models::SkillDef> = Vec::new();
    match parse_skill_markdown(CODE_REVIEW_SKILL_MD, "code-review") {
        Ok(mut d) => {
            d.source = owned("builtin");
            out.push(d);
        },
        Err(_) => {},
    }
    assert(skills_view(out@) =~= builtin_entry(markdown_skill_spec(CODE_REVIEW_SKILL_MD@, "code-review"@)));
    let ghost first = out@;
    match parse_skill_markdown(EXPLAIN_ERROR_SKILL_MD, "explain-error") {
        Ok(mut d) => {
            d.source = owned("builtin");
            out.push(d);
        },
        Err(_) => {},
    }
    assert(skills_view(out@) =~= skills_view(first) + builtin_entry(
        markdown_skill_spec(EXPLAIN_ERROR_SKILL_MD@, "explain-error"@),
    ));
    out
}

} // verus!

verus! {

// ---------- skill stores ----------

/// A skill found in a store directory, marked with the store's label;
/// single-file skills of the global store start disabled and wait for the
/// user's consent.
pub open spec fn labeled_skill(v: SkillView, label: Seq<char>, single_file: bool) -> SkillView {
    SkillView {
        id: v.id,
        name: v.name,
        description: v.description,
        icon: v.icon,
        model: v.model,
        system_prompt: v.system_prompt,
        steps: v.steps,
        source: label,
        enabled: if single_file && label == "global"@ {
            false
        } else {
            v.enabled
        },
    }
}

/// Marks a skill read from a store (see `labeled_skill`).
pub fn label_skill(def: crate::models::SkillDef, label: &str, single_file: bool) -> (r: crate::models::SkillDef)
    ensures
        skill_view(r) == labeled_skill(skill_view(def), label@, single_file),
{
    let mut d = def;
    d.source = owned(label);
    if single_file && crate::text::str_eq(label, "global") {
        d.enabled = false;
    }
    d
}

/// Whether a file extension names a skill file.
pub fn is_skill_file_ext(ext: &str) -> (r: bool)
    ensures
        r == (ext@ == "md"@ || ext@ == "yaml"@ || ext@ == "yml"@),
{
    crate::text::str_eq(ext, "md") || crate::text::str_eq(ext, "yaml") || crate::text::str_eq(ext, "yml")
}

/// Skills in order with every id after its first occurrence dropped.
pub open spec fn first_of_each_id(s: Seq<SkillView>) -> Seq<SkillView>
    decreases s.len(),
{
    if s.len() == 0 {
        s
    } else {
        let prev = first_of_each_id(s.drop_last());
        if exists|k: int| 0 <= k < s.len() - 1 && #[trigger] s[k].id == s.last().id {
            prev
        } else {
            prev.push(s.last())
        }
    }
}

/// Merges the skills of several stores in order: the first skill with an
/// id wins.
pub fn merge_skills(found: Vec<crate::models::SkillDef>) -> (r: Vec<crate::models::SkillDef>)
    ensures
        skills_view(r@) == first_of_each_id(skills_view(found@)),
{
    let ghost all = skills_view(found@);
    let mut out: Vec<crate::models::SkillDef> = Vec::new();
    let mut seen: Vec<String> = Vec::new();
    let mut i: usize = 0;
    let mut rest = found;
    assert(all.len() == rest.len());
    assert(skills_view(out@) =~= first_of_each_id(all.take(0)));
    assert(skills_view(rest@) =~= all.skip(0));
    while rest.len() > 0
        invariant
            i + rest.len() == all.len(),
            all.len() <= usize::MAX,
            skills_view(rest@) == all.skip(i as int),
            skills_view(out@) == first_of_each_id(all.take(i as int)),
            forall|x: Seq<char>| crate::text::views(seen@).contains(x) <==> exists|k: int| 0 <= k < i && #[trigger] all[k].id == x,
        decreases rest.len(),
    {
        let ghost before_rest = rest@;
        let d = rest.remove(0);
        assert(skill_view(d) == skills_view(before_rest)[0]);
        assert(skill_view(d) == all[i as int]);
        assert(rest@ =~= before_rest.drop_first());
        assert(skills_view(rest@) =~= skills_view(before_rest).drop_first());
        assert(all.skip(i as int).drop_first() =~= all.skip(i + 1));
        let ghost pre = all.take(i + 1);
        assert(pre.drop_last() == all.take(i as int));
        assert(pre.last() == all[i as int]);
        let dc = chars_of(d.id.as_str());
        let dup = crate::text::contains_string(&seen, dc.as_slice());
        if dup {
            assert(exists|k: int| 0 <= k < pre.len() - 1 && #[trigger] pre[k].id == pre.last().id) by {
                let k = choose|k: int| 0 <= k < i && #[trigger] all[k].id == d.id@;
                assert(pre[k] == all[k]);
            }
            assert forall|x: Seq<char>| crate::text::views(seen@).contains(x) <==> exists|k: int| 0 <= k < i + 1 && #[trigger] all[k].id == x by {
                if exists|k: int| 0 <= k < i + 1 && #[trigger] all[k].id == x {
                    let k = choose|k: int| 0 <= k < i + 1 && #[trigger] all[k].id == x;
                    if k == i {
                        let k2 = choose|k: int| 0 <= k < i && #[trigger] all[k].id == d.id@;
                        assert(all[k2].id == x);
                    }
                }
            }
        } else {
            assert(!exists|k: int| 0 <= k < pre.len() - 1 && #[trigger] pre[k].id == pre.last().id) by {
                if exists|k: int| 0 <= k < pre.len() - 1 && #[trigger] pre[k].id == pre.last().id {
                    let k = choose|k: int| 0 <= k < pre.len() - 1 && #[trigger] pre[k].id == pre.last().id;
                    assert(all[k].id == d.id@);
                    assert(crate::text::views(seen@).contains(d.id@));
                }
            }
            let ghost before_seen = seen@;
            seen.push(owned(d.id.as_str()));
            assert(crate::text::views(seen@) =~= crate::text::views(before_seen).push(d.id@));
            assert forall|x: Seq<char>| crate::text::views(seen@).contains(x) <==> exists|k: int| 0 <= k < i + 1 && #[trigger] all[k].id == x by {
                if crate::text::views(seen@).contains(x) {
                    let t = choose|t: int| 0 <= t < crate::text::views(seen@).len() && crate::text::views(seen@)[t] == x;
                    if t < crate::text::views(before_seen).len() {
                        assert(crate::text::views(before_seen)[t] == x);
                        assert(crate::text::views(before_seen).contains(x));
                    } else {
                        assert(all[i as int].id == x);
                    }
                }
                if exists|k: int| 0 <= k < i + 1 && #[trigger] all[k].id == x {
                    let k = choose|k: int| 0 <= k < i + 1 && #[trigger] all[k].id == x;
                    if k < i {
                        assert(crate::text::views(before_seen).contains(x));
                        let t = choose|t: int| 0 <= t < crate::text::views(before_seen).len() && crate::text::views(before_seen)[t] == x;
                        assert(crate::text::views(seen@)[t] == x);
                    } else {
                        assert(crate::text::views(seen@)[crate::text::views(seen@).len() - 1] == x);
                    }
                }
            }
            let ghost before = out@;
            out.push(d);
            assert(skills_view(out@) =~= skills_view(before).push(all[i as int]));
        }
        i = i + 1;
    }
    assert(all.take(all.len() as int) == all);
    out
}

pub open spec fn skill_save_name(id: Seq<char>) -> Seq<char> {
    id_filter(id) + ".md"@
}

/// Validates skill text the user saves and names its file: the skill as
/// read (marked `user`) and `<safe id>.md`.
pub fn prepare_skill_save(content: &str) -> (r: Result<(crate::models::SkillDef, String), String>)
    ensures
        match r {
            Ok((d, file)) => skill_file_spec(content@, "custom-skill"@) matches Ok(v) && skill_view(d)
                == with_source(v, "user"@) && id_filter(v.id).len() > 0 && file@ == skill_save_name(v.id),
            Err(e) => match skill_file_spec(content@, "custom-skill"@) {
                Err(m) => e@ == m,
                Ok(v) => id_filter(v.id).len() == 0 && e@ == "id 仅支持字母数字与 - _"@,
            },
        },
{
    let d = match parse_skill(content) {
        Ok(d) => d,
        Err(e) => return Err(e),
    };
    let safe = keep_id_chars(d.id.as_str());
    if safe.as_str().is_empty() {
        return Err(owned("id 仅支持字母数字与 - _"));
    }
    let file = concat_str(safe.as_str(), ".md");
    let mut saved = d;
    saved.source = owned("user");
    Ok((saved, file))
}

/// The id under which a user skill is deleted: trimmed and sanitized; an
/// empty result is refused.
pub fn skill_delete_id(id: &str) -> (r: Result<String, String>)
    ensures
        match r {
            Ok(s) => s@ == id_filter(trim_spec(id@)) && s@.len() > 0,
            Err(e) => id_filter(trim_spec(id@)).len() == 0 && e@ == "非法或空的 Skill id"@,
        },
{
    let t = crate::text::trim_str(id);
    let safe = keep_id_chars(t.as_str());
    if safe.as_str().is_empty() {
        return Err(owned("非法或空的 Skill id"));
    }
    Ok(safe)
}

// ---------- the model a skill runs on ----------

/// The usable (model, provider) positions in model order: enabled models
/// with the first enabled provider of the same id.
pub open spec fn usable_models(models: Seq<crate::models::Model>, providers: Seq<crate::models::Provider>) -> Seq<(int, int)>
    decreases models.len(),
{
    if models.len() == 0 {
        Seq::empty()
    } else {
        let prev = usable_models(models.drop_last(), providers);
        let m = models.last();
        if m.enabled {
            match crate::text::first_index(providers, crate::failover::provider_with_id(m.provider_id@)) {
                Some(j) => prev.push((models.len() - 1, j)),
                None => prev,
            }
        } else {
            prev
        }
    }
}

pub open spec fn hint_matches(models: Seq<crate::models::Model>, h: Seq<char>) -> spec_fn((int, int)) -> bool {
    |pr: (int, int)| models[pr.0].model_id@ == h || models[pr.0].display_name@ == h
}

/// The model a skill runs on: the first usable one whose model id or
/// display name is the hint, else the first usable one.
pub open spec fn skill_model_spec(
    models: Seq<crate::models::Model>,
    providers: Seq<crate::models::Provider>,
    hint: Option<Seq<char>>,
) -> Option<(int, int)> {
    let u = usable_models(models, providers);
    if u.len() == 0 {
        None
    } else {
        match hint {
            Some(h) => match crate::text::first_index(u, hint_matches(models, h)) {
                Some(k) => Some(u[k]),
                None => Some(u[0]),
            },
            None => Some(u[0]),
        }
    }
}

pub open spec fn opt_str_view(o: Option<&str>) -> Option<Seq<char>> {
    match o {
        Some(s) => Some(s@),
        None => None,
    }
}

/// Picks the model a skill runs on (see `skill_model_spec`).
pub fn resolve_model(
    models: &[crate::models::Model],
    providers: &[crate::models::Provider],
    hint: Option<&str>,
) -> (r: Result<(crate::models::Model, crate::models::Provider), String>)
    ensures
        match r {
            Ok((m, p)) => skill_model_spec(models@, providers@, opt_str_view(hint)) matches Some((i, j))
                && 0 <= i < models.len() && 0 <= j < providers.len() && m.same_as(models@[i])
                && p == providers@[j],
            Err(e) => skill_model_spec(models@, providers@, opt_str_view(hint)) is None
                && e@ == "UNAUTHORIZED:没有可用的供应商/模型，请先在设置中配置"@,
        },
{
    let mut usable: Vec<(usize, usize)> = Vec::new();
    let mut i: usize = 0;
    while i < models.len()
        invariant
            i <= models.len(),
            usable@.len() == usable_models(models@.take(i as int), providers@).len(),
            forall|k: int| 0 <= k < usable@.len() ==> (#[trigger] usable@[k]).0 as int == usable_models(models@.take(i as int), providers@)[k].0
                && usable@[k].1 as int == usable_models(models@.take(i as int), providers@)[k].1
                && usable@[k].0 < models.len() && usable@[k].1 < providers.len(),
        decreases models.len() - i,
    {
        let ghost pre = models@.take(i + 1);
        assert(pre.drop_last() == models@.take(i as int));
        assert(pre.last() == models@[i as int]);
        if models[i].enabled {
            match crate::failover::find_enabled_provider(providers, models[i].provider_id.as_str()) {
                Some(j) => {
                    proof {
                        crate::text::lemma_first_index(providers@, crate::failover::provider_with_id(models@[i as int].provider_id@));
                    }
                    usable.push((i, j));
                },
                None => {},
            }
        }
        i = i + 1;
    }
    assert(models@.take(models.len() as int) == models@);
    let ghost u = usable_models(models@, providers@);
    if usable.len() == 0 {
        return Err(owned("UNAUTHORIZED:没有可用的供应商/模型，请先在设置中配置"));
    }
    let mut pick: usize = 0;
    match hint {
        Some(h) => {
            let mut k: usize = 0;
            let mut found = false;
            while k < usable.len() && !found
                invariant
                    k <= usable.len(),
                    usable@.len() == u.len(),
                    u == usable_models(models@, providers@),
                    forall|t: int| 0 <= t < usable@.len() ==> (#[trigger] usable@[t]).0 as int == u[t].0
                        && usable@[t].1 as int == u[t].1 && usable@[t].0 < models.len() && usable@[t].1 < providers.len(),
                    forall|t: int| 0 <= t < k ==> !(hint_matches(models@, h@))(#[trigger] u[t]),
                    found ==> (k < usable.len() && (hint_matches(models@, h@))(u[k as int])),
                decreases usable.len() - k + (if found { 0int } else { 1int }),
            {
                let (mi, _) = usable[k];
                if crate::text::str_eq(models[mi].model_id.as_str(), h) || crate::text::str_eq(models[mi].display_name.as_str(), h) {
                    found = true;
                } else {
                    k = k + 1;
                }
            }
            if found {
                proof {
                    crate::text::lemma_first_index_is(u, hint_matches(models@, h@), k as int);
                }
                pick = k;
            } else {
                proof {
                    crate::text::lemma_first_index_none(u, hint_matches(models@, h@));
                }
            }
        },
        None => {},
    }
    let (mi, pj) = usable[pick];
    Ok((models[mi].clone(), providers[pj].clone()))
}

} // verus!
