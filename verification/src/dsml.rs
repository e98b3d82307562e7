//! Rescue of leaked DeepSeek DSML tool calls.
//!
//! Some DeepSeek models and relays do not support native function calling
//! and write tool calls into the answer text as markup:
//!
//! ```text
//! <｜DSML｜tool_calls>
//!   <｜DSML｜invoke name="read_file">
//!     <｜DSML｜parameter name="path" string="true">src/main.rs</｜DSML｜parameter>
//!   </｜DSML｜invoke>
//! </｜DSML｜tool_calls>
//! ```
//!
//! `extract_tool_calls` turns such blocks back into tool calls and removes
//! them from the text, so that the agent loop goes on. Full-width ｜ (U+FF5C)
//! and ASCII | are both accepted.

use vstd::prelude::*;
use crate::skills::seq_or;
use crate::text::{chars_of, contains_seq, lowercase, owned, string_of, to_lowercase, trim_chars, trim_spec};

verus! {

/// A whole `tool_calls` block; group 1 is its body.
pub const BLOCK_PATTERN: &'static str = "(?is)<[｜|]{1,4}\\s*dsml[｜|]*\\s*tool_calls\\s*>(.*?)</\\s*[｜|]*\\s*dsml[｜|]*\\s*tool_calls\\s*>";

/// One `invoke`; group 1 is the tool name, group 2 its body.
pub const INVOKE_PATTERN: &'static str = "(?is)<[｜|]{1,4}\\s*dsml[｜|]*\\s*invoke\\s+name=\"([^\"]+)\"[^>]*>(.*?)</\\s*[｜|]*\\s*dsml[｜|]*\\s*invoke\\s*>";

/// One `parameter`; group 1 is its name, group 2 its value.
pub const PARAM_PATTERN: &'static str = "(?is)<[｜|]{1,4}\\s*dsml[｜|]*\\s*parameter\\s+name=\"([^\"]+)\"[^>]*>(.*?)</\\s*[｜|]*\\s*dsml[｜|]*\\s*parameter\\s*>";

/// The text with every match of `pattern` removed (`regex::Regex::new`,
/// `Regex::replace_all` with ""); `None` when the pattern does not compile.
pub uninterp spec fn regex_removed(pattern: Seq<char>, text: Seq<char>) -> Option<Seq<char>>;

/// The capture groups (from group 1 on) of each successive match of
/// `pattern` in `text` (`Regex::captures_iter`); `None` when the pattern does
/// not compile.
pub uninterp spec fn regex_groups(pattern: Seq<char>, text: Seq<char>) -> Option<Seq<Seq<Option<Seq<char>>>>>;

/// The compact JSON text `serde_json` prints for an object built by
/// inserting these string members in order into a `serde_json::Map`.
pub uninterp spec fn string_object_text(members: Seq<(Seq<char>, Seq<char>)>) -> Seq<char>;

pub open spec fn groups_view(v: Vec<Vec<Option<String>>>) -> Seq<Seq<Option<Seq<char>>>> {
    v@.map_values(|m: Vec<Option<String>>| m@.map_values(|g: Option<String>| crate::skills::opt_view(g)))
}

pub open spec fn pairs_view(v: Seq<(String, String)>) -> Seq<(Seq<char>, Seq<char>)> {
    v.map_values(|p: (String, String)| (p.0@, p.1@))
}

/// Removes every match of `pattern` from `text` with the `regex` crate
/// (`Regex::new`, then `replace_all` with an empty replacement); `None` when
/// the pattern does not compile. The result is named by `regex_removed`.
#[verifier::external_body]
fn regex_remove_all(pattern: &str, text: &str) -> (r: Option<String>)
    ensures
        crate::skills::opt_view(r) == regex_removed(pattern@, text@),
{
    regex::Regex::new(pattern).ok().map(|re| re.replace_all(text, "").to_string())
}

/// The capture groups (group 1 on, `None` for a group that did not take
/// part) of each match of `pattern` in `text`, in order, with the `regex`
/// crate (`Regex::new`, `Regex::captures_iter`); `None` when the pattern does
/// not compile. The result is named by `regex_groups`.
#[verifier::external_body]
fn regex_captures(pattern: &str, text: &str) -> (r: Option<Vec<Vec<Option<String>>>>)
    ensures
        match r {
            Some(v) => regex_groups(pattern@, text@) == Some(groups_view(v)),
            None => regex_groups(pattern@, text@) is None,
        },
{
    let re = regex::Regex::new(pattern).ok()?;
    Some(re.captures_iter(text).map(|c| c.iter().skip(1).map(|g| g.map(|m| m.as_str().to_string())).collect()).collect())
}

/// Builds a `serde_json::Map` by inserting the members in order (a later
/// member replaces an earlier one of the same name) and prints the object
/// with `Value::to_string`. The text is named by `string_object_text`.
#[verifier::external_body]
fn string_object_json(members: &Vec<(String, String)>) -> (r: String)
    ensures
        r@ == string_object_text(pairs_view(members@)),
{
    let mut map = serde_json::Map::new();
    for (k, v) in members {
        map.insert(k.clone(), serde_json::Value::String(v.clone()));
    }
    serde_json::Value::Object(map).to_string()
}

pub open spec fn dsml_word() -> Seq<char> {
    seq!['d', 's', 'm', 'l']
}

/// Whether the text mentions `dsml` in any case.
pub open spec fn dsml_spec(text: Seq<char>) -> bool {
    contains_seq(lowercase(text), dsml_word())
}

/// Quick test for leaked DSML markup: the text holds `dsml` in any case.
pub fn looks_like_dsml(text: &str) -> (r: bool)
    ensures
        r == dsml_spec(text@),
{
    let lower = to_lowercase(text);
    let c = chars_of(lower.as_str());
    let w = vec!['d', 's', 'm', 'l'];
    assert(w@ == dsml_word());
    assert(c@.skip(0) == c@);
    crate::text::find_from(c.as_slice(), w.as_slice(), 0).is_some()
}

/// The group at position `i` of a match, or empty text.
pub open spec fn group_text(m: Seq<Option<Seq<char>>>, i: int) -> Seq<char> {
    if 0 <= i < m.len() {
        seq_or(m[i], Seq::empty())
    } else {
        Seq::empty()
    }
}

/// The named parameters of an invoke body, in order; parameters without a
/// name are left out.
pub open spec fn params_of(ps: Seq<Seq<Option<Seq<char>>>>) -> Seq<(Seq<char>, Seq<char>)>
    decreases ps.len(),
{
    if ps.len() == 0 {
        Seq::empty()
    } else {
        let prev = params_of(ps.drop_last());
        let p = ps.last();
        if group_text(p, 0).len() > 0 {
            prev.push((group_text(p, 0), group_text(p, 1)))
        } else {
            prev
        }
    }
}

/// The tool call of one invoke: its trimmed name and its parameters as a
/// JSON object of strings; none when the name is blank.
pub open spec fn invoke_call(inv: Seq<Option<Seq<char>>>) -> Option<(Seq<char>, Seq<char>)> {
    let name = trim_spec(group_text(inv, 0));
    if name.len() == 0 {
        None
    } else {
        let ps = match regex_groups(PARAM_PATTERN@, group_text(inv, 1)) {
            Some(g) => g,
            None => Seq::empty(),
        };
        Some((name, string_object_text(params_of(ps))))
    }
}

pub open spec fn invoke_calls(invs: Seq<Seq<Option<Seq<char>>>>) -> Seq<(Seq<char>, Seq<char>)>
    decreases invs.len(),
{
    if invs.len() == 0 {
        Seq::empty()
    } else {
        let prev = invoke_calls(invs.drop_last());
        match invoke_call(invs.last()) {
            Some(c) => prev.push(c),
            None => prev,
        }
    }
}

/// The calls of one `tool_calls` block, in order.
pub open spec fn block_calls(block: Seq<Option<Seq<char>>>) -> Seq<(Seq<char>, Seq<char>)> {
    match regex_groups(INVOKE_PATTERN@, group_text(block, 0)) {
        Some(invs) => invoke_calls(invs),
        None => Seq::empty(),
    }
}

pub open spec fn blocks_calls(blocks: Seq<Seq<Option<Seq<char>>>>) -> Seq<(Seq<char>, Seq<char>)>
    decreases blocks.len(),
{
    if blocks.len() == 0 {
        Seq::empty()
    } else {
        blocks_calls(blocks.drop_last()) + block_calls(blocks.last())
    }
}

/// The leaked calls of a text and the text without its `tool_calls`
/// blocks, trimmed; a text without `dsml` comes back untouched.
pub open spec fn extract_spec(content: Seq<char>) -> (Seq<char>, Seq<(Seq<char>, Seq<char>)>) {
    if !dsml_spec(content) {
        (content, Seq::empty())
    } else {
        let cleaned = match regex_removed(BLOCK_PATTERN@, content) {
            Some(t) => t,
            None => content,
        };
        let calls = match regex_groups(BLOCK_PATTERN@, content) {
            Some(b) => blocks_calls(b),
            None => Seq::empty(),
        };
        (trim_spec(cleaned), calls)
    }
}

fn group_of(m: &Vec<Option<String>>, i: usize) -> (r: String)
    ensures
        r@ == group_text(m@.map_values(|g: Option<String>| crate::skills::opt_view(g)), i as int),
{
    if i < m.len() {
        match &m[i] {
            Some(s) => owned(s.as_str()),
            None => String::new(),
        }
    } else {
        String::new()
    }
}

fn invoke_tool_call(inv: &Vec<Option<String>>) -> (r: Option<(String, String)>)
    ensures
        match r {
            Some((n, a)) => invoke_call(inv@.map_values(|g: Option<String>| crate::skills::opt_view(g))) == Some((n@, a@)),
            None => invoke_call(inv@.map_values(|g: Option<String>| crate::skills::opt_view(g))) is None,
        },
{
    let ghost iv = inv@.map_values(|g: Option<String>| crate::skills::opt_view(g));
    let raw = group_of(inv, 0);
    let rc = chars_of(raw.as_str());
    let nc = trim_chars(rc.as_slice());
    if nc.len() == 0 {
        return None;
    }
    let body = group_of(inv, 1);
    let ps = match regex_captures(PARAM_PATTERN, body.as_str()) {
        Some(g) => g,
        None => {
            let e: Vec<Vec<Option<String>>> = Vec::new();
            assert(groups_view(e) =~= Seq::<Seq<Option<Seq<char>>>>::empty());
            e
        },
    };
    let ghost pv = groups_view(ps);
    assert(pv == match regex_groups(PARAM_PATTERN@, group_text(iv, 1)) {
        Some(g) => g,
        None => Seq::<Seq<Option<Seq<char>>>>::empty(),
    });
    let mut members: Vec<(String, String)> = Vec::new();
    let mut k: usize = 0;
    assert(pairs_view(members@) =~= params_of(pv.take(0)));
    while k < ps.len()
        invariant
            k <= ps.len(),
            pv == groups_view(ps),
            pairs_view(members@) == params_of(pv.take(k as int)),
        decreases ps.len() - k,
    {
        let ghost pre = pv.take(k + 1);
        assert(pre.drop_last() == pv.take(k as int));
        assert(pre.last() == ps@[k as int]@.map_values(|g: Option<String>| crate::skills::opt_view(g)));
        let pname = group_of(&ps[k], 0);
        let pvalue = group_of(&ps[k], 1);
        if !pname.as_str().is_empty() {
            let ghost before = members@;
            members.push((pname, pvalue));
            assert(pairs_view(members@) =~= pairs_view(before).push((members@.last().0@, members@.last().1@)));
        }
        k = k + 1;
    }
    assert(pv.take(ps.len() as int) == pv);
    let args = string_object_json(&members);
    Some((string_of(nc.as_slice()), args))
}

fn block_tool_calls(block: &Vec<Option<String>>, out: &mut Vec<(String, String)>)
    ensures
        pairs_view(final(out)@) == pairs_view(old(out)@) + block_calls(
            block@.map_values(|g: Option<String>| crate::skills::opt_view(g)),
        ),
{
    let ghost bv = block@.map_values(|g: Option<String>| crate::skills::opt_view(g));
    let body = group_of(block, 0);
    let invs = match regex_captures(INVOKE_PATTERN, body.as_str()) {
        Some(g) => g,
        None => {
            assert(block_calls(bv) =~= Seq::<(Seq<char>, Seq<char>)>::empty());
            assert(pairs_view(out@) + block_calls(bv) =~= pairs_view(out@));
            return ;
        },
    };
    let ghost iv = groups_view(invs);
    let ghost start = pairs_view(out@);
    let mut k: usize = 0;
    assert(start + invoke_calls(iv.take(0)) =~= start);
    while k < invs.len()
        invariant
            k <= invs.len(),
            iv == groups_view(invs),
            pairs_view(out@) == start + invoke_calls(iv.take(k as int)),
        decreases invs.len() - k,
    {
        let ghost pre = iv.take(k + 1);
        assert(pre.drop_last() == iv.take(k as int));
        assert(pre.last() == invs@[k as int]@.map_values(|g: Option<String>| crate::skills::opt_view(g)));
        match invoke_tool_call(&invs[k]) {
            Some(c) => {
                let ghost before = out@;
                out.push(c);
                assert(pairs_view(out@) =~= pairs_view(before).push((out@.last().0@, out@.last().1@)));
            },
            None => {},
        }
        k = k + 1;
    }
    assert(iv.take(invs.len() as int) == iv);
}

/// Pulls leaked DSML tool calls out of an answer: the text without the
/// `tool_calls` blocks (trimmed) and each call as (tool name, JSON object of
/// string arguments); a text without DSML comes back untouched (see
/// `extract_spec`).
pub fn extract_tool_calls(content: &str) -> (r: (String, Vec<(String, String)>))
    ensures
        (r.0@, pairs_view(r.1@)) == extract_spec(content@),
{
    if !looks_like_dsml(content) {
        let v: Vec<(String, String)> = Vec::new();
        assert(pairs_view(v@) =~= Seq::<(Seq<char>, Seq<char>)>::empty());
        return (owned(content), v);
    }
    let cleaned = match regex_remove_all(BLOCK_PATTERN, content) {
        Some(t) => t,
        None => owned(content),
    };
    let mut calls: Vec<(String, String)> = Vec::new();
    match regex_captures(BLOCK_PATTERN, content) {
        Some(blocks) => {
            let ghost bv = groups_view(blocks);
            let mut k: usize = 0;
            assert(pairs_view(calls@) =~= blocks_calls(bv.take(0)));
            while k < blocks.len()
                invariant
                    k <= blocks.len(),
                    bv == groups_view(blocks),
                    pairs_view(calls@) == blocks_calls(bv.take(k as int)),
                decreases blocks.len() - k,
            {
                let ghost pre = bv.take(k + 1);
                assert(pre.drop_last() == bv.take(k as int));
                assert(pre.last() == blocks@[k as int]@.map_values(|g: Option<String>| crate::skills::opt_view(g)));
                block_tool_calls(&blocks[k], &mut calls);
                k = k + 1;
            }
            assert(bv.take(blocks.len() as int) == bv);
        },
        None => {
            assert(pairs_view(calls@) =~= Seq::<(Seq<char>, Seq<char>)>::empty());
        },
    }
    let cc = chars_of(cleaned.as_str());
    let t = trim_chars(cc.as_slice());
    (string_of(t.as_slice()), calls)
}

} // verus!
