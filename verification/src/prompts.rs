//! Prompt library rules: the `{{var}}` variables of a template, what a
//! saved prompt must be, and which prompts cannot be deleted.

use vstd::prelude::*;
use crate::models::PromptInput;
use crate::text::{
    alphanumeric, char_is_alphanumeric, chars_of, chars_range, concat_str, contains_string,
    find_from, find_seq, lemma_find_seq_found, owned, str_eq, string_of, trim_chars, trim_spec,
    views,
};

verus! {

pub open spec fn var_char(c: char) -> bool {
    alphanumeric(c) || c == '_' || c == '-'
}

/// A variable name: non-empty, of alphanumerics, `_` and `-` only (so an
/// expression such as `{{ a ? b : c }}` is not a variable).
pub open spec fn valid_var(name: Seq<char>) -> bool {
    name.len() > 0 && forall|i: int| 0 <= i < name.len() ==> var_char(#[trigger] name[i])
}

/// Scans `rest` for `{{name}}` placeholders, adding each new valid name to
/// `acc`; an unterminated `{{` ends the scan.
pub open spec fn vars_scan(rest: Seq<char>, acc: Seq<Seq<char>>) -> Seq<Seq<char>>
    decreases rest.len(),
{
    match find_seq(rest, seq!['{', '{']) {
        None => acc,
        Some(s) => {
            let after = rest.skip(s + 2);
            match find_seq(after, seq!['}', '}']) {
                None => acc,
                Some(e) => {
                    let name = trim_spec(after.take(e));
                    let acc2 = if valid_var(name) && !acc.contains(name) {
                        acc.push(name)
                    } else {
                        acc
                    };
                    proof {
                        lemma_find_seq_found(rest, seq!['{', '{']);
                        lemma_find_seq_found(after, seq!['}', '}']);
                    }
                    if s + 2 + e + 2 <= rest.len() {
                        vars_scan(after.skip(e + 2), acc2)
                    } else {
                        acc2
                    }
                },
            }
        },
    }
}

fn valid_var_chars(name: &[char]) -> (r: bool)
    ensures
        r == valid_var(name@),
{
    if name.len() == 0 {
        return false;
    }
    let mut i: usize = 0;
    while i < name.len()
        invariant
            i <= name.len(),
            forall|j: int| 0 <= j < i ==> var_char(#[trigger] name@[j]),
        decreases name.len() - i,
    {
        let c = name[i];
        if !(char_is_alphanumeric(c) || c == '_' || c == '-') {
            return false;
        }
        i = i + 1;
    }
    true
}

/// The `{{var}}` variables of a template, in order of first appearance and
/// without repeats.
pub fn parse_variables(content: &str) -> (r: Vec<String>)
    ensures
        views(r@) == vars_scan(content@, seq![]),
{
    let chars = chars_of(content);
    let open = vec!['{', '{'];
    let close = vec!['}', '}'];
    let mut out: Vec<String> = Vec::new();
    let mut p: usize = 0;
    assert(views(out@) =~= Seq::<Seq<char>>::empty());
    assert(chars@.skip(0) == chars@);
    loop
        invariant
            p <= chars.len(),
            chars@ == content@,
            open@ == seq!['{', '{'],
            close@ == seq!['}', '}'],
            vars_scan(content@, seq![]) == vars_scan(chars@.skip(p as int), views(out@)),
        decreases chars.len() - p,
    {
        let ghost rest = chars@.skip(p as int);
        assert(open@.len() == 2 && close@.len() == 2);
        let s = match find_from(chars.as_slice(), open.as_slice(), p) {
            Some(s) => s,
            None => {
                return out;
            },
        };
        proof {
            lemma_find_seq_found(rest, seq!['{', '{']);
        }
        let a = s + 2;
        assert(rest.skip((s - p) + 2) =~= chars@.skip(a as int));
        let e = match find_from(chars.as_slice(), close.as_slice(), a) {
            Some(e) => e,
            None => {
                return out;
            },
        };
        proof {
            lemma_find_seq_found(chars@.skip(a as int), seq!['}', '}']);
        }
        let raw = chars_range(chars.as_slice(), a, e);
        assert(raw@ == chars@.skip(a as int).take(e - a));
        let name = trim_chars(raw.as_slice());
        if valid_var_chars(name.as_slice()) && !contains_string(&out, name.as_slice()) {
            let ghost before = views(out@);
            out.push(string_of(name.as_slice()));
            assert(views(out@) =~= before.push(name@));
        }
        assert(chars@.skip(a as int).skip((e - a) + 2) =~= chars@.skip(e + 2));
        p = e + 2;
    }
}

/// The most earlier versions kept of a prompt.
pub const MAX_VERSIONS: i64 = 10;

/// The kinds of prompt: system prompts, snippets and templates.
pub open spec fn known_prompt_type(t: Seq<char>) -> bool {
    t == "system"@ || t == "snippet"@ || t == "template"@
}

/// What a saved prompt must be: of a known kind, with a title that is not
/// blank (the kind is checked first).
pub open spec fn prompt_check_spec(prompt_type: Seq<char>, title: Seq<char>) -> Result<(), Seq<char>> {
    if !known_prompt_type(prompt_type) {
        Err("未知的提示词类型: "@ + prompt_type)
    } else if trim_spec(title).len() == 0 {
        Err("标题不能为空"@)
    } else {
        Ok(())
    }
}

/// Checks a prompt before it is saved (see `prompt_check_spec`).
pub fn check_prompt_input(input: &PromptInput) -> (r: Result<(), String>)
    ensures
        match r {
            Ok(()) => prompt_check_spec(input.prompt_type@, input.title@) == Ok::<(), Seq<char>>(()),
            Err(e) => prompt_check_spec(input.prompt_type@, input.title@) == Err::<(), Seq<char>>(e@),
        },
{
    let t = input.prompt_type.as_str();
    if !(str_eq(t, "system") || str_eq(t, "snippet") || str_eq(t, "template")) {
        return Err(concat_str("未知的提示词类型: ", t));
    }
    let tc = chars_of(input.title.as_str());
    let trimmed = trim_chars(tc.as_slice());
    if trimmed.len() == 0 {
        return Err(owned("标题不能为空"));
    }
    Ok(())
}

/// The id prefix of the prompts that ship with the application.
pub open spec fn builtin_prefix() -> Seq<char> {
    "builtin:"@
}

/// Refuses to delete a prompt that ships with the application.
pub fn check_prompt_delete(id: &str) -> (r: Result<(), String>)
    ensures
        r is Ok <==> !crate::text::starts_with(id@, builtin_prefix()),
        r matches Err(e) ==> e@ == "FORBIDDEN:内置模板不可删除"@,
{
    let c = chars_of(id);
    let p = chars_of("builtin:");
    if crate::text::chars_start_with(c.as_slice(), p.as_slice()) {
        Err(owned("FORBIDDEN:内置模板不可删除"))
    } else {
        Ok(())
    }
}

/// The title a prompt is stored under: trimmed.
pub fn stored_title(title: &str) -> (r: String)
    ensures
        r@ == trim_spec(title@),
{
    crate::text::trim_str(title)
}

} // verus!
