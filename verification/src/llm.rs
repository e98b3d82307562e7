//! Request rules of the LLM layer: endpoint URLs, the parameter shape that
//! OpenAI's own reasoning models need, thinking-effort mappings, error
//! codes, and the final check of a response.
//!
//! Errors travel as `CODE:readable message`; the codes are NETWORK, TIMEOUT,
//! UNAUTHORIZED, RATE_LIMITED, SERVER, BAD_REQUEST, EMPTY, ABORTED and
//! UNSUPPORTED.

use vstd::prelude::*;
use std::sync::Arc;
use std::sync::atomic::{AtomicBool, Ordering};
use crate::models::{ChatResponse, GlobalProxy, Provider, ToolCall, TokenUsage};
use crate::proxy::{resolve_proxy, resolve_proxy_spec};
use crate::text::{
    after_last, after_last_chars, before_first, before_first_chars, char_is_ascii_alnum,
    chars_end_with, chars_of, chars_range, chars_start_with, concat_str, ends_with, find_from,
    find_seq, is_ascii_alnum, lemma_find_seq_found, lowercase, starts_with, string_of,
    to_lowercase, trim_trailing, trim_trailing_chars,
};

verus! {

// ---------- endpoint URLs ----------

/// `base` without trailing slashes, then `tail` after `/v1` (which is
/// added unless the base already ends with it).
pub open spec fn endpoint_spec(base: Seq<char>, tail: Seq<char>) -> Seq<char> {
    let b = trim_trailing(base, '/');
    if ends_with(b, "/v1"@) {
        b + tail
    } else {
        b + "/v1"@ + tail
    }
}

fn endpoint(base: &str, tail: &str) -> (r: String)
    ensures
        r@ == endpoint_spec(base@, tail@),
{
    let chars = chars_of(base);
    let b = trim_trailing_chars(chars.as_slice(), '/');
    let v1 = chars_of("/v1");
    let bs = string_of(b.as_slice());
    if chars_end_with(b.as_slice(), v1.as_slice()) {
        concat_str(bs.as_str(), tail)
    } else {
        let with_v1 = concat_str(bs.as_str(), "/v1");
        concat_str(with_v1.as_str(), tail)
    }
}

/// OpenAI-compatible chat completions endpoint.
pub fn openai_chat_url(base: &str) -> (r: String)
    ensures
        r@ == endpoint_spec(base@, "/chat/completions"@),
{
    endpoint(base, "/chat/completions")
}

/// OpenAI Responses API endpoint.
pub fn openai_responses_url(base: &str) -> (r: String)
    ensures
        r@ == endpoint_spec(base@, "/responses"@),
{
    endpoint(base, "/responses")
}

/// Anthropic messages endpoint.
pub fn anthropic_url(base: &str) -> (r: String)
    ensures
        r@ == endpoint_spec(base@, "/messages"@),
{
    endpoint(base, "/messages")
}

// ---------- OpenAI official endpoint, reasoning models ----------

/// The text after the first `://` and before the next one (all of it when
/// there is no scheme).
pub open spec fn after_scheme(l: Seq<char>) -> Seq<char> {
    match find_seq(l, "://"@) {
        None => l,
        Some(i) => {
            let rest = l.skip(i + "://"@.len());
            match find_seq(rest, "://"@) {
                None => rest,
                Some(j) => rest.take(j),
            }
        },
    }
}

pub open spec fn is_authority_end(c: char) -> bool {
    c == '/' || c == '?' || c == '#'
}

/// The authority part: up to the first `/`, `?` or `#`.
pub open spec fn authority_of(a: Seq<char>) -> Seq<char> {
    match crate::text::first_index(a, |c: char| is_authority_end(c)) {
        Some(k) => a.take(k),
        None => a,
    }
}

/// The host of a base URL, lowercased: the authority without `user@` and
/// without `:port`.
pub open spec fn host_spec(base_url: Seq<char>) -> Seq<char> {
    before_first(after_last(authority_of(after_scheme(lowercase(base_url))), '@'), ':')
}

fn after_scheme_chars(l: &[char]) -> (r: Vec<char>)
    ensures
        r@ == after_scheme(l@),
{
    let sep = chars_of("://");
    assert(l@.skip(0) == l@);
    match find_from(l, sep.as_slice(), 0) {
        None => chars_range(l, 0, l.len()),
        Some(i) => {
            proof {
                lemma_find_seq_found(l@, "://"@);
            }
            assert(i + sep.len() <= l.len());
            let rest = chars_range(l, i + sep.len(), l.len());
            assert(rest@ == l@.skip(i + "://"@.len()));
            assert(rest@.skip(0) == rest@);
            match find_from(rest.as_slice(), sep.as_slice(), 0) {
                None => rest,
                Some(j) => {
                    proof {
                        lemma_find_seq_found(rest@, "://"@);
                    }
                    chars_range(rest.as_slice(), 0, j)
                },
            }
        },
    }
}

fn authority_chars(a: &[char]) -> (r: Vec<char>)
    ensures
        r@ == authority_of(a@),
{
    let mut k: usize = 0;
    while k < a.len() && !(a[k] == '/' || a[k] == '?' || a[k] == '#')
        invariant
            k <= a.len(),
            forall|j: int| 0 <= j < k ==> !(|c: char| is_authority_end(c))(#[trigger] a@[j]),
        decreases a.len() - k,
    {
        k = k + 1;
    }
    if k < a.len() {
        proof {
            crate::text::lemma_first_index_is(a@, |c: char| is_authority_end(c), k as int);
        }
    } else {
        proof {
            crate::text::lemma_first_index_none(a@, |c: char| is_authority_end(c));
        }
        assert(a@.subrange(0, k as int) == a@);
    }
    chars_range(a, 0, k)
}

/// Whether the base URL points at OpenAI's own API (`api.openai.com`, with
/// or without scheme, path, credentials or port). Only there do reasoning
/// models need the `developer` role and `max_completion_tokens`.
pub fn is_openai_official(base_url: &str) -> (r: bool)
    ensures
        r == (host_spec(base_url@) == "api.openai.com"@),
{
    let lowered = to_lowercase(base_url);
    let l = chars_of(lowered.as_str());
    let a1 = after_scheme_chars(l.as_slice());
    let a2 = authority_chars(a1.as_slice());
    let a3 = after_last_chars(a2.as_slice(), '@');
    let host = before_first_chars(a3.as_slice(), ':');
    let official = chars_of("api.openai.com");
    crate::text::chars_eq(host.as_slice(), official.as_slice())
}

/// `w` occurs in `name` as a whole word: bounded by the ends of `name` or by
/// characters that are not ASCII alphanumeric (the words of
/// `name.split(|c| !c.is_ascii_alphanumeric())`).
pub open spec fn has_word(name: Seq<char>, w: Seq<char>) -> bool {
    exists|i: int|
        0 <= i && i + w.len() <= name.len() && #[trigger] name.subrange(i, i + w.len()) == w && (i
            == 0 || !is_ascii_alnum(name[i - 1])) && (i + w.len() == name.len() || !is_ascii_alnum(
            name[i + w.len()],
        ))
}

fn word_at(name: &[char], w: &[char], i: usize) -> (r: bool)
    requires
        i + w.len() <= name.len(),
    ensures
        r == (name@.subrange(i as int, i + w.len()) == w@ && (i == 0 || !is_ascii_alnum(
            name@[i - 1],
        )) && (i + w.len() == name.len() || !is_ascii_alnum(name@[i + w.len()]))),
{
    if i > 0 && char_is_ascii_alnum(name[i - 1]) {
        return false;
    }
    if i + w.len() < name.len() && char_is_ascii_alnum(name[i + w.len()]) {
        return false;
    }
    let m = crate::text::matches_at(name, w, i);
    assert(name@.skip(i as int).take(w.len() as int) =~= name@.subrange(i as int, i + w.len()));
    m
}

fn contains_word(name: &[char], word: &str) -> (r: bool)
    ensures
        r == has_word(name@, word@),
{
    let w = chars_of(word);
    if w.len() > name.len() {
        return false;
    }
    let limit = name.len() - w.len();
    let mut i: usize = 0;
    loop
        invariant
            w@ == word@,
            limit == name.len() - w.len(),
            i <= limit,
            forall|k: int|
                0 <= k < i ==> !(#[trigger] name@.subrange(k, k + w.len()) == w@ && (k == 0
                    || !is_ascii_alnum(name@[k - 1])) && (k + w.len() == name.len()
                    || !is_ascii_alnum(name@[k + w.len()]))),
        decreases limit - i,
    {
        if word_at(name, w.as_slice(), i) {
            return true;
        }
        if i == limit {
            return false;
        }
        i = i + 1;
    }
}

/// The model name the reasoning check looks at: lowercased, after the last
/// `/` (a vendor prefix) and before the first `:` (a tag).
pub open spec fn model_base_name(model: Seq<char>) -> Seq<char> {
    before_first(after_last(lowercase(model), '/'), ':')
}

/// Whether a model is a reasoning model: its base name starts with `o1`,
/// `o3`, `o4` or `gpt-5`, or has the whole word `r1`, `reasoner`,
/// `reasoning`, `thinking` or `qwq`.
pub open spec fn reasoning_spec(model: Seq<char>) -> bool {
    let name = model_base_name(model);
    ||| starts_with(name, "o1"@)
    ||| starts_with(name, "o3"@)
    ||| starts_with(name, "o4"@)
    ||| starts_with(name, "gpt-5"@)
    ||| has_word(name, "r1"@)
    ||| has_word(name, "reasoner"@)
    ||| has_word(name, "reasoning"@)
    ||| has_word(name, "thinking"@)
    ||| has_word(name, "qwq"@)
}

/// Whether a model is a reasoning model (see `reasoning_spec`).
pub fn is_reasoning_model(model: &str) -> (r: bool)
    ensures
        r == reasoning_spec(model@),
{
    let lowered = to_lowercase(model);
    let l = chars_of(lowered.as_str());
    let after = after_last_chars(l.as_slice(), '/');
    let name = before_first_chars(after.as_slice(), ':');
    let n = name.as_slice();
    chars_start_with(n, chars_of("o1").as_slice()) || chars_start_with(n, chars_of("o3").as_slice())
        || chars_start_with(n, chars_of("o4").as_slice()) || chars_start_with(
        n,
        chars_of("gpt-5").as_slice(),
    ) || contains_word(n, "r1") || contains_word(n, "reasoner") || contains_word(n, "reasoning")
        || contains_word(n, "thinking") || contains_word(n, "qwq")
}

} // verus!

verus! {

// ---------- errors and small text rules ----------

/// `CODE:message`.
pub fn err(code: &str, msg: &str) -> (r: String)
    ensures
        r@ == code@ + ":"@ + msg@,
{
    let head = concat_str(code, ":");
    concat_str(head.as_str(), msg)
}

/// The first `n` characters of `s` (all of it when shorter).
pub fn truncate(s: &str, n: usize) -> (r: String)
    ensures
        r@ == s@.take(if n < s@.len() { n as int } else { s@.len() as int }),
{
    let c = chars_of(s);
    let k = if n < c.len() { n } else { c.len() };
    let t = chars_range(c.as_slice(), 0, k);
    string_of(t.as_slice())
}

/// `None` for an empty string, the string itself otherwise.
pub fn non_empty(s: String) -> (r: Option<String>)
    ensures
        s@.len() == 0 ==> r is None,
        s@.len() > 0 ==> r == Some(s),
{
    if s.as_str().unicode_len() == 0 {
        None
    } else {
        Some(s)
    }
}

} // verus!

verus! {

/// The error code for a failed HTTP status: 401/403 UNAUTHORIZED, 429
/// RATE_LIMITED, 5xx SERVER, anything else BAD_REQUEST.
pub open spec fn status_code_name(status: u16) -> Seq<char> {
    if status == 401 || status == 403 {
        "UNAUTHORIZED"@
    } else if status == 429 {
        "RATE_LIMITED"@
    } else if 500 <= status && status <= 599 {
        "SERVER"@
    } else {
        "BAD_REQUEST"@
    }
}

/// Classifies a failed HTTP status into an error code.
pub fn status_error_code(status: u16) -> (r: &'static str)
    ensures
        r@ == status_code_name(status),
{
    if status == 401 || status == 403 {
        "UNAUTHORIZED"
    } else if status == 429 {
        "RATE_LIMITED"
    } else if 500 <= status && status <= 599 {
        "SERVER"
    } else {
        "BAD_REQUEST"
    }
}

/// OpenAI `reasoning_effort` for a thinking level: low, medium and high
/// pass through, max becomes `xhigh`; default (or none) sends nothing.
pub open spec fn effort_spec(level: Option<Seq<char>>) -> Option<Seq<char>> {
    match level {
        Some(l) => if l == "low"@ {
            Some("low"@)
        } else if l == "medium"@ {
            Some("medium"@)
        } else if l == "high"@ {
            Some("high"@)
        } else if l == "max"@ {
            Some("xhigh"@)
        } else {
            None
        },
        None => None,
    }
}

pub fn reasoning_effort(level: Option<&str>) -> (r: Option<&'static str>)
    ensures
        match r {
            Some(e) => effort_spec(
                match level {
                    Some(l) => Some(l@),
                    None => None,
                },
            ) == Some(e@),
            None => effort_spec(
                match level {
                    Some(l) => Some(l@),
                    None => None,
                },
            ) is None,
        },
{
    match level {
        Some(l) => {
            if crate::text::str_eq(l, "low") {
                Some("low")
            } else if crate::text::str_eq(l, "medium") {
                Some("medium")
            } else if crate::text::str_eq(l, "high") {
                Some("high")
            } else if crate::text::str_eq(l, "max") {
                Some("xhigh")
            } else {
                None
            }
        },
        None => None,
    }
}

/// Anthropic extended-thinking budget for a thinking level: 4096, 10240,
/// 20480 and 32768 tokens for low, medium, high and max.
pub open spec fn budget_spec(level: Option<Seq<char>>) -> Option<i64> {
    match level {
        Some(l) => if l == "low"@ {
            Some(4096)
        } else if l == "medium"@ {
            Some(10240)
        } else if l == "high"@ {
            Some(20480)
        } else if l == "max"@ {
            Some(32768)
        } else {
            None
        },
        None => None,
    }
}

pub fn anthropic_thinking_budget(level: Option<&str>) -> (r: Option<i64>)
    ensures
        r == budget_spec(
            match level {
                Some(l) => Some(l@),
                None => None,
            },
        ),
{
    match level {
        Some(l) => {
            if crate::text::str_eq(l, "low") {
                Some(4096)
            } else if crate::text::str_eq(l, "medium") {
                Some(10240)
            } else if crate::text::str_eq(l, "high") {
                Some(20480)
            } else if crate::text::str_eq(l, "max") {
                Some(32768)
            } else {
                None
            }
        },
        None => None,
    }
}

/// Anthropic `max_tokens`: the requested limit or 4096; with thinking on it
/// must exceed the budget, so it is at least budget + 1024 (budget + 4096
/// when nothing was requested).
pub open spec fn anthropic_max_tokens_spec(requested: Option<i64>, budget: Option<i64>) -> int {
    match budget {
        None => match requested {
            Some(m) => m as int,
            None => 4096,
        },
        Some(b) => match requested {
            None => b + 4096,
            Some(m) => if m >= b + 1024 {
                m as int
            } else {
                b + 1024
            },
        },
    }
}

pub fn anthropic_max_tokens(requested: Option<i64>, budget: Option<i64>) -> (r: i64)
    requires
        budget matches Some(b) ==> 0 <= b <= 32768,
    ensures
        r == anthropic_max_tokens_spec(requested, budget),
{
    match budget {
        None => match requested {
            Some(m) => m,
            None => 4096,
        },
        Some(b) => match requested {
            None => b + 4096,
            Some(m) => if m >= b + 1024 {
                m
            } else {
                b + 1024
            },
        },
    }
}

/// How a chat-completions request is shaped for an endpoint and model.
#[derive(Clone, Copy, Debug, PartialEq, Eq, Structural)]
pub struct OpenAiShape {
    /// OpenAI's own reasoning models: `developer` role, no temperature or
    /// top_p, `max_completion_tokens`.
    pub reasoning: bool,
}

impl OpenAiShape {
    /// Role of the system prompt.
    pub fn system_role(&self) -> (r: &'static str)
        ensures
            r@ == (if self.reasoning { "developer"@ } else { "system"@ }),
    {
        if self.reasoning { "developer" } else { "system" }
    }

    /// Key under which the token limit is sent.
    pub fn max_tokens_key(&self) -> (r: &'static str)
        ensures
            r@ == (if self.reasoning { "max_completion_tokens"@ } else { "max_tokens"@ }),
    {
        if self.reasoning { "max_completion_tokens" } else { "max_tokens" }
    }

    /// Whether temperature and top_p are sent.
    pub fn sends_sampling(&self) -> (r: bool)
        ensures
            r == !self.reasoning,
    {
        !self.reasoning
    }
}

/// The request shape: the reasoning form only for OpenAI's official endpoint
/// and a reasoning model; every other endpoint keeps system + max_tokens.
pub fn openai_shape(base_url: &str, model_id: &str) -> (r: OpenAiShape)
    ensures
        r.reasoning == (host_spec(base_url@) == "api.openai.com"@ && reasoning_spec(model_id@)),
{
    OpenAiShape { reasoning: is_openai_official(base_url) && is_reasoning_model(model_id) }
}

/// No text, no reasoning text and no tool call.
pub open spec fn empty_answer(content: Seq<char>, reasoning: Option<String>, calls: Seq<ToolCall>) -> bool {
    &&& content.len() == 0
    &&& (reasoning matches Some(t) ==> t@.len() == 0)
    &&& calls.len() == 0
}

/// The final answer of one call, or `EMPTY` when it holds no text, no
/// reasoning and no tool call (an empty answer is a failover trigger).
pub fn finish_response(
    content: String,
    reasoning: Option<String>,
    usage: Option<TokenUsage>,
    tool_calls: Vec<ToolCall>,
    latency_ms: u64,
    provider_name: String,
) -> (r: Result<ChatResponse, String>)
    ensures
        empty_answer(content@, reasoning, tool_calls@) <==> r is Err,
        r matches Err(m) ==> m@ == "EMPTY"@ + ":"@ + "模型返回空响应"@,
        r matches Ok(resp) ==> {
            &&& resp.content == content
            &&& resp.reasoning == reasoning
            &&& resp.usage == usage
            &&& resp.latency_ms == latency_ms
            &&& resp.provider_used == provider_name
            &&& (tool_calls@.len() == 0 ==> resp.tool_calls is None)
            &&& (tool_calls@.len() > 0 ==> resp.tool_calls == Some(tool_calls))
            &&& resp.tool_results is None
        },
{
    let reasoning_empty = match &reasoning {
        Some(t) => t.as_str().is_empty(),
        None => true,
    };
    if content.as_str().is_empty() && reasoning_empty && tool_calls.len() == 0 {
        return Err(err("EMPTY", "模型返回空响应"));
    }
    let calls = if tool_calls.len() == 0 {
        None
    } else {
        Some(tool_calls)
    };
    Ok(ChatResponse { content, reasoning, tool_calls: calls, tool_results: None, usage, latency_ms, provider_used: provider_name })
}

} // verus!

verus! {

pub open spec fn prefix_of(s: Seq<char>, n: int) -> Seq<char> {
    s.take(if n < s.len() {
        n
    } else {
        s.len() as int
    })
}

/// The error of a call the server refused: by status, with the status line
/// (`status_text`, e.g. `404 Not Found`) and the start of the body.
pub open spec fn classify_status_spec(code: u16, status_text: Seq<char>, body: Seq<char>) -> Seq<char> {
    if code == 401 || code == 403 {
        "UNAUTHORIZED"@ + ":"@ + ("HTTP "@ + status_text + "：API Key 无效或权限不足"@)
    } else if code == 429 {
        "RATE_LIMITED"@ + ":"@ + ("HTTP 429：请求过于频繁 "@ + prefix_of(body, 200))
    } else if 500 <= code && code <= 599 {
        "SERVER"@ + ":"@ + ("HTTP "@ + status_text + "：服务器错误 "@ + prefix_of(body, 200))
    } else {
        "BAD_REQUEST"@ + ":"@ + ("HTTP "@ + status_text + ": "@ + prefix_of(body, 300))
    }
}

/// The error for a refused call (see `classify_status_spec`).
pub fn classify_status(code: u16, status_text: &str, body: &str) -> (r: String)
    ensures
        r@ == classify_status_spec(code, status_text@, body@),
{
    if code == 401 || code == 403 {
        let a = concat_str("HTTP ", status_text);
        let m = concat_str(a.as_str(), "：API Key 无效或权限不足");
        err("UNAUTHORIZED", m.as_str())
    } else if code == 429 {
        let m = concat_str("HTTP 429：请求过于频繁 ", truncate(body, 200).as_str());
        err("RATE_LIMITED", m.as_str())
    } else if 500 <= code && code <= 599 {
        let a = concat_str("HTTP ", status_text);
        let b = concat_str(a.as_str(), "：服务器错误 ");
        let m = concat_str(b.as_str(), truncate(body, 200).as_str());
        err("SERVER", m.as_str())
    } else {
        let a = concat_str("HTTP ", status_text);
        let b = concat_str(a.as_str(), ": ");
        let m = concat_str(b.as_str(), truncate(body, 300).as_str());
        err("BAD_REQUEST", m.as_str())
    }
}

/// Every provider but a local Ollama needs a stored key before a call.
pub open spec fn key_check_spec(kind: crate::models::ProviderType, has_key: bool, name: Seq<char>) -> Result<(), Seq<char>> {
    if kind != crate::models::ProviderType::Ollama && !has_key {
        Err("UNAUTHORIZED:供应商「"@ + name + "」未配置 API Key"@)
    } else {
        Ok(())
    }
}

/// Refuses a call to a provider without a key (see `key_check_spec`), so
/// that no request that must fail with 401 is sent.
pub fn require_api_key(kind: crate::models::ProviderType, has_key: bool, name: &str) -> (r: Result<(), String>)
    ensures
        match r {
            Ok(()) => key_check_spec(kind, has_key, name@) == Ok::<(), Seq<char>>(()),
            Err(e) => key_check_spec(kind, has_key, name@) == Err::<(), Seq<char>>(e@),
        },
{
    if kind != crate::models::ProviderType::Ollama && !has_key {
        let a = concat_str("UNAUTHORIZED:供应商「", name);
        return Err(concat_str(a.as_str(), "」未配置 API Key"));
    }
    Ok(())
}

} // verus!

verus! {

// ---------- request context ----------

/// What a request to one provider carries: the provider, its API key, the
/// stop flag the user can raise while the answer streams, and the global
/// proxy (a provider's own proxy wins over it).
pub struct LlmContext {
    pub provider: Provider,
    pub api_key: Option<String>,
    pub abort: Arc<AtomicBool>,
    pub global_proxy: Option<GlobalProxy>,
}

impl LlmContext {
    /// A context for requests to `provider`, with a stop flag of its own
    /// that is not raised.
    pub fn new(provider: Provider, api_key: Option<String>, global_proxy: Option<GlobalProxy>) -> (r: Self)
        ensures
            r.provider == provider,
            r.api_key == api_key,
            r.global_proxy == global_proxy,
    {
        LlmContext { provider, api_key, abort: Arc::new(AtomicBool::new(false)), global_proxy }
    }

    /// Whether the user has stopped the answer. The flag is shared with the
    /// threads that can raise it, so nothing is known of the result here.
    pub fn is_aborted(&self) -> bool {
        self.abort.load(Ordering::Relaxed)
    }

    /// The proxy the provider's requests go through (see
    /// `resolve_proxy_spec`).
    pub fn proxy(&self) -> (r: (&'static str, Option<String>))
        ensures
            (r.0@, match r.1 {
                Some(u) => Some(u@),
                None => None::<Seq<char>>,
            }) == resolve_proxy_spec(self.provider, self.global_proxy),
    {
        resolve_proxy(&self.provider, self.global_proxy.as_ref())
    }

    /// The request timeout in seconds: the provider's, at least 1.
    pub fn timeout_secs(&self) -> (r: u64)
        ensures
            r == (if self.provider.timeout < 1 {
                1
            } else {
                self.provider.timeout
            }),
    {
        if self.provider.timeout < 1 {
            1
        } else {
            self.provider.timeout as u64
        }
    }
}

} // verus!
