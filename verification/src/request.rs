//! Request bodies for the three API families: OpenAI chat completions (and
//! the compatible endpoints), Anthropic messages and the OpenAI Response
//! API. Internally every conversation is in the OpenAI chat format; the
//! Anthropic body is converted here.

use vstd::prelude::*;
use crate::agent::ToolDef;
use crate::json::{as_str, field, get, json_of_text, parse_json, text, Json, JsonNumber};
use crate::models::{ChatMessage, ChatRequest};
use crate::skills::{opt_view, seq_or};
use crate::text::{chars_of, concat_str, is_blank, owned, string_of, trim_spec};

verus! {

// ---------- describing objects ----------

/// An expected member: its name and what its value must be.
pub type Expect = (Seq<char>, spec_fn(Json) -> bool);

/// The members, in order, are the expected ones.
pub open spec fn members_match(ms: Seq<(String, Json)>, exp: Seq<Expect>) -> bool {
    &&& ms.len() == exp.len()
    &&& forall|i: int| 0 <= i < ms.len() ==> (#[trigger] ms[i]).0@ == exp[i].0 && (exp[i].1)(ms[i].1)
}

pub open spec fn is_obj(exp: Seq<Expect>) -> spec_fn(Json) -> bool {
    |j: Json| j matches Json::Object(ms) && members_match(ms@, exp)
}

pub open spec fn items_match(xs: Seq<Json>, preds: Seq<spec_fn(Json) -> bool>) -> bool {
    &&& xs.len() == preds.len()
    &&& forall|i: int| 0 <= i < xs.len() ==> (preds[i])(#[trigger] xs[i])
}

pub open spec fn is_arr(preds: Seq<spec_fn(Json) -> bool>) -> spec_fn(Json) -> bool {
    |j: Json| j matches Json::Array(xs) && items_match(xs@, preds)
}

pub open spec fn is_text(s: Seq<char>) -> spec_fn(Json) -> bool {
    |j: Json| j matches Json::Str(t) && t@ == s
}

pub open spec fn is_value(v: Json) -> spec_fn(Json) -> bool {
    |j: Json| j == v
}

/// A JSON integer with its decimal text.
pub open spec fn is_int(i: int) -> spec_fn(Json) -> bool {
    |j: Json|
        j matches Json::Number(n) && n.int == Some(i as i64) && n.repr@ == crate::text::signed_decimal(i)
            && n.uint == (if i >= 0 {
            Some(i as u64)
        } else {
            None
        })
}

pub open spec fn opt_member(present: bool, e: Expect) -> Seq<Expect> {
    if present {
        seq![e]
    } else {
        Seq::empty()
    }
}

pub proof fn lemma_push_member(ms: Seq<(String, Json)>, exp: Seq<Expect>, m: (String, Json), e: Expect)
    requires
        members_match(ms, exp),
        m.0@ == e.0,
        (e.1)(m.1),
    ensures
        members_match(ms.push(m), exp.push(e)),
{
    assert forall|i: int| 0 <= i < ms.push(m).len() implies (#[trigger] ms.push(m)[i]).0@ == exp.push(e)[i].0 && (exp.push(e)[i].1)(ms.push(m)[i].1) by {
        if i < ms.len() {
            assert(ms.push(m)[i] == ms[i]);
        }
    }
}

pub proof fn lemma_push_item(xs: Seq<Json>, preds: Seq<spec_fn(Json) -> bool>, x: Json, p: spec_fn(Json) -> bool)
    requires
        items_match(xs, preds),
        p(x),
    ensures
        items_match(xs.push(x), preds.push(p)),
{
    assert forall|i: int| 0 <= i < xs.push(x).len() implies (preds.push(p)[i])(#[trigger] xs.push(x)[i]) by {
        if i < xs.len() {
            assert(xs.push(x)[i] == xs[i]);
        }
    }
}

/// Appends a member to an object under construction.
pub(crate) fn put(ms: &mut Vec<(String, Json)>, key: &str, value: Json, Ghost(exp): Ghost<Seq<Expect>>, Ghost(e): Ghost<Expect>)
    requires
        members_match(old(ms)@, exp),
        key@ == e.0,
        (e.1)(value),
    ensures
        members_match(final(ms)@, exp.push(e)),
{
    let ghost before = ms@;
    ms.push((owned(key), value));
    proof {
        lemma_push_member(before, exp, ms@.last(), e);
        assert(ms@ == before.push(ms@.last()));
    }
}

pub(crate) fn str_json(s: &str) -> (r: Json)
    ensures
        (is_text(s@))(r),
{
    Json::Str(owned(s))
}

/// An integer as a JSON number.
pub fn int_json(i: i64) -> (r: Json)
    ensures
        (is_int(i as int))(r),
{
    let uint = if i >= 0 {
        Some(i as u64)
    } else {
        None
    };
    Json::Number(JsonNumber { int: Some(i), uint, repr: crate::text::i64_to_string(i) })
}

// ---------- shared pieces ----------

/// The system prompt goes first when it is not blank.
pub open spec fn shown_system(system: Option<String>) -> Option<Seq<char>> {
    match system {
        Some(s) => if !is_blank(s@) {
            Some(s@)
        } else {
            None
        },
        None => None,
    }
}

/// A chat-format message: role and content, with its tool calls and the
/// call it answers where it has them.
pub open spec fn chat_msg_exp(m: ChatMessage, role: Seq<char>) -> Seq<Expect> {
    seq![("role"@, is_text(role)), ("content"@, is_text(m.content@))] + match m.tool_calls {
        Some(tc) => seq![("tool_calls"@, is_value(tc))],
        None => Seq::empty(),
    } + match m.tool_call_id {
        Some(id) => seq![("tool_call_id"@, is_text(id@))],
        None => Seq::empty(),
    }
}

/// The role a message is sent with: `developer` in place of `system` for
/// OpenAI's reasoning models.
pub open spec fn sent_role(m: ChatMessage, developer: bool) -> Seq<char> {
    if developer && m.role@ == "system"@ {
        "developer"@
    } else {
        m.role@
    }
}

pub open spec fn chat_msgs_preds(system: Option<String>, system_role: Seq<char>, ms: Seq<ChatMessage>, developer: bool) -> Seq<spec_fn(Json) -> bool> {
    (match shown_system(system) {
        Some(s) => seq![is_obj(seq![("role"@, is_text(system_role)), ("content"@, is_text(s))])],
        None => Seq::empty(),
    }) + ms.map_values(|m: ChatMessage| is_obj(chat_msg_exp(m, sent_role(m, developer))))
}

pub open spec fn tool_calls_exp(m: ChatMessage) -> Seq<Expect> {
    match m.tool_calls {
        Some(tc) => seq![("tool_calls"@, is_value(tc))],
        None => Seq::empty(),
    }
}

pub open spec fn call_id_exp(m: ChatMessage) -> Seq<Expect> {
    match m.tool_call_id {
        Some(id) => seq![("tool_call_id"@, is_text(id@))],
        None => Seq::empty(),
    }
}

fn chat_msg_json(m: ChatMessage, developer: bool) -> (r: Json)
    ensures
        (is_obj(chat_msg_exp(m, sent_role(m, developer))))(r),
{
    let ghost gm = m;
    let role = if developer && crate::text::str_eq(m.role.as_str(), "system") {
        owned("developer")
    } else {
        owned(m.role.as_str())
    };
    let mut ms: Vec<(String, Json)> = Vec::new();
    let ghost exp: Seq<Expect> = Seq::empty();
    put(&mut ms, "role", str_json(role.as_str()), Ghost(exp), Ghost(("role"@, is_text(sent_role(gm, developer)))));
    let ghost exp = exp.push(("role"@, is_text(sent_role(gm, developer))));
    put(&mut ms, "content", str_json(m.content.as_str()), Ghost(exp), Ghost(("content"@, is_text(gm.content@))));
    let ghost exp = exp.push(("content"@, is_text(gm.content@)));
    let id = m.tool_call_id;
    match m.tool_calls {
        Some(tc) => {
            put(&mut ms, "tool_calls", tc, Ghost(exp), Ghost(("tool_calls"@, is_value(tc))));
            assert(exp.push(("tool_calls"@, is_value(tc))) =~= exp + tool_calls_exp(gm));
        },
        None => {
            assert(exp =~= exp + tool_calls_exp(gm));
        },
    }
    let ghost exp = exp + tool_calls_exp(gm);
    match &id {
        Some(i) => {
            put(&mut ms, "tool_call_id", str_json(i.as_str()), Ghost(exp), Ghost(("tool_call_id"@, is_text(i@))));
            assert(exp.push(("tool_call_id"@, is_text(i@))) =~= exp + call_id_exp(gm));
        },
        None => {
            assert(exp =~= exp + call_id_exp(gm));
        },
    }
    assert(exp + call_id_exp(gm) =~= chat_msg_exp(gm, sent_role(gm, developer)));
    Json::Object(ms)
}

fn chat_messages_json(system: &Option<String>, system_role: &str, messages: Vec<ChatMessage>, developer: bool) -> (r: Json)
    ensures
        (is_arr(chat_msgs_preds(*system, system_role@, messages@, developer)))(r),
{
    let ghost all = messages@;
    let mut xs: Vec<Json> = Vec::new();
    let ghost mut preds: Seq<spec_fn(Json) -> bool> = Seq::empty();
    match system {
        Some(s) => {
            let sc = chars_of(s.as_str());
            if !crate::text::chars_blank(sc.as_slice()) {
                let mut ms: Vec<(String, Json)> = Vec::new();
                let ghost exp: Seq<Expect> = Seq::empty();
                put(&mut ms, "role", str_json(system_role), Ghost(exp), Ghost(("role"@, is_text(system_role@))));
                let ghost exp = exp.push(("role"@, is_text(system_role@)));
                put(&mut ms, "content", str_json(s.as_str()), Ghost(exp), Ghost(("content"@, is_text(s@))));
                let ghost exp = exp.push(("content"@, is_text(s@)));
                assert(exp =~= seq![("role"@, is_text(system_role@)), ("content"@, is_text(s@))]);
                let ghost p = is_obj(exp);
                proof {
                    lemma_push_item(xs@, preds, Json::Object(ms), p);
                }
                xs.push(Json::Object(ms));
                proof {
                    preds = preds.push(p);
                }
            }
        },
        None => {},
    }
    let ghost head = preds;
    assert(head == match shown_system(*system) {
        Some(s) => seq![is_obj(seq![("role"@, is_text(system_role@)), ("content"@, is_text(s))])],
        None => Seq::<spec_fn(Json) -> bool>::empty(),
    });
    let mut rest = messages;
    let mut i: usize = 0;
    assert(all.len() == rest.len());
    assert(rest@ == all.skip(0));
    assert(head + all.take(0).map_values(|m: ChatMessage| is_obj(chat_msg_exp(m, sent_role(m, developer)))) =~= head);
    while rest.len() > 0
        invariant
            i + rest.len() == all.len(),
            all.len() <= usize::MAX,
            rest@ == all.skip(i as int),
            items_match(xs@, head + all.take(i as int).map_values(|m: ChatMessage| is_obj(chat_msg_exp(m, sent_role(m, developer))))),
        decreases rest.len(),
    {
        let ghost before_rest = rest@;
        let m = rest.remove(0);
        assert(m == all[i as int]);
        assert(rest@ =~= all.skip(i + 1));
        let ghost p = is_obj(chat_msg_exp(m, sent_role(m, developer)));
        let x = chat_msg_json(m, developer);
        let ghost pre = head + all.take(i as int).map_values(|m: ChatMessage| is_obj(chat_msg_exp(m, sent_role(m, developer))));
        proof {
            lemma_push_item(xs@, pre, x, p);
            assert(pre.push(p) =~= head + all.take(i + 1).map_values(|m: ChatMessage| is_obj(chat_msg_exp(m, sent_role(m, developer)))));
        }
        xs.push(x);
        i = i + 1;
    }
    assert(all.take(all.len() as int) == all);
    Json::Array(xs)
}

} // verus!

verus! {

// ---------- tools ----------

pub open spec fn openai_tool_pred(t: ToolDef) -> spec_fn(Json) -> bool {
    is_obj(
        seq![
            ("type"@, is_text("function"@)),
            (
                "function"@,
                is_obj(
                    seq![
                        ("name"@, is_text(t.name@)),
                        ("description"@, is_text(t.description@)),
                        ("parameters"@, is_value(t.parameters)),
                    ],
                ),
            ),
        ],
    )
}

pub open spec fn anthropic_tool_pred(t: ToolDef) -> spec_fn(Json) -> bool {
    is_obj(
        seq![
            ("name"@, is_text(t.name@)),
            ("description"@, is_text(t.description@)),
            ("input_schema"@, is_value(t.parameters)),
        ],
    )
}

pub open spec fn response_tool_pred(t: ToolDef) -> spec_fn(Json) -> bool {
    is_obj(
        seq![
            ("type"@, is_text("function"@)),
            ("name"@, is_text(t.name@)),
            ("description"@, is_text(t.description@)),
            ("parameters"@, is_value(t.parameters)),
        ],
    )
}

/// The three tool formats.
pub enum ToolFormat {
    OpenAi,
    Anthropic,
    Response,
}

pub open spec fn tool_pred(f: ToolFormat, t: ToolDef) -> spec_fn(Json) -> bool {
    match f {
        ToolFormat::OpenAi => openai_tool_pred(t),
        ToolFormat::Anthropic => anthropic_tool_pred(t),
        ToolFormat::Response => response_tool_pred(t),
    }
}

fn tool_json(f: &ToolFormat, t: ToolDef) -> (r: Json)
    ensures
        (tool_pred(*f, t))(r),
{
    let ghost gt = t;
    let mut ms: Vec<(String, Json)> = Vec::new();
    let ghost e0: Seq<Expect> = Seq::empty();
    match f {
        ToolFormat::OpenAi => {
            let mut inner: Vec<(String, Json)> = Vec::new();
            put(&mut inner, "name", str_json(t.name.as_str()), Ghost(e0), Ghost(("name"@, is_text(gt.name@))));
            let ghost e1 = e0.push(("name"@, is_text(gt.name@)));
            put(&mut inner, "description", str_json(t.description.as_str()), Ghost(e1), Ghost(("description"@, is_text(gt.description@))));
            let ghost e2 = e1.push(("description"@, is_text(gt.description@)));
            put(&mut inner, "parameters", t.parameters, Ghost(e2), Ghost(("parameters"@, is_value(gt.parameters))));
            let ghost e3 = e2.push(("parameters"@, is_value(gt.parameters)));
            assert(e3 =~= seq![("name"@, is_text(gt.name@)), ("description"@, is_text(gt.description@)), ("parameters"@, is_value(gt.parameters))]);
            put(&mut ms, "type", str_json("function"), Ghost(e0), Ghost(("type"@, is_text("function"@))));
            let ghost o1 = e0.push(("type"@, is_text("function"@)));
            put(&mut ms, "function", Json::Object(inner), Ghost(o1), Ghost(("function"@, is_obj(e3))));
            let ghost o2 = o1.push(("function"@, is_obj(e3)));
            assert(o2 =~= seq![("type"@, is_text("function"@)), ("function"@, is_obj(e3))]);
        },
        ToolFormat::Anthropic => {
            put(&mut ms, "name", str_json(t.name.as_str()), Ghost(e0), Ghost(("name"@, is_text(gt.name@))));
            let ghost e1 = e0.push(("name"@, is_text(gt.name@)));
            put(&mut ms, "description", str_json(t.description.as_str()), Ghost(e1), Ghost(("description"@, is_text(gt.description@))));
            let ghost e2 = e1.push(("description"@, is_text(gt.description@)));
            put(&mut ms, "input_schema", t.parameters, Ghost(e2), Ghost(("input_schema"@, is_value(gt.parameters))));
            let ghost e3 = e2.push(("input_schema"@, is_value(gt.parameters)));
            assert(e3 =~= seq![("name"@, is_text(gt.name@)), ("description"@, is_text(gt.description@)), ("input_schema"@, is_value(gt.parameters))]);
        },
        ToolFormat::Response => {
            put(&mut ms, "type", str_json("function"), Ghost(e0), Ghost(("type"@, is_text("function"@))));
            let ghost e1 = e0.push(("type"@, is_text("function"@)));
            put(&mut ms, "name", str_json(t.name.as_str()), Ghost(e1), Ghost(("name"@, is_text(gt.name@))));
            let ghost e2 = e1.push(("name"@, is_text(gt.name@)));
            put(&mut ms, "description", str_json(t.description.as_str()), Ghost(e2), Ghost(("description"@, is_text(gt.description@))));
            let ghost e3 = e2.push(("description"@, is_text(gt.description@)));
            put(&mut ms, "parameters", t.parameters, Ghost(e3), Ghost(("parameters"@, is_value(gt.parameters))));
            let ghost e4 = e3.push(("parameters"@, is_value(gt.parameters)));
            assert(e4 =~= seq![("type"@, is_text("function"@)), ("name"@, is_text(gt.name@)), ("description"@, is_text(gt.description@)), ("parameters"@, is_value(gt.parameters))]);
        },
    }
    Json::Object(ms)
}

pub open spec fn tools_preds(f: ToolFormat, ts: Seq<ToolDef>) -> Seq<spec_fn(Json) -> bool> {
    ts.map_values(|t: ToolDef| tool_pred(f, t))
}

fn tools_json(f: &ToolFormat, tools: Vec<ToolDef>) -> (r: Json)
    ensures
        (is_arr(tools_preds(*f, tools@)))(r),
{
    let ghost all = tools@;
    let mut xs: Vec<Json> = Vec::new();
    let mut rest = tools;
    let mut i: usize = 0;
    assert(all.len() == rest.len());
    assert(rest@ == all.skip(0));
    assert(tools_preds(*f, all.take(0)) =~= Seq::<spec_fn(Json) -> bool>::empty());
    while rest.len() > 0
        invariant
            i + rest.len() == all.len(),
            all.len() <= usize::MAX,
            rest@ == all.skip(i as int),
            items_match(xs@, tools_preds(*f, all.take(i as int))),
        decreases rest.len(),
    {
        let t = rest.remove(0);
        assert(t == all[i as int]);
        assert(rest@ =~= all.skip(i + 1));
        let ghost p = tool_pred(*f, t);
        let x = tool_json(f, t);
        proof {
            lemma_push_item(xs@, tools_preds(*f, all.take(i as int)), x, p);
            assert(tools_preds(*f, all.take(i as int)).push(p) =~= tools_preds(*f, all.take(i + 1)));
        }
        xs.push(x);
        i = i + 1;
    }
    assert(all.take(all.len() as int) == all);
    Json::Array(xs)
}

// ---------- OpenAI chat completions ----------

pub open spec fn opt_level(o: Option<String>) -> Option<Seq<char>> {
    opt_view(o)
}

/// The body of an OpenAI-compatible chat request. `developer` selects the
/// form OpenAI's own reasoning models take: `developer` role, no sampling
/// parameters, `max_completion_tokens`.
pub open spec fn openai_body_exp(req: ChatRequest, developer: bool) -> Seq<Expect> {
    let effort = crate::llm::effort_spec(opt_level(req.thinking_level));
    seq![
        ("model"@, is_text(req.model_id@)),
        (
            "messages"@,
            is_arr(
                chat_msgs_preds(
                    req.system,
                    if developer {
                        "developer"@
                    } else {
                        "system"@
                    },
                    req.messages@,
                    developer,
                ),
            ),
        ),
        ("stream"@, is_value(Json::Bool(req.stream))),
    ] + opt_member(!developer && req.temperature is Some, ("temperature"@, is_value(req.temperature->0)))
        + opt_member(!developer && req.top_p is Some, ("top_p"@, is_value(req.top_p->0))) + opt_member(
        req.max_tokens is Some,
        (
            if developer {
                "max_completion_tokens"@
            } else {
                "max_tokens"@
            },
            is_int(req.max_tokens->0 as int),
        ),
    ) + opt_member(effort is Some, ("reasoning_effort"@, is_text(effort->0))) + opt_member(
        req.tools is Some,
        ("tools"@, is_arr(tools_preds(ToolFormat::OpenAi, req.tools->0@))),
    ) + opt_member(
        req.stream,
        ("stream_options"@, is_obj(seq![("include_usage"@, is_value(Json::Bool(true)))])),
    )
}

fn push_opt(ms: &mut Vec<(String, Json)>, key: &str, value: Option<Json>, Ghost(exp): Ghost<Seq<Expect>>, Ghost(e): Ghost<Expect>, Ghost(cond): Ghost<bool>)
    requires
        members_match(old(ms)@, exp),
        key@ == e.0,
        cond == value is Some,
        value matches Some(v) ==> (e.1)(v),
    ensures
        members_match(final(ms)@, exp + opt_member(cond, e)),
{
    match value {
        Some(v) => {
            put(ms, key, v, Ghost(exp), Ghost(e));
            assert(exp.push(e) =~= exp + opt_member(cond, e));
        },
        None => {
            assert(exp =~= exp + opt_member(cond, e));
        },
    }
}

/// Builds the body of an OpenAI-compatible chat request (see
/// `openai_body_exp`).
pub fn openai_body(req: ChatRequest, developer: bool) -> (r: Json)
    ensures
        (is_obj(openai_body_exp(req, developer)))(r),
{
    let ghost g = req;
    let effort = crate::llm::reasoning_effort(match &req.thinking_level {
        Some(l) => Some(l.as_str()),
        None => None,
    });
    let role = if developer { "developer" } else { "system" };
    let mut ms: Vec<(String, Json)> = Vec::new();
    let ghost e0: Seq<Expect> = Seq::empty();
    put(&mut ms, "model", str_json(req.model_id.as_str()), Ghost(e0), Ghost(("model"@, is_text(g.model_id@))));
    let ghost e1 = e0.push(("model"@, is_text(g.model_id@)));
    let msgs = chat_messages_json(&req.system, role, req.messages, developer);
    let ghost mp = is_arr(chat_msgs_preds(g.system, role@, g.messages@, developer));
    put(&mut ms, "messages", msgs, Ghost(e1), Ghost(("messages"@, mp)));
    let ghost e2 = e1.push(("messages"@, mp));
    put(&mut ms, "stream", Json::Bool(req.stream), Ghost(e2), Ghost(("stream"@, is_value(Json::Bool(g.stream)))));
    let ghost e3 = e2.push(("stream"@, is_value(Json::Bool(g.stream))));
    let temp = if developer { None } else { req.temperature };
    push_opt(&mut ms, "temperature", temp, Ghost(e3), Ghost(("temperature"@, is_value(g.temperature->0))), Ghost((!developer && g.temperature is Some)));
    let ghost e4 = e3 + opt_member(!developer && g.temperature is Some, ("temperature"@, is_value(g.temperature->0)));
    let top = if developer { None } else { req.top_p };
    push_opt(&mut ms, "top_p", top, Ghost(e4), Ghost(("top_p"@, is_value(g.top_p->0))), Ghost((!developer && g.top_p is Some)));
    let ghost e5 = e4 + opt_member(!developer && g.top_p is Some, ("top_p"@, is_value(g.top_p->0)));
    let key = if developer { "max_completion_tokens" } else { "max_tokens" };
    let mx = match req.max_tokens {
        Some(m) => Some(int_json(m)),
        None => None,
    };
    push_opt(&mut ms, key, mx, Ghost(e5), Ghost((key@, is_int(g.max_tokens->0 as int))), Ghost((g.max_tokens is Some)));
    let ghost e6 = e5 + opt_member(g.max_tokens is Some, (key@, is_int(g.max_tokens->0 as int)));
    let ghost eff = crate::llm::effort_spec(opt_level(g.thinking_level));
    let ej = match effort {
        Some(e) => Some(str_json(e)),
        None => None,
    };
    push_opt(&mut ms, "reasoning_effort", ej, Ghost(e6), Ghost(("reasoning_effort"@, is_text(eff->0))), Ghost((eff is Some)));
    let ghost e7 = e6 + opt_member(eff is Some, ("reasoning_effort"@, is_text(eff->0)));
    let tj = match req.tools {
        Some(ts) => Some(tools_json(&ToolFormat::OpenAi, ts)),
        None => None,
    };
    push_opt(&mut ms, "tools", tj, Ghost(e7), Ghost(("tools"@, is_arr(tools_preds(ToolFormat::OpenAi, g.tools->0@)))), Ghost((g.tools is Some)));
    let ghost e8 = e7 + opt_member(g.tools is Some, ("tools"@, is_arr(tools_preds(ToolFormat::OpenAi, g.tools->0@))));
    let so = if req.stream {
        let mut inner: Vec<(String, Json)> = Vec::new();
        put(&mut inner, "include_usage", Json::Bool(true), Ghost(e0), Ghost(("include_usage"@, is_value(Json::Bool(true)))));
        assert(e0.push(("include_usage"@, is_value(Json::Bool(true)))) =~= seq![("include_usage"@, is_value(Json::Bool(true)))]);
        Some(Json::Object(inner))
    } else {
        None
    };
    push_opt(&mut ms, "stream_options", so, Ghost(e8), Ghost(("stream_options"@, is_obj(seq![("include_usage"@, is_value(Json::Bool(true)))]))), Ghost(g.stream));
    let ghost e9 = e8 + opt_member(g.stream, ("stream_options"@, is_obj(seq![("include_usage"@, is_value(Json::Bool(true)))])));
    assert(e3 =~= seq![("model"@, is_text(g.model_id@)), ("messages"@, mp), ("stream"@, is_value(Json::Bool(g.stream)))]);
    assert(e9 =~= openai_body_exp(g, developer));
    Json::Object(ms)
}

} // verus!

verus! {

// ---------- Anthropic messages ----------

pub open spec fn curly_pair() -> Seq<char> {
    seq!['{', '}']
}

/// A `tool_use` block for an OpenAI-format tool call; its arguments parsed
/// as JSON (`null` when they do not parse).
pub open spec fn tool_use_pred(c: Json) -> spec_fn(Json) -> bool {
    let f = field(Some(c), "function"@);
    is_obj(
        seq![
            ("type"@, is_text("tool_use"@)),
            ("id"@, is_text(crate::stream::text_or_empty(field(Some(c), "id"@)))),
            ("name"@, is_text(crate::stream::text_or_empty(field(f, "name"@)))),
            (
                "input"@,
                is_value(
                    match json_of_text(seq_or(text(field(f, "arguments"@)), curly_pair())) {
                        Some(x) => x,
                        None => Json::Null,
                    },
                ),
            ),
        ],
    )
}

/// The content blocks of an assistant message with tool calls: its text (if
/// any) and a `tool_use` block per call.
pub open spec fn block_preds(m: ChatMessage) -> Seq<spec_fn(Json) -> bool> {
    (if m.content@.len() > 0 {
        seq![is_obj(seq![("type"@, is_text("text"@)), ("text"@, is_text(m.content@))])]
    } else {
        Seq::empty()
    }) + match m.tool_calls {
        Some(Json::Array(cs)) => cs@.map_values(|c: Json| tool_use_pred(c)),
        _ => Seq::empty(),
    }
}

/// One chat-format message in the Anthropic form: system messages move to
/// `system`; assistant tool calls become `tool_use` blocks; tool results
/// become a user `tool_result` block; other roles than user and assistant
/// are left out.
pub open spec fn anthropic_msg_pred(m: ChatMessage) -> Option<spec_fn(Json) -> bool> {
    if m.role@ == "system"@ {
        None
    } else if m.role@ == "assistant"@ && m.tool_calls is Some {
        Some(is_obj(seq![("role"@, is_text("assistant"@)), ("content"@, is_arr(block_preds(m)))]))
    } else if m.role@ == "tool"@ {
        Some(
            is_obj(
                seq![
                    ("role"@, is_text("user"@)),
                    (
                        "content"@,
                        is_arr(
                            seq![
                                is_obj(
                                    seq![
                                        ("type"@, is_text("tool_result"@)),
                                        ("tool_use_id"@, is_text(crate::skills::text_or(m.tool_call_id, Seq::empty()))),
                                        ("content"@, is_text(m.content@)),
                                    ],
                                ),
                            ],
                        ),
                    ),
                ],
            ),
        )
    } else if m.role@ == "user"@ || m.role@ == "assistant"@ {
        Some(is_obj(seq![("role"@, is_text(m.role@)), ("content"@, is_text(m.content@))]))
    } else {
        None
    }
}

pub open spec fn anthropic_msg_preds(ms: Seq<ChatMessage>) -> Seq<spec_fn(Json) -> bool>
    decreases ms.len(),
{
    if ms.len() == 0 {
        Seq::empty()
    } else {
        let prev = anthropic_msg_preds(ms.drop_last());
        match anthropic_msg_pred(ms.last()) {
            Some(p) => prev.push(p),
            None => prev,
        }
    }
}

/// The Anthropic `system` text: the request's system prompt with the
/// content of every system message appended on its own line, trimmed.
pub open spec fn anthropic_system(sys: Seq<char>, ms: Seq<ChatMessage>) -> Seq<char>
    decreases ms.len(),
{
    if ms.len() == 0 {
        sys
    } else {
        let s = anthropic_system(sys, ms.drop_last());
        if ms.last().role@ == "system"@ {
            trim_spec(trim_spec(s) + seq!['\n'] + trim_spec(ms.last().content@))
        } else {
            s
        }
    }
}

fn text_json_of(o: Option<&Json>) -> (r: Json)
    ensures
        (is_text(crate::stream::text_or_empty(crate::json::opt_ref(o))))(r),
{
    match as_str(o) {
        Some(s) => str_json(s),
        None => Json::Str(String::new()),
    }
}

fn tool_use_json(c: &Json) -> (r: Json)
    ensures
        (tool_use_pred(*c))(r),
{
    let f = get(Some(c), "function");
    let args = match as_str(get(f, "arguments")) {
        Some(a) => owned(a),
        None => {
            let v = vec!['{', '}'];
            string_of(v.as_slice())
        },
    };
    let input = match parse_json(args.as_str()) {
        Some(x) => x,
        None => Json::Null,
    };
    let mut ms: Vec<(String, Json)> = Vec::new();
    let ghost e0: Seq<Expect> = Seq::empty();
    let ghost gf = field(Some(*c), "function"@);
    put(&mut ms, "type", str_json("tool_use"), Ghost(e0), Ghost(("type"@, is_text("tool_use"@))));
    let ghost e1 = e0.push(("type"@, is_text("tool_use"@)));
    put(&mut ms, "id", text_json_of(get(Some(c), "id")), Ghost(e1), Ghost(("id"@, is_text(crate::stream::text_or_empty(field(Some(*c), "id"@))))));
    let ghost e2 = e1.push(("id"@, is_text(crate::stream::text_or_empty(field(Some(*c), "id"@)))));
    put(&mut ms, "name", text_json_of(get(f, "name")), Ghost(e2), Ghost(("name"@, is_text(crate::stream::text_or_empty(field(gf, "name"@))))));
    let ghost e3 = e2.push(("name"@, is_text(crate::stream::text_or_empty(field(gf, "name"@)))));
    let ghost iv = match json_of_text(seq_or(text(field(gf, "arguments"@)), curly_pair())) {
        Some(x) => x,
        None => Json::Null,
    };
    put(&mut ms, "input", input, Ghost(e3), Ghost(("input"@, is_value(iv))));
    let ghost e4 = e3.push(("input"@, is_value(iv)));
    assert(e4 =~= seq![
        ("type"@, is_text("tool_use"@)),
        ("id"@, is_text(crate::stream::text_or_empty(field(Some(*c), "id"@)))),
        ("name"@, is_text(crate::stream::text_or_empty(field(gf, "name"@)))),
        ("input"@, is_value(iv)),
    ]);
    Json::Object(ms)
}

fn simple_obj2(k1: &str, v1: Json, k2: &str, v2: Json, Ghost(p1): Ghost<spec_fn(Json) -> bool>, Ghost(p2): Ghost<spec_fn(Json) -> bool>) -> (r: Json)
    requires
        p1(v1),
        p2(v2),
    ensures
        (is_obj(seq![(k1@, p1), (k2@, p2)]))(r),
{
    let mut ms: Vec<(String, Json)> = Vec::new();
    let ghost e0: Seq<Expect> = Seq::empty();
    put(&mut ms, k1, v1, Ghost(e0), Ghost((k1@, p1)));
    put(&mut ms, k2, v2, Ghost(e0.push((k1@, p1))), Ghost((k2@, p2)));
    assert(e0.push((k1@, p1)).push((k2@, p2)) =~= seq![(k1@, p1), (k2@, p2)]);
    Json::Object(ms)
}

fn blocks_json(m: &ChatMessage) -> (r: Json)
    ensures
        (is_arr(block_preds(*m)))(r),
{
    let mut xs: Vec<Json> = Vec::new();
    let ghost mut preds: Seq<spec_fn(Json) -> bool> = Seq::empty();
    if !m.content.as_str().is_empty() {
        let ghost p = is_obj(seq![("type"@, is_text("text"@)), ("text"@, is_text(m.content@))]);
        let b = simple_obj2("type", str_json("text"), "text", str_json(m.content.as_str()), Ghost(is_text("text"@)), Ghost(is_text(m.content@)));
        proof {
            lemma_push_item(xs@, preds, b, p);
        }
        xs.push(b);
        proof {
            preds = preds.push(p);
        }
    }
    let ghost head = preds;
    match &m.tool_calls {
        Some(Json::Array(cs)) => {
            let mut i: usize = 0;
            assert(head + cs@.take(0).map_values(|c: Json| tool_use_pred(c)) =~= head);
            while i < cs.len()
                invariant
                    i <= cs.len(),
                    items_match(xs@, head + cs@.take(i as int).map_values(|c: Json| tool_use_pred(c))),
                decreases cs.len() - i,
            {
                let x = tool_use_json(&cs[i]);
                let ghost pre = head + cs@.take(i as int).map_values(|c: Json| tool_use_pred(c));
                proof {
                    lemma_push_item(xs@, pre, x, tool_use_pred(cs@[i as int]));
                    assert(pre.push(tool_use_pred(cs@[i as int])) =~= head + cs@.take(i + 1).map_values(|c: Json| tool_use_pred(c)));
                }
                xs.push(x);
                i = i + 1;
            }
            assert(cs@.take(cs.len() as int) == cs@);
        },
        _ => {
            assert(head + Seq::<spec_fn(Json) -> bool>::empty() =~= head);
        },
    }
    Json::Array(xs)
}

fn anthropic_msg_json(m: ChatMessage) -> (r: Option<Json>)
    ensures
        match anthropic_msg_pred(m) {
            Some(p) => r matches Some(j) && p(j),
            None => r is None,
        },
{
    let role = m.role.as_str();
    if crate::text::str_eq(role, "system") {
        None
    } else if crate::text::str_eq(role, "assistant") && m.tool_calls.is_some() {
        let blocks = blocks_json(&m);
        Some(simple_obj2("role", str_json("assistant"), "content", blocks, Ghost(is_text("assistant"@)), Ghost(is_arr(block_preds(m)))))
    } else if crate::text::str_eq(role, "tool") {
        let id = match &m.tool_call_id {
            Some(s) => owned(s.as_str()),
            None => String::new(),
        };
        let mut ms: Vec<(String, Json)> = Vec::new();
        let ghost e0: Seq<Expect> = Seq::empty();
        let ghost idv = crate::skills::text_or(m.tool_call_id, Seq::empty());
        put(&mut ms, "type", str_json("tool_result"), Ghost(e0), Ghost(("type"@, is_text("tool_result"@))));
        let ghost e1 = e0.push(("type"@, is_text("tool_result"@)));
        put(&mut ms, "tool_use_id", str_json(id.as_str()), Ghost(e1), Ghost(("tool_use_id"@, is_text(idv))));
        let ghost e2 = e1.push(("tool_use_id"@, is_text(idv)));
        put(&mut ms, "content", str_json(m.content.as_str()), Ghost(e2), Ghost(("content"@, is_text(m.content@))));
        let ghost e3 = e2.push(("content"@, is_text(m.content@)));
        let ghost bp = is_obj(e3);
        assert(e3 =~= seq![("type"@, is_text("tool_result"@)), ("tool_use_id"@, is_text(idv)), ("content"@, is_text(m.content@))]);
        let block = Json::Object(ms);
        let mut arr: Vec<Json> = Vec::new();
        proof {
            lemma_push_item(arr@, Seq::empty(), block, bp);
        }
        arr.push(block);
        assert(Seq::<spec_fn(Json) -> bool>::empty().push(bp) =~= seq![bp]);
        Some(simple_obj2("role", str_json("user"), "content", Json::Array(arr), Ghost(is_text("user"@)), Ghost(is_arr(seq![bp]))))
    } else if crate::text::str_eq(role, "user") || crate::text::str_eq(role, "assistant") {
        Some(simple_obj2("role", str_json(role), "content", str_json(m.content.as_str()), Ghost(is_text(m.role@)), Ghost(is_text(m.content@))))
    } else {
        None
    }
}

/// The member `key` of an object whose `i`-th member is the first with that
/// name.
pub proof fn lemma_field_is(j: Json, key: Seq<char>, i: int)
    requires
        j matches Json::Object(v) && 0 <= i < v@.len() && v@[i].0@ == key && forall|k: int|
            0 <= k < i ==> (#[trigger] v@[k]).0@ != key,
    ensures
        j matches Json::Object(v) && field(Some(j), key) == Some(v@[i].1),
{
    if let Json::Object(v) = j {
        assert forall|k: int| 0 <= k < i implies !(#[trigger] (crate::json::has_key(key))(v@[k])) by {}
        crate::text::lemma_first_index_is(v@, crate::json::has_key(key), i);
    }
}

/// In the Anthropic form a tool result answers the call it names: a `tool`
/// message with `tool_call_id` `id` is sent, and as a user message whose
/// one content block is a `tool_result` with `tool_use_id` `id` and the
/// message's text as its content.
pub proof fn lemma_tool_result_names_its_call(m: ChatMessage, id: Seq<char>)
    requires
        m.role@ == "tool"@,
        opt_view(m.tool_call_id) == Some(id),
    ensures
        anthropic_msg_pred(m) is Some,
        forall|j: Json|
            #[trigger] (anthropic_msg_pred(m)->0)(j) ==> {
                &&& text(field(Some(j), "role"@)) == Some("user"@)
                &&& field(Some(j), "content"@) matches Some(Json::Array(blocks)) && blocks@.len() == 1
                    && text(field(Some(blocks@[0]), "type"@)) == Some("tool_result"@) && text(
                    field(Some(blocks@[0]), "tool_use_id"@),
                ) == Some(id) && text(field(Some(blocks@[0]), "content"@)) == Some(m.content@)
            },
{
    reveal_strlit("tool");
    reveal_strlit("system");
    reveal_strlit("assistant");
    reveal_strlit("role");
    reveal_strlit("content");
    reveal_strlit("type");
    reveal_strlit("tool_use_id");
    assert("tool"@.len() == 4 && "system"@.len() == 6 && "assistant"@.len() == 9);
    assert("role"@.len() == 4 && "content"@.len() == 7);
    assert("type"@.len() == 4 && "tool_use_id"@.len() == 11);
    assert forall|j: Json| #[trigger] (anthropic_msg_pred(m)->0)(j) implies {
        &&& text(field(Some(j), "role"@)) == Some("user"@)
        &&& field(Some(j), "content"@) matches Some(Json::Array(blocks)) && blocks@.len() == 1
            && text(field(Some(blocks@[0]), "type"@)) == Some("tool_result"@) && text(
            field(Some(blocks@[0]), "tool_use_id"@),
        ) == Some(id) && text(field(Some(blocks@[0]), "content"@)) == Some(m.content@)
    } by {
        if let Json::Object(v) = j {
            assert(v@[0].0@ == "role"@);
            assert(v@[1].0@ == "content"@);
            lemma_field_is(j, "role"@, 0);
            lemma_field_is(j, "content"@, 1);
            if let Json::Array(blocks) = v@[1].1 {
                let b = blocks@[0];
                if let Json::Object(bv) = b {
                    assert(bv@[0].0@ == "type"@);
                    assert(bv@[1].0@ == "tool_use_id"@);
                    assert(bv@[2].0@ == "content"@);
                    lemma_field_is(b, "type"@, 0);
                    lemma_field_is(b, "tool_use_id"@, 1);
                    lemma_field_is(b, "content"@, 2);
                }
            }
        }
    }
}

/// Builds the body of an Anthropic messages request; `temperature` is the
/// request's temperature already capped at 1.0.
pub open spec fn anthropic_body_exp(req: ChatRequest, temperature: Option<Json>) -> Seq<Expect> {
    let budget = crate::llm::budget_spec(opt_level(req.thinking_level));
    let sys = anthropic_system(crate::skills::text_or(req.system, Seq::empty()), req.messages@);
    seq![
        ("model"@, is_text(req.model_id@)),
        ("max_tokens"@, is_int(crate::llm::anthropic_max_tokens_spec(req.max_tokens, budget))),
        ("messages"@, is_arr(anthropic_msg_preds(req.messages@))),
        ("stream"@, is_value(Json::Bool(req.stream))),
    ] + opt_member(!is_blank(sys), ("system"@, is_text(sys))) + opt_member(
        temperature is Some && budget is None,
        ("temperature"@, is_value(temperature->0)),
    ) + opt_member(req.top_p is Some, ("top_p"@, is_value(req.top_p->0))) + opt_member(
        budget is Some,
        ("thinking"@, is_obj(seq![("type"@, is_text("enabled"@)), ("budget_tokens"@, is_int(budget->0 as int))])),
    ) + opt_member(req.tools is Some, ("tools"@, is_arr(tools_preds(ToolFormat::Anthropic, req.tools->0@))))
}

/// Builds the body of an Anthropic messages request (see
/// `anthropic_body_exp`).
pub fn anthropic_body(req: ChatRequest, temperature: Option<Json>) -> (r: Json)
    ensures
        (is_obj(anthropic_body_exp(req, temperature)))(r),
{
    let ghost g = req;
    let ghost gt = temperature;
    let budget = crate::llm::anthropic_thinking_budget(match &req.thinking_level {
        Some(l) => Some(l.as_str()),
        None => None,
    });
    let ghost all = req.messages@;
    let mut system = match &req.system {
        Some(s) => owned(s.as_str()),
        None => String::new(),
    };
    let mut xs: Vec<Json> = Vec::new();
    let mut rest = req.messages;
    let mut i: usize = 0;
    assert(all.len() == rest.len());
    assert(rest@ == all.skip(0));
    assert(all.take(0) =~= Seq::<ChatMessage>::empty());
    while rest.len() > 0
        invariant
            i + rest.len() == all.len(),
            all.len() <= usize::MAX,
            rest@ == all.skip(i as int),
            items_match(xs@, anthropic_msg_preds(all.take(i as int))),
            system@ == anthropic_system(crate::skills::text_or(g.system, Seq::empty()), all.take(i as int)),
        decreases rest.len(),
    {
        let m = rest.remove(0);
        assert(m == all[i as int]);
        assert(rest@ =~= all.skip(i + 1));
        assert(all.take(i + 1).drop_last() == all.take(i as int));
        assert(all.take(i + 1).last() == m);
        if crate::text::str_eq(m.role.as_str(), "system") {
            let ghost prev = system@;
            let a = crate::text::trim_str(system.as_str());
            let nl = vec!['\n'];
            let b = concat_str(a.as_str(), string_of(nl.as_slice()).as_str());
            let c = crate::text::trim_str(m.content.as_str());
            let d = concat_str(b.as_str(), c.as_str());
            assert(d@ =~= trim_spec(prev) + seq!['\n'] + trim_spec(m.content@));
            system = crate::text::trim_str(d.as_str());
            assert(system@ == trim_spec(trim_spec(prev) + seq!['\n'] + trim_spec(all.take(i + 1).last().content@)));
            assert(system@ == anthropic_system(crate::skills::text_or(g.system, Seq::empty()), all.take(i + 1)));
        } else {
            assert(system@ == anthropic_system(crate::skills::text_or(g.system, Seq::empty()), all.take(i + 1)));
        }
        let ghost pre = anthropic_msg_preds(all.take(i as int));
        match anthropic_msg_json(m) {
            Some(x) => {
                proof {
                    lemma_push_item(xs@, pre, x, anthropic_msg_pred(all[i as int])->0);
                }
                xs.push(x);
            },
            None => {},
        }
        i = i + 1;
    }
    assert(all.take(all.len() as int) == all);
    let mut ms: Vec<(String, Json)> = Vec::new();
    let ghost e0: Seq<Expect> = Seq::empty();
    put(&mut ms, "model", str_json(req.model_id.as_str()), Ghost(e0), Ghost(("model"@, is_text(g.model_id@))));
    let ghost e1 = e0.push(("model"@, is_text(g.model_id@)));
    let mt = crate::llm::anthropic_max_tokens(req.max_tokens, budget);
    put(&mut ms, "max_tokens", int_json(mt), Ghost(e1), Ghost(("max_tokens"@, is_int(crate::llm::anthropic_max_tokens_spec(g.max_tokens, budget)))));
    let ghost e2 = e1.push(("max_tokens"@, is_int(crate::llm::anthropic_max_tokens_spec(g.max_tokens, budget))));
    put(&mut ms, "messages", Json::Array(xs), Ghost(e2), Ghost(("messages"@, is_arr(anthropic_msg_preds(all)))));
    let ghost e3 = e2.push(("messages"@, is_arr(anthropic_msg_preds(all))));
    put(&mut ms, "stream", Json::Bool(req.stream), Ghost(e3), Ghost(("stream"@, is_value(Json::Bool(g.stream)))));
    let ghost e4 = e3.push(("stream"@, is_value(Json::Bool(g.stream))));
    let sc = chars_of(system.as_str());
    let ghost sys = system@;
    let sj = if crate::text::chars_blank(sc.as_slice()) {
        None
    } else {
        Some(str_json(system.as_str()))
    };
    push_opt(&mut ms, "system", sj, Ghost(e4), Ghost(("system"@, is_text(sys))), Ghost((!is_blank(sys))));
    let ghost e5 = e4 + opt_member(!is_blank(sys), ("system"@, is_text(sys)));
    let tj = if budget.is_some() { None } else { temperature };
    push_opt(&mut ms, "temperature", tj, Ghost(e5), Ghost(("temperature"@, is_value(gt->0))), Ghost((gt is Some && budget is None)));
    let ghost e6 = e5 + opt_member(gt is Some && budget is None, ("temperature"@, is_value(gt->0)));
    push_opt(&mut ms, "top_p", req.top_p, Ghost(e6), Ghost(("top_p"@, is_value(g.top_p->0))), Ghost((g.top_p is Some)));
    let ghost e7 = e6 + opt_member(g.top_p is Some, ("top_p"@, is_value(g.top_p->0)));
    let thinking = match budget {
        Some(b) => Some(simple_obj2("type", str_json("enabled"), "budget_tokens", int_json(b), Ghost(is_text("enabled"@)), Ghost(is_int(b as int)))),
        None => None,
    };
    push_opt(&mut ms, "thinking", thinking, Ghost(e7), Ghost(("thinking"@, is_obj(seq![("type"@, is_text("enabled"@)), ("budget_tokens"@, is_int(budget->0 as int))]))), Ghost((budget is Some)));
    let ghost e8 = e7 + opt_member(budget is Some, ("thinking"@, is_obj(seq![("type"@, is_text("enabled"@)), ("budget_tokens"@, is_int(budget->0 as int))])));
    let tools = match req.tools {
        Some(ts) => Some(tools_json(&ToolFormat::Anthropic, ts)),
        None => None,
    };
    push_opt(&mut ms, "tools", tools, Ghost(e8), Ghost(("tools"@, is_arr(tools_preds(ToolFormat::Anthropic, g.tools->0@)))), Ghost((g.tools is Some)));
    let ghost e9 = e8 + opt_member(g.tools is Some, ("tools"@, is_arr(tools_preds(ToolFormat::Anthropic, g.tools->0@))));
    assert(e4 =~= seq![
        ("model"@, is_text(g.model_id@)),
        ("max_tokens"@, is_int(crate::llm::anthropic_max_tokens_spec(g.max_tokens, budget))),
        ("messages"@, is_arr(anthropic_msg_preds(all))),
        ("stream"@, is_value(Json::Bool(g.stream))),
    ]);
    assert(e9 =~= anthropic_body_exp(g, gt));
    Json::Object(ms)
}

// ---------- OpenAI Response API ----------

/// The body of a Response API request: the conversation as `input`, no
/// sampling parameters for reasoning models, `max_output_tokens`, the
/// reasoning effort and the tools.
pub open spec fn response_body_exp(req: ChatRequest) -> Seq<Expect> {
    let effort = crate::llm::effort_spec(opt_level(req.thinking_level));
    let sampling = !crate::llm::reasoning_spec(req.model_id@);
    seq![
        ("model"@, is_text(req.model_id@)),
        ("input"@, is_arr(chat_msgs_preds(req.system, "system"@, req.messages@, false))),
        ("stream"@, is_value(Json::Bool(req.stream))),
    ] + opt_member(sampling && req.temperature is Some, ("temperature"@, is_value(req.temperature->0)))
        + opt_member(sampling && req.top_p is Some, ("top_p"@, is_value(req.top_p->0))) + opt_member(
        req.max_tokens is Some,
        ("max_output_tokens"@, is_int(req.max_tokens->0 as int)),
    ) + opt_member(effort is Some, ("reasoning"@, is_obj(seq![("effort"@, is_text(effort->0))]))) + opt_member(
        req.tools is Some,
        ("tools"@, is_arr(tools_preds(ToolFormat::Response, req.tools->0@))),
    )
}

/// Builds the body of a Response API request (see `response_body_exp`).
pub fn response_body(req: ChatRequest) -> (r: Json)
    ensures
        (is_obj(response_body_exp(req)))(r),
{
    let ghost g = req;
    let effort = crate::llm::reasoning_effort(match &req.thinking_level {
        Some(l) => Some(l.as_str()),
        None => None,
    });
    let sampling = !crate::llm::is_reasoning_model(req.model_id.as_str());
    let mut ms: Vec<(String, Json)> = Vec::new();
    let ghost e0: Seq<Expect> = Seq::empty();
    put(&mut ms, "model", str_json(req.model_id.as_str()), Ghost(e0), Ghost(("model"@, is_text(g.model_id@))));
    let ghost e1 = e0.push(("model"@, is_text(g.model_id@)));
    let input = chat_messages_json(&req.system, "system", req.messages, false);
    let ghost ip = is_arr(chat_msgs_preds(g.system, "system"@, g.messages@, false));
    put(&mut ms, "input", input, Ghost(e1), Ghost(("input"@, ip)));
    let ghost e2 = e1.push(("input"@, ip));
    put(&mut ms, "stream", Json::Bool(req.stream), Ghost(e2), Ghost(("stream"@, is_value(Json::Bool(g.stream)))));
    let ghost e3 = e2.push(("stream"@, is_value(Json::Bool(g.stream))));
    let temp = if sampling { req.temperature } else { None };
    push_opt(&mut ms, "temperature", temp, Ghost(e3), Ghost(("temperature"@, is_value(g.temperature->0))), Ghost((sampling && g.temperature is Some)));
    let ghost e4 = e3 + opt_member(sampling && g.temperature is Some, ("temperature"@, is_value(g.temperature->0)));
    let top = if sampling { req.top_p } else { None };
    push_opt(&mut ms, "top_p", top, Ghost(e4), Ghost(("top_p"@, is_value(g.top_p->0))), Ghost((sampling && g.top_p is Some)));
    let ghost e5 = e4 + opt_member(sampling && g.top_p is Some, ("top_p"@, is_value(g.top_p->0)));
    let mx = match req.max_tokens {
        Some(m) => Some(int_json(m)),
        None => None,
    };
    push_opt(&mut ms, "max_output_tokens", mx, Ghost(e5), Ghost(("max_output_tokens"@, is_int(g.max_tokens->0 as int))), Ghost((g.max_tokens is Some)));
    let ghost e6 = e5 + opt_member(g.max_tokens is Some, ("max_output_tokens"@, is_int(g.max_tokens->0 as int)));
    let ghost eff = crate::llm::effort_spec(opt_level(g.thinking_level));
    let rj = match effort {
        Some(e) => {
            let mut inner: Vec<(String, Json)> = Vec::new();
            put(&mut inner, "effort", str_json(e), Ghost(e0), Ghost(("effort"@, is_text(eff->0))));
            assert(e0.push(("effort"@, is_text(eff->0))) =~= seq![("effort"@, is_text(eff->0))]);
            Some(Json::Object(inner))
        },
        None => None,
    };
    push_opt(&mut ms, "reasoning", rj, Ghost(e6), Ghost(("reasoning"@, is_obj(seq![("effort"@, is_text(eff->0))]))), Ghost((eff is Some)));
    let ghost e7 = e6 + opt_member(eff is Some, ("reasoning"@, is_obj(seq![("effort"@, is_text(eff->0))])));
    let tj = match req.tools {
        Some(ts) => Some(tools_json(&ToolFormat::Response, ts)),
        None => None,
    };
    push_opt(&mut ms, "tools", tj, Ghost(e7), Ghost(("tools"@, is_arr(tools_preds(ToolFormat::Response, g.tools->0@)))), Ghost((g.tools is Some)));
    let ghost e8 = e7 + opt_member(g.tools is Some, ("tools"@, is_arr(tools_preds(ToolFormat::Response, g.tools->0@))));
    assert(e3 =~= seq![("model"@, is_text(g.model_id@)), ("input"@, ip), ("stream"@, is_value(Json::Bool(g.stream)))]);
    assert(e8 =~= response_body_exp(g));
    Json::Object(ms)
}

} // verus!
