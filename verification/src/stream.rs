//! Reading streamed model answers: the server-sent-event lines of the
//! OpenAI-compatible, Anthropic and OpenAI Response APIs, and the tool calls
//! they assemble piece by piece.

use vstd::prelude::*;
use crate::json::{
    as_array, as_i64, as_str, as_u64, at, elements, field, get, int64, item, json_of_text, opt_ref,
    parse_json, text, uint64, Json,
};
use crate::models::{ProviderType, TokenUsage, ToolCall};
use crate::text::find_elem;
use crate::text::{chars_of, chars_range, chars_start_with, concat_str, owned, string_of, trim_chars, trim_spec};

verus! {

// ---------- tool calls ----------

/// A tool call being assembled: id, name and argument text so far.
#[derive(Debug)]
pub struct ToolAccumItem {
    pub id: String,
    pub name: String,
    pub arguments: String,
}

/// The tool calls of one answer, by the index the stream gives them.
#[derive(Debug)]
pub struct ToolAccumulator {
    pub items: Vec<ToolAccumItem>,
}

pub type Piece = (Seq<char>, Seq<char>, Seq<char>);

pub open spec fn item_view(it: ToolAccumItem) -> Piece {
    (it.id@, it.name@, it.arguments@)
}

impl View for ToolAccumulator {
    type V = Seq<Piece>;

    open spec fn view(&self) -> Seq<Piece> {
        self.items@.map_values(|it: ToolAccumItem| item_view(it))
    }
}

impl Default for ToolAccumulator {
    fn default() -> (r: Self)
        ensures
            r@.len() == 0,
    {
        ToolAccumulator { items: Vec::new() }
    }
}

pub open spec fn empty_piece() -> Piece {
    (Seq::empty(), Seq::empty(), Seq::empty())
}

/// The pieces with empty ones added until position `idx` exists.
pub open spec fn padded(items: Seq<Piece>, idx: int) -> Seq<Piece> {
    if idx < items.len() {
        items
    } else {
        items + Seq::new((idx + 1 - items.len()) as nat, |_i: int| empty_piece())
    }
}

pub open spec fn append_opt(s: Seq<char>, o: Option<Seq<char>>) -> Seq<char> {
    match o {
        Some(t) => s + t,
        None => s,
    }
}

/// Piece `idx` extended by the parts that came (each appended).
pub open spec fn apply_parts(
    items: Seq<Piece>,
    idx: int,
    id: Option<Seq<char>>,
    name: Option<Seq<char>>,
    args: Option<Seq<char>>,
) -> Seq<Piece> {
    let p = padded(items, idx);
    p.update(idx, (append_opt(p[idx].0, id), append_opt(p[idx].1, name), append_opt(p[idx].2, args)))
}

/// A position given as a JSON integer, cast to `usize` (absent: 0).
pub open spec fn index_of(o: Option<Json>) -> int {
    match uint64(o) {
        Some(n) => (n as usize) as int,
        None => 0,
    }
}

/// One OpenAI `tool_calls` entry: `{ index, id?, function: { name?, arguments? } }`.
pub open spec fn apply_call(items: Seq<Piece>, call: Json) -> Seq<Piece> {
    let f = field(Some(call), "function"@);
    apply_parts(
        items,
        index_of(field(Some(call), "index"@)),
        text(field(Some(call), "id"@)),
        text(field(f, "name"@)),
        text(field(f, "arguments"@)),
    )
}

pub open spec fn apply_calls(items: Seq<Piece>, calls: Seq<Json>) -> Seq<Piece>
    decreases calls.len(),
{
    if calls.len() == 0 {
        items
    } else {
        apply_call(apply_calls(items, calls.drop_last()), calls.last())
    }
}

/// An OpenAI stream delta applied to the tool calls.
pub open spec fn openai_delta_spec(items: Seq<Piece>, delta: Json) -> Seq<Piece> {
    match elements(field(Some(delta), "tool_calls"@)) {
        Some(calls) => apply_calls(items, calls),
        None => items,
    }
}

/// An Anthropic stream event applied to the tool calls: a `tool_use` block
/// start names piece `block`, an `input_json_delta` extends its arguments.
pub open spec fn anthropic_event_spec(items: Seq<Piece>, v: Json, block: int) -> Seq<Piece> {
    let kind = text(field(Some(v), "type"@));
    if kind == Some("content_block_start"@) {
        let b = field(Some(v), "content_block"@);
        if text(field(b, "type"@)) == Some("tool_use"@) {
            let p = padded(items, block);
            p.update(
                block,
                (
                    crate::skills::seq_or(text(field(b, "id"@)), Seq::empty()),
                    crate::skills::seq_or(text(field(b, "name"@)), Seq::empty()),
                    p[block].2,
                ),
            )
        } else {
            items
        }
    } else if kind == Some("content_block_delta"@) {
        let d = field(Some(v), "delta"@);
        if text(field(d, "type"@)) == Some("input_json_delta"@) {
            match text(field(d, "partial_json"@)) {
                Some(a) => apply_parts(items, block, None, None, Some(a)),
                None => items,
            }
        } else {
            items
        }
    } else {
        items
    }
}

/// The finished calls: every piece with both an id and a name, in order
/// (incomplete calls are dropped).
pub open spec fn finished(items: Seq<Piece>) -> Seq<Piece>
    decreases items.len(),
{
    if items.len() == 0 {
        items
    } else if items.last().0.len() > 0 && items.last().1.len() > 0 {
        finished(items.drop_last()).push(items.last())
    } else {
        finished(items.drop_last())
    }
}

pub open spec fn call_view(c: ToolCall) -> Piece {
    (c.id@, c.name@, c.arguments@)
}

pub open spec fn calls_view(v: Seq<ToolCall>) -> Seq<Piece> {
    v.map_values(|c: ToolCall| call_view(c))
}

impl ToolAccumulator {
    /// Makes position `idx` exist (see `padded`).
    fn ensure(&mut self, idx: usize)
        ensures
            final(self)@ == padded(old(self)@, idx as int),
            idx < final(self).items.len(),
    {
        let ghost start = self@;
        assert(self@ =~= start + Seq::new(0, |_i: int| empty_piece()));
        while self.items.len() <= idx
            invariant
                self.items.len() >= start.len(),
                self.items.len() > start.len() ==> self.items.len() <= idx + 1,
                self@ == start + Seq::new((self.items.len() - start.len()) as nat, |_i: int| empty_piece()),
            decreases idx + 1 - self.items.len(),
        {
            let ghost before = self@;
            self.items.push(ToolAccumItem { id: String::new(), name: String::new(), arguments: String::new() });
            proof {
                assert(self@ =~= before.push(empty_piece()));
                assert(self@ =~= start + Seq::new(
                    (self.items.len() - start.len()) as nat,
                    |_i: int| empty_piece(),
                ));
            }
        }
        proof {
            if start.len() > idx {
                assert(self.items.len() == start.len());
                assert(self@ =~= start);
            } else {
                assert(self.items.len() == idx + 1);
                assert(self@ =~= padded(start, idx as int));
            }
        }
    }

    /// Appends the parts that came to call `idx` (see `apply_parts`).
    fn add_parts(&mut self, idx: usize, id: Option<&str>, name: Option<&str>, args: Option<&str>)
        ensures
            final(self)@ == apply_parts(
                old(self)@,
                idx as int,
                crate::skills::opt_str_view(id),
                crate::skills::opt_str_view(name),
                crate::skills::opt_str_view(args),
            ),
    {
        self.ensure(idx);
        let ghost p = self@;
        let it = &self.items[idx];
        let new_id = match id {
            Some(s) => concat_str(it.id.as_str(), s),
            None => owned(it.id.as_str()),
        };
        let new_name = match name {
            Some(s) => concat_str(it.name.as_str(), s),
            None => owned(it.name.as_str()),
        };
        let new_args = match args {
            Some(s) => concat_str(it.arguments.as_str(), s),
            None => owned(it.arguments.as_str()),
        };
        self.items.set(idx, ToolAccumItem { id: new_id, name: new_name, arguments: new_args });
        assert(self@ =~= p.update(
            idx as int,
            (
                append_opt(p[idx as int].0, crate::skills::opt_str_view(id)),
                append_opt(p[idx as int].1, crate::skills::opt_str_view(name)),
                append_opt(p[idx as int].2, crate::skills::opt_str_view(args)),
            ),
        ));
    }

    fn apply_call(&mut self, call: &Json)
        ensures
            final(self)@ == apply_call(old(self)@, *call),
    {
        let f = get(Some(call), "function");
        let idx: usize = match as_u64(get(Some(call), "index")) {
            Some(n) => n as usize,
            None => 0,
        };
        let id = as_str(get(Some(call), "id"));
        let name = as_str(get(f, "name"));
        let args = as_str(get(f, "arguments"));
        self.add_parts(idx, id, name, args);
    }

    /// Applies an OpenAI stream delta (see `openai_delta_spec`).
    pub fn apply_openai_delta(&mut self, delta: &Json)
        ensures
            final(self)@ == openai_delta_spec(old(self)@, *delta),
    {
        let calls = match as_array(get(Some(delta), "tool_calls")) {
            Some(c) => c,
            None => return,
        };
        let ghost start = self@;
        let mut i: usize = 0;
        while i < calls.len()
            invariant
                i <= calls.len(),
                self@ == apply_calls(start, calls@.take(i as int)),
            decreases calls.len() - i,
        {
            assert(calls@.take(i + 1).drop_last() == calls@.take(i as int));
            self.apply_call(&calls[i]);
            i = i + 1;
        }
        assert(calls@.take(calls.len() as int) == calls@);
    }

    /// Applies an Anthropic stream event for content block `block` (see
    /// `anthropic_event_spec`).
    pub fn apply_anthropic_event(&mut self, v: &Json, block: usize)
        ensures
            final(self)@ == anthropic_event_spec(old(self)@, *v, block as int),
    {
        let kind = as_str(get(Some(v), "type"));
        let start = "content_block_start";
        let delta_kind = "content_block_delta";
        match kind {
            Some(k) => {
                if crate::text::str_eq(k, start) {
                    let b = get(Some(v), "content_block");
                    let is_tool = match as_str(get(b, "type")) {
                        Some(t) => crate::text::str_eq(t, "tool_use"),
                        None => false,
                    };
                    if is_tool {
                        self.ensure(block);
                        let ghost p = self@;
                        let id = match as_str(get(b, "id")) {
                            Some(s) => owned(s),
                            None => String::new(),
                        };
                        let name = match as_str(get(b, "name")) {
                            Some(s) => owned(s),
                            None => String::new(),
                        };
                        let args = owned(self.items[block].arguments.as_str());
                        self.items.set(block, ToolAccumItem { id, name, arguments: args });
                        assert(self@ =~= p.update(
                            block as int,
                            (
                                crate::skills::seq_or(text(field(opt_ref(b), "id"@)), Seq::empty()),
                                crate::skills::seq_or(text(field(opt_ref(b), "name"@)), Seq::empty()),
                                p[block as int].2,
                            ),
                        ));
                    }
                } else if crate::text::str_eq(k, delta_kind) {
                    let d = get(Some(v), "delta");
                    let is_input = match as_str(get(d, "type")) {
                        Some(t) => crate::text::str_eq(t, "input_json_delta"),
                        None => false,
                    };
                    if is_input {
                        match as_str(get(d, "partial_json")) {
                            Some(a) => self.add_parts(block, None, None, Some(a)),
                            None => {},
                        }
                    }
                }
            },
            None => {},
        }
    }

    /// The finished calls: those that got both an id and a name, in order
    /// (see `finished`).
    pub fn finish(&self) -> (r: Vec<ToolCall>)
        ensures
            calls_view(r@) == finished(self@),
    {
        let mut out: Vec<ToolCall> = Vec::new();
        let mut i: usize = 0;
        while i < self.items.len()
            invariant
                i <= self.items.len(),
                calls_view(out@) == finished(self@.take(i as int)),
            decreases self.items.len() - i,
        {
            let ghost pre = self@.take(i + 1);
            assert(pre.drop_last() == self@.take(i as int));
            assert(pre.last() == item_view(self.items@[i as int]));
            let it = &self.items[i];
            if !it.id.as_str().is_empty() && !it.name.as_str().is_empty() {
                let ghost before = out@;
                out.push(ToolCall { id: owned(it.id.as_str()), name: owned(it.name.as_str()), arguments: owned(it.arguments.as_str()) });
                assert(calls_view(out@) =~= calls_view(before).push(call_view(out@.last())));
            }
            i = i + 1;
        }
        assert(self@.take(self.items.len() as int) == self@);
        out
    }
}


// ---------- laws of the Anthropic tool-call events ----------

/// Whether `v` is an Anthropic `input_json_delta` event carrying the text
/// `a`.
pub open spec fn is_input_delta(v: Json, a: Seq<char>) -> bool {
    &&& text(field(Some(v), "type"@)) == Some("content_block_delta"@)
    &&& text(field(field(Some(v), "delta"@), "type"@)) == Some("input_json_delta"@)
    &&& text(field(field(Some(v), "delta"@), "partial_json"@)) == Some(a)
}

/// Whether `v` is an Anthropic `content_block_start` event of a `tool_use`
/// block with this id and name.
pub open spec fn is_tool_use_start(v: Json, id: Seq<char>, name: Seq<char>) -> bool {
    &&& text(field(Some(v), "type"@)) == Some("content_block_start"@)
    &&& text(field(field(Some(v), "content_block"@), "type"@)) == Some("tool_use"@)
    &&& text(field(field(Some(v), "content_block"@), "id"@)) == Some(id)
    &&& text(field(field(Some(v), "content_block"@), "name"@)) == Some(name)
}

/// An `input_json_delta` appends its text to the arguments of its block's
/// call, after what came before; the call's id and name, and every other
/// call, stay as they were. A block not seen yet starts with empty parts.
pub proof fn lemma_anthropic_delta_appends(items: Seq<Piece>, v: Json, block: int, a: Seq<char>)
    requires
        0 <= block,
        is_input_delta(v, a),
    ensures
        ({
            let r = anthropic_event_spec(items, v, block);
            let before = if block < items.len() {
                items[block]
            } else {
                (Seq::<char>::empty(), Seq::<char>::empty(), Seq::<char>::empty())
            };
            &&& r.len() == if block < items.len() {
                items.len() as int
            } else {
                block + 1
            }
            &&& r[block] == (before.0, before.1, before.2 + a)
            &&& forall|j: int| 0 <= j < items.len() && j != block ==> r[j] == items[j]
        }),
{
    reveal_strlit("content_block_delta");
    reveal_strlit("content_block_start");
    assert("content_block_delta"@ != "content_block_start"@) by {
        assert("content_block_delta"@[14] != "content_block_start"@[14]);
    }
    let p = padded(items, block);
    if block >= items.len() {
        assert(p[block] == empty_piece());
        assert(Seq::<char>::empty() + a =~= a);
    }
}

/// A `tool_use` block start gives its block's call the block's id and name
/// and keeps the arguments gathered so far; every other call stays.
pub proof fn lemma_anthropic_start_names(items: Seq<Piece>, v: Json, block: int, id: Seq<char>, name: Seq<char>)
    requires
        0 <= block,
        is_tool_use_start(v, id, name),
    ensures
        ({
            let r = anthropic_event_spec(items, v, block);
            let args = if block < items.len() {
                items[block].2
            } else {
                Seq::<char>::empty()
            };
            &&& r[block] == (id, name, args)
            &&& forall|j: int| 0 <= j < items.len() && j != block ==> r[j] == items[j]
        }),
{
    let p = padded(items, block);
    if block >= items.len() {
        assert(p[block] == empty_piece());
    }
}

/// A `tool_use` start for a new block followed by two argument deltas
/// `a` then `b` for it leaves the call with that id and name and the
/// arguments `a + b`.
pub proof fn lemma_anthropic_start_then_deltas(
    items: Seq<Piece>,
    start: Json,
    d1: Json,
    d2: Json,
    block: int,
    id: Seq<char>,
    name: Seq<char>,
    a: Seq<char>,
    b: Seq<char>,
)
    requires
        items.len() <= block,
        is_tool_use_start(start, id, name),
        is_input_delta(d1, a),
        is_input_delta(d2, b),
    ensures
        anthropic_event_spec(
            anthropic_event_spec(anthropic_event_spec(items, start, block), d1, block),
            d2,
            block,
        )[block] == (id, name, a + b),
{
    let s1 = anthropic_event_spec(items, start, block);
    lemma_anthropic_start_names(items, start, block, id, name);
    let p = padded(items, block);
    assert(s1.len() == block + 1);
    lemma_anthropic_delta_appends(s1, d1, block, a);
    let s2 = anthropic_event_spec(s1, d1, block);
    assert(Seq::<char>::empty() + a =~= a);
    lemma_anthropic_delta_appends(s2, d2, block, b);
}

} // verus!

verus! {

// ---------- stream lines ----------

/// One piece of an answer handed on as it arrives: answer text, or (with
/// empty text) reasoning text.
#[derive(Debug)]
pub struct Delta {
    pub text: String,
    pub reasoning: Option<String>,
}

pub type DeltaView = (Seq<char>, Option<Seq<char>>);

pub open spec fn delta_view(d: Delta) -> DeltaView {
    (d.text@, crate::skills::opt_view(d.reasoning))
}

pub open spec fn deltas_view(v: Seq<Delta>) -> Seq<DeltaView> {
    v.map_values(|d: Delta| delta_view(d))
}

/// What reading a stream has gathered: the answer, the reasoning, the token
/// usage, the tool calls and the pieces handed on so far.
pub struct StreamView {
    pub content: Seq<char>,
    pub reasoning: Seq<char>,
    pub usage: Option<TokenUsage>,
    pub tools: Seq<Piece>,
    pub sink: Seq<DeltaView>,
}

pub open spec fn stream_of(
    content: String,
    reasoning: String,
    usage: Option<TokenUsage>,
    tools: Seq<Piece>,
    sink: Seq<Delta>,
) -> StreamView {
    StreamView { content: content@, reasoning: reasoning@, usage, tools, sink: deltas_view(sink) }
}

pub open spec fn with_content(s: StreamView, c: Seq<char>) -> StreamView {
    StreamView {
        content: s.content + c,
        reasoning: s.reasoning,
        usage: s.usage,
        tools: s.tools,
        sink: s.sink.push((c, None)),
    }
}

pub open spec fn with_reasoning(s: StreamView, r: Seq<char>) -> StreamView {
    StreamView {
        content: s.content,
        reasoning: s.reasoning + r,
        usage: s.usage,
        tools: s.tools,
        sink: s.sink.push((Seq::empty(), Some(r))),
    }
}

pub open spec fn with_usage(s: StreamView, u: TokenUsage) -> StreamView {
    StreamView { content: s.content, reasoning: s.reasoning, usage: Some(u), tools: s.tools, sink: s.sink }
}

pub open spec fn with_tools(s: StreamView, t: Seq<Piece>) -> StreamView {
    StreamView { content: s.content, reasoning: s.reasoning, usage: s.usage, tools: t, sink: s.sink }
}

pub open spec fn data_prefix() -> Seq<char> {
    seq!['d', 'a', 't', 'a', ':']
}

/// The payload of an SSE `data:` line, trimmed.
pub open spec fn data_of(line: Seq<char>) -> Option<Seq<char>> {
    if crate::text::starts_with(line, data_prefix()) {
        Some(trim_spec(line.skip(5)))
    } else {
        None
    }
}

/// A string that is not empty.
pub open spec fn nonempty_text(o: Option<Json>) -> Option<Seq<char>> {
    match text(o) {
        Some(s) => if s.len() > 0 {
            Some(s)
        } else {
            None
        },
        None => None,
    }
}

/// The token usage an event reports under `usage`: prompt and completion
/// tokens (0 when absent; none when both are), the total or their sum.
pub open spec fn usage_spec(v: Json) -> Option<TokenUsage> {
    let u = field(Some(v), "usage"@);
    let p = int64(field(u, "prompt_tokens"@));
    let c = int64(field(u, "completion_tokens"@));
    let t = int64(field(u, "total_tokens"@));
    if u is None || (p is None && c is None) {
        None
    } else {
        let pp: i64 = match p {
            Some(x) => x,
            None => 0,
        };
        let cc: i64 = match c {
            Some(x) => x,
            None => 0,
        };
        Some(
            TokenUsage {
                prompt_tokens: pp,
                completion_tokens: cc,
                total_tokens: match t {
                    Some(x) => x,
                    None => pp.wrapping_add(cc),
                },
            },
        )
    }
}

/// One step of a JSON pointer: an array index or an object member.
pub open spec fn pointer_step(o: Option<Json>, key: Seq<char>, idx: int) -> Option<Json> {
    match o {
        Some(Json::Array(_)) => item(o, idx),
        _ => field(o, key),
    }
}

/// `/choices/0/delta` of an event.
pub open spec fn choice_delta(v: Json) -> Option<Json> {
    field(pointer_step(field(Some(v), "choices"@), "0"@, 0), "delta"@)
}

/// The reasoning text of an OpenAI delta: the first non-empty string among
/// `reasoning_content`, `reasoning` and `thought`.
pub open spec fn reasoning_of(d: Json) -> Option<Seq<char>> {
    match nonempty_text(field(Some(d), "reasoning_content"@)) {
        Some(s) => Some(s),
        None => match nonempty_text(field(Some(d), "reasoning"@)) {
            Some(s) => Some(s),
            None => nonempty_text(field(Some(d), "thought"@)),
        },
    }
}

/// An OpenAI-compatible stream line applied to what was gathered.
pub open spec fn openai_line_spec(line: Seq<char>, s: StreamView) -> StreamView {
    match data_of(line) {
        None => s,
        Some(d) => if d == "[DONE]"@ {
            s
        } else {
            match json_of_text(d) {
                None => s,
                Some(v) => {
                    let s1 = match usage_spec(v) {
                        Some(u) => with_usage(s, u),
                        None => s,
                    };
                    match choice_delta(v) {
                        None => s1,
                        Some(dv) => {
                            let s2 = match nonempty_text(field(Some(dv), "content"@)) {
                                Some(c) => with_content(s1, c),
                                None => s1,
                            };
                            let s3 = match reasoning_of(dv) {
                                Some(r) => with_reasoning(s2, r),
                                None => s2,
                            };
                            with_tools(s3, openai_delta_spec(s3.tools, dv))
                        },
                    }
                },
            }
        },
    }
}

/// The trimmed payload of a `data:` line.
fn data_payload(line: &str) -> (r: Option<String>)
    ensures
        match r {
            Some(d) => data_of(line@) == Some(d@),
            None => data_of(line@) is None,
        },
{
    let c = chars_of(line);
    let p = vec!['d', 'a', 't', 'a', ':'];
    assert(p@ == data_prefix());
    if !chars_start_with(c.as_slice(), p.as_slice()) {
        return None;
    }
    let rest = chars_range(c.as_slice(), 5, c.len());
    assert(rest@ == line@.skip(5));
    let t = trim_chars(rest.as_slice());
    Some(string_of(t.as_slice()))
}

fn nonempty_str<'a>(o: Option<&'a Json>) -> (r: Option<&'a str>)
    ensures
        match r {
            Some(s) => nonempty_text(opt_ref(o)) == Some(s@),
            None => nonempty_text(opt_ref(o)) is None,
        },
{
    match as_str(o) {
        Some(s) => if s.is_empty() {
            None
        } else {
            Some(s)
        },
        None => None,
    }
}

/// Reads the token usage of an event (see `usage_spec`).
pub fn parse_usage(v: &Json) -> (r: Option<TokenUsage>)
    ensures
        r == usage_spec(*v),
{
    let u = get(Some(v), "usage");
    if u.is_none() {
        return None;
    }
    let p = as_i64(get(u, "prompt_tokens"));
    let c = as_i64(get(u, "completion_tokens"));
    let t = as_i64(get(u, "total_tokens"));
    if p.is_none() && c.is_none() {
        return None;
    }
    let pp: i64 = match p {
        Some(x) => x,
        None => 0,
    };
    let cc: i64 = match c {
        Some(x) => x,
        None => 0,
    };
    let total: i64 = match t {
        Some(x) => x,
        None => pp.wrapping_add(cc),
    };
    Some(TokenUsage { prompt_tokens: pp, completion_tokens: cc, total_tokens: total })
}

fn pointer_index<'a>(o: Option<&'a Json>, key: &str, idx: usize) -> (r: Option<&'a Json>)
    ensures
        opt_ref(r) == pointer_step(opt_ref(o), key@, idx as int),
{
    match o {
        Some(Json::Array(_)) => at(o, idx),
        _ => get(o, key),
    }
}

fn choice_delta_of(v: &Json) -> (r: Option<&Json>)
    ensures
        opt_ref(r) == choice_delta(*v),
{
    get(pointer_index(get(Some(v), "choices"), "0", 0), "delta")
}

fn reasoning_text(d: &Json) -> (r: Option<&str>)
    ensures
        match r {
            Some(s) => reasoning_of(*d) == Some(s@),
            None => reasoning_of(*d) is None,
        },
{
    match nonempty_str(get(Some(d), "reasoning_content")) {
        Some(s) => Some(s),
        None => match nonempty_str(get(Some(d), "reasoning")) {
            Some(s) => Some(s),
            None => nonempty_str(get(Some(d), "thought")),
        },
    }
}

fn push_content(content: &mut String, sink: &mut Vec<Delta>, c: &str)
    ensures
        final(content)@ == old(content)@ + c@,
        deltas_view(final(sink)@) == deltas_view(old(sink)@).push((c@, None)),
{
    *content = concat_str(content.as_str(), c);
    let ghost before = sink@;
    sink.push(Delta { text: owned(c), reasoning: None });
    assert(deltas_view(sink@) =~= deltas_view(before).push((c@, None)));
}

fn push_reasoning(reasoning: &mut String, sink: &mut Vec<Delta>, r: &str)
    ensures
        final(reasoning)@ == old(reasoning)@ + r@,
        deltas_view(final(sink)@) == deltas_view(old(sink)@).push((Seq::empty(), Some(r@))),
{
    *reasoning = concat_str(reasoning.as_str(), r);
    let ghost before = sink@;
    sink.push(Delta { text: String::new(), reasoning: Some(owned(r)) });
    assert(deltas_view(sink@) =~= deltas_view(before).push((Seq::empty(), Some(r@))));
}

/// Handles one line of an OpenAI-compatible stream (`data: {choices:[{delta:
/// {content, reasoning_content, tool_calls}]}` or `data: [DONE]`); pieces of
/// answer and reasoning are appended to `sink` in order (see
/// `openai_line_spec`).
pub fn handle_openai_line(
    line: &str,
    content: &mut String,
    reasoning: &mut String,
    usage: &mut Option<TokenUsage>,
    tools: &mut ToolAccumulator,
    sink: &mut Vec<Delta>,
)
    ensures
        stream_of(*final(content), *final(reasoning), *final(usage), final(tools)@, final(sink)@) == openai_line_spec(
            line@,
            stream_of(*old(content), *old(reasoning), *old(usage), old(tools)@, old(sink)@),
        ),
{
    let data = match data_payload(line) {
        Some(d) => d,
        None => return ,
    };
    if crate::text::str_eq(data.as_str(), "[DONE]") {
        return ;
    }
    let v = match parse_json(data.as_str()) {
        Some(v) => v,
        None => return ,
    };
    match parse_usage(&v) {
        Some(u) => {
            *usage = Some(u);
        },
        None => {},
    }
    match choice_delta_of(&v) {
        None => {},
        Some(dv) => {
            match nonempty_str(get(Some(dv), "content")) {
                Some(c) => push_content(content, sink, c),
                None => {},
            }
            match reasoning_text(dv) {
                Some(r) => push_reasoning(reasoning, sink, r),
                None => {},
            }
            tools.apply_openai_delta(dv);
        },
    }
}

} // verus!

verus! {

/// The usage an Anthropic `message_delta` leaves: the output tokens added to
/// what `message_start` reported.
pub open spec fn usage_with_output(u: Option<TokenUsage>, c: i64) -> TokenUsage {
    match u {
        Some(x) => TokenUsage {
            prompt_tokens: x.prompt_tokens,
            completion_tokens: c,
            total_tokens: x.prompt_tokens.wrapping_add(c),
        },
        None => TokenUsage { prompt_tokens: 0, completion_tokens: c, total_tokens: c },
    }
}

/// An Anthropic stream line applied to what was gathered: text and thinking
/// deltas, the input tokens of `message_start`, the output tokens of
/// `message_delta`, and tool-use blocks.
pub open spec fn anthropic_line_spec(line: Seq<char>, s: StreamView) -> StreamView {
    match data_of(line) {
        None => s,
        Some(d) => match json_of_text(d) {
            None => s,
            Some(v) => {
                let s1 = with_tools(s, anthropic_event_spec(s.tools, v, index_of(field(Some(v), "index"@))));
                let kind = text(field(Some(v), "type"@));
                if kind == Some("content_block_delta"@) {
                    let delta = field(Some(v), "delta"@);
                    let dk = text(field(delta, "type"@));
                    if dk == Some("text_delta"@) {
                        match nonempty_text(field(delta, "text"@)) {
                            Some(t) => with_content(s1, t),
                            None => s1,
                        }
                    } else if dk == Some("thinking_delta"@) {
                        match nonempty_text(field(delta, "thinking"@)) {
                            Some(t) => with_reasoning(s1, t),
                            None => s1,
                        }
                    } else {
                        s1
                    }
                } else if kind == Some("message_start"@) {
                    let u = field(field(Some(v), "message"@), "usage"@);
                    if u is Some {
                        let p: i64 = match int64(field(u, "input_tokens"@)) {
                            Some(x) => x,
                            None => 0,
                        };
                        with_usage(s1, TokenUsage { prompt_tokens: p, completion_tokens: 0, total_tokens: p })
                    } else {
                        s1
                    }
                } else if kind == Some("message_delta"@) {
                    match int64(field(field(Some(v), "usage"@), "output_tokens"@)) {
                        Some(c) => with_usage(s1, usage_with_output(s1.usage, c)),
                        None => s1,
                    }
                } else {
                    s1
                }
            },
        },
    }
}

fn index_value(o: Option<&Json>) -> (r: usize)
    ensures
        r as int == index_of(opt_ref(o)),
{
    match as_u64(o) {
        Some(n) => n as usize,
        None => 0,
    }
}

fn str_is(o: Option<&str>, lit: &str) -> (r: bool)
    ensures
        r == (crate::skills::opt_str_view(o) == Some(lit@)),
{
    match o {
        Some(s) => crate::text::str_eq(s, lit),
        None => false,
    }
}

/// Handles one line of an Anthropic stream (see `anthropic_line_spec`).
pub fn handle_anthropic_line(
    line: &str,
    content: &mut String,
    reasoning: &mut String,
    usage: &mut Option<TokenUsage>,
    tools: &mut ToolAccumulator,
    sink: &mut Vec<Delta>,
)
    ensures
        stream_of(*final(content), *final(reasoning), *final(usage), final(tools)@, final(sink)@) == anthropic_line_spec(
            line@,
            stream_of(*old(content), *old(reasoning), *old(usage), old(tools)@, old(sink)@),
        ),
{
    let data = match data_payload(line) {
        Some(d) => d,
        None => return ,
    };
    let v = match parse_json(data.as_str()) {
        Some(v) => v,
        None => return ,
    };
    let block = index_value(get(Some(&v), "index"));
    tools.apply_anthropic_event(&v, block);
    let kind = as_str(get(Some(&v), "type"));
    if str_is(kind, "content_block_delta") {
        let delta = get(Some(&v), "delta");
        let dk = as_str(get(delta, "type"));
        if str_is(dk, "text_delta") {
            match nonempty_str(get(delta, "text")) {
                Some(t) => push_content(content, sink, t),
                None => {},
            }
        } else if str_is(dk, "thinking_delta") {
            match nonempty_str(get(delta, "thinking")) {
                Some(t) => push_reasoning(reasoning, sink, t),
                None => {},
            }
        }
    } else if str_is(kind, "message_start") {
        let u = get(get(Some(&v), "message"), "usage");
        if u.is_some() {
            let p: i64 = match as_i64(get(u, "input_tokens")) {
                Some(x) => x,
                None => 0,
            };
            *usage = Some(TokenUsage { prompt_tokens: p, completion_tokens: 0, total_tokens: p });
        }
    } else if str_is(kind, "message_delta") {
        match as_i64(get(get(Some(&v), "usage"), "output_tokens")) {
            Some(c) => {
                let next = match usage {
                    Some(x) => TokenUsage {
                        prompt_tokens: x.prompt_tokens,
                        completion_tokens: c,
                        total_tokens: x.prompt_tokens.wrapping_add(c),
                    },
                    None => TokenUsage { prompt_tokens: 0, completion_tokens: c, total_tokens: c },
                };
                *usage = Some(next);
            },
            None => {},
        }
    }
}

/// The reasoning of a Response API fallback delta: the first of
/// `reasoning_content`, `reasoning`, `thought` that is present, when it is a
/// non-empty string.
pub open spec fn present_reasoning(d: Json) -> Option<Seq<char>> {
    let first = match field(Some(d), "reasoning_content"@) {
        Some(x) => Some(x),
        None => match field(Some(d), "reasoning"@) {
            Some(x) => Some(x),
            None => field(Some(d), "thought"@),
        },
    };
    nonempty_text(first)
}

/// An OpenAI Response API event applied to what was gathered: text and
/// argument deltas, reasoning deltas, function-call items, and plain chat
/// deltas from endpoints that answer in the chat format.
pub open spec fn response_event_spec(v: Json, s1: StreamView) -> StreamView {
    let kind = crate::skills::seq_or(text(field(Some(v), "type"@)), Seq::empty());
    let idx = index_of(field(Some(v), "output_index"@));
    if kind == "response.output_item.delta"@ {
        let delta = field(Some(v), "delta"@);
        if delta is None {
            s1
        } else {
            let s2 = match nonempty_text(field(delta, "text"@)) {
                Some(t) => with_content(s1, t),
                None => s1,
            };
            match text(field(delta, "arguments"@)) {
                Some(a) => with_tools(s2, apply_parts(s2.tools, idx, None, None, Some(a))),
                None => s2,
            }
        }
    } else if kind == "response.reasoning.delta"@ {
        match nonempty_text(field(field(Some(v), "delta"@), "text"@)) {
            Some(t) => with_reasoning(s1, t),
            None => s1,
        }
    } else if kind == "response.output_item.added"@ {
        let it = field(Some(v), "item"@);
        if text(field(it, "type"@)) == Some("function_call"@) {
            let cid = match field(it, "call_id"@) {
                Some(x) => text(Some(x)),
                None => text(field(it, "id"@)),
            };
            with_tools(
                s1,
                apply_parts(
                    s1.tools,
                    idx,
                    Some(crate::skills::seq_or(cid, Seq::empty())),
                    Some(crate::skills::seq_or(text(field(it, "name"@)), Seq::empty())),
                    Some(Seq::empty()),
                ),
            )
        } else {
            s1
        }
    } else {
        match choice_delta(v) {
            None => s1,
            Some(dv) => {
                let s2 = match nonempty_text(field(Some(dv), "content"@)) {
                    Some(c) => with_content(s1, c),
                    None => s1,
                };
                let s3 = match present_reasoning(dv) {
                    Some(r) => with_reasoning(s2, r),
                    None => s2,
                };
                with_tools(s3, openai_delta_spec(s3.tools, dv))
            },
        }
    }
}

/// An OpenAI Response API stream line applied to what was gathered.
pub open spec fn response_line_spec(line: Seq<char>, s: StreamView) -> StreamView {
    match data_of(line) {
        None => s,
        Some(d) => if d == "[DONE]"@ {
            s
        } else {
            match json_of_text(d) {
                None => s,
                Some(v) => response_event_spec(
                    v,
                    match usage_spec(v) {
                        Some(u) => with_usage(s, u),
                        None => s,
                    },
                ),
            }
        },
    }
}

fn present_reasoning_text(d: &Json) -> (r: Option<&str>)
    ensures
        match r {
            Some(s) => present_reasoning(*d) == Some(s@),
            None => present_reasoning(*d) is None,
        },
{
    let first = match get(Some(d), "reasoning_content") {
        Some(x) => Some(x),
        None => match get(Some(d), "reasoning") {
            Some(x) => Some(x),
            None => get(Some(d), "thought"),
        },
    };
    nonempty_str(first)
}

fn apply_response_event(
    v: &Json,
    content: &mut String,
    reasoning: &mut String,
    usage: &Option<TokenUsage>,
    tools: &mut ToolAccumulator,
    sink: &mut Vec<Delta>,
)
    ensures
        stream_of(*final(content), *final(reasoning), *usage, final(tools)@, final(sink)@) == response_event_spec(
            *v,
            stream_of(*old(content), *old(reasoning), *usage, old(tools)@, old(sink)@),
        ),
{
    let kind = match as_str(get(Some(v), "type")) {
        Some(k) => k,
        None => "",
    };
    proof {
        reveal_strlit("");
    }
    let idx = index_value(get(Some(v), "output_index"));
    assert(kind@ == crate::skills::seq_or(text(field(Some(*v), "type"@)), Seq::empty()));
    assert(idx as int == index_of(field(Some(*v), "output_index"@)));
    if crate::text::str_eq(kind, "response.output_item.delta") {
        let delta = get(Some(v), "delta");
        if delta.is_some() {
            match nonempty_str(get(delta, "text")) {
                Some(t) => push_content(content, sink, t),
                None => {},
            }
            match as_str(get(delta, "arguments")) {
                Some(a) => tools.add_parts(idx, None, None, Some(a)),
                None => {},
            }
        }
    } else if crate::text::str_eq(kind, "response.reasoning.delta") {
        match nonempty_str(get(get(Some(v), "delta"), "text")) {
            Some(t) => push_reasoning(reasoning, sink, t),
            None => {},
        }
    } else if crate::text::str_eq(kind, "response.output_item.added") {
        let it = get(Some(v), "item");
        if str_is(as_str(get(it, "type")), "function_call") {
            let cid = match get(it, "call_id") {
                Some(x) => as_str(Some(x)),
                None => as_str(get(it, "id")),
            };
            let cid_text = match cid {
                Some(s) => s,
                None => "",
            };
            let name = match as_str(get(it, "name")) {
                Some(s) => s,
                None => "",
            };
            tools.add_parts(idx, Some(cid_text), Some(name), Some(""));
        }
    } else {
        match choice_delta_of(v) {
            None => {},
            Some(dv) => {
                match nonempty_str(get(Some(dv), "content")) {
                    Some(c) => push_content(content, sink, c),
                    None => {},
                }
                match present_reasoning_text(dv) {
                    Some(r) => push_reasoning(reasoning, sink, r),
                    None => {},
                }
                tools.apply_openai_delta(dv);
            },
        }
    }
}

/// Handles one line of an OpenAI Response API stream (see
/// `response_line_spec`).
pub fn handle_openai_response_line(
    line: &str,
    content: &mut String,
    reasoning: &mut String,
    usage: &mut Option<TokenUsage>,
    tools: &mut ToolAccumulator,
    sink: &mut Vec<Delta>,
)
    ensures
        stream_of(*final(content), *final(reasoning), *final(usage), final(tools)@, final(sink)@) == response_line_spec(
            line@,
            stream_of(*old(content), *old(reasoning), *old(usage), old(tools)@, old(sink)@),
        ),
{
    let data = match data_payload(line) {
        Some(d) => d,
        None => return ,
    };
    if crate::text::str_eq(data.as_str(), "[DONE]") {
        return ;
    }
    let v = match parse_json(data.as_str()) {
        Some(v) => v,
        None => return ,
    };
    match parse_usage(&v) {
        Some(u) => {
            *usage = Some(u);
        },
        None => {},
    }
    apply_response_event(&v, content, reasoning, usage, tools, sink);
}

} // verus!

verus! {

// ---------- whole answers ----------

/// A whole (not streamed) answer: text, reasoning, usage and tool calls.
pub struct AnswerView {
    pub content: Seq<char>,
    pub reasoning: Option<Seq<char>>,
    pub usage: Option<TokenUsage>,
    pub calls: Seq<Piece>,
}

pub open spec fn non_empty_view(s: Seq<char>) -> Option<Seq<char>> {
    if s.len() > 0 {
        Some(s)
    } else {
        None
    }
}

pub open spec fn text_or_empty(o: Option<Json>) -> Seq<char> {
    crate::skills::seq_or(text(o), Seq::empty())
}

/// The text, thinking and tool-use blocks of an Anthropic answer, in order.
pub open spec fn anthropic_blocks(bs: Seq<Json>) -> (Seq<char>, Seq<char>, Seq<Piece>)
    decreases bs.len(),
{
    if bs.len() == 0 {
        (Seq::empty(), Seq::empty(), Seq::empty())
    } else {
        let (c, r, t) = anthropic_blocks(bs.drop_last());
        let b = Some(bs.last());
        let kind = text(field(b, "type"@));
        if kind == Some("text"@) {
            (append_opt(c, text(field(b, "text"@))), r, t)
        } else if kind == Some("thinking"@) {
            (c, append_opt(r, text(field(b, "thinking"@))), t)
        } else if kind == Some("tool_use"@) {
            (
                c,
                r,
                t.push(
                    (
                        text_or_empty(field(b, "id"@)),
                        text_or_empty(field(b, "name"@)),
                        match field(b, "input"@) {
                            Some(x) => crate::json::json_text(x),
                            None => Seq::empty(),
                        },
                    ),
                ),
            )
        } else {
            (c, r, t)
        }
    }
}

/// An Anthropic answer: its blocks, and the usage with the total as the sum.
pub open spec fn anthropic_answer(v: Json) -> AnswerView {
    let bs = match elements(field(Some(v), "content"@)) {
        Some(b) => b,
        None => Seq::empty(),
    };
    let (c, r, t) = anthropic_blocks(bs);
    let u = field(Some(v), "usage"@);
    AnswerView {
        content: c,
        reasoning: non_empty_view(r),
        usage: if u is Some {
            let p: i64 = match int64(field(u, "input_tokens"@)) {
                Some(x) => x,
                None => 0,
            };
            let o: i64 = match int64(field(u, "output_tokens"@)) {
                Some(x) => x,
                None => 0,
            };
            Some(TokenUsage { prompt_tokens: p, completion_tokens: o, total_tokens: p.wrapping_add(o) })
        } else {
            None
        },
        calls: t,
    }
}

/// The text of the `text` parts of a Response API message.
pub open spec fn message_parts_text(ps: Seq<Json>) -> Seq<char>
    decreases ps.len(),
{
    if ps.len() == 0 {
        Seq::empty()
    } else {
        let p = Some(ps.last());
        let prev = message_parts_text(ps.drop_last());
        if text(field(p, "type"@)) == Some("text"@) {
            append_opt(prev, text(field(p, "text"@)))
        } else {
            prev
        }
    }
}

/// The message text and function calls of a Response API `output`, in order.
pub open spec fn response_items(items: Seq<Json>) -> (Seq<char>, Seq<Piece>)
    decreases items.len(),
{
    if items.len() == 0 {
        (Seq::empty(), Seq::empty())
    } else {
        let (c, t) = response_items(items.drop_last());
        let it = Some(items.last());
        let kind = text_or_empty(field(it, "type"@));
        if kind == "message"@ {
            let ps = match elements(field(it, "content"@)) {
                Some(p) => p,
                None => Seq::empty(),
            };
            (c + message_parts_text(ps), t)
        } else if kind == "function_call"@ {
            let id = match field(it, "call_id"@) {
                Some(x) => text(Some(x)),
                None => text(field(it, "id"@)),
            };
            (
                c,
                t.push(
                    (
                        crate::skills::seq_or(id, Seq::empty()),
                        text_or_empty(field(it, "name"@)),
                        crate::skills::seq_or(text(field(it, "arguments"@)), seq!['{', '}']),
                    ),
                ),
            )
        } else {
            (c, t)
        }
    }
}

/// `/choices/0/message/<key>` of an answer.
pub open spec fn choice_message(v: Json, key: Seq<char>) -> Option<Json> {
    field(field(pointer_step(field(Some(v), "choices"@), "0"@, 0), "message"@), key)
}

/// A Response API answer: the message parts (or, when they hold no text,
/// the chat-format message), the function calls, and the usage.
pub open spec fn response_answer(v: Json) -> AnswerView {
    let items = match elements(field(Some(v), "output"@)) {
        Some(i) => i,
        None => Seq::empty(),
    };
    let (c, t) = response_items(items);
    AnswerView {
        content: if c.len() == 0 {
            match text(choice_message(v, "content"@)) {
                Some(x) => x,
                None => c,
            }
        } else {
            c
        },
        reasoning: None,
        usage: usage_spec(v),
        calls: t,
    }
}

/// The named tool calls of a chat-format message, in order.
pub open spec fn chat_calls(tcs: Seq<Json>) -> Seq<Piece>
    decreases tcs.len(),
{
    if tcs.len() == 0 {
        Seq::empty()
    } else {
        let prev = chat_calls(tcs.drop_last());
        let tc = Some(tcs.last());
        let f = field(tc, "function"@);
        match text(field(f, "name"@)) {
            Some(n) => prev.push((text_or_empty(field(tc, "id"@)), n, text_or_empty(field(f, "arguments"@)))),
            None => prev,
        }
    }
}

/// A chat-format answer: the first choice's message text, its non-empty
/// reasoning, its named tool calls, and the usage.
pub open spec fn chat_answer(v: Json) -> AnswerView {
    AnswerView {
        content: text_or_empty(choice_message(v, "content"@)),
        reasoning: match text(choice_message(v, "reasoning_content"@)) {
            Some(r) => non_empty_view(r),
            None => None,
        },
        usage: usage_spec(v),
        calls: match elements(choice_message(v, "tool_calls"@)) {
            Some(tcs) => chat_calls(tcs),
            None => Seq::empty(),
        },
    }
}

/// How a whole answer reads for each API family.
pub open spec fn answer_spec(kind: crate::models::ProviderType, v: Json) -> AnswerView {
    match kind {
        crate::models::ProviderType::Anthropic => anthropic_answer(v),
        crate::models::ProviderType::OpenAiResponse => response_answer(v),
        _ => chat_answer(v),
    }
}

/// A whole answer read into text, reasoning, usage and tool calls.
#[derive(Debug)]
pub struct Answer {
    pub content: String,
    pub reasoning: Option<String>,
    pub usage: Option<TokenUsage>,
    pub calls: Vec<ToolCall>,
}

pub open spec fn answer_view(a: Answer) -> AnswerView {
    AnswerView {
        content: a.content@,
        reasoning: crate::skills::opt_view(a.reasoning),
        usage: a.usage,
        calls: calls_view(a.calls@),
    }
}

fn text_or_blank(o: Option<&Json>) -> (r: String)
    ensures
        r@ == text_or_empty(opt_ref(o)),
{
    match as_str(o) {
        Some(s) => owned(s),
        None => String::new(),
    }
}

fn push_call(calls: &mut Vec<ToolCall>, id: String, name: String, arguments: String)
    ensures
        calls_view(final(calls)@) == calls_view(old(calls)@).push((id@, name@, arguments@)),
{
    let ghost before = calls@;
    calls.push(ToolCall { id, name, arguments });
    assert(calls_view(calls@) =~= calls_view(before).push((calls@.last().id@, calls@.last().name@, calls@.last().arguments@)));
}

fn read_anthropic(v: &Json) -> (r: Answer)
    ensures
        answer_view(r) == anthropic_answer(*v),
{
    let mut content = String::new();
    let mut reasoning = String::new();
    let mut calls: Vec<ToolCall> = Vec::new();
    match as_array(get(Some(v), "content")) {
        Some(bs) => {
            let mut i: usize = 0;
            assert(bs@.take(0) =~= Seq::<Json>::empty());
            assert(calls_view(calls@) =~= Seq::<Piece>::empty());
            while i < bs.len()
                invariant
                    i <= bs.len(),
                    (content@, reasoning@, calls_view(calls@)) == anthropic_blocks(bs@.take(i as int)),
                decreases bs.len() - i,
            {
                assert(bs@.take(i + 1).drop_last() == bs@.take(i as int));
                let b = Some(&bs[i]);
                let kind = as_str(get(b, "type"));
                if str_is(kind, "text") {
                    match as_str(get(b, "text")) {
                        Some(t) => { content = concat_str(content.as_str(), t); },
                        None => {},
                    }
                } else if str_is(kind, "thinking") {
                    match as_str(get(b, "thinking")) {
                        Some(t) => { reasoning = concat_str(reasoning.as_str(), t); },
                        None => {},
                    }
                } else if str_is(kind, "tool_use") {
                    let args = match get(b, "input") {
                        Some(x) => crate::json::to_json_string(x),
                        None => String::new(),
                    };
                    push_call(&mut calls, text_or_blank(get(b, "id")), text_or_blank(get(b, "name")), args);
                }
                i = i + 1;
            }
            assert(bs@.take(bs.len() as int) == bs@);
        },
        None => {
            assert(calls_view(calls@) =~= Seq::<Piece>::empty());
        },
    }
    let u = get(Some(v), "usage");
    let usage = if u.is_some() {
        let p: i64 = match as_i64(get(u, "input_tokens")) {
            Some(x) => x,
            None => 0,
        };
        let o: i64 = match as_i64(get(u, "output_tokens")) {
            Some(x) => x,
            None => 0,
        };
        Some(TokenUsage { prompt_tokens: p, completion_tokens: o, total_tokens: p.wrapping_add(o) })
    } else {
        None
    };
    let r = if reasoning.as_str().is_empty() {
        None
    } else {
        Some(reasoning)
    };
    Answer { content, reasoning: r, usage, calls }
}

fn parts_text(ps: &Vec<Json>) -> (r: String)
    ensures
        r@ == message_parts_text(ps@),
{
    let mut out = String::new();
    let mut i: usize = 0;
    while i < ps.len()
        invariant
            i <= ps.len(),
            out@ == message_parts_text(ps@.take(i as int)),
        decreases ps.len() - i,
    {
        assert(ps@.take(i + 1).drop_last() == ps@.take(i as int));
        let p = Some(&ps[i]);
        if str_is(as_str(get(p, "type")), "text") {
            match as_str(get(p, "text")) {
                Some(t) => { out = concat_str(out.as_str(), t); },
                None => {},
            }
        }
        i = i + 1;
    }
    assert(ps@.take(ps.len() as int) == ps@);
    out
}

fn choice_message_of<'a>(v: &'a Json, key: &str) -> (r: Option<&'a Json>)
    ensures
        opt_ref(r) == choice_message(*v, key@),
{
    get(get(pointer_index(get(Some(v), "choices"), "0", 0), "message"), key)
}

fn read_response(v: &Json) -> (r: Answer)
    ensures
        answer_view(r) == response_answer(*v),
{
    let mut content = String::new();
    let mut calls: Vec<ToolCall> = Vec::new();
    match as_array(get(Some(v), "output")) {
        Some(items) => {
            let mut i: usize = 0;
            assert(calls_view(calls@) =~= Seq::<Piece>::empty());
            while i < items.len()
                invariant
                    i <= items.len(),
                    (content@, calls_view(calls@)) == response_items(items@.take(i as int)),
                decreases items.len() - i,
            {
                assert(items@.take(i + 1).drop_last() == items@.take(i as int));
                let it = Some(&items[i]);
                let kind = text_or_blank(get(it, "type"));
                if crate::text::str_eq(kind.as_str(), "message") {
                    match as_array(get(it, "content")) {
                        Some(ps) => {
                            let t = parts_text(ps);
                            content = concat_str(content.as_str(), t.as_str());
                        },
                        None => {
                            let ghost e: Seq<Json> = Seq::empty();
                            assert(message_parts_text(e) =~= Seq::<char>::empty());
                            assert(content@ + message_parts_text(e) =~= content@);
                        },
                    }
                } else if crate::text::str_eq(kind.as_str(), "function_call") {
                    let id = match get(it, "call_id") {
                        Some(x) => as_str(Some(x)),
                        None => as_str(get(it, "id")),
                    };
                    let id_text = match id {
                        Some(s) => owned(s),
                        None => String::new(),
                    };
                    let args = match as_str(get(it, "arguments")) {
                        Some(s) => owned(s),
                        None => {
                            let b = vec!['{', '}'];
                            string_of(b.as_slice())
                        },
                    };
                    push_call(&mut calls, id_text, text_or_blank(get(it, "name")), args);
                }
                i = i + 1;
            }
            assert(items@.take(items.len() as int) == items@);
        },
        None => {
            assert(calls_view(calls@) =~= Seq::<Piece>::empty());
        },
    }
    if content.as_str().is_empty() {
        match as_str(choice_message_of(v, "content")) {
            Some(t) => { content = owned(t); },
            None => {},
        }
    }
    Answer { content, reasoning: None, usage: parse_usage(v), calls }
}

fn read_chat(v: &Json) -> (r: Answer)
    ensures
        answer_view(r) == chat_answer(*v),
{
    let content = text_or_blank(choice_message_of(v, "content"));
    let reasoning = match as_str(choice_message_of(v, "reasoning_content")) {
        Some(r) => if r.is_empty() {
            None
        } else {
            Some(owned(r))
        },
        None => None,
    };
    let mut calls: Vec<ToolCall> = Vec::new();
    match as_array(choice_message_of(v, "tool_calls")) {
        Some(tcs) => {
            let mut i: usize = 0;
            assert(calls_view(calls@) =~= Seq::<Piece>::empty());
            while i < tcs.len()
                invariant
                    i <= tcs.len(),
                    calls_view(calls@) == chat_calls(tcs@.take(i as int)),
                decreases tcs.len() - i,
            {
                assert(tcs@.take(i + 1).drop_last() == tcs@.take(i as int));
                let tc = Some(&tcs[i]);
                let f = get(tc, "function");
                match as_str(get(f, "name")) {
                    Some(n) => push_call(&mut calls, text_or_blank(get(tc, "id")), owned(n), text_or_blank(get(f, "arguments"))),
                    None => {},
                }
                i = i + 1;
            }
            assert(tcs@.take(tcs.len() as int) == tcs@);
        },
        None => {
            assert(calls_view(calls@) =~= Seq::<Piece>::empty());
        },
    }
    Answer { content, reasoning, usage: parse_usage(v), calls }
}

/// Reads a whole answer of the given API family (see `answer_spec`).
pub fn read_full_answer(kind: crate::models::ProviderType, v: &Json) -> (r: Answer)
    ensures
        answer_view(r) == answer_spec(kind, *v),
{
    match kind {
        crate::models::ProviderType::Anthropic => read_anthropic(v),
        crate::models::ProviderType::OpenAiResponse => read_response(v),
        _ => read_chat(v),
    }
}

} // verus!

verus! {

// ---------- stream chunks ----------

/// The text of bytes read as UTF-8 with each invalid sequence replaced by
/// U+FFFD, as `String::from_utf8_lossy` reads them.
pub uninterp spec fn lossy_text(bytes: Seq<u8>) -> Seq<char>;

/// `String::from_utf8_lossy`: the result is named, not described; it is
/// std's lossy decoding of these bytes.
#[verifier::external_body]
fn utf8_lossy(bytes: &[u8]) -> (r: String)
    ensures
        r@ == lossy_text(bytes@),
{
    String::from_utf8_lossy(bytes).into_owned()
}

/// One SSE line handled by the rules of the provider's API.
pub open spec fn line_spec(kind: ProviderType, line: Seq<char>, s: StreamView) -> StreamView {
    match kind {
        ProviderType::Anthropic => anthropic_line_spec(line, s),
        ProviderType::OpenAiResponse => response_line_spec(line, s),
        _ => openai_line_spec(line, s),
    }
}

/// One raw line of a stream: decoded, trimmed, and skipped when blank.
pub open spec fn raw_line_spec(kind: ProviderType, raw: Seq<u8>, s: StreamView) -> StreamView {
    let t = trim_spec(lossy_text(raw));
    if t.len() == 0 {
        s
    } else {
        line_spec(kind, t, s)
    }
}

/// What the received bytes `buf` give: each complete (`\n`-ended) line in
/// order, and the bytes after the last `\n`, which wait for the next chunk.
pub open spec fn feed_spec(kind: ProviderType, buf: Seq<u8>, s: StreamView) -> (StreamView, Seq<u8>)
    decreases buf.len(),
{
    match find_elem(buf, 10u8) {
        Some(i) => if 0 <= i < buf.len() {
            feed_spec(kind, buf.skip(i + 1), raw_line_spec(kind, buf.take(i), s))
        } else {
            (s, buf)
        },
        None => (s, buf),
    }
}

/// Adds a received chunk to the pending bytes `buf` and handles every line
/// that is now complete; what follows the last `\n` stays in `buf` (see
/// `feed_spec`).
pub fn feed_stream_chunk(
    kind: ProviderType,
    chunk: &[u8],
    buf: &mut Vec<u8>,
    content: &mut String,
    reasoning: &mut String,
    usage: &mut Option<TokenUsage>,
    tools: &mut ToolAccumulator,
    sink: &mut Vec<Delta>,
)
    ensures
        (stream_of(*final(content), *final(reasoning), *final(usage), final(tools)@, final(sink)@), final(buf)@)
            == feed_spec(
            kind,
            old(buf)@ + chunk@,
            stream_of(*old(content), *old(reasoning), *old(usage), old(tools)@, old(sink)@),
        ),
{
    let ghost b0 = buf@;
    let mut k: usize = 0;
    while k < chunk.len()
        invariant
            k <= chunk.len(),
            buf@ == b0 + chunk@.take(k as int),
        decreases chunk.len() - k,
    {
        buf.push(chunk[k]);
        k = k + 1;
        assert(buf@ =~= b0 + chunk@.take(k as int));
    }
    assert(chunk@.take(chunk.len() as int) == chunk@);
    let ghost all = buf@;
    let ghost s0 = stream_of(*content, *reasoning, *usage, tools@, sink@);
    let mut start: usize = 0;
    assert(all.skip(0) == all);
    loop
        invariant
            start <= buf.len(),
            buf@ == all,
            feed_spec(kind, all, s0) == feed_spec(
                kind,
                all.skip(start as int),
                stream_of(*content, *reasoning, *usage, tools@, sink@),
            ),
        ensures
            start <= buf.len(),
            buf@ == all,
            feed_spec(kind, all, s0) == (
                stream_of(*content, *reasoning, *usage, tools@, sink@),
                all.skip(start as int),
            ),
        decreases buf.len() - start,
    {
        let mut j: usize = start;
        while j < buf.len() && buf[j] != 10u8
            invariant
                start <= j <= buf.len(),
                buf@ == all,
                forall|q: int| start <= q < j ==> all[q] != 10u8,
            decreases buf.len() - j,
        {
            j = j + 1;
        }
        let ghost rem = all.skip(start as int);
        let ghost cur = stream_of(*content, *reasoning, *usage, tools@, sink@);
        if j == buf.len() {
            proof {
                crate::text::lemma_find_elem_is(rem, 10u8, rem.len() as int);
            }
            break;
        }
        proof {
            crate::text::lemma_find_elem_is(rem, 10u8, j - start);
            assert(rem.skip(j - start + 1) =~= all.skip(j + 1));
            assert(rem.take(j - start) =~= all.subrange(start as int, j as int));
        }
        let raw = vstd::slice::slice_subrange(buf.as_slice(), start, j);
        let text = utf8_lossy(raw);
        let t = crate::text::trim_str(text.as_str());
        let tc = chars_of(t.as_str());
        if tc.len() > 0 {
            match kind {
                ProviderType::Anthropic => handle_anthropic_line(t.as_str(), content, reasoning, usage, tools, sink),
                ProviderType::OpenAiResponse => handle_openai_response_line(
                    t.as_str(),
                    content,
                    reasoning,
                    usage,
                    tools,
                    sink,
                ),
                _ => handle_openai_line(t.as_str(), content, reasoning, usage, tools, sink),
            }
        }
        assert(stream_of(*content, *reasoning, *usage, tools@, sink@) == raw_line_spec(kind, rem.take(j - start), cur));
        start = j + 1;
    }
    let mut rest: Vec<u8> = Vec::new();
    let mut p: usize = start;
    while p < buf.len()
        invariant
            start <= p <= buf.len(),
            buf@ == all,
            rest@ == all.subrange(start as int, p as int),
        decreases buf.len() - p,
    {
        rest.push(buf[p]);
        p = p + 1;
        assert(rest@ =~= all.subrange(start as int, p as int));
    }
    assert(rest@ =~= all.skip(start as int));
    *buf = rest;
}

/// Where a stream is cut into chunks does not matter: feeding `a` and then
/// `b` (after what `a` left pending) handles the same lines, with the same
/// result and the same pending bytes, as feeding `a + b` at once.
pub proof fn lemma_chunk_boundaries(kind: ProviderType, a: Seq<u8>, b: Seq<u8>, s: StreamView)
    ensures
        feed_spec(kind, feed_spec(kind, a, s).1 + b, feed_spec(kind, a, s).0) == feed_spec(kind, a + b, s),
    decreases a.len(),
{
    crate::text::lemma_find_elem(a, 10u8);
    match find_elem(a, 10u8) {
        Some(i) => {
            crate::text::lemma_find_elem_is(a + b, 10u8, i);
            assert((a + b).skip(i + 1) =~= a.skip(i + 1) + b);
            assert((a + b).take(i) =~= a.take(i));
            lemma_chunk_boundaries(kind, a.skip(i + 1), b, raw_line_spec(kind, a.take(i), s));
        },
        None => {},
    }
}

} // verus!
