//! MCP servers (Model Context Protocol over stdio JSON-RPC): what a server
//! entry holds, the messages the client sends, how a reply is matched to its
//! request, which connected server a tool call goes to, and how a tool's
//! output becomes text.

use vstd::prelude::*;
use crate::json::{as_array, as_str, as_u64, field, get, json_text, text, to_json_string, uint64, Json, JsonNumber};
use crate::request::{is_obj, is_text, is_value, put, str_json, Expect};
use crate::text::{
    chars_of, concat_str, decimal, first_index, lemma_first_index, owned, str_eq, trim_chars, trim_spec,
};

verus! {

/// The protocol version the client announces.
pub const MCP_PROTOCOL_VERSION: &'static str = "2024-11-05";

/// A tool a server offers.
#[derive(Debug)]
pub struct McpTool {
    pub name: String,
    pub description: Option<String>,
    pub input_schema: Option<Json>,
}

/// A configured server as the front end lists it.
#[derive(Debug)]
pub struct McpServerInfo {
    pub id: String,
    pub name: String,
    /// Only `stdio` can be connected.
    pub transport: String,
    pub command: Option<String>,
    pub args: Vec<String>,
    pub env: Option<Json>,
    pub url: Option<String>,
    /// `connected`, `disconnected` or `error`.
    pub status: String,
    pub tools: Vec<McpTool>,
    pub error_message: Option<String>,
}

/// A server entry as the front end saves it.
#[derive(Debug)]
pub struct McpServerInput {
    pub id: Option<String>,
    pub name: String,
    pub transport: String,
    pub command: Option<String>,
    pub args: Option<Vec<String>>,
    pub env: Option<Json>,
    pub url: Option<String>,
}

// ---------- connecting ----------

/// Refuses a transport other than `stdio`.
pub fn check_transport(transport: &str) -> (r: Result<(), String>)
    ensures
        r is Ok <==> transport@ == "stdio"@,
        r matches Err(e) ==> e@ == "当前仅支持 stdio 传输"@,
{
    if str_eq(transport, "stdio") {
        Ok(())
    } else {
        Err(owned("当前仅支持 stdio 传输"))
    }
}

/// The command that starts a stdio server; a server without one is refused.
pub fn stdio_command(server: &McpServerInfo) -> (r: Result<&String, String>)
    ensures
        match server.command {
            Some(c) => r == Ok::<&String, String>(&c),
            None => r matches Err(e) && e@ == "stdio 传输需要配置 command"@,
        },
{
    match &server.command {
        Some(c) => Ok(c),
        None => Err(owned("stdio 传输需要配置 command")),
    }
}

// ---------- JSON-RPC messages ----------

/// An unsigned integer as a JSON number with its decimal text.
pub open spec fn is_uint(n: u64) -> spec_fn(Json) -> bool {
    |j: Json|
        j matches Json::Number(x) && x.uint == Some(n) && x.repr@ == decimal(n as nat) && x.int == (if n
            <= i64::MAX {
            Some(n as i64)
        } else {
            None
        })
}

fn uint_json(n: u64) -> (r: Json)
    ensures
        (is_uint(n))(r),
{
    let signed: Option<i64> = if n <= 9223372036854775807u64 {
        Some(n as i64)
    } else {
        None
    };
    Json::Number(JsonNumber { int: signed, uint: Some(n), repr: crate::text::u64_to_string(n) })
}

/// A request: `{"jsonrpc": "2.0", "id": id, "method": method, "params":
/// params}`.
pub open spec fn request_exp(id: u64, method: Seq<char>, params: Json) -> Seq<Expect> {
    seq![
        ("jsonrpc"@, is_text("2.0"@)),
        ("id"@, is_uint(id)),
        ("method"@, is_text(method)),
        ("params"@, is_value(params)),
    ]
}

/// A JSON-RPC request (see `request_exp`).
pub fn rpc_request(id: u64, method: &str, params: Json) -> (r: Json)
    ensures
        (is_obj(request_exp(id, method@, params)))(r),
{
    let ghost p = params;
    let mut ms: Vec<(String, Json)> = Vec::new();
    put(&mut ms, "jsonrpc", str_json("2.0"), Ghost(Seq::empty()), Ghost(("jsonrpc"@, is_text("2.0"@))));
    put(&mut ms, "id", uint_json(id), Ghost((seq![("jsonrpc"@, is_text("2.0"@))])), Ghost(("id"@, is_uint(id))));
    put(
        &mut ms,
        "method",
        str_json(method),
        Ghost((seq![("jsonrpc"@, is_text("2.0"@)), ("id"@, is_uint(id))])),
        Ghost(("method"@, is_text(method@))),
    );
    put(
        &mut ms,
        "params",
        params,
        Ghost((seq![("jsonrpc"@, is_text("2.0"@)), ("id"@, is_uint(id)), ("method"@, is_text(method@))])),
        Ghost(("params"@, is_value(p))),
    );
    assert(seq![
        ("jsonrpc"@, is_text("2.0"@)),
        ("id"@, is_uint(id)),
        ("method"@, is_text(method@)),
        ("params"@, is_value(p)),
    ] =~= request_exp(id, method@, p));
    Json::Object(ms)
}

pub open spec fn empty_object() -> spec_fn(Json) -> bool {
    |j: Json| j matches Json::Object(ms) && ms@.len() == 0
}

/// A notification: `{"jsonrpc": "2.0", "method": method, "params": {}}`.
pub open spec fn notification_exp(method: Seq<char>) -> Seq<Expect> {
    seq![("jsonrpc"@, is_text("2.0"@)), ("method"@, is_text(method)), ("params"@, empty_object())]
}

/// A JSON-RPC notification (see `notification_exp`).
pub fn rpc_notification(method: &str) -> (r: Json)
    ensures
        (is_obj(notification_exp(method@)))(r),
{
    let mut ms: Vec<(String, Json)> = Vec::new();
    put(&mut ms, "jsonrpc", str_json("2.0"), Ghost(Seq::empty()), Ghost(("jsonrpc"@, is_text("2.0"@))));
    put(
        &mut ms,
        "method",
        str_json(method),
        Ghost((seq![("jsonrpc"@, is_text("2.0"@))])),
        Ghost(("method"@, is_text(method@))),
    );
    let empty: Vec<(String, Json)> = Vec::new();
    put(
        &mut ms,
        "params",
        Json::Object(empty),
        Ghost((seq![("jsonrpc"@, is_text("2.0"@)), ("method"@, is_text(method@))])),
        Ghost(("params"@, empty_object())),
    );
    assert(seq![("jsonrpc"@, is_text("2.0"@)), ("method"@, is_text(method@)), ("params"@, empty_object())]
        =~= notification_exp(method@));
    Json::Object(ms)
}

/// The parameters of `initialize`: the protocol version, no capabilities,
/// and the client's name and version.
pub open spec fn initialize_exp() -> Seq<Expect> {
    seq![
        ("protocolVersion"@, is_text(MCP_PROTOCOL_VERSION@)),
        ("capabilities"@, empty_object()),
        ("clientInfo"@, is_obj(seq![("name"@, is_text("koid"@)), ("version"@, is_text("0.1.0"@))])),
    ]
}

/// The parameters of `initialize` (see `initialize_exp`).
pub fn initialize_params() -> (r: Json)
    ensures
        (is_obj(initialize_exp()))(r),
{
    let mut info: Vec<(String, Json)> = Vec::new();
    put(&mut info, "name", str_json("koid"), Ghost(Seq::empty()), Ghost(("name"@, is_text("koid"@))));
    put(
        &mut info,
        "version",
        str_json("0.1.0"),
        Ghost((seq![("name"@, is_text("koid"@))])),
        Ghost(("version"@, is_text("0.1.0"@))),
    );
    let ghost info_exp = seq![("name"@, is_text("koid"@)), ("version"@, is_text("0.1.0"@))];
    let mut ms: Vec<(String, Json)> = Vec::new();
    put(
        &mut ms,
        "protocolVersion",
        str_json(MCP_PROTOCOL_VERSION),
        Ghost(Seq::empty()),
        Ghost(("protocolVersion"@, is_text(MCP_PROTOCOL_VERSION@))),
    );
    let empty: Vec<(String, Json)> = Vec::new();
    put(
        &mut ms,
        "capabilities",
        Json::Object(empty),
        Ghost((seq![("protocolVersion"@, is_text(MCP_PROTOCOL_VERSION@))])),
        Ghost(("capabilities"@, empty_object())),
    );
    assert((is_obj(info_exp))(Json::Object(info)));
    put(
        &mut ms,
        "clientInfo",
        Json::Object(info),
        Ghost((seq![("protocolVersion"@, is_text(MCP_PROTOCOL_VERSION@)), ("capabilities"@, empty_object())])),
        Ghost(("clientInfo"@, is_obj(info_exp))),
    );
    assert(seq![
        ("protocolVersion"@, is_text(MCP_PROTOCOL_VERSION@)),
        ("capabilities"@, empty_object()),
        ("clientInfo"@, is_obj(info_exp)),
    ] =~= initialize_exp());
    Json::Object(ms)
}

// ---------- replies ----------

/// What a message from the server means for the request with id `id`.
#[derive(Debug)]
pub enum RpcReply {
    /// Not the reply to this request: keep waiting.
    Unrelated,
    /// The request's result (`null` when the reply has none).
    Result(Json),
    /// The request failed: `MCP 错误: ` and the error object's JSON text.
    Failed(String),
}

/// What a message means for request `id`: the reply is the message whose
/// `id` is that number; it fails when it has an `error` member.
pub open spec fn reply_spec(v: Json, id: u64) -> (bool, Option<Json>, Option<Json>) {
    let is_reply = uint64(field(Some(v), "id"@)) == Some(id);
    (is_reply, field(Some(v), "error"@), field(Some(v), "result"@))
}

/// Reads a message from the server as the reply to request `id` (see
/// `reply_spec`).
pub fn match_reply(v: Json, id: u64) -> (r: RpcReply)
    ensures
        !reply_spec(v, id).0 ==> r is Unrelated,
        reply_spec(v, id).0 ==> match reply_spec(v, id).1 {
            Some(err) => r matches RpcReply::Failed(m) && m@ == "MCP 错误: "@ + json_text(err),
            None => match reply_spec(v, id).2 {
                Some(res) => r == RpcReply::Result(res),
                None => r == RpcReply::Result(Json::Null),
            },
        },
{
    let is_reply = match as_u64(get(Some(&v), "id")) {
        Some(n) => n == id,
        None => false,
    };
    if !is_reply {
        return RpcReply::Unrelated;
    }
    match get(Some(&v), "error") {
        Some(err) => {
            let t = to_json_string(err);
            return RpcReply::Failed(concat_str("MCP 错误: ", t.as_str()));
        },
        None => {},
    }
    let ghost vv = v;
    match v {
        Json::Object(mut ms) => {
            let mut k: usize = 0;
            while k < ms.len()
                invariant
                    k <= ms.len(),
                    vv == Json::Object(ms),
                    forall|j: int| 0 <= j < k ==> (#[trigger] ms@[j]).0@ != "result"@,
                ensures
                    k <= ms.len(),
                    vv == Json::Object(ms),
                    forall|j: int| 0 <= j < k ==> (#[trigger] ms@[j]).0@ != "result"@,
                    k < ms.len() ==> ms@[k as int].0@ == "result"@,
                decreases ms.len() - k,
            {
                if str_eq(ms[k].0.as_str(), "result") {
                    break;
                }
                k = k + 1;
            }
            proof {
                lemma_first_index(ms@, crate::json::has_key("result"@));
            }
            if k < ms.len() {
                proof {
                    if let Some(i) = first_index(ms@, crate::json::has_key("result"@)) {
                        assert(i == k);
                    }
                }
                let m = ms.remove(k);
                RpcReply::Result(m.1)
            } else {
                proof {
                    if let Some(i) = first_index(ms@, crate::json::has_key("result"@)) {
                        assert(ms@[i].0@ == "result"@);
                    }
                }
                RpcReply::Result(Json::Null)
            }
        },
        _ => RpcReply::Result(Json::Null),
    }
}

// ---------- tool calls ----------

/// The text of a tool's output: the `text` of each `content` item that has
/// one, in order.
pub open spec fn content_text(items: Seq<Json>) -> Seq<char>
    decreases items.len(),
{
    if items.len() == 0 {
        Seq::empty()
    } else {
        content_text(items.drop_last()) + match text(field(Some(items.last()), "text"@)) {
            Some(t) => t,
            None => Seq::empty(),
        }
    }
}

/// A tool's output as text: its content texts joined, or, when they give
/// nothing, the result's JSON text.
pub open spec fn tool_output_spec(result: Json) -> Seq<char> {
    let t = match crate::json::elements(field(Some(result), "content"@)) {
        Some(items) => content_text(items),
        None => Seq::empty(),
    };
    if t.len() > 0 {
        t
    } else {
        json_text(result)
    }
}

/// A tool's output as text (see `tool_output_spec`).
pub fn tool_output_to_string(result: &Json) -> (r: String)
    ensures
        r@ == tool_output_spec(*result),
{
    let mut out = String::new();
    match as_array(get(Some(result), "content")) {
        Some(items) => {
            let mut i: usize = 0;
            while i < items.len()
                invariant
                    i <= items.len(),
                    out@ == content_text(items@.take(i as int)),
                decreases items.len() - i,
            {
                assert(items@.take(i + 1).drop_last() == items@.take(i as int));
                assert(items@.take(i + 1).last() == items@[i as int]);
                match as_str(get(Some(&items[i]), "text")) {
                    Some(t) => {
                        out = concat_str(out.as_str(), t);
                    },
                    None => {
                        assert(out@ + Seq::<char>::empty() =~= out@);
                    },
                }
                i = i + 1;
            }
            assert(items@.take(items.len() as int) == items@);
        },
        None => {},
    }
    if out.as_str().unicode_len() > 0 {
        out
    } else {
        to_json_string(result)
    }
}

pub open spec fn id_is(h: Seq<char>) -> spec_fn(Seq<char>) -> bool {
    |x: Seq<char>| x == h
}

pub open spec fn name_is(h: Seq<char>) -> spec_fn(Option<Seq<char>>) -> bool {
    |n: Option<Seq<char>>| n == Some(h)
}

/// The server a tool call goes to among the connected ones (`ids`, with
/// the configured name of each in `names`): with a hint, the server whose id
/// is the hint, else the first whose name is; without one, the first
/// connected server.
pub open spec fn server_choice_spec(ids: Seq<Seq<char>>, names: Seq<Option<Seq<char>>>, hint: Option<Seq<char>>) -> Result<int, Seq<char>> {
    if ids.len() == 0 {
        Err("没有已连接的 MCP 服务器"@)
    } else {
        match hint {
            None => Ok(0),
            Some(h) => match first_index(ids, id_is(h)) {
                Some(i) => Ok(i),
                None => match first_index(names, name_is(h)) {
                    Some(i) => if i < ids.len() {
                        Ok(i)
                    } else {
                        Err("MCP 服务器 "@ + h + " 未连接"@)
                    },
                    None => Err("MCP 服务器 "@ + h + " 未连接"@),
                },
            },
        }
    }
}

/// Chooses the server of a tool call (see `server_choice_spec`); the result
/// is a position in `ids`.
pub fn choose_server(ids: &Vec<String>, names: &Vec<Option<String>>, hint: Option<&str>) -> (r: Result<usize, String>)
    ensures
        match r {
            Ok(i) => server_choice_spec(
                crate::text::views(ids@),
                names@.map_values(|n: Option<String>| crate::skills::opt_view(n)),
                crate::skills::opt_str_view(hint),
            ) == Ok::<int, Seq<char>>(i as int) && i < ids.len(),
            Err(e) => server_choice_spec(
                crate::text::views(ids@),
                names@.map_values(|n: Option<String>| crate::skills::opt_view(n)),
                crate::skills::opt_str_view(hint),
            ) == Err::<int, Seq<char>>(e@),
        },
{
    let ghost vs = crate::text::views(ids@);
    let ghost ns = names@.map_values(|n: Option<String>| crate::skills::opt_view(n));
    if ids.len() == 0 {
        return Err(owned("没有已连接的 MCP 服务器"));
    }
    let h = match hint {
        None => return Ok(0),
        Some(h) => h,
    };
    let ghost by_id = id_is(h@);
    let mut i: usize = 0;
    while i < ids.len()
        invariant
            i <= ids.len(),
            vs == crate::text::views(ids@),
            by_id == id_is(h@),
            ids.len() > 0,
            crate::skills::opt_str_view(hint) == Some(h@),
            ns == names@.map_values(|n: Option<String>| crate::skills::opt_view(n)),
            forall|j: int| 0 <= j < i ==> !by_id(#[trigger] vs[j]),
        decreases ids.len() - i,
    {
        assert(vs[i as int] == ids@[i as int]@);
        if str_eq(ids[i].as_str(), h) {
            proof {
                crate::text::lemma_first_index_is(vs, by_id, i as int);
            }
            return Ok(i);
        }
        i = i + 1;
    }
    proof {
        crate::text::lemma_first_index_none(vs, by_id);
    }
    let ghost by_name = name_is(h@);
    let mut k: usize = 0;
    while k < names.len()
        invariant
            k <= names.len(),
            ns == names@.map_values(|n: Option<String>| crate::skills::opt_view(n)),
            by_name == name_is(h@),
            ids.len() > 0,
            crate::skills::opt_str_view(hint) == Some(h@),
            vs == crate::text::views(ids@),
            first_index(vs, id_is(h@)) is None,
            forall|j: int| 0 <= j < k ==> !by_name(#[trigger] ns[j]),
        decreases names.len() - k,
    {
        assert(ns[k as int] == crate::skills::opt_view(names@[k as int]));
        let hit = match &names[k] {
            Some(n) => str_eq(n.as_str(), h),
            None => false,
        };
        if hit {
            proof {
                crate::text::lemma_first_index_is(ns, by_name, k as int);
            }
            if k < ids.len() {
                return Ok(k);
            }
            return Err(concat_str(concat_str("MCP 服务器 ", h).as_str(), " 未连接"));
        }
        k = k + 1;
    }
    proof {
        crate::text::lemma_first_index_none(ns, by_name);
    }
    Err(concat_str(concat_str("MCP 服务器 ", h).as_str(), " 未连接"))
}

/// The arguments of a tool call: `{}` for blank text, else the text's JSON
/// value; text that is not JSON is refused with the parser's message.
pub open spec fn tool_args_spec(args: Seq<char>) -> Result<Option<Json>, Seq<char>> {
    if trim_spec(args).len() == 0 {
        Ok(None)
    } else {
        match crate::json::json_of_text(args) {
            Some(j) => Ok(Some(j)),
            None => Err("工具参数不是合法 JSON: "@ + crate::json::json_error_text(args)),
        }
    }
}

/// The arguments of a tool call (see `tool_args_spec`; `Ok(None)` there is
/// the empty object here).
pub fn tool_call_args(args: &str) -> (r: Result<Json, String>)
    ensures
        match r {
            Ok(j) => match tool_args_spec(args@) {
                Ok(Some(v)) => j == v,
                Ok(None) => j matches Json::Object(ms) && ms@.len() == 0,
                Err(_) => false,
            },
            Err(e) => tool_args_spec(args@) == Err::<Option<Json>, Seq<char>>(e@),
        },
{
    let c = chars_of(args);
    let t = trim_chars(c.as_slice());
    if t.len() == 0 {
        let empty: Vec<(String, Json)> = Vec::new();
        return Ok(Json::Object(empty));
    }
    match crate::json::parse_json_reporting(args) {
        Ok(j) => Ok(j),
        Err(e) => Err(concat_str("工具参数不是合法 JSON: ", e.as_str())),
    }
}

} // verus!
