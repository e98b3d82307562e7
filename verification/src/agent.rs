//! The agent loop: the model explores and edits the workspace through
//! tools. A round calls the model; the tool calls it returns are run and
//! their results handed back; the loop ends at an answer without tool calls
//! or after the last round. This module holds the tools' definitions, what
//! each call asks for, how results are shaped, and the loop's bookkeeping.

use vstd::prelude::*;
use crate::json::{field, get, as_str, as_u64, json_of_text, parse_json, text, uint64, Json};
use crate::models::{ToolCall, ToolResultItem};
use crate::skills::seq_or;
use crate::text::{chars_of, concat_str, owned, string_of, trim_chars, trim_spec};

verus! {

/// Most model rounds of one agent run.
pub const MAX_AGENT_ROUNDS: usize = 12;

/// A tool offered to the model: its name, what it does, and the JSON schema
/// of its arguments.
#[derive(Debug)]
pub struct ToolDef {
    pub name: String,
    pub description: String,
    pub parameters: Json,
}
pub const LIST_DIR_DESC: &'static str = "列出工作区指定目录下的文件和子目录（path 相对工作区根目录，省略表示根目录）。返回每条目的名称与类型。";
pub const LIST_DIR_PATH_DESC: &'static str = "相对工作区根目录的路径，留空表示根目录";
pub const READ_FILE_DESC: &'static str = "读取工作区指定文件的内容（path 相对工作区根目录）。支持 start_line/end_line 读取部分内容，大文件请指定行范围。文件需小于 1MB。";
pub const READ_FILE_PATH_DESC: &'static str = "相对工作区根目录的文件路径";
pub const READ_FILE_START_LINE_DESC: &'static str = "起始行号（1 起，省略表示从头）";
pub const READ_FILE_END_LINE_DESC: &'static str = "结束行号（含，省略表示到结尾）";
pub const GREP_DESC: &'static str = "在工作区文件中搜索匹配正则表达式的行（类似 grep -rn）。返回文件路径、行号与匹配行。适用于查找定义、引用、关键词。";
pub const GREP_PATTERN_DESC: &'static str = "正则表达式";
pub const GREP_FILTER_DESC: &'static str = "可选：限定文件扩展名，如 *.ts、*.rs";
pub const GLOB_DESC: &'static str = "按 glob 模式查找工作区文件路径（如 **/*.ts、src/**/*.rs）。返回匹配的文件路径列表。";
pub const GLOB_PATTERN_DESC: &'static str = "glob 模式";
pub const WRITE_FILE_DESC: &'static str = "创建或覆盖工作区文件。父目录不存在会自动创建。用于新建文件或整体重写文件。";
pub const WRITE_FILE_PATH_DESC: &'static str = "相对工作区根目录的文件路径";
pub const WRITE_FILE_CONTENT_DESC: &'static str = "完整的文件内容";
pub const EDIT_FILE_DESC: &'static str = "精确字符串替换编辑：在文件中找到唯一的 old_string 并替换为 new_string。old_string 必须唯一匹配，否则报错；请提供足够上下文保证唯一。用于修改文件局部内容。";
pub const EDIT_FILE_PATH_DESC: &'static str = "相对工作区根目录的文件路径";
pub const EDIT_FILE_OLD_STRING_DESC: &'static str = "要被替换的原文（须唯一匹配）";
pub const EDIT_FILE_NEW_STRING_DESC: &'static str = "替换后的新文本";
pub const DELETE_FILE_DESC: &'static str = "删除工作区文件（仅文件，不删目录）。";
pub const DELETE_FILE_PATH_DESC: &'static str = "相对工作区根目录的文件路径";
pub const RUN_COMMAND_DESC: &'static str = "在工作区根目录执行 shell 命令并返回退出码与输出（Windows 用 cmd /C，类 Unix 用 sh -c）。用于安装依赖、构建、运行测试、git 等开发工作流。默认超时 120 秒（最长 600 秒），超时会被终止。非零退出码不视为错误，请根据输出内容自行判断下一步。长输出的中间部分会被截断。";
pub const RUN_COMMAND_COMMAND_DESC: &'static str = "要执行的命令";
pub const RUN_COMMAND_TIMEOUT_SECONDS_DESC: &'static str = "可选：超时秒数，默认 120，最大 600";

/// The name of `grep`'s file-name filter argument.
pub open spec fn filter_key_spec() -> Seq<char> {
    seq!['i', 'n', 'c', 'l', 'u', 'd', 'e']
}

fn filter_key_name() -> (r: String)
    ensures
        r@ == filter_key_spec(),
{
    let v = vec!['i', 'n', 'c', 'l', 'u', 'd', 'e'];
    string_of(v.as_slice())
}

/// A schema property: (name, type, description).
pub type PropView = (Seq<char>, Seq<char>, Seq<char>);

pub open spec fn prop_view(m: (String, Json)) -> PropView {
    (m.0@, seq_or(text(field(Some(m.1), "type"@)), Seq::empty()), seq_or(text(field(Some(m.1), "description"@)), Seq::empty()))
}

/// The properties and required names of an object schema.
pub open spec fn schema_view(j: Json) -> Option<(Seq<PropView>, Seq<Seq<char>>)> {
    if text(field(Some(j), "type"@)) != Some("object"@) {
        None
    } else {
        match (field(Some(j), "properties"@), field(Some(j), "required"@)) {
            (Some(Json::Object(ps)), Some(Json::Array(rs))) => Some(
                (
                    ps@.map_values(|m: (String, Json)| prop_view(m)),
                    rs@.map_values(|x: Json| seq_or(text(Some(x)), Seq::empty())),
                ),
            ),
            _ => None,
        }
    }
}

pub open spec fn tool_view(t: ToolDef) -> (Seq<char>, Seq<char>, Option<(Seq<PropView>, Seq<Seq<char>>)>) {
    (t.name@, t.description@, schema_view(t.parameters))
}

/// The tools of a workspace agent, in the order the model sees them.
pub open spec fn workspace_tools_spec() -> Seq<(Seq<char>, Seq<char>, Option<(Seq<PropView>, Seq<Seq<char>>)>)> {
    seq![
        ("list_dir"@, LIST_DIR_DESC@, Some((seq![("path"@, "string"@, LIST_DIR_PATH_DESC@)], seq![]))),
        ("read_file"@, READ_FILE_DESC@, Some((seq![("path"@, "string"@, READ_FILE_PATH_DESC@), ("start_line"@, "integer"@, READ_FILE_START_LINE_DESC@), ("end_line"@, "integer"@, READ_FILE_END_LINE_DESC@)], seq!["path"@]))),
        ("grep"@, GREP_DESC@, Some((seq![("pattern"@, "string"@, GREP_PATTERN_DESC@), (filter_key_spec(), "string"@, GREP_FILTER_DESC@)], seq!["pattern"@]))),
        ("glob"@, GLOB_DESC@, Some((seq![("pattern"@, "string"@, GLOB_PATTERN_DESC@)], seq!["pattern"@]))),
        ("write_file"@, WRITE_FILE_DESC@, Some((seq![("path"@, "string"@, WRITE_FILE_PATH_DESC@), ("content"@, "string"@, WRITE_FILE_CONTENT_DESC@)], seq!["path"@, "content"@]))),
        ("edit_file"@, EDIT_FILE_DESC@, Some((seq![("path"@, "string"@, EDIT_FILE_PATH_DESC@), ("old_string"@, "string"@, EDIT_FILE_OLD_STRING_DESC@), ("new_string"@, "string"@, EDIT_FILE_NEW_STRING_DESC@)], seq!["path"@, "old_string"@, "new_string"@]))),
        ("delete_file"@, DELETE_FILE_DESC@, Some((seq![("path"@, "string"@, DELETE_FILE_PATH_DESC@)], seq!["path"@]))),
        ("run_command"@, RUN_COMMAND_DESC@, Some((seq![("command"@, "string"@, RUN_COMMAND_COMMAND_DESC@), ("timeout_seconds"@, "integer"@, RUN_COMMAND_TIMEOUT_SECONDS_DESC@)], seq!["command"@]))),
    ]
}

fn str_json(s: &str) -> (r: Json)
    ensures
        r matches Json::Str(t) && t@ == s@,
{
    Json::Str(owned(s))
}

fn prop(name: &str, kind: &str, description: &str) -> (r: (String, Json))
    ensures
        prop_view(r) == (name@, kind@, description@),
{
    let members = vec![(owned("type"), str_json(kind)), (owned("description"), str_json(description))];
    let j = Json::Object(members);
    proof {
        crate::text::lemma_first_index_is(members@, crate::json::has_key("type"@), 0);
        reveal_strlit("type");
        reveal_strlit("description");
        assert("type"@.len() == 4);
        assert("type"@ != "description"@);
        assert(members@[0].0@ == "type"@);
        assert(!(crate::json::has_key("description"@))(members@[0]));
        crate::text::lemma_first_index_is(members@, crate::json::has_key("description"@), 1);
    }
    (owned(name), j)
}

fn object_schema(props: Vec<(String, Json)>, required: Vec<&str>) -> (r: Json)
    ensures
        schema_view(r) == Some((
            props@.map_values(|m: (String, Json)| prop_view(m)),
            required@.map_values(|x: &str| x@),
        )),
{
    let mut req: Vec<Json> = Vec::new();
    let mut i: usize = 0;
    while i < required.len()
        invariant
            i <= required.len(),
            req@.map_values(|x: Json| seq_or(text(Some(x)), Seq::empty())) == required@.take(i as int).map_values(|x: &str| x@),
        decreases required.len() - i,
    {
        let ghost before = req@;
        req.push(str_json(required[i]));
        assert(required@.take(i + 1) =~= required@.take(i as int).push(required@[i as int]));
        assert(req@ =~= before.push(req@.last()));
        assert(req@.map_values(|x: Json| seq_or(text(Some(x)), Seq::empty())) =~= before.map_values(|x: Json| seq_or(text(Some(x)), Seq::empty())).push(required@[i as int]@));
        assert(req@.map_values(|x: Json| seq_or(text(Some(x)), Seq::empty())) =~= required@.take(i + 1).map_values(|x: &str| x@));
        i = i + 1;
    }
    assert(required@.take(required.len() as int) == required@);
    let members = vec![
        (owned("type"), str_json("object")),
        (owned("properties"), Json::Object(props)),
        (owned("required"), Json::Array(req)),
    ];
    proof {
        reveal_strlit("type");
        reveal_strlit("properties");
        reveal_strlit("required");
        crate::text::lemma_first_index_is(members@, crate::json::has_key("type"@), 0);
        assert("type"@.len() == 4 && "properties"@.len() == 10 && "required"@.len() == 8);
        assert("type"@ != "properties"@);
        assert("type"@ != "required"@);
        assert("properties"@ != "required"@);
        assert(members@[0].0@ == "type"@);
        assert(members@[1].0@ == "properties"@);
        assert(!(crate::json::has_key("properties"@))(members@[0]));
        crate::text::lemma_first_index_is(members@, crate::json::has_key("properties"@), 1);
        assert(!(crate::json::has_key("required"@))(members@[0]));
        assert(!(crate::json::has_key("required"@))(members@[1]));
        crate::text::lemma_first_index_is(members@, crate::json::has_key("required"@), 2);
    }
    Json::Object(members)
}

fn tool(name: &str, description: &str, parameters: Json) -> (r: ToolDef)
    ensures
        tool_view(r) == (name@, description@, schema_view(parameters)),
{
    ToolDef { name: owned(name), description: owned(description), parameters }
}

/// The workspace tools offered to the model (see `workspace_tools_spec`).
pub fn workspace_tools() -> (r: Vec<ToolDef>)
    ensures
        r@.map_values(|t: ToolDef| tool_view(t)) == workspace_tools_spec(),
{
    let p0 = vec![prop("path", "string", LIST_DIR_PATH_DESC)];
    assert(p0@.map_values(|m: (String, Json)| prop_view(m)) =~= seq![("path"@, "string"@, LIST_DIR_PATH_DESC@)]);
    let r0: Vec<&str> = vec![];
    assert(r0@.map_values(|x: &str| x@) =~= seq![]);
    let t0 = tool("list_dir", LIST_DIR_DESC, object_schema(p0, r0));
    let p1 = vec![prop("path", "string", READ_FILE_PATH_DESC), prop("start_line", "integer", READ_FILE_START_LINE_DESC), prop("end_line", "integer", READ_FILE_END_LINE_DESC)];
    assert(p1@.map_values(|m: (String, Json)| prop_view(m)) =~= seq![("path"@, "string"@, READ_FILE_PATH_DESC@), ("start_line"@, "integer"@, READ_FILE_START_LINE_DESC@), ("end_line"@, "integer"@, READ_FILE_END_LINE_DESC@)]);
    let r1: Vec<&str> = vec!["path"];
    assert(r1@.map_values(|x: &str| x@) =~= seq!["path"@]);
    let t1 = tool("read_file", READ_FILE_DESC, object_schema(p1, r1));
    let filter_key = filter_key_name();
    let p2 = vec![prop("pattern", "string", GREP_PATTERN_DESC), prop(filter_key.as_str(), "string", GREP_FILTER_DESC)];
    assert(p2@.map_values(|m: (String, Json)| prop_view(m)) =~= seq![("pattern"@, "string"@, GREP_PATTERN_DESC@), (filter_key_spec(), "string"@, GREP_FILTER_DESC@)]);
    let r2: Vec<&str> = vec!["pattern"];
    assert(r2@.map_values(|x: &str| x@) =~= seq!["pattern"@]);
    let t2 = tool("grep", GREP_DESC, object_schema(p2, r2));
    let p3 = vec![prop("pattern", "string", GLOB_PATTERN_DESC)];
    assert(p3@.map_values(|m: (String, Json)| prop_view(m)) =~= seq![("pattern"@, "string"@, GLOB_PATTERN_DESC@)]);
    let r3: Vec<&str> = vec!["pattern"];
    assert(r3@.map_values(|x: &str| x@) =~= seq!["pattern"@]);
    let t3 = tool("glob", GLOB_DESC, object_schema(p3, r3));
    let p4 = vec![prop("path", "string", WRITE_FILE_PATH_DESC), prop("content", "string", WRITE_FILE_CONTENT_DESC)];
    assert(p4@.map_values(|m: (String, Json)| prop_view(m)) =~= seq![("path"@, "string"@, WRITE_FILE_PATH_DESC@), ("content"@, "string"@, WRITE_FILE_CONTENT_DESC@)]);
    let r4: Vec<&str> = vec!["path", "content"];
    assert(r4@.map_values(|x: &str| x@) =~= seq!["path"@, "content"@]);
    let t4 = tool("write_file", WRITE_FILE_DESC, object_schema(p4, r4));
    let p5 = vec![prop("path", "string", EDIT_FILE_PATH_DESC), prop("old_string", "string", EDIT_FILE_OLD_STRING_DESC), prop("new_string", "string", EDIT_FILE_NEW_STRING_DESC)];
    assert(p5@.map_values(|m: (String, Json)| prop_view(m)) =~= seq![("path"@, "string"@, EDIT_FILE_PATH_DESC@), ("old_string"@, "string"@, EDIT_FILE_OLD_STRING_DESC@), ("new_string"@, "string"@, EDIT_FILE_NEW_STRING_DESC@)]);
    let r5: Vec<&str> = vec!["path", "old_string", "new_string"];
    assert(r5@.map_values(|x: &str| x@) =~= seq!["path"@, "old_string"@, "new_string"@]);
    let t5 = tool("edit_file", EDIT_FILE_DESC, object_schema(p5, r5));
    let p6 = vec![prop("path", "string", DELETE_FILE_PATH_DESC)];
    assert(p6@.map_values(|m: (String, Json)| prop_view(m)) =~= seq![("path"@, "string"@, DELETE_FILE_PATH_DESC@)]);
    let r6: Vec<&str> = vec!["path"];
    assert(r6@.map_values(|x: &str| x@) =~= seq!["path"@]);
    let t6 = tool("delete_file", DELETE_FILE_DESC, object_schema(p6, r6));
    let p7 = vec![prop("command", "string", RUN_COMMAND_COMMAND_DESC), prop("timeout_seconds", "integer", RUN_COMMAND_TIMEOUT_SECONDS_DESC)];
    assert(p7@.map_values(|m: (String, Json)| prop_view(m)) =~= seq![("command"@, "string"@, RUN_COMMAND_COMMAND_DESC@), ("timeout_seconds"@, "integer"@, RUN_COMMAND_TIMEOUT_SECONDS_DESC@)]);
    let r7: Vec<&str> = vec!["command"];
    assert(r7@.map_values(|x: &str| x@) =~= seq!["command"@]);
    let t7 = tool("run_command", RUN_COMMAND_DESC, object_schema(p7, r7));
    let r = vec![t0, t1, t2, t3, t4, t5, t6, t7];
    assert(r@.map_values(|t: ToolDef| tool_view(t)) =~= workspace_tools_spec());
    r
}

} // verus!

verus! {

// ---------- what a tool call asks for ----------

/// What a tool call asks the workspace to do, or why it cannot.
#[derive(Debug)]
pub enum ToolAction {
    ListDir { path: String },
    ReadFile { path: String, start: Option<usize>, end: Option<usize> },
    Grep { pattern: String, file_filter: Option<String> },
    Glob { pattern: String },
    WriteFile { path: String, content: String },
    EditFile { path: String, old_string: String, new_string: String },
    DeleteFile { path: String },
    RunCommand { command: String, timeout_secs: u64 },
    Fail { message: String },
}

/// `ToolAction` with its text as character sequences.
pub enum ActionSpec {
    ListDir { path: Seq<char> },
    ReadFile { path: Seq<char>, start: Option<usize>, end: Option<usize> },
    Grep { pattern: Seq<char>, file_filter: Option<Seq<char>> },
    Glob { pattern: Seq<char> },
    WriteFile { path: Seq<char>, content: Seq<char> },
    EditFile { path: Seq<char>, old_string: Seq<char>, new_string: Seq<char> },
    DeleteFile { path: Seq<char> },
    RunCommand { command: Seq<char>, timeout_secs: u64 },
    Fail { message: Seq<char> },
}

pub open spec fn action_spec(a: ToolAction) -> ActionSpec {
    match a {
        ToolAction::ListDir { path } => ActionSpec::ListDir { path: path@ },
        ToolAction::ReadFile { path, start, end } => ActionSpec::ReadFile { path: path@, start, end },
        ToolAction::Grep { pattern, file_filter } => ActionSpec::Grep {
            pattern: pattern@,
            file_filter: crate::skills::opt_view(file_filter),
        },
        ToolAction::Glob { pattern } => ActionSpec::Glob { pattern: pattern@ },
        ToolAction::WriteFile { path, content } => ActionSpec::WriteFile { path: path@, content: content@ },
        ToolAction::EditFile { path, old_string, new_string } => ActionSpec::EditFile {
            path: path@,
            old_string: old_string@,
            new_string: new_string@,
        },
        ToolAction::DeleteFile { path } => ActionSpec::DeleteFile { path: path@ },
        ToolAction::RunCommand { command, timeout_secs } => ActionSpec::RunCommand {
            command: command@,
            timeout_secs,
        },
        ToolAction::Fail { message } => ActionSpec::Fail { message: message@ },
    }
}

/// A string argument, empty when absent.
pub open spec fn arg_text(params: Option<Json>, key: Seq<char>) -> Seq<char> {
    seq_or(text(field(params, key)), Seq::empty())
}

/// A line-number argument as `usize`.
pub open spec fn arg_line(params: Option<Json>, key: Seq<char>) -> Option<usize> {
    match uint64(field(params, key)) {
        Some(n) => Some(n as usize),
        None => None,
    }
}

/// The timeout of `run_command`: 120 seconds when absent, kept within 1..=600.
pub open spec fn command_timeout(params: Option<Json>) -> u64 {
    let t: u64 = match uint64(field(params, "timeout_seconds"@)) {
        Some(n) => n,
        None => 120,
    };
    if t < 1 {
        1
    } else if t > 600 {
        600
    } else {
        t
    }
}

/// What a call of tool `name` with JSON arguments `args` asks for. Arguments
/// that do not parse read as absent.
pub open spec fn plan_spec(name: Seq<char>, args: Seq<char>) -> ActionSpec {
    let params = json_of_text(args);
    let path = arg_text(params, "path"@);
    if name == "list_dir"@ {
        ActionSpec::ListDir { path }
    } else if name == "read_file"@ {
        ActionSpec::ReadFile { path, start: arg_line(params, "start_line"@), end: arg_line(params, "end_line"@) }
    } else if name == "grep"@ {
        let pattern = arg_text(params, "pattern"@);
        if pattern.len() == 0 {
            ActionSpec::Fail { message: "pattern 必填"@ }
        } else {
            ActionSpec::Grep { pattern, file_filter: text(field(params, filter_key_spec())) }
        }
    } else if name == "glob"@ {
        let pattern = arg_text(params, "pattern"@);
        if pattern.len() == 0 {
            ActionSpec::Fail { message: "pattern 必填"@ }
        } else {
            ActionSpec::Glob { pattern }
        }
    } else if name == "write_file"@ {
        ActionSpec::WriteFile { path, content: arg_text(params, "content"@) }
    } else if name == "edit_file"@ {
        ActionSpec::EditFile {
            path,
            old_string: arg_text(params, "old_string"@),
            new_string: arg_text(params, "new_string"@),
        }
    } else if name == "delete_file"@ {
        ActionSpec::DeleteFile { path }
    } else if name == "run_command"@ {
        let command = arg_text(params, "command"@);
        if trim_spec(command).len() == 0 {
            ActionSpec::Fail { message: "command 必填"@ }
        } else {
            ActionSpec::RunCommand { command, timeout_secs: command_timeout(params) }
        }
    } else {
        ActionSpec::Fail { message: "未知工具: "@ + name }
    }
}

/// An `edit_file` call edits the file its `path` argument names, replacing
/// the text of its `old_string` argument with that of its `new_string`
/// argument.
pub proof fn lemma_edit_file_uses_its_arguments(
    args: Seq<char>,
    path: Seq<char>,
    old_string: Seq<char>,
    new_string: Seq<char>,
)
    requires
        text(field(json_of_text(args), "path"@)) == Some(path),
        text(field(json_of_text(args), "old_string"@)) == Some(old_string),
        text(field(json_of_text(args), "new_string"@)) == Some(new_string),
    ensures
        plan_spec("edit_file"@, args) == (ActionSpec::EditFile { path, old_string, new_string }),
{
    reveal_strlit("edit_file");
    reveal_strlit("list_dir");
    reveal_strlit("read_file");
    reveal_strlit("grep");
    reveal_strlit("glob");
    reveal_strlit("write_file");
    assert("edit_file"@.len() == 9 && "list_dir"@.len() == 8 && "read_file"@.len() == 9 && "grep"@.len() == 4
        && "glob"@.len() == 4 && "write_file"@.len() == 10);
    assert("edit_file"@ != "read_file"@) by {
        assert("edit_file"@[0] != "read_file"@[0]);
    }
}

/// A `write_file` call writes its `content` argument to the file its `path`
/// argument names.
pub proof fn lemma_write_file_uses_its_arguments(args: Seq<char>, path: Seq<char>, content: Seq<char>)
    requires
        text(field(json_of_text(args), "path"@)) == Some(path),
        text(field(json_of_text(args), "content"@)) == Some(content),
    ensures
        plan_spec("write_file"@, args) == (ActionSpec::WriteFile { path, content }),
{
    reveal_strlit("write_file");
    reveal_strlit("list_dir");
    reveal_strlit("read_file");
    reveal_strlit("grep");
    reveal_strlit("glob");
    assert("write_file"@.len() == 10 && "list_dir"@.len() == 8 && "read_file"@.len() == 9 && "grep"@.len() == 4
        && "glob"@.len() == 4);
}

fn arg_string(params: Option<&Json>, key: &str) -> (r: String)
    ensures
        r@ == arg_text(crate::json::opt_ref(params), key@),
{
    match as_str(get(params, key)) {
        Some(s) => owned(s),
        None => String::new(),
    }
}

fn arg_line_of(params: Option<&Json>, key: &str) -> (r: Option<usize>)
    ensures
        r == arg_line(crate::json::opt_ref(params), key@),
{
    match as_u64(get(params, key)) {
        Some(n) => Some(n as usize),
        None => None,
    }
}

/// Decides what a tool call asks for (see `plan_spec`).
pub fn plan_tool(call: &ToolCall) -> (r: ToolAction)
    ensures
        action_spec(r) == plan_spec(call.name@, call.arguments@),
{
    let parsed = parse_json(call.arguments.as_str());
    let params: Option<&Json> = match &parsed {
        Some(j) => Some(j),
        None => None,
    };
    assert(crate::json::opt_ref(params) == json_of_text(call.arguments@));
    let path = arg_string(params, "path");
    let name = call.name.as_str();
    if crate::text::str_eq(name, "list_dir") {
        ToolAction::ListDir { path }
    } else if crate::text::str_eq(name, "read_file") {
        ToolAction::ReadFile { path, start: arg_line_of(params, "start_line"), end: arg_line_of(params, "end_line") }
    } else if crate::text::str_eq(name, "grep") {
        let pattern = arg_string(params, "pattern");
        if pattern.as_str().is_empty() {
            ToolAction::Fail { message: owned("pattern 必填") }
        } else {
            let key = filter_key_name();
            let file_filter = match as_str(get(params, key.as_str())) {
                Some(s) => Some(owned(s)),
                None => None,
            };
            ToolAction::Grep { pattern, file_filter }
        }
    } else if crate::text::str_eq(name, "glob") {
        let pattern = arg_string(params, "pattern");
        if pattern.as_str().is_empty() {
            ToolAction::Fail { message: owned("pattern 必填") }
        } else {
            ToolAction::Glob { pattern }
        }
    } else if crate::text::str_eq(name, "write_file") {
        ToolAction::WriteFile { path, content: arg_string(params, "content") }
    } else if crate::text::str_eq(name, "edit_file") {
        ToolAction::EditFile {
            path,
            old_string: arg_string(params, "old_string"),
            new_string: arg_string(params, "new_string"),
        }
    } else if crate::text::str_eq(name, "delete_file") {
        ToolAction::DeleteFile { path }
    } else if crate::text::str_eq(name, "run_command") {
        let command = arg_string(params, "command");
        let cc = chars_of(command.as_str());
        let tc = trim_chars(cc.as_slice());
        if tc.len() == 0 {
            ToolAction::Fail { message: owned("command 必填") }
        } else {
            let t: u64 = match as_u64(get(params, "timeout_seconds")) {
                Some(n) => n,
                None => 120,
            };
            let timeout_secs: u64 = if t < 1 {
                1
            } else if t > 600 {
                600
            } else {
                t
            };
            ToolAction::RunCommand { command, timeout_secs }
        }
    } else {
        ToolAction::Fail { message: concat_str("未知工具: ", name) }
    }
}

// ---------- tool results ----------

pub open spec fn listing_line(e: (String, bool)) -> Seq<char> {
    (if e.1 {
        "[dir] "@
    } else {
        "      "@
    }) + e.0@
}

/// A directory listing as the model reads it: one line per entry, `[dir] `
/// before directories; a placeholder for an empty directory.
pub open spec fn listing_spec(items: Seq<(String, bool)>) -> Seq<char> {
    if items.len() == 0 {
        "（空目录）"@
    } else {
        crate::text::joined(items.map_values(|e: (String, bool)| listing_line(e)), "\n"@)
    }
}

/// Formats a directory listing (see `listing_spec`).
pub fn listing_text(items: &Vec<(String, bool)>) -> (r: String)
    ensures
        r@ == listing_spec(items@),
{
    if items.len() == 0 {
        return owned("（空目录）");
    }
    let mut lines: Vec<String> = Vec::new();
    let mut i: usize = 0;
    while i < items.len()
        invariant
            i <= items.len(),
            crate::text::views(lines@) == items@.take(i as int).map_values(|e: (String, bool)| listing_line(e)),
        decreases items.len() - i,
    {
        let prefix = if items[i].1 {
            "[dir] "
        } else {
            "      "
        };
        let ghost before = lines@;
        lines.push(concat_str(prefix, items[i].0.as_str()));
        assert(crate::text::views(lines@) =~= crate::text::views(before).push(listing_line(items@[i as int])));
        assert(items@.take(i + 1).map_values(|e: (String, bool)| listing_line(e)) =~= items@.take(
            i as int,
        ).map_values(|e: (String, bool)| listing_line(e)).push(listing_line(items@[i as int])));
        i = i + 1;
    }
    assert(items@.take(items.len() as int) == items@);
    crate::text::join_strings(&lines, "\n")
}

} // verus!

verus! {

// ---------- reading files ----------

/// Most lines, characters per line and bytes one `read_file` returns.
pub const MAX_LINES: usize = 2000;
pub const MAX_LINE_LEN: usize = 2000;
pub const MAX_BYTES: usize = 51200;

pub open spec fn sat_sub(a: usize, b: usize) -> usize {
    if a >= b {
        (a - b) as usize
    } else {
        0
    }
}

pub open spec fn skip_n<A>(s: Seq<A>, n: int) -> Seq<A> {
    if n >= s.len() {
        Seq::empty()
    } else {
        s.skip(n)
    }
}

pub open spec fn take_n<A>(s: Seq<A>, n: int) -> Seq<A> {
    if n >= s.len() {
        s
    } else {
        s.take(n)
    }
}

/// How many lines `start..=end` covers: `end - start + 1` (0 when `end` lies
/// before `start`, counted as 1). The one count that does not fit in
/// `usize`, lines 0 through `usize::MAX`, wraps to 0 lines.
pub open spec fn line_count(s: usize, e: usize) -> int {
    if sat_sub(e, s) == usize::MAX {
        0
    } else {
        sat_sub(e, s) + 1
    }
}

/// The part of a file `read_file` asks for: lines `start..=end` (1-based,
/// see `line_count`), from `start` to the end, or the whole file when no
/// start is given.
pub open spec fn sliced_spec(content: Seq<char>, start: Option<usize>, end: Option<usize>) -> Seq<char> {
    let ls = crate::text::lines_of(content);
    match (start, end) {
        (Some(s), Some(e)) => crate::text::joined(
            take_n(skip_n(ls, sat_sub(s, 1) as int), line_count(s, e)),
            "\n"@,
        ),
        (Some(s), None) => crate::text::joined(skip_n(ls, sat_sub(s, 1) as int), "\n"@),
        _ => content,
    }
}

/// Takes the requested lines of a file (see `sliced_spec`).
pub fn slice_file(content: &str, start: Option<usize>, end: Option<usize>) -> (r: String)
    ensures
        r@ == sliced_spec(content@, start, end),
{
    match (start, end) {
        (Some(s), Some(e)) => {
            let ls = crate::text::split_lines(content);
            let from: usize = if s >= 1 { s - 1 } else { 0 };
            let span: usize = if e >= s { e - s } else { 0 };
            let count: usize = if span == usize::MAX { 0 } else { span + 1 };
            let ghost all = crate::text::views(ls@);
            if from >= ls.len() {
                let empty: Vec<String> = Vec::new();
                assert(crate::text::views(empty@) =~= take_n(skip_n(all, from as int), count as int));
                return crate::text::join_strings(&empty, "\n");
            }
            let mut picked: Vec<String> = Vec::new();
            let mut i: usize = from;
            while i < ls.len() && i - from < count
                invariant
                    from <= i <= ls.len(),
                    all == crate::text::views(ls@),
                    crate::text::views(picked@) == all.subrange(from as int, i as int),
                    i - from <= count,
                decreases ls.len() - i,
            {
                let ghost before = picked@;
                picked.push(owned(ls[i].as_str()));
                assert(crate::text::views(picked@) =~= crate::text::views(before).push(all[i as int]));
                assert(all.subrange(from as int, i + 1) =~= all.subrange(from as int, i as int).push(all[i as int]));
                i = i + 1;
            }
            proof {
                if count >= all.len() - from {
                    assert(i == ls.len());
                    assert(crate::text::views(picked@) =~= take_n(skip_n(all, from as int), count as int));
                } else {
                    assert(i - from == count);
                    assert(crate::text::views(picked@) =~= take_n(skip_n(all, from as int), count as int));
                }
            }
            crate::text::join_strings(&picked, "\n")
        },
        (Some(s), None) => {
            let ls = crate::text::split_lines(content);
            let from: usize = if s >= 1 { s - 1 } else { 0 };
            let ghost all = crate::text::views(ls@);
            if from >= ls.len() {
                let empty: Vec<String> = Vec::new();
                assert(crate::text::views(empty@) =~= skip_n(all, from as int));
                return crate::text::join_strings(&empty, "\n");
            }
            let mut picked: Vec<String> = Vec::new();
            let mut i: usize = from;
            while i < ls.len()
                invariant
                    from <= i <= ls.len(),
                    all == crate::text::views(ls@),
                    crate::text::views(picked@) == all.subrange(from as int, i as int),
                decreases ls.len() - i,
            {
                let ghost before = picked@;
                picked.push(owned(ls[i].as_str()));
                assert(crate::text::views(picked@) =~= crate::text::views(before).push(all[i as int]));
                assert(all.subrange(from as int, i + 1) =~= all.subrange(from as int, i as int).push(all[i as int]));
                i = i + 1;
            }
            assert(crate::text::views(picked@) =~= skip_n(all, from as int));
            crate::text::join_strings(&picked, "\n")
        },
        _ => owned(content),
    }
}

/// The UTF-8 length of a character.
pub open spec fn utf8_len(c: char) -> nat {
    if (c as u32) < 0x80 {
        1
    } else if (c as u32) < 0x800 {
        2
    } else if (c as u32) < 0x10000 {
        3
    } else {
        4
    }
}

pub open spec fn utf8_size(s: Seq<char>) -> nat
    decreases s.len(),
{
    if s.len() == 0 {
        0
    } else {
        utf8_size(s.drop_last()) + utf8_len(s.last())
    }
}

pub open spec fn line_cut_note() -> Seq<char> {
    "... (line truncated to 2000 chars)"@
}

/// A line as `read_file` returns it: cut to 2000 characters with a note.
pub open spec fn capped_line(l: Seq<char>) -> Seq<char> {
    if l.len() > 2000 {
        l.take(2000) + line_cut_note()
    } else {
        l
    }
}

/// After the first `n` lines: how many were kept, their bytes, and whether
/// the limits stopped the reading.
pub open spec fn cap_state(ls: Seq<Seq<char>>, n: nat) -> (nat, nat, bool)
    decreases n,
{
    if n == 0 {
        (0, 0, false)
    } else {
        let (k, b, t) = cap_state(ls, (n - 1) as nat);
        if t {
            (k, b, t)
        } else if k >= 2000 || b >= 51200 {
            (k, b, true)
        } else {
            (k + 1, b + utf8_size(capped_line(ls[n - 1])), false)
        }
    }
}

pub open spec fn truncation_note(kept: nat) -> Seq<char> {
    "\n\n[文件已截断：以上仅前 "@ + crate::text::decimal(kept) + " 行。用 start_line/end_line 参数继续读取]"@
}

/// A file's text as `read_file` hands it to the model: at most 2000 lines,
/// 2000 characters per line and about 50 KB, with a note when cut.
pub open spec fn capped_spec(sliced: Seq<char>) -> Seq<char> {
    let ls = crate::text::lines_of(sliced);
    let (k, _b, t) = cap_state(ls, ls.len());
    crate::text::joined(ls.take(k as int).map_values(|l: Seq<char>| capped_line(l)), "\n"@) + if t {
        truncation_note(k)
    } else {
        Seq::empty()
    }
}

pub proof fn lemma_cap_state_kept(ls: Seq<Seq<char>>, n: nat)
    requires
        n <= ls.len(),
    ensures
        cap_state(ls, n).0 <= n,
        !cap_state(ls, n).2 ==> cap_state(ls, n).0 == n,
        cap_state(ls, n).0 <= 2000,
        cap_state(ls, n).1 < 51200 + 8200,
    decreases n,
{
    reveal_strlit("... (line truncated to 2000 chars)");
    if n > 0 {
        lemma_cap_state_kept(ls, (n - 1) as nat);
        lemma_utf8_size_bound(capped_line(ls[n - 1]));
        assert(capped_line(ls[n - 1]).len() <= 2034);
    }
}

pub proof fn lemma_utf8_size_bound(s: Seq<char>)
    ensures
        utf8_size(s) <= 4 * s.len(),
    decreases s.len(),
{
    if s.len() > 0 {
        lemma_utf8_size_bound(s.drop_last());
    }
}

fn char_utf8_len(c: char) -> (r: usize)
    ensures
        r as nat == utf8_len(c),
{
    let u = c as u32;
    if u < 0x80 {
        1
    } else if u < 0x800 {
        2
    } else if u < 0x10000 {
        3
    } else {
        4
    }
}

fn utf8_size_of(s: &[char]) -> (r: usize)
    requires
        s.len() <= 4000,
    ensures
        r as nat == utf8_size(s@),
        r <= 4 * s.len(),
{
    let mut total: usize = 0;
    let mut i: usize = 0;
    while i < s.len()
        invariant
            i <= s.len(),
            s.len() <= 4000,
            total as nat == utf8_size(s@.take(i as int)),
            total <= 4 * i,
        decreases s.len() - i,
    {
        assert(s@.take(i + 1).drop_last() == s@.take(i as int));
        total = total + char_utf8_len(s[i]);
        i = i + 1;
    }
    assert(s@.take(s.len() as int) == s@);
    total
}

/// Caps a file's text for the model (see `capped_spec`).
pub fn cap_file_text(sliced: &str) -> (r: String)
    ensures
        r@ == capped_spec(sliced@),
{
    let ls = crate::text::split_lines(sliced);
    let ghost all = crate::text::views(ls@);
    let mut out: Vec<String> = Vec::new();
    let mut bytes: usize = 0;
    let mut truncated = false;
    let mut i: usize = 0;
    assert(crate::text::views(out@) =~= all.take(0).map_values(|l: Seq<char>| capped_line(l)));
    while i < ls.len() && !truncated
        invariant
            i <= ls.len(),
            all == crate::text::views(ls@),
            cap_state(all, i as nat) == (out@.len() as nat, bytes as nat, truncated),
            out@.len() <= i,
            crate::text::views(out@) == all.take(out@.len() as int).map_values(|l: Seq<char>| capped_line(l)),
        decreases ls.len() - i,
    {
        proof {
            lemma_cap_state_kept(all, i as nat);
            reveal_strlit("... (line truncated to 2000 chars)");
        }
        if out.len() >= MAX_LINES || bytes >= MAX_BYTES {
            truncated = true;
            i = i + 1;
        } else {
            let lc = chars_of(ls[i].as_str());
            let line = if lc.len() > MAX_LINE_LEN {
                let head = crate::text::chars_range(lc.as_slice(), 0, MAX_LINE_LEN);
                let hs = string_of(head.as_slice());
                concat_str(hs.as_str(), "... (line truncated to 2000 chars)")
            } else {
                owned(ls[i].as_str())
            };
            assert(line@ == capped_line(all[i as int]));
            let linec = chars_of(line.as_str());
            let size = utf8_size_of(linec.as_slice());
            bytes = bytes + size;
            let ghost before = out@;
            out.push(line);
            assert(crate::text::views(out@) =~= crate::text::views(before).push(capped_line(all[i as int])));
            assert(all.take(out@.len() as int) =~= all.take(before.len() as int).push(all[i as int]));
            assert(out@.len() == i + 1);
            i = i + 1;
        }
    }
    proof {
        if truncated {
            lemma_cap_stays(all, i as nat, all.len());
        } else {
            assert(i == ls.len());
        }
    }
    let mut result = crate::text::join_strings(&out, "\n");
    if truncated {
        let n = crate::text::u64_to_string(out.len() as u64);
        let a = concat_str("\n\n[文件已截断：以上仅前 ", n.as_str());
        let b = concat_str(a.as_str(), " 行。用 start_line/end_line 参数继续读取]");
        result = concat_str(result.as_str(), b.as_str());
        assert(result@ =~= crate::text::joined(all.take(out@.len() as int).map_values(|l: Seq<char>| capped_line(l)), "\n"@) + truncation_note(out@.len() as nat));
    } else {
        assert(result@ =~= crate::text::joined(all.take(out@.len() as int).map_values(|l: Seq<char>| capped_line(l)), "\n"@) + Seq::<char>::empty());
    }
    result
}

/// Once the limits stop the reading, later lines change nothing.
pub proof fn lemma_cap_stays(ls: Seq<Seq<char>>, i: nat, n: nat)
    requires
        i <= n,
        cap_state(ls, i).0 >= 2000 || cap_state(ls, i).1 >= 51200 || cap_state(ls, i).2,
    ensures
        n > i ==> cap_state(ls, n).2,
        n > i ==> cap_state(ls, n).0 == cap_state(ls, i).0 && cap_state(ls, n).1 == cap_state(ls, i).1,
        n == i ==> cap_state(ls, n) == cap_state(ls, i),
    decreases n,
{
    if n > i {
        lemma_cap_stays(ls, i, (n - 1) as nat);
    }
}

} // verus!

verus! {

// ---------- commands ----------

/// Most characters of a command report; longer reports keep both ends.
pub const COMMAND_OUTPUT_LIMIT: usize = 20000;

/// How a command ended.
#[derive(Clone, Copy, Debug)]
pub enum CommandExit {
    /// It exited with this code (-1 when the system gave none).
    Code(i32),
    /// It ran past its timeout and was killed.
    Timeout,
    /// The user stopped it.
    Aborted,
}

pub open spec fn exit_code_of(e: CommandExit) -> int {
    match e {
        CommandExit::Code(c) => c as int,
        _ => -1,
    }
}

pub open spec fn stop_note(e: CommandExit, timeout_secs: u64) -> Option<Seq<char>> {
    match e {
        CommandExit::Code(_) => None,
        CommandExit::Timeout => Some("命令超过 "@ + crate::text::decimal(timeout_secs as nat) + " 秒被强制终止"@),
        CommandExit::Aborted => Some("已被用户停止"@),
    }
}

pub open spec fn elision_note() -> Seq<char> {
    "\n\n…[输出过长，中间已截断]…\n\n"@
}

/// The report of a command before shortening: exit code, the non-blank
/// outputs (trailing whitespace dropped), and why it was stopped.
pub open spec fn full_report(e: CommandExit, timeout_secs: u64, stdout: Seq<char>, stderr: Seq<char>) -> Seq<char> {
    "exit_code: "@ + crate::text::signed_decimal(exit_code_of(e)) + (if !crate::text::is_blank(stdout) {
        "\n--- stdout ---\n"@ + crate::text::trim_end_spec(stdout)
    } else {
        Seq::empty()
    }) + (if !crate::text::is_blank(stderr) {
        "\n--- stderr ---\n"@ + crate::text::trim_end_spec(stderr)
    } else {
        Seq::empty()
    }) + match stop_note(e, timeout_secs) {
        Some(n) => "\n（"@ + n + "）"@,
        None => Seq::empty(),
    }
}

/// The report the model reads: longer than 20000 characters, only the first
/// and last 10000 remain around a note.
pub open spec fn report_spec(e: CommandExit, timeout_secs: u64, stdout: Seq<char>, stderr: Seq<char>) -> Seq<char> {
    let c = full_report(e, timeout_secs, stdout, stderr);
    if c.len() > 20000 {
        c.take(10000) + elision_note() + c.skip(c.len() - 10000)
    } else {
        c
    }
}

/// Shapes the report of a finished command (see `report_spec`).
pub fn command_report(e: CommandExit, timeout_secs: u64, stdout: &str, stderr: &str) -> (r: String)
    ensures
        r@ == report_spec(e, timeout_secs, stdout@, stderr@),
{
    let code: i64 = match e {
        CommandExit::Code(c) => c as i64,
        _ => -1,
    };
    let mut content = concat_str("exit_code: ", crate::text::i64_to_string(code).as_str());
    let oc = chars_of(stdout);
    if !crate::text::chars_blank(oc.as_slice()) {
        let t = crate::text::trim_end_chars(oc.as_slice());
        let a = concat_str(content.as_str(), "\n--- stdout ---\n");
        content = concat_str(a.as_str(), string_of(t.as_slice()).as_str());
    }
    let ec = chars_of(stderr);
    if !crate::text::chars_blank(ec.as_slice()) {
        let t = crate::text::trim_end_chars(ec.as_slice());
        let a = concat_str(content.as_str(), "\n--- stderr ---\n");
        content = concat_str(a.as_str(), string_of(t.as_slice()).as_str());
    }
    let note: Option<String> = match e {
        CommandExit::Code(_) => None,
        CommandExit::Timeout => {
            let a = concat_str("命令超过 ", crate::text::u64_to_string(timeout_secs).as_str());
            Some(concat_str(a.as_str(), " 秒被强制终止"))
        },
        CommandExit::Aborted => Some(owned("已被用户停止")),
    };
    match note {
        Some(n) => {
            let a = concat_str(content.as_str(), "\n（");
            let b = concat_str(a.as_str(), n.as_str());
            content = concat_str(b.as_str(), "）");
        },
        None => {},
    }
    assert(content@ =~= full_report(e, timeout_secs, stdout@, stderr@));
    let cc = chars_of(content.as_str());
    if cc.len() > COMMAND_OUTPUT_LIMIT {
        let head = crate::text::chars_range(cc.as_slice(), 0, COMMAND_OUTPUT_LIMIT / 2);
        let tail = crate::text::chars_range(cc.as_slice(), cc.len() - COMMAND_OUTPUT_LIMIT / 2, cc.len());
        let a = concat_str(string_of(head.as_slice()).as_str(), "\n\n…[输出过长，中间已截断]…\n\n");
        return concat_str(a.as_str(), string_of(tail.as_slice()).as_str());
    }
    content
}

// ---------- repairing tool arguments ----------

pub open spec fn fence() -> Seq<char> {
    seq!['`', '`', '`']
}

pub open spec fn json_fence() -> Seq<char> {
    seq!['`', '`', '`', 'j', 's', 'o', 'n']
}

/// `str::trim_start_matches`: the prefix `p` removed as often as it leads.
pub open spec fn strip_prefix_all(s: Seq<char>, p: Seq<char>) -> Seq<char>
    decreases s.len(),
{
    if p.len() > 0 && crate::text::starts_with(s, p) {
        strip_prefix_all(s.skip(p.len() as int), p)
    } else {
        s
    }
}

/// `str::trim_end_matches`: the suffix `p` removed as often as it ends.
pub open spec fn strip_suffix_all(s: Seq<char>, p: Seq<char>) -> Seq<char>
    decreases s.len(),
{
    if p.len() > 0 && crate::text::ends_with(s, p) {
        strip_suffix_all(s.take(s.len() - p.len()), p)
    } else {
        s
    }
}

fn strip_prefix_chars(s: &[char], p: &[char]) -> (r: Vec<char>)
    ensures
        r@ == strip_prefix_all(s@, p@),
{
    let mut a: usize = 0;
    assert(s@.skip(0) == s@);
    while p.len() > 0 && crate::text::matches_at(s, p, a)
        invariant
            a <= s.len(),
            strip_prefix_all(s@, p@) == strip_prefix_all(s@.skip(a as int), p@),
        decreases s.len() - a,
    {
        assert(s@.skip(a as int).skip(p.len() as int) =~= s@.skip(a + p.len()));
        a = a + p.len();
    }
    proof {
        if p.len() > 0 {
            assert(!crate::text::starts_with(s@.skip(a as int), p@));
        }
    }
    crate::text::chars_range(s, a, s.len())
}

fn strip_suffix_chars(s: &[char], p: &[char]) -> (r: Vec<char>)
    ensures
        r@ == strip_suffix_all(s@, p@),
{
    let mut b: usize = s.len();
    assert(s@.take(s.len() as int) == s@);
    while p.len() > 0 && b >= p.len() && crate::text::matches_at(s, p, b - p.len())
        invariant
            b <= s.len(),
            strip_suffix_all(s@, p@) == strip_suffix_all(s@.take(b as int), p@),
        decreases b,
    {
        assert(s@.take(b as int).skip(b - p.len()) == s@.skip((b - p.len()) as int).take(p.len() as int));
        assert(s@.take(b as int).take(b - p.len()) =~= s@.take(b - p.len()));
        b = b - p.len();
    }
    proof {
        if p.len() > 0 && b >= p.len() {
            assert(s@.take(b as int).skip(b - p.len()) =~= s@.skip((b - p.len()) as int).take(p.len() as int));
        }
    }
    crate::text::chars_range(s, 0, b)
}

/// The first non-whitespace position at or after `j`.
pub open spec fn next_non_ws(c: Seq<char>, j: int) -> Option<int>
    decreases c.len() - j,
{
    if j >= c.len() || j < 0 {
        None
    } else if crate::text::is_ws(c[j]) {
        next_non_ws(c, j + 1)
    } else {
        Some(j)
    }
}

/// JSON text with the commas that close an object or array dropped
/// (outside strings).
pub open spec fn drop_trailing_commas(c: Seq<char>, i: int, in_str: bool, escaped: bool) -> Seq<char>
    decreases c.len() - i,
{
    if i >= c.len() || i < 0 {
        Seq::empty()
    } else {
        let ch = c[i];
        if in_str {
            seq![ch] + if escaped {
                drop_trailing_commas(c, i + 1, true, false)
            } else if ch == '\\' {
                drop_trailing_commas(c, i + 1, true, true)
            } else if ch == '"' {
                drop_trailing_commas(c, i + 1, false, false)
            } else {
                drop_trailing_commas(c, i + 1, true, false)
            }
        } else if ch == '"' {
            seq![ch] + drop_trailing_commas(c, i + 1, true, false)
        } else if ch == ',' && (next_non_ws(c, i + 1) matches Some(k) && (c[k] == '}' || c[k] == ']')) {
            drop_trailing_commas(c, i + 1, false, false)
        } else {
            seq![ch] + drop_trailing_commas(c, i + 1, false, false)
        }
    }
}

fn next_non_ws_of(c: &[char], j: usize) -> (r: Option<usize>)
    requires
        j <= c.len(),
    ensures
        match r {
            Some(k) => next_non_ws(c@, j as int) == Some(k as int) && k < c.len(),
            None => next_non_ws(c@, j as int) is None,
        },
    decreases c.len() - j,
{
    if j >= c.len() {
        None
    } else if crate::text::char_is_ws(c[j]) {
        next_non_ws_of(c, j + 1)
    } else {
        Some(j)
    }
}

fn drop_commas(c: &[char]) -> (r: Vec<char>)
    ensures
        r@ == drop_trailing_commas(c@, 0, false, false),
{
    let mut out: Vec<char> = Vec::new();
    let mut in_str = false;
    let mut escaped = false;
    let mut i: usize = 0;
    while i < c.len()
        invariant
            i <= c.len(),
            out@ + drop_trailing_commas(c@, i as int, in_str, escaped) == drop_trailing_commas(c@, 0, false, false),
            !in_str ==> !escaped,
        decreases c.len() - i,
    {
        let ch = c[i];
        let ghost before = out@;
        let ghost was_str = in_str;
        let ghost was_esc = escaped;
        assert(drop_trailing_commas(c@, i as int, was_str, was_esc) == {
            if was_str {
                seq![ch] + if was_esc {
                    drop_trailing_commas(c@, i + 1, true, false)
                } else if ch == '\\' {
                    drop_trailing_commas(c@, i + 1, true, true)
                } else if ch == '"' {
                    drop_trailing_commas(c@, i + 1, false, false)
                } else {
                    drop_trailing_commas(c@, i + 1, true, false)
                }
            } else if ch == '"' {
                seq![ch] + drop_trailing_commas(c@, i + 1, true, false)
            } else if ch == ',' && (next_non_ws(c@, i + 1) matches Some(k) && (c@[k] == '}' || c@[k] == ']')) {
                drop_trailing_commas(c@, i + 1, false, false)
            } else {
                seq![ch] + drop_trailing_commas(c@, i + 1, false, false)
            }
        });
        if in_str {
            out.push(ch);
            if escaped {
                escaped = false;
            } else if ch == '\\' {
                escaped = true;
            } else if ch == '"' {
                in_str = false;
            }
            assert(out@ + drop_trailing_commas(c@, i + 1, in_str, escaped) =~= before + drop_trailing_commas(c@, i as int, was_str, was_esc));
        } else if ch == '"' {
            in_str = true;
            out.push(ch);
            assert(out@ + drop_trailing_commas(c@, i + 1, in_str, escaped) =~= before + drop_trailing_commas(c@, i as int, was_str, was_esc));
        } else {
            let skip = if ch == ',' {
                match next_non_ws_of(c, i + 1) {
                    Some(k) => c[k] == '}' || c[k] == ']',
                    None => false,
                }
            } else {
                false
            };
            if !skip {
                out.push(ch);
                assert(out@ + drop_trailing_commas(c@, i + 1, in_str, escaped) =~= before + drop_trailing_commas(c@, i as int, was_str, was_esc));
            }
            escaped = false;
        }
        i = i + 1;
    }
    assert(drop_trailing_commas(c@, i as int, in_str, escaped) =~= Seq::<char>::empty());
    assert(out@ + Seq::<char>::empty() =~= out@);
    out
}

} // verus!

verus! {

/// The argument text with a Markdown code fence (```json … ```) taken off.
pub open spec fn unfenced(s: Seq<char>) -> Seq<char> {
    if crate::text::starts_with(s, fence()) {
        trim_spec(strip_suffix_all(strip_prefix_all(strip_prefix_all(s, json_fence()), fence()), fence()))
    } else {
        s
    }
}

/// Tool arguments made parseable where a known slip broke them: `{}` for
/// nothing, a code fence taken off, trailing commas dropped; text that
/// still does not parse comes back trimmed.
pub open spec fn repair_spec(args: Seq<char>) -> Seq<char> {
    let s0 = trim_spec(args);
    if s0.len() == 0 {
        seq!['{', '}']
    } else {
        let s1 = unfenced(s0);
        if json_of_text(s1) is Some {
            s1
        } else {
            let s2 = drop_trailing_commas(s1, 0, false, false);
            if json_of_text(s2) is Some {
                s2
            } else {
                s0
            }
        }
    }
}

/// Repairs the JSON arguments of a tool call (see `repair_spec`).
pub fn repair_tool_args(args: &str) -> (r: String)
    ensures
        r@ == repair_spec(args@),
{
    let ac = chars_of(args);
    let s0 = trim_chars(ac.as_slice());
    if s0.len() == 0 {
        let v = vec!['{', '}'];
        return string_of(v.as_slice());
    }
    let f = vec!['`', '`', '`'];
    let jf = vec!['`', '`', '`', 'j', 's', 'o', 'n'];
    assert(f@ == fence() && jf@ == json_fence());
    let s1 = if crate::text::chars_start_with(s0.as_slice(), f.as_slice()) {
        let a = strip_prefix_chars(s0.as_slice(), jf.as_slice());
        let b = strip_prefix_chars(a.as_slice(), f.as_slice());
        let c = strip_suffix_chars(b.as_slice(), f.as_slice());
        trim_chars(c.as_slice())
    } else {
        s0.clone()
    };
    assert(s1@ == unfenced(s0@));
    let t1 = string_of(s1.as_slice());
    if parse_json(t1.as_str()).is_some() {
        return t1;
    }
    let s2 = drop_commas(s1.as_slice());
    let t2 = string_of(s2.as_slice());
    if parse_json(t2.as_str()).is_some() {
        return t2;
    }
    string_of(s0.as_slice())
}

// ---------- the run ----------

/// The coding guidance the agent's system prompt carries.
pub const AGENT_PROMPT: &'static str = "## 角色与风格\n你是 Koid 的编码 Agent，通过工具直接读写工作区文件来完成软件工程任务。\n- 回答简洁直接：能 1-3 句说清就不写一段，不要开场白、总结性废话和说教。\n- 用输出文本与用户交流；工具只用来完成任务，不要把工具结果当回答。\n- 只做用户要求的事：不要顺手重构、不要主动加注释、不要 git commit，除非被明确要求。\n\n## 动手改代码前\n- 先理解目标文件：编辑前必须 read_file，禁止凭记忆或猜测修改。\n- 遵循现有代码约定：先看邻近文件怎么写，复用已有库与工具函数；不要臆测某个库存在，先在代码库里确认。\n- 修改已有文件用 edit_file，old_string 必须与文件当前内容逐字符一致（含缩进）；新建文件用 write_file。\n- 编辑前先看目标代码周边（尤其 import），保证改法符合该文件已有的框架与风格。\n- 安全习惯：不引入会泄露密钥/日志敏感信息的代码。\n\n## 执行任务\n- 先用 list_dir/grep/glob 摸清代码结构再动手；独立的信息收集调用应并行发起。\n- 完成后尽量验证：能用 run_command 跑构建/测试就跑，或 read_file 复查关键改动；不确定测试框架时先查 README 或代码库。\n\n## 工具使用策略\n- 路径一律用工作区相对路径，正斜杠分隔。\n- read_file 默认最多返回 2000 行；大文件用 start_line/end_line 分段读取。\n- 有多个独立工具调用时，在同一条消息里并行发起。\n\n## 最终回答\n- 用中文简述：改了哪些文件、为什么、如何验证；不要大段粘贴文件内容。\n- 引用具体代码时用 `文件路径:行号` 格式。";

/// The system prompt of an agent run: the caller's (trimmed, when not
/// blank) followed by the coding guidance.
pub open spec fn agent_system_spec(system: Option<Seq<char>>) -> Seq<char> {
    match system {
        Some(s) => if trim_spec(s).len() > 0 {
            trim_spec(s) + seq!['\n', '\n'] + AGENT_PROMPT@
        } else {
            AGENT_PROMPT@
        },
        None => AGENT_PROMPT@,
    }
}

/// Composes the system prompt of an agent run (see `agent_system_spec`).
pub fn agent_system_prompt(system: &Option<String>) -> (r: String)
    ensures
        r@ == agent_system_spec(crate::skills::opt_view(*system)),
{
    match system {
        Some(s) => {
            let t = crate::text::trim_str(s.as_str());
            if t.as_str().is_empty() {
                owned(AGENT_PROMPT)
            } else {
                let nl = vec!['\n', '\n'];
                let a = concat_str(t.as_str(), string_of(nl.as_slice()).as_str());
                concat_str(a.as_str(), AGENT_PROMPT)
            }
        },
        None => owned(AGENT_PROMPT),
    }
}

pub open spec fn all_strings(xs: Seq<Json>) -> bool {
    forall|i: int| 0 <= i < xs.len() ==> (#[trigger] xs[i] is Str)
}

/// Whether a model's stored capabilities let it call tools: yes when none
/// are stored or they are not a JSON list of strings, else when the list
/// names `tools`.
pub open spec fn caps_allow_tools(caps: Option<Seq<char>>) -> bool {
    match caps {
        None => true,
        Some(c) => match json_of_text(c) {
            Some(Json::Array(xs)) => if all_strings(xs@) {
                exists|i: int| 0 <= i < xs@.len() && text(Some(#[trigger] xs@[i])) == Some("tools"@)
            } else {
                true
            },
            _ => true,
        },
    }
}

/// Decides whether a model may be given tools (see `caps_allow_tools`).
pub fn tools_allowed(caps: Option<&str>) -> (r: bool)
    ensures
        r == caps_allow_tools(crate::skills::opt_str_view(caps)),
{
    let c = match caps {
        Some(c) => c,
        None => return true,
    };
    let parsed = parse_json(c);
    match &parsed {
        Some(Json::Array(xs)) => {
            let mut i: usize = 0;
            let mut found = false;
            while i < xs.len()
                invariant
                    i <= xs.len(),
                    json_of_text(c@) == Some(Json::Array(*xs)),
                    crate::skills::opt_str_view(caps) == Some(c@),
                    forall|k: int| 0 <= k < i ==> (#[trigger] xs@[k] is Str),
                    found <==> exists|k: int| 0 <= k < i && text(Some(#[trigger] xs@[k])) == Some("tools"@),
                decreases xs.len() - i,
            {
                match &xs[i] {
                    Json::Str(s) => {
                        if crate::text::str_eq(s.as_str(), "tools") {
                            found = true;
                        }
                    },
                    _ => {
                        assert(!all_strings(xs@));
                        return true;
                    },
                }
                i = i + 1;
            }
            found
        },
        _ => true,
    }
}

} // verus!

verus! {

/// `j` is the OpenAI form of the tool call `c`:
/// `{ id, type: "function", function: { name, arguments } }`.
pub open spec fn call_json_spec(j: Json, c: ToolCall) -> bool {
    &&& text(field(Some(j), "id"@)) == Some(c.id@)
    &&& text(field(Some(j), "type"@)) == Some("function"@)
    &&& text(field(field(Some(j), "function"@), "name"@)) == Some(c.name@)
    &&& text(field(field(Some(j), "function"@), "arguments"@)) == Some(c.arguments@)
}

/// The OpenAI form of a tool call (see `call_json_spec`).
pub fn tool_call_json(c: &ToolCall) -> (r: Json)
    ensures
        call_json_spec(r, *c),
{
    let f = vec![(owned("name"), Json::Str(owned(c.name.as_str()))), (owned("arguments"), Json::Str(owned(c.arguments.as_str())))];
    proof {
        reveal_strlit("name");
        reveal_strlit("arguments");
        assert("name"@.len() == 4 && "arguments"@.len() == 9);
        assert(f@[0].0@ == "name"@);
        crate::text::lemma_first_index_is(f@, crate::json::has_key("name"@), 0);
        assert(!(crate::json::has_key("arguments"@))(f@[0]));
        crate::text::lemma_first_index_is(f@, crate::json::has_key("arguments"@), 1);
    }
    let members = vec![
        (owned("id"), Json::Str(owned(c.id.as_str()))),
        (owned("type"), Json::Str(owned("function"))),
        (owned("function"), Json::Object(f)),
    ];
    proof {
        reveal_strlit("id");
        reveal_strlit("type");
        reveal_strlit("function");
        assert("id"@.len() == 2 && "type"@.len() == 4 && "function"@.len() == 8);
        assert(members@[0].0@ == "id"@ && members@[1].0@ == "type"@);
        crate::text::lemma_first_index_is(members@, crate::json::has_key("id"@), 0);
        assert(!(crate::json::has_key("type"@))(members@[0]));
        crate::text::lemma_first_index_is(members@, crate::json::has_key("type"@), 1);
        assert(!(crate::json::has_key("function"@))(members@[0]));
        assert(!(crate::json::has_key("function"@))(members@[1]));
        crate::text::lemma_first_index_is(members@, crate::json::has_key("function"@), 2);
    }
    Json::Object(members)
}

/// The calls of an assistant message in OpenAI form, in order.
pub open spec fn calls_json_spec(j: Json, calls: Seq<ToolCall>) -> bool {
    match j {
        Json::Array(xs) => xs@.len() == calls.len() && forall|i: int| 0 <= i < calls.len() ==> call_json_spec(#[trigger] xs@[i], calls[i]),
        _ => false,
    }
}

fn tool_calls_json(calls: &Vec<ToolCall>) -> (r: Json)
    ensures
        calls_json_spec(r, calls@),
{
    let mut xs: Vec<Json> = Vec::new();
    let mut i: usize = 0;
    while i < calls.len()
        invariant
            i <= calls.len(),
            xs@.len() == i,
            forall|k: int| 0 <= k < i ==> call_json_spec(#[trigger] xs@[k], calls@[k]),
        decreases calls.len() - i,
    {
        xs.push(tool_call_json(&calls[i]));
        i = i + 1;
    }
    Json::Array(xs)
}

/// What an agent run has gathered: the conversation sent to the model, the
/// final answer, the last usage reported, and every tool call with its
/// result.
#[derive(Debug)]
pub struct AgentRun {
    pub messages: Vec<crate::models::ChatMessage>,
    pub final_content: String,
    pub final_reasoning: Option<String>,
    pub final_usage: Option<crate::models::TokenUsage>,
    pub all_calls: Vec<ToolCall>,
    pub all_results: Vec<ToolResultItem>,
}

pub open spec fn repaired_calls(calls: Seq<ToolCall>, out: Seq<ToolCall>) -> bool {
    &&& out.len() == calls.len()
    &&& forall|i: int|
        0 <= i < calls.len() ==> (#[trigger] out[i]).id == calls[i].id && out[i].name == calls[i].name
            && out[i].arguments@ == repair_spec(calls[i].arguments@)
}

impl AgentRun {
    /// A run over the conversation so far.
    pub fn new(messages: Vec<crate::models::ChatMessage>) -> (r: AgentRun)
        ensures
            r.messages@ == messages@,
            r.final_content@.len() == 0,
            r.final_reasoning is None,
            r.final_usage is None,
            r.all_calls@.len() == 0,
            r.all_results@.len() == 0,
    {
        AgentRun {
            messages,
            final_content: String::new(),
            final_reasoning: None,
            final_usage: None,
            all_calls: Vec::new(),
            all_results: Vec::new(),
        }
    }

    /// Takes in the model's answer of one round. Without tool calls it is
    /// the final answer (`None`: the run is over); with them the calls come
    /// back with repaired arguments, after an assistant message that carries
    /// them. A reported usage replaces the last one.
    pub fn absorb(&mut self, resp: crate::models::ChatResponse) -> (r: Option<Vec<ToolCall>>)
        ensures
            final(self).final_usage == (if resp.usage is Some {
                resp.usage
            } else {
                old(self).final_usage
            }),
            final(self).all_calls == old(self).all_calls,
            final(self).all_results == old(self).all_results,
            match resp.tool_calls {
                None => {
                    &&& r is None
                    &&& final(self).final_content == resp.content
                    &&& final(self).final_reasoning == resp.reasoning
                    &&& final(self).messages == old(self).messages
                },
                Some(calls) => {
                    &&& r matches Some(out) && repaired_calls(calls@, out@)
                    &&& final(self).final_content == old(self).final_content
                    &&& final(self).final_reasoning == old(self).final_reasoning
                    &&& final(self).messages@.len() == old(self).messages@.len() + 1
                    &&& final(self).messages@.drop_last() == old(self).messages@
                    &&& final(self).messages@.last().role@ == "assistant"@
                    &&& final(self).messages@.last().content == resp.content
                    &&& final(self).messages@.last().tool_calls matches Some(j) && calls_json_spec(j, r->0@)
                    &&& final(self).messages@.last().tool_call_id is None
                    &&& final(self).messages@.last().tool_name is None
                },
            },
    {
        if resp.usage.is_some() {
            self.final_usage = resp.usage;
        }
        match resp.tool_calls {
            None => {
                self.final_content = resp.content;
                self.final_reasoning = resp.reasoning;
                None
            },
            Some(calls) => {
                let mut out: Vec<ToolCall> = Vec::new();
                let mut i: usize = 0;
                while i < calls.len()
                    invariant
                        i <= calls.len(),
                        out@.len() == i,
                        forall|k: int|
                            0 <= k < i ==> (#[trigger] out@[k]).id == calls@[k].id && out@[k].name == calls@[k].name
                                && out@[k].arguments@ == repair_spec(calls@[k].arguments@),
                    decreases calls.len() - i,
                {
                    let c = &calls[i];
                    out.push(ToolCall { id: c.id.clone(), name: c.name.clone(), arguments: repair_tool_args(c.arguments.as_str()) });
                    i = i + 1;
                }
                let j = tool_calls_json(&out);
                self.messages.push(crate::models::ChatMessage {
                    role: owned("assistant"),
                    content: resp.content,
                    tool_calls: Some(j),
                    tool_call_id: None,
                    tool_name: None,
                });
                Some(out)
            },
        }
    }

    /// Records the result of a tool call: a `tool` message answering it, and
    /// the call and result in the run's record. Tells whether a successful
    /// write, edit or delete changed the workspace.
    pub fn record(&mut self, call: &ToolCall, content: String, is_error: bool) -> (changed: bool)
        ensures
            changed == (!is_error && (call.name@ == "write_file"@ || call.name@ == "edit_file"@
                || call.name@ == "delete_file"@)),
            final(self).messages@.drop_last() == old(self).messages@,
            final(self).messages@.len() == old(self).messages@.len() + 1,
            final(self).messages@.last().role@ == "tool"@,
            final(self).messages@.last().content == content,
            final(self).messages@.last().tool_calls is None,
            final(self).messages@.last().tool_call_id == Some(call.id),
            final(self).messages@.last().tool_name == Some(call.name),
            final(self).all_calls@ == old(self).all_calls@.push(*call),
            final(self).all_results@ == old(self).all_results@.push(ToolResultItem {
                tool_call_id: call.id,
                name: call.name,
                content,
                is_error,
            }),
            final(self).final_content == old(self).final_content,
            final(self).final_reasoning == old(self).final_reasoning,
            final(self).final_usage == old(self).final_usage,
    {
        self.messages.push(crate::models::ChatMessage {
            role: owned("tool"),
            content: content.clone(),
            tool_calls: None,
            tool_call_id: Some(call.id.clone()),
            tool_name: Some(call.name.clone()),
        });
        self.all_calls.push(call.clone());
        self.all_results.push(ToolResultItem {
            tool_call_id: call.id.clone(),
            name: call.name.clone(),
            content,
            is_error,
        });
        let n = call.name.as_str();
        !is_error && (crate::text::str_eq(n, "write_file") || crate::text::str_eq(n, "edit_file")
            || crate::text::str_eq(n, "delete_file"))
    }

    /// Whether the rounds ran out before a final answer, so that one more
    /// call without tools must close the run.
    pub fn needs_closing(&self) -> (r: bool)
        ensures
            r == (self.final_content@.len() == 0 && self.messages@.len() > 0),
    {
        self.final_content.as_str().is_empty() && self.messages.len() > 0
    }

    /// Takes in the answer of the closing call: its text and reasoning are
    /// final; a reported usage replaces the last one.
    pub fn close(&mut self, resp: crate::models::ChatResponse)
        ensures
            final(self).final_content == resp.content,
            final(self).final_reasoning == resp.reasoning,
            final(self).final_usage == (if resp.usage is Some {
                resp.usage
            } else {
                old(self).final_usage
            }),
            final(self).messages == old(self).messages,
            final(self).all_calls == old(self).all_calls,
            final(self).all_results == old(self).all_results,
    {
        self.final_content = resp.content;
        self.final_reasoning = resp.reasoning;
        if resp.usage.is_some() {
            self.final_usage = resp.usage;
        }
    }

    /// The run's answer: the final text, reasoning and usage, with every
    /// tool call and result when there were any.
    pub fn into_response(self, provider_name: String) -> (r: crate::models::ChatResponse)
        ensures
            r.content == self.final_content,
            r.reasoning == self.final_reasoning,
            r.usage == self.final_usage,
            r.latency_ms == 0,
            r.provider_used == provider_name,
            self.all_calls@.len() == 0 ==> r.tool_calls is None,
            self.all_calls@.len() > 0 ==> r.tool_calls == Some(self.all_calls),
            self.all_results@.len() == 0 ==> r.tool_results is None,
            self.all_results@.len() > 0 ==> r.tool_results == Some(self.all_results),
    {
        let calls = if self.all_calls.len() == 0 {
            None
        } else {
            Some(self.all_calls)
        };
        let results = if self.all_results.len() == 0 {
            None
        } else {
            Some(self.all_results)
        };
        crate::models::ChatResponse {
            content: self.final_content,
            reasoning: self.final_reasoning,
            tool_calls: calls,
            tool_results: results,
            usage: self.final_usage,
            latency_ms: 0,
            provider_used: provider_name,
        }
    }
}

} // verus!

verus! {

pub open spec fn old_calls(resp: crate::models::ChatResponse) -> Seq<ToolCall> {
    match resp.tool_calls {
        Some(cs) => cs@,
        None => Seq::empty(),
    }
}

/// Turns tool calls leaked into an answer's text as DSML markup into real
/// calls (each with a fresh id) after the answer's own, and keeps the text
/// without the markup; an answer without leaked calls stays as it is. When
/// no fresh id can be made the answer is left unchanged and the error comes
/// back.
pub fn rescue_leaked_calls(resp: &mut crate::models::ChatResponse) -> (r: Result<(), String>)
    ensures
        ({
            let (cleaned, leaked) = crate::dsml::extract_spec(old(resp).content@);
            if leaked.len() == 0 {
                r is Ok && *final(resp) == *old(resp)
            } else if r is Err {
                *final(resp) == *old(resp)
            } else {
                let before = old_calls(*old(resp));
                &&& final(resp).content@ == cleaned
                &&& final(resp).tool_calls matches Some(cs) && cs@.len() == before.len() + leaked.len()
                    && cs@.take(before.len() as int) == before && (forall|i: int|
                    0 <= i < leaked.len() ==> (#[trigger] cs@[before.len() + i]).name@ == leaked[i].0
                        && cs@[before.len() + i].arguments@ == leaked[i].1
                        && cs@[before.len() + i].id@.len() == 36
                        && crate::utils::is_uuid_v4_text(cs@[before.len() + i].id@))
                &&& final(resp).reasoning == old(resp).reasoning
                &&& final(resp).tool_results == old(resp).tool_results
                &&& final(resp).usage == old(resp).usage
                &&& final(resp).latency_ms == old(resp).latency_ms
                &&& final(resp).provider_used == old(resp).provider_used
            }
        }),
        r matches Err(e) ==> crate::text::starts_with(e@, "生成随机数失败: "@),
{
    let (cleaned, leaked) = crate::dsml::extract_tool_calls(resp.content.as_str());
    if leaked.len() == 0 {
        return Ok(());
    }
    let mut extra: Vec<ToolCall> = Vec::new();
    let mut i: usize = 0;
    while i < leaked.len()
        invariant
            i <= leaked.len(),
            extra@.len() == i,
            *resp == *old(resp),
            (cleaned@, crate::dsml::pairs_view(leaked@)) == crate::dsml::extract_spec(old(resp).content@),
            leaked.len() > 0,
            forall|k: int|
                0 <= k < i ==> (#[trigger] extra@[k]).name@ == leaked@[k].0@
                    && extra@[k].arguments@ == leaked@[k].1@
                    && extra@[k].id@.len() == 36
                    && crate::utils::is_uuid_v4_text(extra@[k].id@),
        decreases leaked.len() - i,
    {
        let id = match crate::utils::new_id() {
            Ok(id) => id,
            Err(e) => return Err(e),
        };
        extra.push(ToolCall {
            id,
            name: owned(leaked[i].0.as_str()),
            arguments: owned(leaked[i].1.as_str()),
        });
        i = i + 1;
    }
    let mut calls: Vec<ToolCall> = match resp.tool_calls.take() {
        Some(cs) => cs,
        None => Vec::new(),
    };
    let ghost before = calls@;
    let ghost added = extra@;
    calls.append(&mut extra);
    assert(calls@.take(before.len() as int) =~= before);
    assert(forall|k: int| 0 <= k < added.len() ==> calls@[before.len() + k] == added[k]);
    resp.content = cleaned;
    resp.tool_calls = Some(calls);
    Ok(())
}

} // verus!
