use koid::agent::{
    agent_system_prompt, cap_file_text, command_report, listing_text, plan_tool, repair_tool_args, slice_file,
    tools_allowed, workspace_tools, CommandExit, ToolAction, AGENT_PROMPT, MAX_AGENT_ROUNDS,
};
use koid::json::to_json_string;
use koid::models::ToolCall;

fn call(name: &str, args: &str) -> ToolCall {
    ToolCall { id: "c1".to_string(), name: name.to_string(), arguments: args.to_string() }
}

#[test]
fn eight_workspace_tools_in_order() {
    let tools = workspace_tools();
    let names: Vec<&str> = tools.iter().map(|t| t.name.as_str()).collect();
    assert_eq!(
        names,
        vec!["list_dir", "read_file", "grep", "glob", "write_file", "edit_file", "delete_file", "run_command"]
    );
    let grep: serde_json::Value = serde_json::from_str(&to_json_string(&tools[2].parameters)).unwrap();
    assert_eq!(grep["type"], "object");
    assert_eq!(grep["required"][0], "pattern");
    assert_eq!(grep["properties"]["include"]["type"], "string");
    assert_eq!(MAX_AGENT_ROUNDS, 12);
}

#[test]
fn tool_calls_become_workspace_actions() {
    match plan_tool(&call("read_file", r#"{"path":"a.rs","start_line":3,"end_line":5}"#)) {
        ToolAction::ReadFile { path, start, end } => {
            assert_eq!(path, "a.rs");
            assert_eq!(start, Some(3));
            assert_eq!(end, Some(5));
        }
        other => panic!("unexpected {other:?}"),
    }
    match plan_tool(&call("grep", r#"{"pattern":"fn ","include":"*.rs"}"#)) {
        ToolAction::Grep { pattern, file_filter } => {
            assert_eq!(pattern, "fn ");
            assert_eq!(file_filter.as_deref(), Some("*.rs"));
        }
        other => panic!("unexpected {other:?}"),
    }
    match plan_tool(&call("grep", "{}")) {
        ToolAction::Fail { message } => assert_eq!(message, "pattern 必填"),
        other => panic!("unexpected {other:?}"),
    }
    match plan_tool(&call("run_command", r#"{"command":"ls","timeout_seconds":9999}"#)) {
        ToolAction::RunCommand { command, timeout_secs } => {
            assert_eq!(command, "ls");
            assert_eq!(timeout_secs, 600);
        }
        other => panic!("unexpected {other:?}"),
    }
    match plan_tool(&call("run_command", r#"{"command":"ls"}"#)) {
        ToolAction::RunCommand { timeout_secs, .. } => assert_eq!(timeout_secs, 120),
        other => panic!("unexpected {other:?}"),
    }
    match plan_tool(&call("run_command", r#"{"command":"  "}"#)) {
        ToolAction::Fail { message } => assert_eq!(message, "command 必填"),
        other => panic!("unexpected {other:?}"),
    }
    match plan_tool(&call("fly", "{}")) {
        ToolAction::Fail { message } => assert_eq!(message, "未知工具: fly"),
        other => panic!("unexpected {other:?}"),
    }
    match plan_tool(&call("list_dir", "not json")) {
        ToolAction::ListDir { path } => assert_eq!(path, ""),
        other => panic!("unexpected {other:?}"),
    }
}

#[test]
fn listing_marks_directories() {
    assert_eq!(listing_text(&vec![]), "（空目录）");
    assert_eq!(
        listing_text(&vec![("src".to_string(), true), ("a.txt".to_string(), false)]),
        "[dir] src\n      a.txt"
    );
}

#[test]
fn file_slices_by_line_range() {
    let text = "l1\nl2\nl3\nl4";
    assert_eq!(slice_file(text, Some(2), Some(3)), "l2\nl3");
    assert_eq!(slice_file(text, Some(3), None), "l3\nl4");
    assert_eq!(slice_file(text, None, Some(1)), text);
    assert_eq!(slice_file(text, Some(0), Some(1)), "l1\nl2");
    assert_eq!(slice_file(text, Some(0), Some(usize::MAX)), "");
    assert_eq!(slice_file(text, Some(1), Some(usize::MAX)), text);
    assert_eq!(cap_file_text("a\nb"), "a\nb");
}

#[test]
fn long_lines_and_long_files_are_capped() {
    let long = "x".repeat(2001);
    assert_eq!(cap_file_text(&long), format!("{}... (line truncated to 2000 chars)", "x".repeat(2000)));
    let many: Vec<String> = (0..2001).map(|i| i.to_string()).collect();
    let out = cap_file_text(&many.join("\n"));
    assert!(out.ends_with("\n\n[文件已截断：以上仅前 2000 行。用 start_line/end_line 参数继续读取]"));
    assert!(out.starts_with("0\n1\n"));
}

#[test]
fn command_report_lists_exit_outputs_and_notes() {
    assert_eq!(command_report(CommandExit::Code(0), 120, "ok\n", ""), "exit_code: 0\n--- stdout ---\nok");
    assert_eq!(
        command_report(CommandExit::Timeout, 5, "", "err  "),
        "exit_code: -1\n--- stderr ---\nerr\n（命令超过 5 秒被强制终止）"
    );
    assert_eq!(command_report(CommandExit::Aborted, 5, " ", ""), "exit_code: -1\n（已被用户停止）");
    let big = "y".repeat(30000);
    let r = command_report(CommandExit::Code(1), 1, &big, "");
    assert_eq!(r.chars().count(), 10000 + "\n\n…[输出过长，中间已截断]…\n\n".chars().count() + 10000);
    assert!(r.starts_with("exit_code: 1\n--- stdout ---\n"));
}

#[test]
fn tool_args_are_repaired() {
    assert_eq!(repair_tool_args(r#"{"a":1}"#), r#"{"a":1}"#);
    assert_eq!(repair_tool_args("```json\n{\"a\":1}\n```"), r#"{"a":1}"#);
    assert_eq!(repair_tool_args(r#"{"a":1,}"#), r#"{"a":1}"#);
}

#[test]
fn agent_prompt_follows_the_user_system_prompt() {
    assert_eq!(agent_system_prompt(&None), AGENT_PROMPT);
    assert_eq!(agent_system_prompt(&Some("  ".to_string())), AGENT_PROMPT);
    assert_eq!(agent_system_prompt(&Some(" be brief ".to_string())), format!("be brief\n\n{AGENT_PROMPT}"));
}

#[test]
fn tools_only_for_models_that_take_them() {
    assert!(tools_allowed(None));
    assert!(tools_allowed(Some(r#"["vision","tools"]"#)));
    assert!(!tools_allowed(Some(r#"["vision"]"#)));
    assert!(tools_allowed(Some("not json")));
}
