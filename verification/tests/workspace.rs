use koid::workspace::{
    apply_edit, check_edit_args, check_workspace_delete, check_write, delete_decision, glob_hit, glob_to_regex,
    grep_file, passes_file_filter, read_decision, safe_rel, select_glob, simple_regex_match, skip_entry, to_slashes,
    workspace_name, write_message,
};

#[test]
fn relative_paths_stay_inside_the_workspace() {
    assert_eq!(safe_rel("src/main.rs"), Ok("src/main.rs".to_string()));
    assert_eq!(safe_rel("./src//./main.rs"), Ok("src/main.rs".to_string()));
    assert_eq!(safe_rel("/etc/passwd"), Err("不允许绝对路径".to_string()));
    assert_eq!(safe_rel("src/../../x"), Err("路径不允许 .. 穿越".to_string()));
    assert_eq!(safe_rel("./"), Err("路径为空".to_string()));
    assert_eq!(safe_rel("..\\x"), Err("路径不允许 .. 穿越".to_string()));
    assert_eq!(safe_rel("src\\..\\..\\x"), Err("路径不允许 .. 穿越".to_string()));
    assert_eq!(safe_rel("\\etc"), Err("不允许绝对路径".to_string()));
    assert_eq!(safe_rel("C:\\Windows"), Err("不允许绝对路径".to_string()));
    assert_eq!(safe_rel("src\\main.rs"), Ok("src/main.rs".to_string()));
}

#[test]
fn glob_patterns_become_anchored_regexes() {
    assert_eq!(glob_to_regex("**/*.rs"), "^.*/[^/]*\\.rs$");
    assert_eq!(glob_to_regex("a?b"), "^a[^/]b$");
    assert_eq!(glob_to_regex("x+(y)"), "^x\\+\\(y\\)$");
    assert!(simple_regex_match("^.*main.*$", "src/main.rs"));
    assert!(glob_hit("src/**", "src/a/b"));
    assert!(glob_hit("**", "x"));
    assert!(!glob_hit("*", "a/b"));
    assert!(glob_hit("*", "ab"));
    assert!(glob_hit("plain", "plain"));
    assert!(!glob_hit("plain", "other"));
}

#[test]
fn globs_match_with_glob_meaning() {
    let m = |p: &str, t: &str| simple_regex_match(&glob_to_regex(p), t);
    assert!(m("src/main.rs", "src/main.rs"));
    assert!(m("*.ts", "a.ts"));
    assert!(!m("*.ts", "a.rs"));
    assert!(m("src/**/*.rs", "src/a/main.rs"));
    assert!(m("src/**/*.rs", "src/a/b/main.rs"));
    assert!(!m("src/*.rs", "src/a/main.rs"));
    assert!(!m("a.b", "axb"));
    assert!(m("a?c", "abc"));
    assert!(!m("a?c", "a/c"));
    assert!(simple_regex_match("^.*\\.rs$", "src/main.rs"));
    assert!(glob_hit("**/*.rs", "src/main.rs"));
    assert!(glob_hit("**/*.rs", "main.rs"));
    assert!(!glob_hit("**/*.rs", "main.ts"));
    assert!(glob_hit("Cargo.toml", "Cargo.toml"));
    assert!(glob_hit("src/*", "src/a"));
    assert!(!glob_hit("src/*", "src/a/b"));
}

#[test]
fn glob_results_are_capped_then_sorted() {
    let rels = vec!["src/b".to_string(), "src/a".to_string(), "lib/c".to_string()];
    assert_eq!(select_glob("src/**", rels), vec!["src/a".to_string(), "src/b".to_string()]);
    let many: Vec<String> = (0..300).map(|i| format!("src/f{i:03}")).rev().collect();
    let out = select_glob("src/**", many);
    assert_eq!(out.len(), 200);
    assert_eq!(out[0], "src/f100");
    assert_eq!(out[199], "src/f299");
}

#[test]
fn grep_filter_and_hits() {
    assert!(passes_file_filter(Some("*.rs"), "src/a.rs"));
    assert!(!passes_file_filter(Some("*.rs"), "src/a.ts"));
    assert!(passes_file_filter(None, "anything"));
    let hits = grep_file("a.rs", "fn a() {}\nlet x = 1;\nfn b() {}", "fn [ab]", 10);
    assert_eq!(hits, vec!["a.rs:1: fn a() {}".to_string(), "a.rs:3: fn b() {}".to_string()]);
    assert_eq!(grep_file("a.rs", "fn a\nfn b", "fn", 1), vec!["a.rs:1: fn a".to_string()]);
    // an invalid regex is searched for as plain text
    assert_eq!(grep_file("a.rs", "x(y\nz", "x(", 10), vec!["a.rs:1: x(y".to_string()]);
}

#[test]
fn edits_must_match_exactly_once() {
    assert_eq!(check_edit_args("", "x"), Err("old_string 不能为空".to_string()));
    assert_eq!(check_edit_args("a", "a"), Err("old_string 与 new_string 相同".to_string()));
    assert!(check_edit_args("a", "b").is_ok());
    let (text, msg) = apply_edit("let a = 1;", "1", "2", "x.rs").unwrap();
    assert_eq!(text, "let a = 2;");
    assert_eq!(msg, "已编辑 x.rs（10 字节）");
    assert_eq!(
        apply_edit("aa", "a", "b", "x.rs"),
        Err("old_string 在 x.rs 中出现 2 次，不是唯一匹配；请补充更多上下文".to_string())
    );
    assert_eq!(apply_edit("abc", "z", "y", "x.rs"), Err("未在 x.rs 中找到匹配内容（old_string 不存在）".to_string()));
}

#[test]
fn writes_and_deletes_report_what_happened() {
    assert_eq!(check_write("héllo"), Ok(6));
    assert_eq!(write_message(false, "a.txt", 6), "已创建 a.txt（6 字节）");
    assert_eq!(write_message(true, "a.txt", 0), "已覆盖 a.txt（0 字节）");
    assert_eq!(delete_decision(false, false, "a"), Err("文件不存在: a".to_string()));
    assert_eq!(delete_decision(true, true, "d"), Err("d 是目录，仅支持删除文件".to_string()));
    assert_eq!(delete_decision(true, false, "a"), Ok("已删除 a".to_string()));
}

#[test]
fn tree_skips_hidden_entries_and_build_directories() {
    assert!(skip_entry(".env", false));
    assert!(skip_entry("node_modules", true));
    assert!(!skip_entry("node_modules", false));
    assert!(!skip_entry("src", true));
    assert_eq!(to_slashes("a\\b\\c"), "a/b/c");
}

#[test]
fn workspace_names_and_default_workspace() {
    assert_eq!(workspace_name("  项目 "), Ok("项目".to_string()));
    assert_eq!(workspace_name("  "), Err("工作区名称不能为空".to_string()));
    assert_eq!(check_workspace_delete("default"), Err("FORBIDDEN:默认工作区不可删除".to_string()));
    assert!(check_workspace_delete("w1").is_ok());
}

#[test]
fn reads_need_a_file_of_at_most_one_mebibyte() {
    assert_eq!(read_decision(false, 0, "a.txt"), Err("文件不存在: a.txt".to_string()));
    assert_eq!(read_decision(true, 1048577, "a.txt"), Err("文件超过 1MB，请分块处理".to_string()));
    assert_eq!(read_decision(true, 1048576, "a.txt"), Ok(()));
}
