use koid::models::PromptInput;
use koid::prompts::{check_prompt_delete, check_prompt_input, parse_variables, stored_title, MAX_VERSIONS};

#[test]
fn variables_extracted_in_order_and_deduped() {
    let v = parse_variables("用 {{language}} 解释 {{code}}，再看 {{code}} 和 {{bad x}}");
    assert_eq!(v, vec!["language", "code"]);
}

#[test]
fn variables_handles_empty_and_unterminated() {
    assert!(parse_variables("").is_empty());
    assert!(parse_variables("无变量文本").is_empty());
    assert!(parse_variables("半截 {{var").is_empty());
}

#[test]
fn variables_are_trimmed_and_may_hold_dashes() {
    assert_eq!(parse_variables("{{ a-b }} {{c_d}} {{}}"), vec!["a-b", "c_d"]);
}

fn input(kind: &str, title: &str) -> PromptInput {
    PromptInput {
        id: None,
        title: title.to_string(),
        content: "x".to_string(),
        prompt_type: kind.to_string(),
        tags: None,
    }
}

#[test]
fn prompt_input_checks_kind_then_title() {
    assert!(check_prompt_input(&input("system", "t")).is_ok());
    assert!(check_prompt_input(&input("snippet", "t")).is_ok());
    assert!(check_prompt_input(&input("template", "t")).is_ok());
    assert_eq!(check_prompt_input(&input("other", "t")), Err("未知的提示词类型: other".to_string()));
    assert_eq!(check_prompt_input(&input("other", " ")), Err("未知的提示词类型: other".to_string()));
    assert_eq!(check_prompt_input(&input("system", "  \t")), Err("标题不能为空".to_string()));
}

#[test]
fn builtin_prompts_cannot_be_deleted() {
    assert_eq!(check_prompt_delete("builtin:translate"), Err("FORBIDDEN:内置模板不可删除".to_string()));
    assert!(check_prompt_delete("abc").is_ok());
    assert!(check_prompt_delete("xbuiltin:").is_ok());
}

#[test]
fn stored_title_is_trimmed_and_ten_versions_kept() {
    assert_eq!(stored_title("  标题 "), "标题");
    assert_eq!(MAX_VERSIONS, 10);
}
