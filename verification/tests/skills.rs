use koid::skills::{
    builtin_skills, complete_step, eval_condition, next_action, parse_skill, resolve_template, sanitize_skill_id,
    Scope, SkillAction, SkillRun,
};

#[test]
fn template_resolves_vars_and_step_outputs() {
    let mut scope = Scope::new();
    scope.insert("language".to_string(), "Rust".to_string());
    scope.insert("read.output".to_string(), "fn main() {}".to_string());
    let out = resolve_template("用 {{language}} 审查：{{read.output}}（缺省 {{missing}}）", &scope);
    assert_eq!(out, "用 Rust 审查：fn main() {}（缺省 ）");
    assert_eq!(resolve_template("半截 {{x", &scope), "半截 {{x");
}

#[test]
fn condition_contains_with_ref_and_case_insensitive() {
    let mut scope = Scope::new();
    scope.insert("review.output".to_string(), "Found a BUG in line 3".to_string());
    assert!(eval_condition("contains( {{review.output}}, 'bug' )", &scope).unwrap());
    assert!(!eval_condition("contains( {{review.output}}, 'memory leak' )", &scope).unwrap());
    assert!(!eval_condition("contains( {{nope.output}}, 'x' )", &scope).unwrap());
    assert!(eval_condition("contains('hello world', 'WORLD')", &scope).unwrap());
}

#[test]
fn condition_rejects_malformed() {
    let scope = Scope::new();
    assert!(eval_condition("not_contains(x, 'y')", &scope).is_err());
    assert!(eval_condition("contains(x, y)", &scope).is_err());
}

#[test]
fn builtin_markdown_parses() {
    let skills = builtin_skills();
    assert_eq!(skills.len(), 2);
    let review = skills.iter().find(|s| s.id == "code-review").unwrap();
    assert_eq!(review.steps.len(), 3);
    let ids: Vec<&str> = review.steps.iter().map(|s| s.id.as_str()).collect();
    assert_eq!(ids, vec!["input", "execute", "output"]);
    assert!(review.system_prompt.as_deref().unwrap().contains("代码审查"));
}

#[test]
fn validation_catches_bad_skill() {
    assert!(parse_skill("not markdown or yaml").is_err());
    assert!(parse_skill("---\nid: \"\"\nname: \"\"\n---\nbody").is_err());
    assert!(parse_skill("---\nid: valid-id\nname: \"\"\n---\nbody").is_err());
    assert!(parse_skill("---\nid: \"invalid/id/with/slash\"\nname: Test\n---\nbody").is_err());
    assert!(parse_skill("---\nname: MissingIdFallback\n---\nbody").is_ok());
}

#[test]
fn scope_reads_back_the_last_binding() {
    let mut scope = Scope::new();
    scope.insert("a".to_string(), "1".to_string());
    scope.insert("b".to_string(), "2".to_string());
    scope.insert("a".to_string(), "3".to_string());
    assert_eq!(scope.get("a"), Some("3".to_string()));
    assert_eq!(scope.get("b"), Some("2".to_string()));
    assert_eq!(scope.get("c"), None);
}

#[test]
fn skill_ids_keep_only_safe_characters() {
    assert_eq!(sanitize_skill_id("../etc/passwd"), "etcpasswd");
    assert_eq!(sanitize_skill_id("code-review_2"), "code-review_2");
    assert_eq!(sanitize_skill_id("代码"), "代码");
}

fn step(id: &str, kind: &str) -> koid::models::SkillStep {
    koid::models::SkillStep {
        id: id.to_string(),
        step_type: kind.to_string(),
        prompt: None,
        content: None,
        condition: None,
        then_step: None,
        else_step: None,
        tool: None,
        server: None,
        args: None,
    }
}

#[test]
fn engine_runs_input_llm_condition_and_message() {
    let mut ask = step("ask", "input");
    ask.content = Some("代码".to_string());
    let mut llm = step("review", "llm");
    llm.prompt = Some("审查：{{ask.output}}".to_string());
    let mut cond = step("check", "condition");
    cond.condition = Some("contains( {{review.output}}, 'bug' )".to_string());
    cond.then_step = Some("bad".to_string());
    cond.else_step = Some("good".to_string());
    let mut good = step("good", "message");
    good.content = Some("没问题：{{review.output}}".to_string());
    let mut bad = step("bad", "message");
    bad.content = Some("有问题".to_string());
    let def = koid::models::SkillDef {
        id: "s".to_string(),
        name: "S".to_string(),
        description: String::new(),
        icon: None,
        model: None,
        system_prompt: Some("sys".to_string()),
        steps: vec![ask, llm, cond, good, bad],
        source: "user".to_string(),
        enabled: true,
    };
    let mut run = SkillRun::start(Scope::new());
    match next_action(&def, &mut run, false) {
        SkillAction::AskInput { step_id, label } => {
            assert_eq!(step_id, "ask");
            assert_eq!(label, "代码");
        }
        other => panic!("unexpected {other:?}"),
    }
    complete_step(&def, &mut run, "fn f()".to_string());
    match next_action(&def, &mut run, false) {
        SkillAction::CallLlm { step_id, prompt, system } => {
            assert_eq!(step_id, "review");
            assert_eq!(prompt, "审查：fn f()");
            assert_eq!(system.as_deref(), Some("sys"));
        }
        other => panic!("unexpected {other:?}"),
    }
    complete_step(&def, &mut run, "looks fine".to_string());
    assert!(matches!(next_action(&def, &mut run, false), SkillAction::Jumped));
    assert_eq!(run.index, 3);
    match next_action(&def, &mut run, false) {
        SkillAction::ShowMessage { step_id, content } => {
            assert_eq!(step_id, "good");
            assert_eq!(content, "没问题：looks fine");
        }
        other => panic!("unexpected {other:?}"),
    }
    assert!(matches!(next_action(&def, &mut run, true), SkillAction::Cancelled));
}

#[test]
fn engine_stops_a_condition_loop() {
    let mut cond = step("loop", "condition");
    cond.condition = Some("contains('a', 'a')".to_string());
    cond.then_step = Some("loop".to_string());
    let def = koid::models::SkillDef {
        id: "s".to_string(),
        name: "S".to_string(),
        description: String::new(),
        icon: None,
        model: None,
        system_prompt: None,
        steps: vec![cond],
        source: "user".to_string(),
        enabled: true,
    };
    let mut run = SkillRun::start(Scope::new());
    let mut jumps = 0;
    loop {
        match next_action(&def, &mut run, false) {
            SkillAction::Jumped => jumps += 1,
            SkillAction::Failed { step_id, error } => {
                assert_eq!(step_id, None);
                assert_eq!(error, "步骤执行次数超限，可能存在条件死循环");
                break;
            }
            other => panic!("unexpected {other:?}"),
        }
    }
    assert_eq!(jumps, 64);
}

#[test]
fn a_lone_quote_source_is_an_error() {
    let scope = Scope::new();
    assert_eq!(eval_condition("contains(', 'x')", &scope), Err("condition source 无法识别: '".to_string()));
    assert_eq!(eval_condition("contains(\", 'x')", &scope), Err("condition source 无法识别: \"".to_string()));
    assert_eq!(eval_condition("contains('', 'x')", &scope), Ok(false));
}
