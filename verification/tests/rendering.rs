use onchange::dispatch::{plan_change, EventPlan};
use onchange::ignore::should_ignore;
use onchange::render::{render_command, render_message};
use onchange::resolve::{apply_var_lines, builtin_vars, choose_var_command, variables_command_line};
use onchange::rules::{RuleConfig, RuleTable};
use onchange::varmap::VariableMap;

fn rule(name: &str, exts: &str, cmd: Option<&str>, vars: Option<&str>) -> RuleConfig {
    RuleConfig {
        name: String::from(name),
        extensions: String::from(exts),
        command: cmd.map(String::from),
        variables_command: vars.map(String::from),
    }
}

#[test]
fn extension_rule_renders_command() {
    let table = RuleTable::build(&vec![rule("scripts", "js ts", Some("echo {name}"), None)]);
    let vars = builtin_vars(&String::from("/w/x.ts"), &String::from("/w")).unwrap();
    let cmd = render_command(&None, &table, &vars);
    assert_eq!(cmd, "echo x");
}

#[test]
fn explicit_command_overrides_the_table() {
    let table = RuleTable::build(&vec![rule("scripts", "ts", Some("echo {name}"), None)]);
    let vars = builtin_vars(&String::from("/w/x.ts"), &String::from("/w")).unwrap();
    let cmd = render_command(&Some(String::from("run {name.ext}")), &table, &vars);
    assert_eq!(cmd, "run x.ts");
}

#[test]
fn unmatched_extension_renders_nothing() {
    let table = RuleTable::build(&vec![rule("scripts", "js ts", Some("echo {name}"), None)]);
    let vars = builtin_vars(&String::from("/w/x.rs"), &String::from("/w")).unwrap();
    assert_eq!(render_command(&None, &table, &vars), "");
}

#[test]
fn later_rule_overwrites_earlier_for_colliding_extension() {
    let table = RuleTable::build(&vec![
        rule("first", "ts", Some("echo first"), None),
        rule("second", "ts", Some("echo second"), None),
    ]);
    let vars = builtin_vars(&String::from("/w/x.ts"), &String::from("/w")).unwrap();
    assert_eq!(render_command(&None, &table, &vars), "echo second");
}

#[test]
fn message_template_renders_against_the_map() {
    let vars = builtin_vars(&String::from("/a/b/c.txt"), &String::from("/a")).unwrap();
    let msg = render_message(&Some(String::from("{path}")), &vars);
    assert_eq!(msg, Some(String::from("/a/b/c.txt")));
    assert_eq!(render_message(&None, &vars), None);
}

#[test]
fn missing_key_stays_a_literal() {
    let vars = VariableMap::new();
    let msg = render_message(&Some(String::from("keep {unknown} here")), &vars);
    assert_eq!(msg, Some(String::from("keep {unknown} here")));
}

#[test]
fn enriched_key_reaches_the_command_template() {
    let table = RuleTable::build(&vec![rule("scripts", "ts", Some("paint {color}"), None)]);
    let mut vars = builtin_vars(&String::from("/w/x.ts"), &String::from("/w")).unwrap();
    apply_var_lines(&mut vars, &vec![String::from("color: blue")]);
    assert_eq!(vars.get(&String::from("color")), Some(&String::from("blue")));
    assert_eq!(render_command(&None, &table, &vars), "paint blue");
}

#[test]
fn variables_command_choice_prefers_the_explicit_one() {
    let table = RuleTable::build(&vec![rule("scripts", "ts", None, Some("info {path}"))]);
    let explicit = Some(String::from("probe {name}"));
    assert_eq!(
        choose_var_command(&explicit, &table, &String::from("ts")),
        Some(String::from("probe {name}"))
    );
    assert_eq!(
        choose_var_command(&None, &table, &String::from("ts")),
        Some(String::from("info {path}"))
    );
    assert_eq!(choose_var_command(&None, &table, &String::from("rs")), None);
}

#[test]
fn variables_command_line_is_rendered() {
    let table = RuleTable::build(&vec![rule("scripts", "ts", None, Some("info {name.ext}"))]);
    let vars = builtin_vars(&String::from("/w/x.ts"), &String::from("/w")).unwrap();
    assert_eq!(variables_command_line(&None, &table, &vars), Some(String::from("info x.ts")));
    assert_eq!(
        variables_command_line(&Some(String::from("probe {name}")), &table, &vars),
        Some(String::from("probe x"))
    );
}

#[test]
fn ignore_pattern_suppresses_matching_paths() {
    let patterns = vec![String::from("*.tmp")];
    assert!(should_ignore(&patterns, &String::from("foo.tmp")));
    assert!(!should_ignore(&patterns, &String::from("foo.txt")));
}

#[test]
fn no_pattern_suppresses_nothing() {
    let patterns: Vec<String> = Vec::new();
    assert!(!should_ignore(&patterns, &String::from("foo.tmp")));
}

#[test]
fn unparsable_pattern_matches_nothing() {
    let patterns = vec![String::from("[")];
    assert!(!should_ignore(&patterns, &String::from("[")));
}

#[test]
fn planned_change_is_suppressed_by_ignore() {
    let table = RuleTable::build(&vec![rule("scripts", "ts", Some("echo {name}"), None)]);
    let vars = builtin_vars(&String::from("/w/x.ts"), &String::from("/w")).unwrap();
    let patterns = vec![String::from("*.ts")];
    let p = plan_change(
        &Some(String::from("{path}")),
        &None,
        &table,
        &vars,
        &patterns,
        &String::from("/w/x.ts"),
        false,
        false,
        0,
    );
    assert!(matches!(p, EventPlan::Suppressed));
}

#[test]
fn planned_change_carries_rendered_message_and_command() {
    let table = RuleTable::build(&vec![rule("scripts", "ts", Some("echo {name}"), None)]);
    let vars = builtin_vars(&String::from("/w/x.ts"), &String::from("/w")).unwrap();
    let patterns: Vec<String> = Vec::new();
    let p = plan_change(
        &Some(String::from("{path}")),
        &None,
        &table,
        &vars,
        &patterns,
        &String::from("/w/x.ts"),
        false,
        true,
        9,
    );
    match p {
        EventPlan::Act { message, decision } => {
            assert_eq!(message, Some(String::from("/w/x.ts")));
            assert_eq!(decision.command, "echo x");
            assert!(decision.run);
            assert!(decision.detach);
            assert_eq!(decision.delay, 9);
        },
        EventPlan::Suppressed => panic!("event should go ahead"),
    }
}

#[test]
fn empty_extension_token_can_bind_a_rule() {
    // splitting "c " on spaces yields an empty token, which binds the
    // extension-less case
    let table = RuleTable::build(&vec![rule("noext", "c ", Some("cc {name.ext}"), None)]);
    let vars = builtin_vars(&String::from("/w/Makefile"), &String::from("/w")).unwrap();
    assert_eq!(render_command(&None, &table, &vars), "cc Makefile");
}
