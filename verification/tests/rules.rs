use cargo_ninja::plan::Invocation;
use cargo_ninja::rules::{
    ensure_dir_all_rule, is_json_flag, link_rule, ENSURE_DIR_ALL_RULE_ID, LINK_RULE_ID,
};
use ninja_files_data::RuleBuilder;

fn texts(v: &[&str]) -> Vec<String> {
    v.iter().map(|s| s.to_string()).collect()
}

fn command_line(rule: RuleBuilder) -> (String, Vec<String>, usize) {
    let rule = rule.build().unwrap();
    assert!(!rule.generator);
    assert!(rule.shadow.is_empty());
    let process: &str = rule.command.process.as_ref();
    let args = rule.command.args.iter().map(|a| { let s: &str = a.as_ref(); s.to_string() }).collect();
    (process.to_string(), args, rule.command.env.len())
}

fn step(mode: &str, args: &[&str], env: &[(&str, &str)]) -> Invocation {
    Invocation {
        package_name: "pkg".to_string(),
        package_version: "0.1.0".to_string(),
        target_kind: texts(&["lib"]),
        compile_mode: mode.to_string(),
        deps: vec![],
        outputs: Some(vec![]),
        links: vec![],
        program: "rustc".to_string(),
        args: texts(args),
        env: env.iter().map(|(k, v)| (k.to_string(), v.to_string())).collect(),
        cwd: "/work/pkg".to_string(),
    }
}

#[test]
fn shared_rule_names() {
    assert_eq!(LINK_RULE_ID, "link");
    assert_eq!(ENSURE_DIR_ALL_RULE_ID, "ensure_dir_all");
}

#[test]
fn link_rule_hard_links_input_to_output() {
    let (process, args, env) = command_line(link_rule());
    assert_eq!(process, "ln");
    assert_eq!(args, texts(&["-f", "$in", "$out"]));
    assert_eq!(env, 0);
}

#[test]
fn ensure_dir_all_rule_makes_the_directory_and_touches_the_marker() {
    let (process, args, env) = command_line(ensure_dir_all_rule());
    assert_eq!(process, "mkdir");
    assert_eq!(args, texts(&["-p", "$$(dirname $out)", "&&", "touch", "$out"]));
    assert_eq!(env, 0);
}

#[test]
fn json_flags_are_recognised_exactly() {
    assert!(is_json_flag("--error-format=json"));
    assert!(is_json_flag("--json=diagnostic-rendered-ansi,artifacts"));
    assert!(is_json_flag("--json="));
    assert!(!is_json_flag("--error-format=json2"));
    assert!(!is_json_flag("--error-format=human"));
    assert!(!is_json_flag("--json"));
    assert!(!is_json_flag(" --json=x"));
    assert!(!is_json_flag(""));
}

#[test]
fn rule_runs_the_program_from_the_working_directory() {
    let (process, args, env) = command_line(step("build", &[], &[]).rule());
    assert_eq!(process, "cd");
    assert_eq!(args, texts(&["/work/pkg", "&&", "rustc", "--error-format=human"]));
    assert_eq!(env, 0);
}

#[test]
fn rule_keeps_the_arguments_in_order() {
    let inv = step("build", &["--crate-name", "pkg", "--edition=2021", "src/lib.rs"], &[]);
    let (_, args, _) = command_line(inv.rule());
    assert_eq!(
        args,
        texts(&[
            "/work/pkg", "&&", "rustc", "--crate-name", "pkg", "--edition=2021", "src/lib.rs",
            "--error-format=human",
        ])
    );
}

#[test]
fn rule_drops_the_json_flags_and_asks_for_human_diagnostics_once() {
    let inv = step(
        "build",
        &["--error-format=json", "-C", "--json=diagnostic-rendered-ansi", "--error-format=json", "x"],
        &[],
    );
    let (_, args, _) = command_line(inv.rule());
    assert_eq!(args, texts(&["/work/pkg", "&&", "rustc", "-C", "x", "--error-format=human"]));
}

#[test]
fn rule_quotes_arguments_for_the_shell() {
    let inv = step("build", &["a b", "it's", "plain", "$HOME", "--cfg=feature=\"std\""], &[]);
    let (_, args, _) = command_line(inv.rule());
    assert_eq!(
        args,
        texts(&[
            "/work/pkg", "&&", "rustc", "'a b'", "\"it's\"", "plain", "'$HOME'",
            "'--cfg=feature=\"std\"'", "--error-format=human",
        ])
    );
}

#[test]
fn rule_gives_the_environment_as_assignment_words_before_the_program() {
    let inv = step("build", &["x"], &[("CARGO", "/usr/bin/cargo"), ("FLAGS", "-a -b"), ("E", "")]);
    let (_, args, env) = command_line(inv.rule());
    assert_eq!(
        args,
        texts(&[
            "/work/pkg", "&&", "CARGO=/usr/bin/cargo", "FLAGS='-a -b'", "E=", "rustc", "x",
            "--error-format=human",
        ])
    );
    assert_eq!(env, 0);
}

#[test]
fn rule_leaves_program_and_working_directory_as_they_are() {
    let mut inv = step("build", &[], &[]);
    inv.program = "/opt/my tools/rustc".to_string();
    inv.cwd = "/work/my pkg".to_string();
    let (_, args, _) = command_line(inv.rule());
    assert_eq!(
        args,
        texts(&["/work/my pkg", "&&", "/opt/my tools/rustc", "--error-format=human"])
    );
}

#[test]
fn rule_of_a_custom_build_step_touches_its_marker_afterwards() {
    let mut inv = step("run-custom-build", &["--json=x"], &[("OUT_DIR", "/t/out")]);
    inv.program = "/t/build/pkg/build-script-build".to_string();
    inv.outputs = None;
    let (process, args, _) = command_line(inv.rule());
    assert_eq!(process, "cd");
    assert_eq!(
        args,
        texts(&[
            "/work/pkg", "&&", "OUT_DIR=/t/out", "/t/build/pkg/build-script-build",
            "--error-format=human", "&&", "cd -", "&&", "touch", "/work/pkg/.ninja_touch",
        ])
    );
}
