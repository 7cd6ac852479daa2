use cargo_ninja::plan::Invocation;
use ninja_files_data::{Build, File, FileBuilderError, FileName};

fn texts(v: &[&str]) -> Vec<String> {
    v.iter().map(|s| s.to_string()).collect()
}

fn step(mode: &str, outputs: Option<&[&str]>, links: &[(&str, &str)]) -> Invocation {
    Invocation {
        package_name: "pkg".to_string(),
        package_version: "0.1.0".to_string(),
        target_kind: texts(&["lib"]),
        compile_mode: mode.to_string(),
        deps: vec![],
        outputs: outputs.map(texts),
        links: links.iter().map(|(l, t)| (l.to_string(), t.to_string())).collect(),
        program: "rustc".to_string(),
        args: vec![],
        env: vec![],
        cwd: "/work/pkg".to_string(),
    }
}

fn statement<'a>(file: &'a File, output: &str) -> &'a Build {
    file.statements.get(&FileName::try_create(output).unwrap()).unwrap()
}

fn names(set: &std::collections::BTreeSet<FileName>) -> Vec<String> {
    set.iter().map(|f| { let s: &str = f.as_ref(); s.to_string() }).collect()
}

fn outputs_of(file: &File) -> Vec<String> {
    file.statements.keys().map(|f| { let s: &str = f.as_ref(); s.to_string() }).collect()
}

fn rules_of(file: &File) -> Vec<String> {
    file.rules.keys().map(|id| id.as_ref().to_string()).collect()
}

fn rule_of(build: &Build) -> String {
    build.rule.as_ref().to_string()
}

#[test]
fn step_without_outputs_holds_its_rule_only() {
    let file = step("build", Some(&[]), &[]).ninja_build(4, vec![]).build().unwrap();
    assert_eq!(rules_of(&file), texts(&["4-pkg-0.1.0-lib-build"]));
    assert!(file.statements.is_empty());
    assert!(file.variables.is_empty());
}

#[test]
fn step_declares_a_statement_for_each_output() {
    let inv = step("build", Some(&["t/liba.rlib", "t/liba.rmeta"]), &[]);
    let file = inv.ninja_build(0, texts(&["t/libb.rlib", "t/libc.rlib"])).build().unwrap();
    assert_eq!(outputs_of(&file), texts(&["t/.ninja_dir", "t/liba.rlib", "t/liba.rmeta"]));
    for output in ["t/liba.rlib", "t/liba.rmeta"] {
        let build = statement(&file, output);
        assert_eq!(rule_of(build), "0-pkg-0.1.0-lib-build");
        assert_eq!(names(&build.explicit), texts(&["t/libb.rlib", "t/libc.rlib"]));
        assert_eq!(names(&build.implicit), texts(&["t/.ninja_dir"]));
        assert!(build.order.is_empty());
        assert!(build.dyndep.is_none());
        assert!(build.shadow.is_empty());
    }
}

#[test]
fn explicit_dependencies_are_a_set() {
    let inv = step("build", Some(&["out"]), &[]);
    let file = inv.ninja_build(0, texts(&["b", "a", "b", "a//x", "a/x"])).build().unwrap();
    assert_eq!(names(&statement(&file, "out").explicit), texts(&["a", "a//x", "b"]));
}

#[test]
fn each_output_depends_on_its_own_directory() {
    let inv = step("build", Some(&["t/a", "u/v/b", "/"]), &[]);
    let file = inv.ninja_build(0, vec![]).build().unwrap();
    assert_eq!(names(&statement(&file, "t/a").implicit), texts(&["t/.ninja_dir"]));
    assert_eq!(names(&statement(&file, "u/v/b").implicit), texts(&["u/v/.ninja_dir"]));
    assert!(statement(&file, "/").implicit.is_empty());
}

#[test]
fn directory_statements_use_the_shared_rule_and_depend_on_nothing() {
    let inv = step("build", Some(&["t/a", "t/b", "u/c"]), &[]);
    let file = inv.ninja_build(1, texts(&["dep"])).build().unwrap();
    assert_eq!(rules_of(&file), texts(&["1-pkg-0.1.0-lib-build", "ensure_dir_all"]));
    for dir in ["t/.ninja_dir", "u/.ninja_dir"] {
        let build = statement(&file, dir);
        assert_eq!(rule_of(build), "ensure_dir_all");
        assert!(build.explicit.is_empty());
        assert!(build.implicit.is_empty());
    }
    assert_eq!(file.statements.len(), 5);
}

#[test]
fn alias_statements_link_the_target() {
    let inv = step("build", Some(&["d/lib.so.1.0"]), &[("lib.so", "d/lib.so.1.0"), ("x/y", "z")]);
    let file = inv.ninja_build(0, vec![]).build().unwrap();
    assert_eq!(rules_of(&file), texts(&["0-pkg-0.1.0-lib-build", "ensure_dir_all", "link"]));
    let build = statement(&file, "lib.so");
    assert_eq!(rule_of(build), "link");
    assert_eq!(names(&build.explicit), texts(&["d/lib.so.1.0"]));
    assert_eq!(names(&build.implicit), texts(&["d/.ninja_dir"]));
    let build = statement(&file, "x/y");
    assert_eq!(rule_of(build), "link");
    assert_eq!(names(&build.explicit), texts(&["z"]));
    assert_eq!(names(&build.implicit), texts(&[".ninja_dir"]));
    assert_eq!(outputs_of(&file), texts(&["d/.ninja_dir", "d/lib.so.1.0", "lib.so", "x/y"]));
}

#[test]
fn alias_of_a_root_has_no_directory_dependency() {
    let inv = step("build", Some(&[]), &[("alias", "/")]);
    let file = inv.ninja_build(0, vec![]).build().unwrap();
    let build = statement(&file, "alias");
    assert_eq!(names(&build.explicit), texts(&["/"]));
    assert!(build.implicit.is_empty());
}

#[test]
fn the_same_alias_pair_twice_stands_once() {
    let inv = step("build", Some(&[]), &[("lib.so", "lib.so.1"), ("lib.so", "lib.so.1")]);
    let file = inv.ninja_build(0, vec![]).build().unwrap();
    assert_eq!(outputs_of(&file), texts(&["lib.so"]));
}

#[test]
fn the_same_output_twice_in_one_step_stands_once() {
    let inv = step("build", Some(&["t/a", "t/a", "t//a"]), &[]);
    let file = inv.ninja_build(0, vec![]).build().unwrap();
    assert_eq!(outputs_of(&file), texts(&["t/.ninja_dir", "t/a"]));
}

#[test]
fn custom_build_step_has_one_statement_and_no_directory_statement() {
    let inv = step("run-custom-build", None, &[]);
    let file = inv.ninja_build(2, texts(&["t/build-script-build"])).build().unwrap();
    assert_eq!(rules_of(&file), texts(&["2-pkg-0.1.0-lib-run-custom-build"]));
    assert_eq!(outputs_of(&file), texts(&["/work/pkg/.ninja_touch"]));
    let build = statement(&file, "/work/pkg/.ninja_touch");
    assert_eq!(rule_of(build), "2-pkg-0.1.0-lib-run-custom-build");
    assert_eq!(names(&build.explicit), texts(&["t/build-script-build"]));
    assert_eq!(names(&build.implicit), texts(&["/work/pkg/.ninja_dir"]));
}

#[test]
fn an_alias_that_claims_an_output_of_the_step_is_a_conflict() {
    let inv = step("build", Some(&["t/a"]), &[("t/a", "t/b")]);
    let errors = inv.ninja_build(7, vec![]).build().unwrap_err();
    assert_eq!(errors.len(), 1);
    match &errors[0] {
        FileBuilderError::BuildAlreadyExists { id, previous, build } => {
            let id: &str = id.as_ref();
            assert_eq!(id, "t/a");
            assert_eq!(rule_of(previous), "7-pkg-0.1.0-lib-build");
            assert_eq!(rule_of(build), "link");
        },
        _ => panic!("another error"),
    }
}

#[test]
fn two_targets_for_one_alias_are_a_conflict() {
    let inv = step("build", Some(&[]), &[("lib.so", "lib.so.1"), ("lib.so", "lib.so.2")]);
    assert!(inv.ninja_build(0, vec![]).build().is_err());
}
