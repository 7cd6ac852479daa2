use cargo_ninja::builder::{BuildPlan, PlanError};
use cargo_ninja::path::{ninja_dir, same_file};
use cargo_ninja::plan::{clone_strings, contains_file, Invocation};
use cargo_ninja::text::{decimal, has_prefix, same_text};

fn texts(v: &[&str]) -> Vec<String> {
    v.iter().map(|s| s.to_string()).collect()
}

fn step(name: &str, mode: &str, outputs: Option<&[&str]>) -> Invocation {
    Invocation {
        package_name: name.to_string(),
        package_version: "1.2.3".to_string(),
        target_kind: texts(&["lib", "rlib"]),
        compile_mode: mode.to_string(),
        deps: vec![],
        outputs: outputs.map(texts),
        links: vec![],
        program: "rustc".to_string(),
        args: vec![],
        env: vec![],
        cwd: "/work/pkg".to_string(),
    }
}

#[test]
fn decimal_of_zero_is_one_digit() {
    assert_eq!(decimal(0), "0");
}

#[test]
fn decimal_of_single_digits() {
    assert_eq!(decimal(7), "7");
    assert_eq!(decimal(9), "9");
}

#[test]
fn decimal_of_several_digits() {
    assert_eq!(decimal(10), "10");
    assert_eq!(decimal(1204), "1204");
    assert_eq!(decimal(987654321), "987654321");
}

#[test]
fn decimal_of_the_largest_position() {
    assert_eq!(decimal(usize::MAX), usize::MAX.to_string());
}

#[test]
fn has_prefix_on_plain_text() {
    assert!(has_prefix("--json=diagnostic", "--json="));
    assert!(has_prefix("--json=", "--json="));
    assert!(!has_prefix("--json", "--json="));
    assert!(!has_prefix("x--json=", "--json="));
    assert!(has_prefix("anything", ""));
}

#[test]
fn has_prefix_counts_characters_not_bytes() {
    assert!(has_prefix("\u{6771}\u{65b9}-x", "\u{6771}\u{65b9}"));
    assert!(!has_prefix("\u{6771}", "\u{6771}\u{65b9}"));
}

#[test]
fn same_text_compares_whole_texts() {
    assert!(same_text("abc", "abc"));
    assert!(!same_text("abc", "abd"));
    assert!(!same_text("abc", "ab"));
}

#[test]
fn same_file_ignores_spelling() {
    assert!(same_file("a/b", "a/b"));
    assert!(same_file("a/b", "a//b"));
    assert!(same_file("a/b", "a/./b/"));
    assert!(!same_file("a/b", "a/c"));
    assert!(!same_file("a/b", "./a/b"));
    assert!(!same_file("a/c", "a/b/../c"));
    assert!(!same_file("/a", "a"));
}

#[test]
fn ninja_dir_is_the_marker_in_the_parent() {
    assert_eq!(ninja_dir("bin/app"), Some("bin/.ninja_dir".to_string()));
    assert_eq!(ninja_dir("/t/debug/deps/liba.rlib"), Some("/t/debug/deps/.ninja_dir".to_string()));
}

#[test]
fn ninja_dir_of_a_bare_name_is_the_marker_alone() {
    assert_eq!(ninja_dir("liba.rlib"), Some(".ninja_dir".to_string()));
}

#[test]
fn ninja_dir_of_a_root_or_nothing_is_none() {
    assert_eq!(ninja_dir("/"), None);
    assert_eq!(ninja_dir(""), None);
}

#[test]
fn clone_strings_copies_in_order() {
    let v = texts(&["x", "", "y z"]);
    assert_eq!(clone_strings(&v), v);
    assert_eq!(clone_strings(&Vec::new()), Vec::<String>::new());
}

#[test]
fn contains_file_goes_by_components() {
    let list = texts(&["a/b", "c"]);
    assert!(contains_file(&list, "a//b"));
    assert!(contains_file(&list, "c/"));
    assert!(!contains_file(&list, "a"));
    assert!(!contains_file(&Vec::new(), "a"));
}

#[test]
fn rule_id_joins_position_name_version_kind_and_mode() {
    let inv = step("serde", "build", Some(&["libserde.rlib"]));
    assert_eq!(inv.rule_id(0), "0-serde-1.2.3-lib-build");
    assert_eq!(inv.rule_id(42), "42-serde-1.2.3-lib-build");
}

#[test]
fn rule_id_takes_the_first_target_kind_only() {
    let mut inv = step("x", "test", Some(&[]));
    inv.target_kind = texts(&["bin", "lib"]);
    assert_eq!(inv.rule_id(3), "3-x-1.2.3-bin-test");
}

#[test]
fn rule_id_keeps_hyphens_of_the_parts() {
    let mut inv = step("my-crate", "run-custom-build", None);
    inv.target_kind = texts(&["custom-build"]);
    assert_eq!(inv.rule_id(11), "11-my-crate-1.2.3-custom-build-run-custom-build");
}

#[test]
fn rule_ids_of_two_positions_differ() {
    let inv = step("a", "build", Some(&[]));
    let mut other = step("2-a", "build", Some(&[]));
    other.package_version = "1.2.3".to_string();
    assert_ne!(inv.rule_id(1), inv.rule_id(2));
    assert_ne!(inv.rule_id(12), other.rule_id(1));
}

#[test]
fn outputs_of_a_normal_step_are_the_declared_ones() {
    let inv = step("a", "build", Some(&["t/liba.rlib", "t/liba.rmeta"]));
    assert!(!inv.is_custom_build());
    assert_eq!(inv.outputs(), texts(&["t/liba.rlib", "t/liba.rmeta"]));
}

#[test]
fn outputs_of_a_normal_step_may_be_empty() {
    let inv = step("a", "build", Some(&[]));
    assert_eq!(inv.outputs(), Vec::<String>::new());
    assert_eq!(inv.dirs(), Vec::<String>::new());
}

#[test]
fn custom_build_step_has_the_marker_as_only_output() {
    let inv = step("a", "run-custom-build", None);
    assert!(inv.is_custom_build());
    assert_eq!(inv.outputs(), texts(&["/work/pkg/.ninja_touch"]));
}

#[test]
fn custom_build_step_ignores_declared_outputs() {
    let inv = step("a", "run-custom-build", Some(&["out/gen.rs"]));
    assert_eq!(inv.outputs(), texts(&["/work/pkg/.ninja_touch"]));
}

#[test]
fn custom_build_step_has_no_directories() {
    let inv = step("a", "run-custom-build", Some(&["out/gen.rs"]));
    assert_eq!(inv.dirs(), Vec::<String>::new());
}

#[test]
fn dirs_are_the_markers_of_the_parents() {
    let inv = step("a", "build", Some(&["t/deps/liba.rlib", "t/liba.d"]));
    assert_eq!(inv.dirs(), texts(&["t/deps/.ninja_dir", "t/.ninja_dir"]));
}

#[test]
fn dirs_hold_each_directory_once() {
    let inv = step("a", "build", Some(&["t/liba.rlib", "t/liba.rmeta", "u/x", "t//liba.d"]));
    assert_eq!(inv.dirs(), texts(&["t/.ninja_dir", "u/.ninja_dir"]));
}

#[test]
fn dirs_skip_outputs_without_a_parent() {
    let inv = step("a", "build", Some(&["/", "a"]));
    assert_eq!(inv.dirs(), texts(&[".ninja_dir"]));
}

#[test]
fn links_are_the_declared_pairs() {
    let mut inv = step("a", "build", Some(&["lib.so.1.0"]));
    inv.links = vec![("lib.so".to_string(), "lib.so.1.0".to_string())];
    assert_eq!(inv.links(), vec![("lib.so".to_string(), "lib.so.1.0".to_string())]);
    assert_eq!(step("b", "build", Some(&[])).links(), vec![]);
}

#[test]
fn provided_is_outputs_then_alias_targets() {
    let mut inv = step("a", "build", Some(&["d/liba-1.rlib"]));
    inv.links = vec![
        ("liba.rlib".to_string(), "d/liba-1.rlib".to_string()),
        ("liba.so".to_string(), "d/liba-1.so".to_string()),
    ];
    assert_eq!(inv.provided(), texts(&["d/liba-1.rlib", "d/liba-1.rlib", "d/liba-1.so"]));
}

#[test]
fn well_formed_asks_for_a_target_kind() {
    let mut inv = step("a", "build", Some(&[]));
    assert!(inv.is_well_formed());
    inv.target_kind = vec![];
    assert!(!inv.is_well_formed());
}

#[test]
fn well_formed_asks_for_outputs_unless_custom() {
    assert!(!step("a", "build", None).is_well_formed());
    assert!(step("a", "run-custom-build", None).is_well_formed());
    assert!(step("a", "run-custom-build", Some(&["x"])).is_well_formed());
}

#[test]
fn plan_of_nothing_is_a_plan() {
    let plan = BuildPlan::new(vec![]).unwrap();
    assert_eq!(plan.len(), 0);
    assert_eq!(plan.check_indices(), Ok(()));
}

#[test]
fn plan_keeps_the_order_of_the_records() {
    let plan = BuildPlan::new(vec![
        step("a", "build", Some(&["a"])),
        step("b", "build", Some(&["b"])),
    ]).unwrap();
    assert_eq!(plan.len(), 2);
    assert_eq!(plan.invocation(0).package_name, "a");
    assert_eq!(plan.invocation(1).package_name, "b");
}

#[test]
fn plan_reports_the_first_record_without_target_kind() {
    let mut bad = step("b", "build", Some(&[]));
    bad.target_kind = vec![];
    let mut worse = step("c", "build", None);
    worse.target_kind = vec![];
    let r = BuildPlan::new(vec![step("a", "build", Some(&[])), bad, worse]);
    assert_eq!(r.err(), Some(PlanError::PlanParse { invocation: 1 }));
}

#[test]
fn plan_reports_a_normal_record_without_outputs() {
    let r = BuildPlan::new(vec![step("a", "build", None)]);
    assert_eq!(r.err(), Some(PlanError::PlanParse { invocation: 0 }));
}

#[test]
fn check_indices_accepts_forward_and_backward_positions() {
    let mut a = step("a", "build", Some(&["a"]));
    a.deps = vec![1, 2];
    let mut c = step("c", "build", Some(&["c"]));
    c.deps = vec![0];
    let plan = BuildPlan::new(vec![a, step("b", "build", Some(&["b"])), c]).unwrap();
    assert_eq!(plan.check_indices(), Ok(()));
}

#[test]
fn check_indices_reports_the_first_position_out_of_range() {
    let mut a = step("a", "build", Some(&["a"]));
    a.deps = vec![1, 5, 9];
    let mut b = step("b", "build", Some(&["b"]));
    b.deps = vec![7];
    let plan = BuildPlan::new(vec![a, b]).unwrap();
    assert_eq!(
        plan.check_indices(),
        Err(PlanError::InvalidDependencyIndex { invocation: 0, index: 5 })
    );
}

#[test]
fn check_indices_rejects_the_length_itself() {
    let mut a = step("a", "build", Some(&["a"]));
    a.deps = vec![1];
    let plan = BuildPlan::new(vec![a]).unwrap();
    assert_eq!(
        plan.check_indices(),
        Err(PlanError::InvalidDependencyIndex { invocation: 0, index: 1 })
    );
}

#[test]
fn resolve_gives_what_each_dependency_provides_in_order() {
    let mut a = step("a", "build", Some(&["d/liba-1.rlib"]));
    a.links = vec![("liba.rlib".to_string(), "d/liba-1.rlib".to_string())];
    let b = step("b", "run-custom-build", None);
    let mut c = step("c", "build", Some(&["c"]));
    c.deps = vec![1, 0];
    let plan = BuildPlan::new(vec![a, b, c]).unwrap();
    assert_eq!(
        plan.resolve(2),
        texts(&["/work/pkg/.ninja_touch", "d/liba-1.rlib", "d/liba-1.rlib"])
    );
    assert_eq!(plan.resolve(0), Vec::<String>::new());
}

#[test]
fn message_of_a_schema_error() {
    assert_eq!(
        PlanError::PlanParse { invocation: 3 }.message(),
        "invocation 3 does not conform to the schema of a build plan"
    );
}

#[test]
fn message_of_an_invalid_index() {
    assert_eq!(
        PlanError::InvalidDependencyIndex { invocation: 12, index: 40 }.message(),
        "invocation 12 depends on position 40, which the plan does not have"
    );
}

#[test]
fn message_of_a_conflict() {
    let e = PlanError::ConflictingOutput {
        path: "t/x".to_string(),
        first_rule: "0-a-1-lib-build".to_string(),
        second_rule: "1-b-1-lib-build".to_string(),
    };
    assert_eq!(
        e.message(),
        "output t/x is claimed by rule 0-a-1-lib-build and by rule 1-b-1-lib-build"
    );
}
