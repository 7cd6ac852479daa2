use cargo_ninja::builder::BuildPlan;
use cargo_ninja::plan::Invocation;
use ninja_files::format::write_ninja_file;
use ninja_files_data::{File, FileName};

fn texts(v: &[&str]) -> Vec<String> {
    v.iter().map(|s| s.to_string()).collect()
}

fn step(name: &str, kind: &str, deps: &[usize], outputs: &[&str]) -> Invocation {
    Invocation {
        package_name: name.to_string(),
        package_version: "0.1.0".to_string(),
        target_kind: texts(&[kind]),
        compile_mode: "build".to_string(),
        deps: deps.to_vec(),
        outputs: Some(texts(outputs)),
        links: vec![],
        program: "rustc".to_string(),
        args: vec![],
        env: vec![],
        cwd: "/src".to_string(),
    }
}

fn text_of(file: &File) -> String {
    String::from_utf8(write_ninja_file(file, Vec::new()).unwrap()).unwrap()
}

fn names(set: &std::collections::BTreeSet<FileName>) -> Vec<String> {
    set.iter().map(|f| { let s: &str = f.as_ref(); s.to_string() }).collect()
}

#[test]
fn library_and_the_program_that_depends_on_it() {
    let plan = BuildPlan::new(vec![
        step("a", "lib", &[], &["liba.rlib"]),
        step("app", "bin", &[0], &["bin/app"]),
    ]).unwrap();
    let file = plan.into_file().unwrap();

    let lib = file.statements.get(&FileName::try_create("liba.rlib").unwrap()).unwrap();
    assert_eq!(lib.rule.as_ref(), "0-a-0.1.0-lib-build");
    assert!(lib.explicit.is_empty());

    let app = file.statements.get(&FileName::try_create("bin/app").unwrap()).unwrap();
    assert_eq!(app.rule.as_ref(), "1-app-0.1.0-bin-build");
    assert_eq!(names(&app.explicit), texts(&["liba.rlib"]));
    assert_eq!(names(&app.implicit), texts(&["bin/.ninja_dir"]));

    let dir = file.statements.get(&FileName::try_create("bin/.ninja_dir").unwrap()).unwrap();
    assert_eq!(dir.rule.as_ref(), "ensure_dir_all");
    assert!(dir.explicit.is_empty());
    assert!(dir.implicit.is_empty());

    assert!(file.rules.keys().any(|id| id.as_ref() == "0-a-0.1.0-lib-build"));
    assert!(file.rules.keys().any(|id| id.as_ref() == "1-app-0.1.0-bin-build"));

    let expected = "\
rule 0-a-0.1.0-lib-build
  command = cd /src && rustc --error-format=human
rule 1-app-0.1.0-bin-build
  command = cd /src && rustc --error-format=human
rule ensure_dir_all
  command = mkdir -p $$(dirname $out) && touch $out

build .ninja_dir : ensure_dir_all
build bin/.ninja_dir : ensure_dir_all
build bin/app : 1-app-0.1.0-bin-build liba.rlib | bin/.ninja_dir
build liba.rlib : 0-a-0.1.0-lib-build | .ninja_dir

";
    assert_eq!(text_of(&file), expected);
}

#[test]
fn alias_that_no_step_depends_on() {
    let mut inv = step("so", "cdylib", &[], &[]);
    inv.links = vec![("lib.so".to_string(), "lib.so.1.0".to_string())];
    let file = BuildPlan::new(vec![inv]).unwrap().into_file().unwrap();

    assert_eq!(file.statements.len(), 1);
    let alias = file.statements.get(&FileName::try_create("lib.so").unwrap()).unwrap();
    assert_eq!(alias.rule.as_ref(), "link");
    assert_eq!(names(&alias.explicit), texts(&["lib.so.1.0"]));

    let expected = "\
rule 0-so-0.1.0-cdylib-build
  command = cd /src && rustc --error-format=human
rule link
  command = ln -f $in $out

build lib.so : link lib.so.1.0 | .ninja_dir

";
    assert_eq!(text_of(&file), expected);
}
