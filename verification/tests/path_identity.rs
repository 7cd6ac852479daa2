use cargo_ninja::path::same_file;
use cargo_ninja::plan::Invocation;
use ninja_files_data::FileName;

const SPELLINGS: [&str; 18] = [
    "", ".", "..", "/", "//", "a", "./a", "a/", "a/.", "a//", "/a", "a/b", "a//b", "a/./b",
    "a/b/", "a/../b", "a b", "\u{6771}/\u{65b9}",
];

#[test]
fn same_file_agrees_with_the_file_names_of_the_build_file() {
    for a in SPELLINGS {
        for b in SPELLINGS {
            let names_equal = FileName::try_create(a).unwrap() == FileName::try_create(b).unwrap();
            assert_eq!(same_file(a, b), names_equal, "{:?} and {:?}", a, b);
        }
    }
}

#[test]
fn outputs_that_are_one_file_get_one_statement() {
    for a in SPELLINGS {
        for b in SPELLINGS {
            let inv = Invocation {
                package_name: "p".to_string(),
                package_version: "1".to_string(),
                target_kind: vec!["lib".to_string()],
                compile_mode: "build".to_string(),
                deps: vec![],
                outputs: Some(vec![]),
                links: vec![(a.to_string(), "t".to_string()), (b.to_string(), "t".to_string())],
                program: "rustc".to_string(),
                args: vec![],
                env: vec![],
                cwd: "/".to_string(),
            };
            let file = inv.ninja_build(0, vec![]).build().unwrap();
            let expected = if same_file(a, b) { 1 } else { 2 };
            assert_eq!(file.statements.len(), expected, "{:?} and {:?}", a, b);
        }
    }
}
