use crabmake::commands::{init, project_root};
use crabmake::manifest::Manifest;

fn s(x: &str) -> String {
    x.to_string()
}

#[test]
fn default_manifest_for_c() {
    let m = Manifest::default(&s("myapp"), &s("c"), &None).unwrap();
    assert_eq!(m.project.name, "myapp");
    assert_eq!(m.project.lang, "c");
    assert_eq!(m.project.std, "c17");
    assert_eq!(m.project.version, "0.1.0");
    assert!(m.build.srcs.is_empty());
    assert!(m.build.include_dirs.is_empty());
    assert!(m.build.flags.is_empty());
}

#[test]
fn default_manifest_for_cpp() {
    assert_eq!(Manifest::default(&s("a"), &s("c++"), &None).unwrap().project.std, "c++17");
    assert_eq!(Manifest::default(&s("a"), &s("cpp"), &None).unwrap().project.std, "c++17");
}

#[test]
fn default_manifest_with_given_std() {
    let m = Manifest::default(&s("a"), &s("c"), &Some(s("c11"))).unwrap();
    assert_eq!(m.project.std, "c11");
    let m = Manifest::default(&s("a"), &s("fortran"), &Some(s("f90"))).unwrap();
    assert_eq!(m.project.std, "f90");
    assert_eq!(m.project.lang, "fortran");
}

#[test]
fn default_manifest_refuses_unknown_language() {
    match Manifest::default(&s("a"), &s("rust"), &None) {
        Err(e) => assert_eq!(e, "Invalid language specified."),
        Ok(_) => panic!("accepted an unknown language"),
    }
}

#[test]
fn init_c_project() {
    let sc = init(&s("myapp"), &s("c"), &None).unwrap();
    assert_eq!(sc.main_filename, "main.c");
    assert_eq!(
        sc.main_content,
        "#include <stdio.h>\n\nint main(void) {\n    printf(\"Hello, world!\\n\");\n    return 0;\n}\n"
    );
    assert_eq!(sc.manifest.build.srcs, vec!["src/main.c"]);
    assert_eq!(sc.manifest.project.std, "c17");
    assert_eq!(sc.manifest.project.name, "myapp");
}

#[test]
fn init_cpp_project() {
    for lang in ["c++"] {
        let sc = init(&s("."), &s(lang), &None).unwrap();
        assert_eq!(sc.main_filename, "main.cpp");
        assert_eq!(
            sc.main_content,
            "#include <iostream>\n\nint main() {\n    std::cout << \"Hello, world!\\n\";\n    return 0;\n}\n"
        );
        assert_eq!(sc.manifest.build.srcs, vec!["src/main.cpp"]);
        assert_eq!(sc.manifest.project.std, "c++17");
        assert_eq!(sc.manifest.project.lang, lang);
    }
}

#[test]
fn init_with_std_override() {
    let sc = init(&s("myapp"), &s("c"), &Some(s("c11"))).unwrap();
    assert_eq!(sc.manifest.project.std, "c11");
}

#[test]
fn init_refuses_unknown_language() {
    match init(&s("myapp"), &s("rust"), &None) {
        Err(e) => assert_eq!(e, "Unsupported language: rust. Expected 'c' or 'c++'."),
        Ok(_) => panic!("accepted an unknown language"),
    }
}

#[test]
fn init_refuses_cpp_spelling() {
    match init(&s("myapp"), &s("cpp"), &None) {
        Err(e) => assert_eq!(e, "Unsupported language: cpp. Expected 'c' or 'c++'."),
        Ok(_) => panic!("accepted cpp"),
    }
}

#[test]
fn new_project_directory() {
    assert_eq!(project_root("/work", "."), (s("/work"), false));
    assert_eq!(project_root("/work", "myapp"), (s("/work/myapp"), true));
}
