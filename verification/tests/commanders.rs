use crabmake::command::{build, build_from, try_build, Commander, Compiler};
use crabmake::context::{Compiler as CtxCompiler, Context};
use crabmake::file::GlobEntry;
use crabmake::manifest::{BuildInfo, Manifest, ProjectInfo};

fn s(x: &str) -> String {
    x.to_string()
}

fn manifest(lang: &str, srcs: &[&str]) -> Manifest {
    Manifest {
        project: ProjectInfo { name: s("app"), lang: s(lang), std: s("c99"), version: s("0.1.0") },
        build: BuildInfo {
            srcs: srcs.iter().map(|x| s(x)).collect(),
            include_dirs: vec![s("inc")],
            flags: vec![s("-Wall"), s("-Wextra")],
        },
    }
}

#[test]
fn compiler_commands() {
    assert_eq!(Compiler::CC.command(), "cc");
    assert_eq!(Compiler::CPP.command(), "cpp");
    assert_eq!(CtxCompiler::CC.command(), "cc");
    assert_eq!(CtxCompiler::CPP.command(), "cpp");
}

#[test]
fn commander_compile_and_link() {
    let c = Commander::new(manifest("c", &["src/main.c"])).ok().unwrap();
    let cmd = c.compile(&s("src/main.c")).ok().unwrap();
    assert_eq!(cmd.program, "cc");
    assert_eq!(cmd.args, vec!["-c", "src/main.c", "-o", "build/src/main.c", "-Wall", "-Wextra", "-std=c99"]);
    let cmd = c.link(&vec![s("build/a.o"), s("build/b.o")]).ok().unwrap();
    assert_eq!(cmd.program, "cc");
    assert_eq!(cmd.args, vec!["build/a.o", "build/b.o", "-o", "build/app"]);
}

#[test]
fn commander_for_cpp() {
    let c = Commander::new(manifest("c++", &[])).ok().unwrap();
    assert_eq!(c.compile(&s("a.cpp")).ok().unwrap().program, "cpp");
}

#[test]
fn commander_refuses_other_languages() {
    match Commander::new(manifest("cpp", &[])) {
        Err(e) => assert_eq!(e, "Invalid language: cpp"),
        Ok(_) => panic!("accepted cpp"),
    }
}

#[test]
fn build_from_given_matches() {
    let m = manifest("c", &["src/*.c", "main.c"]);
    let found = vec![
        Some(vec![GlobEntry::Path(s("src/a.c")), GlobEntry::Unreadable, GlobEntry::Path(s("src/b.c"))]),
        None,
    ];
    let cmd = build_from(&m, &found).ok().unwrap();
    assert_eq!(cmd.program, "cc");
    assert_eq!(cmd.args, vec!["src/a.c", "src/b.c", "main.c", "-o", "app", "-Wall", "-Wextra", "-std=c99"]);
}

#[test]
fn build_plain_sources() {
    let cmd = build(manifest("c++", &["a.cpp", "b.cpp"])).ok().unwrap();
    assert_eq!(cmd.program, "c++");
    assert_eq!(cmd.args, vec!["a.cpp", "b.cpp", "-o", "app", "-Wall", "-Wextra", "-std=c99"]);
}

#[test]
fn build_glob_without_matches() {
    let cmd = build(manifest("c", &["/nonexistent-crabmake-dir/*.c"])).ok().unwrap();
    assert_eq!(cmd.args, vec!["-o", "app", "-Wall", "-Wextra", "-std=c99"]);
}

#[test]
fn build_refuses_other_languages() {
    match build(manifest("cpp", &["a.cpp"])) {
        Err(e) => assert_eq!(e, "Invalid project language"),
        Ok(_) => panic!("accepted cpp"),
    }
}

#[test]
fn try_build_with_malformed_pattern() {
    assert!(try_build(manifest("c", &["src/[.c"])).is_none());
    match try_build(manifest("go", &["src/[.c"])) {
        Some(Err(e)) => assert_eq!(e, "Invalid project language"),
        _ => panic!("language is checked first"),
    }
    match try_build(manifest("c", &["a.c"])) {
        Some(Ok(cmd)) => assert_eq!(cmd.args[0], "a.c"),
        _ => panic!("a plain source list builds"),
    }
}

#[test]
fn context_compiler_from_lang() {
    assert!(matches!(CtxCompiler::from_lang("c"), Ok(CtxCompiler::CC)));
    assert!(matches!(CtxCompiler::from_lang("c++"), Ok(CtxCompiler::CPP)));
    match CtxCompiler::from_lang("cpp") {
        Err(e) => assert_eq!(e, "Invalid language: cpp"),
        Ok(_) => panic!("accepted cpp"),
    }
}

#[test]
fn context_maps_sources() {
    let ctx = Context::new(s("/proj"), manifest("c", &[])).ok().unwrap();
    assert_eq!(ctx.build_dir, "/proj/build");
    assert!(matches!(ctx.compiler, CtxCompiler::CC));
    assert_eq!(ctx.map_src_to_output(&s("/proj/src/main.c")), Ok(s("/proj/build/src/main.o")));
    assert_eq!(
        ctx.map_src_to_output(&s("/tmp/x.c")),
        Err(s("Failed to map source /tmp/x.c to output file."))
    );
}

#[test]
fn context_refuses_other_languages() {
    match Context::new(s("/proj"), manifest("rust", &[])) {
        Err(e) => assert_eq!(e, "Invalid language: rust"),
        Ok(_) => panic!("accepted rust"),
    }
}
