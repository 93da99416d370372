use crabmake::config::{Compiler, Config};
use crabmake::file::{convert_srcs, is_glob, parse_dep_file, resolve_sources, GlobEntry};
use crabmake::manifest::{BuildInfo, Manifest, ProjectInfo};

fn s(x: &str) -> String {
    x.to_string()
}

fn config_with(srcs: &[&str]) -> Config {
    Config {
        proj_root: s("/proj"),
        build_dir: s("/proj/build"),
        output_dir: s("/proj/build/debug"),
        compiler: Compiler { path: s("/usr/bin/cc") },
        manifest: Manifest {
            project: ProjectInfo { name: s("app"), lang: s("c"), std: s("c17"), version: s("0.1.0") },
            build: BuildInfo {
                srcs: srcs.iter().map(|x| s(x)).collect(),
                include_dirs: vec![],
                flags: vec![],
            },
        },
        bin: s("/proj/build/debug/app"),
        release: false,
    }
}

#[test]
fn glob_patterns_are_recognised() {
    assert!(is_glob(&s("src/*.c")));
    assert!(is_glob(&s("src/**/*.c")));
    assert!(is_glob(&s("src/main?.c")));
    assert!(is_glob(&s("src/[ab].c")));
    assert!(is_glob(&s("src/{a,b}.c")));
    assert!(is_glob(&s("!src")));
    assert!(!is_glob(&s("src/main.c")));
    assert!(!is_glob(&s("")));
}

#[test]
fn escaped_metacharacters_are_not_globs() {
    assert!(!is_glob(&s("src/\\*.c")));
    assert!(!is_glob(&s("a\\")));
    assert!(!is_glob(&s("\\[x\\]")));
    assert!(is_glob(&s("\\\\*")));
    assert!(is_glob(&s("\\a*")));
}

#[test]
fn dep_file_lists_dependencies_below_root() {
    let ctx = config_with(&[]);
    let deps = parse_dep_file(&ctx, "build/debug/src/main.o: src/main.c include/a.h\n").unwrap();
    assert_eq!(deps, vec!["/proj/src/main.c", "/proj/include/a.h"]);
}

#[test]
fn dep_file_continuations_and_escapes() {
    let ctx = config_with(&[]);
    let deps = parse_dep_file(&ctx, "x.o: my\\ file.c \\\n /usr/include/stdio.h\n").unwrap();
    assert_eq!(deps, vec!["/proj/my file.c", "/proj/", "/proj/", "/usr/include/stdio.h"]);
}

#[test]
fn dep_file_lone_backslash_and_colons() {
    let ctx = config_with(&[]);
    let deps = parse_dep_file(&ctx, "c:\\x.o: a:b.c z\\").unwrap();
    assert_eq!(deps, vec!["/proj/a:b.c", "/proj/z"]);
}

#[test]
fn dep_file_with_empty_list() {
    let ctx = config_with(&[]);
    let deps = parse_dep_file(&ctx, "x.o: \n").unwrap();
    assert_eq!(deps, vec!["/proj/"]);
}

#[test]
fn malformed_dep_file_is_an_error() {
    let ctx = config_with(&[]);
    assert_eq!(parse_dep_file(&ctx, "x.o:a.c"), Err(s("Malformed depfile.")));
    assert_eq!(parse_dep_file(&ctx, ""), Err(s("Malformed depfile.")));
}

#[test]
fn dep_file_round_trip_example() {
    let ctx = config_with(&[]);
    let names = ["src/my file.c", "inc/back\\slash.h", "a.h"];
    let body: Vec<String> = names
        .iter()
        .map(|n| n.replace('\\', "\\\\").replace(' ', "\\ "))
        .collect();
    let text = format!("build/x.o: {}", body.join(" "));
    let deps = parse_dep_file(&ctx, &text).unwrap();
    let expected: Vec<String> = names.iter().map(|n| format!("/proj/{}", n)).collect();
    assert_eq!(deps, expected);
}

#[test]
fn plain_sources_are_placed_below_root() {
    let ctx = config_with(&["src/main.c", "/abs/lib.c"]);
    assert_eq!(convert_srcs(&ctx), Ok(vec![s("/proj/src/main.c"), s("/abs/lib.c")]));
}

#[test]
fn glob_without_matches_gives_nothing() {
    let ctx = config_with(&["src/main.c", "/nonexistent-crabmake-dir/*.c"]);
    assert_eq!(convert_srcs(&ctx), Ok(vec![s("/proj/src/main.c")]));
}

#[test]
fn malformed_glob_is_an_error() {
    let ctx = config_with(&["src/main.c", "src/[.c", "src/***.c"]);
    assert_eq!(convert_srcs(&ctx), Err(s("Failed to unwrap glob pattern: src/[.c")));
}

#[test]
fn resolve_sources_with_given_matches() {
    let ctx = config_with(&["src/*.c", "main.c"]);
    let found = vec![
        Some(vec![GlobEntry::Path(s("src/a.c")), GlobEntry::Path(s("src/b.c"))]),
        None,
    ];
    assert_eq!(
        resolve_sources(&ctx, &found),
        Ok(vec![s("/proj/src/a.c"), s("/proj/src/b.c"), s("/proj/main.c")])
    );
}

#[test]
fn resolve_sources_errors() {
    let ctx = config_with(&["src/*.c", "x/[.c"]);
    let found = vec![Some(vec![GlobEntry::Path(s("src/a.c")), GlobEntry::Unreadable]), None];
    assert_eq!(resolve_sources(&ctx, &found), Err(s("Unreadable path for glob result: src/*.c")));
    let found = vec![Some(vec![]), None];
    assert_eq!(resolve_sources(&ctx, &found), Err(s("Failed to unwrap glob pattern: x/[.c")));
}
