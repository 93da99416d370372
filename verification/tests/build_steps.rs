use crabmake::commands::{compdb_entry, compile_units, create_compile, create_link, needs_link, unit_is_stale};
use crabmake::config::{Compiler, Config};
use crabmake::manifest::{BuildInfo, Manifest, ProjectInfo};

fn s(x: &str) -> String {
    x.to_string()
}

fn config(release: bool) -> Config {
    Config {
        proj_root: s("/proj"),
        build_dir: s("/proj/build"),
        output_dir: s(if release { "/proj/build/release" } else { "/proj/build/debug" }),
        compiler: Compiler { path: s("/usr/bin/cc") },
        manifest: Manifest {
            project: ProjectInfo { name: s("app"), lang: s("c"), std: s("c99"), version: s("0.1.0") },
            build: BuildInfo {
                srcs: vec![s("src/main.c")],
                include_dirs: vec![s("src"), s("/opt/inc")],
                flags: vec![s("-Wall")],
            },
        },
        bin: s("/proj/build/debug/app"),
        release,
    }
}

#[test]
fn debug_compile_command() {
    let cmd = create_compile(&config(false), &s("/proj/src/main.c"), &s("/o/main.o"), &s("/o/main.d"));
    assert_eq!(cmd.program, "/usr/bin/cc");
    assert_eq!(
        cmd.args,
        vec![
            "-c", "/proj/src/main.c", "-o", "/o/main.o", "-Wall", "-std=c99", "-I", "/proj/src", "-I",
            "/opt/inc", "-MMD", "-MF", "/o/main.d", "-O0", "-g",
        ]
    );
}

#[test]
fn release_compile_command() {
    let cmd = create_compile(&config(true), &s("a.c"), &s("a.o"), &s("a.d"));
    assert_eq!(cmd.args.last().unwrap(), "-O2");
    assert!(!cmd.args.contains(&s("-g")));
}

#[test]
fn link_command() {
    let cmd = create_link(&config(false), &vec![s("/o/a.o"), s("/o/b.o")]);
    assert_eq!(cmd.program, "/usr/bin/cc");
    assert_eq!(cmd.args, vec!["/o/a.o", "/o/b.o", "-o", "/proj/build/debug/app"]);
}

#[test]
fn units_of_sources() {
    let units = compile_units(&config(false), &vec![s("/proj/src/main.c"), s("/proj/lib/x.c")]).ok().unwrap();
    assert_eq!(units.len(), 2);
    assert_eq!(units[0].src, "/proj/src/main.c");
    assert_eq!(units[0].obj, "/proj/build/debug/src/main.o");
    assert_eq!(units[0].dep, "/proj/build/debug/src/main.d");
    assert_eq!(units[0].dep_file(), "/proj/build/debug/src/main.d");
    assert_eq!(units[1].obj, "/proj/build/debug/lib/x.o");
}

#[test]
fn units_fail_on_first_outside_source() {
    match compile_units(&config(false), &vec![s("/proj/a.c"), s("/x/b.c"), s("/y/c.c")]) {
        Err(e) => assert_eq!(e, "Failed to map source file /x/b.c to output file."),
        Ok(_) => panic!("accepted a source outside the project"),
    }
}

#[test]
fn staleness_of_units() {
    assert!(unit_is_stale(&None));
    assert!(!unit_is_stale(&Some(vec![])));
    assert!(!unit_is_stale(&Some(vec![Some(false), Some(false)])));
    assert!(unit_is_stale(&Some(vec![Some(false), Some(true)])));
    assert!(unit_is_stale(&Some(vec![None, Some(false)])));
}

#[test]
fn linking_decision() {
    assert!(!needs_link(false, true, &vec![]));
    assert!(!needs_link(false, true, &vec![Some(false)]));
    assert!(needs_link(true, true, &vec![Some(false)]));
    assert!(needs_link(false, false, &vec![]));
    assert!(needs_link(false, true, &vec![Some(false), Some(true)]));
    assert!(needs_link(false, true, &vec![None]));
}

#[test]
fn compdb_entry_of_source() {
    let e = compdb_entry(&config(false), &s("/proj/src/main.c")).ok().unwrap();
    assert_eq!(e.file, "/proj/src/main.c");
    assert_eq!(e.directory, "/proj");
    assert_eq!(e.output, "/proj/build/debug/src/main.o");
    assert_eq!(e.arguments[0], "/usr/bin/cc");
    assert_eq!(e.arguments[1..3], [s("-c"), s("/proj/src/main.c")]);
    assert_eq!(e.arguments.last().unwrap(), "-g");
    assert!(e.arguments.contains(&s("/proj/build/debug/src/main.d")));
    match compdb_entry(&config(false), &s("/else/a.c")) {
        Err(e) => assert_eq!(e, "Failed to map source file /else/a.c to output file."),
        Ok(_) => panic!("accepted a source outside the project"),
    }
}
