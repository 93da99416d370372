use crabmake::config::{program_of, Compiler, Config};
use crabmake::manifest::{BuildInfo, Manifest, ProjectInfo};

fn s(x: &str) -> String {
    x.to_string()
}

fn manifest(lang: &str) -> Manifest {
    Manifest {
        project: ProjectInfo { name: s("app"), lang: s(lang), std: s("c17"), version: s("0.1.0") },
        build: BuildInfo { srcs: vec![s("src/main.c")], include_dirs: vec![], flags: vec![] },
    }
}

fn config() -> Config {
    Config {
        proj_root: s("/proj"),
        build_dir: s("/proj/build"),
        output_dir: s("/proj/build/debug"),
        compiler: Compiler { path: s("/usr/bin/cc") },
        manifest: manifest("c"),
        bin: s("/proj/build/debug/app"),
        release: false,
    }
}

#[test]
fn compiler_from_search_result() {
    let c = Compiler::from_found("cc", Some(s("/usr/bin/cc"))).unwrap();
    assert_eq!(c.path, "/usr/bin/cc");
    match Compiler::from_found("c++", None) {
        Err(e) => assert_eq!(e, "Compiler c++ not found."),
        Ok(_) => panic!("a missing compiler was accepted"),
    }
}

#[test]
fn compiler_from_unknown_language() {
    match Compiler::from_lang("rust") {
        Err(e) => assert_eq!(e, "Invalid language: rust"),
        Ok(_) => panic!("accepted an unknown language"),
    }
}

#[test]
fn compiler_from_known_language() {
    for (lang, name) in [("c", "cc"), ("c++", "c++"), ("cpp", "c++")] {
        match Compiler::from_lang(lang) {
            Ok(c) => assert!(c.path == name || c.path.ends_with(&format!("/{}", name))),
            Err(e) => assert_eq!(e, format!("Compiler {} not found.", name)),
        }
    }
}

#[test]
fn config_layout() {
    for release in [false, true] {
        match Config::new(release, s("/proj"), manifest("c")) {
            Ok(c) => {
                assert!(c.compiler.path == "cc" || c.compiler.path.ends_with("/cc"));
                assert_eq!(c.proj_root, "/proj");
                assert_eq!(c.build_dir, "/proj/build");
                let profile = if release { "/proj/build/release" } else { "/proj/build/debug" };
                assert_eq!(c.output_dir, profile);
                assert_eq!(c.bin, format!("{}/app", profile));
                assert_eq!(c.release, release);
            }
            Err(e) => assert_eq!(e, "Compiler cc not found."),
        }
    }
}

#[test]
fn config_refuses_unknown_language() {
    match Config::new(false, s("/proj"), manifest("go")) {
        Err(e) => assert_eq!(e, "Invalid language: go"),
        Ok(_) => panic!("accepted an unknown language"),
    }
}

#[test]
fn sources_map_to_object_and_dep_files() {
    let c = config();
    assert_eq!(c.src_to_relative(&s("/proj/src/main.c")), Ok(s("src/main.c")));
    assert_eq!(c.map_src_to_obj(&s("/proj/src/main.c")), Ok(s("/proj/build/debug/src/main.o")));
    assert_eq!(c.map_src_to_dep(&s("/proj/src/main.c")), Ok(s("/proj/build/debug/src/main.d")));
    assert_eq!(c.map_src_to_obj(&s("/proj/lib/x.cpp")), Ok(s("/proj/build/debug/lib/x.o")));
}

#[test]
fn sources_outside_the_root_are_errors() {
    let c = config();
    let msg = s("Failed to map source file /elsewhere/a.c to output file.");
    assert_eq!(c.src_to_relative(&s("/elsewhere/a.c")), Err(msg.clone()));
    assert_eq!(c.map_src_to_obj(&s("/elsewhere/a.c")), Err(msg.clone()));
    assert_eq!(c.map_src_to_dep(&s("/elsewhere/a.c")), Err(msg));
}

#[test]
fn programs_of_languages() {
    assert_eq!(program_of("c"), Some("cc"));
    assert_eq!(program_of("c++"), Some("c++"));
    assert_eq!(program_of("cpp"), Some("c++"));
    assert_eq!(program_of("rust"), None);
}

#[test]
fn config_from_a_lookup() {
    let c = Config::from_lookup(true, s("/proj"), manifest("cpp"), Some(s("/opt/bin/c++"))).ok().unwrap();
    assert_eq!(c.compiler.path, "/opt/bin/c++");
    assert_eq!(c.build_dir, "/proj/build");
    assert_eq!(c.output_dir, "/proj/build/release");
    assert_eq!(c.bin, "/proj/build/release/app");
    assert!(c.release);
    match Config::from_lookup(false, s("/proj"), manifest("cpp"), None) {
        Err(e) => assert_eq!(e, "Compiler c++ not found."),
        Ok(_) => panic!("a missing compiler was accepted"),
    }
    match Config::from_lookup(false, s("/proj"), manifest("zig"), Some(s("/bin/zig"))) {
        Err(e) => assert_eq!(e, "Invalid language: zig"),
        Ok(_) => panic!("accepted an unknown language"),
    }
}
