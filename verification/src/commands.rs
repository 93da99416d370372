//! What the tool's commands decide and compute: a new project's files, the
//! compiler and linker command lines of a build, which files a build must
//! redo, and the entries of a compilation database.
use vstd::prelude::*;
use crate::command::CommandLine;
use crate::config::{Config, unmapped_source_error};
use crate::manifest::{Manifest, default_std, initial_version};
use crate::paths::{join, path_join};
use crate::text::{str_eq, concat2, concat3, push_all, views};

verus! {

/// The starter program of a new C project.
pub open spec fn c_main() -> Seq<char> {
    "#include <stdio.h>\n\nint main(void) {\n    printf(\"Hello, world!\\n\");\n    return 0;\n}\n"@
}

/// The starter program of a new C++ project.
pub open spec fn cpp_main() -> Seq<char> {
    "#include <iostream>\n\nint main() {\n    std::cout << \"Hello, world!\\n\";\n    return 0;\n}\n"@
}

/// The starter source file of a new project's language: its name and text.
/// A new project is in C (`c`) or C++ (`c++`).
pub open spec fn starter_file(lang: Seq<char>) -> Option<(Seq<char>, Seq<char>)> {
    if lang == "c"@ {
        Some(("main.c"@, c_main()))
    } else if lang == "c++"@ {
        Some(("main.cpp"@, cpp_main()))
    } else {
        None
    }
}

/// Where a new project named `name` goes, given the working directory
/// `cwd`: the working directory itself for `.`, else the directory `name` in
/// it, which is then new (the flag).
pub fn project_root(cwd: &str, name: &str) -> (res: (String, bool))
    ensures
        name@ == "."@ ==> res.0@ == cwd@ && !res.1,
        name@ != "."@ ==> res.0@ == path_join(cwd@, name@) && res.1,
{
    if str_eq(name, ".") {
        (String::from_str(cwd), false)
    } else {
        (join(cwd, name), true)
    }
}

/// The files of a new project: its manifest and its starter source file.
pub struct Scaffold {
    pub manifest: Manifest,
    pub main_filename: String,
    pub main_content: String,
}

/// The files of a new project `name` in `lang`, with the language standard
/// `std` or else the language's default: a manifest that lists the starter
/// file `src/main.c` or `src/main.cpp` as its one source, and that file's
/// hello-world text. A language other than `c` or `c++` is refused.
pub fn init(name: &String, lang: &String, std: &Option<String>) -> (res: Result<Scaffold, String>)
    ensures
        match starter_file(lang@) {
            None => res matches Err(e) && e@ == "Unsupported language: "@ + lang@
                + ". Expected 'c' or 'c++'."@,
            Some(file) => res matches Ok(s) && {
                &&& s.main_filename@ == file.0
                &&& s.main_content@ == file.1
                &&& s.manifest.project.name@ == name@
                &&& s.manifest.project.lang@ == lang@
                &&& s.manifest.project.std@ == match std {
                    Some(v) => v@,
                    None => default_std(lang@)->0,
                }
                &&& s.manifest.project.version@ == initial_version()
                &&& views(s.manifest.build.srcs@) == seq!["src/"@ + file.0]
                &&& s.manifest.build.include_dirs@.len() == 0
                &&& s.manifest.build.flags@.len() == 0
            },
        },
{
    let (main_filename, main_content) = if str_eq(lang.as_str(), "c") {
        (
            "main.c",
            "#include <stdio.h>\n\nint main(void) {\n    printf(\"Hello, world!\\n\");\n    return 0;\n}\n",
        )
    } else if str_eq(lang.as_str(), "c++") {
        (
            "main.cpp",
            "#include <iostream>\n\nint main() {\n    std::cout << \"Hello, world!\\n\";\n    return 0;\n}\n",
        )
    } else {
        return Err(concat3("Unsupported language: ", lang.as_str(), ". Expected 'c' or 'c++'."));
    };
    let mut manifest = Manifest::default(name, lang, std)?;
    manifest.build.srcs.push(concat2("src/", main_filename));
    assert(views(manifest.build.srcs@) == seq!["src/"@ + main_filename@]);
    Ok(Scaffold {
        manifest,
        main_filename: String::from_str(main_filename),
        main_content: String::from_str(main_content),
    })
}

} // verus!

verus! {

/// The `-I` arguments for the include directories `dirs`, each placed
/// below the project root `root`.
pub open spec fn include_args(root: Seq<char>, dirs: Seq<Seq<char>>) -> Seq<Seq<char>>
    decreases dirs.len(),
{
    if dirs.len() == 0 {
        seq![]
    } else {
        include_args(root, dirs.drop_last()) + seq!["-I"@, path_join(root, dirs.last())]
    }
}

/// The optimization arguments of a build: `-O2` for a release build, no
/// optimization and debug symbols otherwise.
pub open spec fn optimization_args(release: bool) -> Seq<Seq<char>> {
    if release {
        seq!["-O2"@]
    } else {
        seq!["-O0"@, "-g"@]
    }
}

/// The compiler arguments that compile `src` to `obj` and write its
/// dependencies to `dep`.
pub open spec fn compile_args(ctx: Config, src: Seq<char>, obj: Seq<char>, dep: Seq<char>) -> Seq<
    Seq<char>,
> {
    seq!["-c"@, src, "-o"@, obj] + views(ctx.manifest.build.flags@) + seq![
        "-std="@ + ctx.manifest.project.std@,
    ] + include_args(ctx.proj_root@, views(ctx.manifest.build.include_dirs@)) + seq![
        "-MMD"@,
        "-MF"@,
        dep,
    ] + optimization_args(ctx.release)
}

/// The command that compiles the source file `src` to the object file
/// `obj`, writing the dependency file `dep`: the project's flags and
/// standard, each include directory below the project root, and the
/// optimization of the build profile.
pub fn create_compile(ctx: &Config, src: &String, obj: &String, dep: &String) -> (res: CommandLine)
    ensures
        res.program@ == ctx.compiler.path@,
        views(res.args@) == compile_args(*ctx, src@, obj@, dep@),
{
    let mut args: Vec<String> = Vec::new();
    args.push(String::from_str("-c"));
    args.push(src.clone());
    args.push(String::from_str("-o"));
    args.push(obj.clone());
    assert(views(args@) == seq!["-c"@, src@, "-o"@, obj@]);
    push_all(&mut args, &ctx.manifest.build.flags);
    let ghost with_flags = views(args@);
    args.push(concat2("-std=", ctx.manifest.project.std.as_str()));
    assert(views(args@) == with_flags + seq!["-std="@ + ctx.manifest.project.std@]);
    let ghost start = views(args@);
    let dirs = &ctx.manifest.build.include_dirs;
    let ghost ds = views(dirs@);
    let n = dirs.len();
    assert(ds.take(0) == Seq::<Seq<char>>::empty());
    for i in 0..n
        invariant
            n == dirs@.len(),
            ds == views(dirs@),
            views(args@) == start + include_args(ctx.proj_root@, ds.take(i as int)),
    {
        let ghost before = views(args@);
        args.push(String::from_str("-I"));
        args.push(join(ctx.proj_root.as_str(), dirs[i].as_str()));
        assert(ds.take(i + 1).drop_last() == ds.take(i as int));
        assert(ds.take(i + 1).last() == dirs@[i as int]@);
        assert(views(args@) == before + seq!["-I"@, path_join(ctx.proj_root@, dirs@[i as int]@)]);
    }
    assert(ds.take(n as int) == ds);
    let ghost with_includes = views(args@);
    args.push(String::from_str("-MMD"));
    args.push(String::from_str("-MF"));
    args.push(dep.clone());
    assert(views(args@) == with_includes + seq!["-MMD"@, "-MF"@, dep@]);
    let ghost with_deps = views(args@);
    if ctx.release {
        args.push(String::from_str("-O2"));
        assert(views(args@) == with_deps + seq!["-O2"@]);
    } else {
        args.push(String::from_str("-O0"));
        args.push(String::from_str("-g"));
        assert(views(args@) == with_deps + seq!["-O0"@, "-g"@]);
    }
    CommandLine { program: ctx.compiler.path.clone(), args }
}

/// The command that links the object files `objs` into the project's
/// program.
pub fn create_link(ctx: &Config, objs: &Vec<String>) -> (res: CommandLine)
    ensures
        res.program@ == ctx.compiler.path@,
        views(res.args@) == views(objs@) + seq!["-o"@, ctx.bin@],
{
    let mut args: Vec<String> = Vec::new();
    push_all(&mut args, objs);
    let ghost with_objs = views(args@);
    args.push(String::from_str("-o"));
    args.push(ctx.bin.clone());
    assert(views(args@) == with_objs + seq!["-o"@, ctx.bin@]);
    CommandLine { program: ctx.compiler.path.clone(), args }
}

} // verus!

verus! {

/// One source file of a build, with its object and dependency files.
pub struct CompileUnit {
    pub src: String,
    pub obj: String,
    pub dep: String,
}

impl CompileUnit {
    /// The dependency file that an incremental build reads to tell whether
    /// this unit is stale: the one its compile command writes.
    pub fn dep_file(&self) -> (res: &String)
        ensures
            res@ == self.dep@,
    {
        &self.dep
    }
}

/// The dependency file that decides whether a unit is stale is the one the
/// unit's compile command writes: `create_compile` passes `-MF` and then
/// that file.
pub proof fn lemma_compile_writes_dep_file(ctx: Config, unit: CompileUnit)
    ensures
        exists|k: int|
            0 <= k && k + 1 < compile_args(ctx, unit.src@, unit.obj@, unit.dep@).len() && (
            #[trigger] compile_args(ctx, unit.src@, unit.obj@, unit.dep@)[k]) == "-MF"@
                && compile_args(ctx, unit.src@, unit.obj@, unit.dep@)[k + 1] == unit.dep@,
{
    let args = compile_args(ctx, unit.src@, unit.obj@, unit.dep@);
    let head = seq!["-c"@, unit.src@, "-o"@, unit.obj@] + views(ctx.manifest.build.flags@) + seq![
        "-std="@ + ctx.manifest.project.std@,
    ] + include_args(ctx.proj_root@, views(ctx.manifest.build.include_dirs@));
    let tail = seq!["-MMD"@, "-MF"@, unit.dep@];
    assert(args == head + tail + optimization_args(ctx.release));
    let k: int = head.len() as int + 1;
    assert(args[k] == "-MF"@);
    assert(args[k + 1] == unit.dep@);
}

/// The compile units of the source files `srcs`, in order: each source with
/// its object and dependency file under the output directory. The first
/// source that does not lie below the project root is an error.
pub fn compile_units(ctx: &Config, srcs: &Vec<String>) -> (res: Result<Vec<CompileUnit>, String>)
    ensures
        res is Ok <==> forall|i: int|
            0 <= i < srcs@.len() ==> (#[trigger] ctx.relative_of(srcs@[i]@)) is Some,
        match res {
            Ok(units) => {
                &&& units@.len() == srcs@.len()
                &&& forall|i: int|
                    0 <= i < srcs@.len() ==> {
                        &&& (#[trigger] units@[i]).src@ == srcs@[i]@
                        &&& ctx.output_of(srcs@[i]@, "o"@) == Some(units@[i].obj@)
                        &&& ctx.output_of(srcs@[i]@, "d"@) == Some(units@[i].dep@)
                    }
            },
            Err(e) => exists|i: int|
                0 <= i < srcs@.len() && (#[trigger] ctx.relative_of(srcs@[i]@)) is None && e@
                    == unmapped_source_error(srcs@[i]@) && forall|j: int|
                    0 <= j < i ==> (#[trigger] ctx.relative_of(srcs@[j]@)) is Some,
        },
{
    let n = srcs.len();
    let mut units: Vec<CompileUnit> = Vec::new();
    for i in 0..n
        invariant
            n == srcs@.len(),
            units@.len() == i,
            forall|k: int|
                0 <= k < i ==> {
                    &&& (#[trigger] units@[k]).src@ == srcs@[k]@
                    &&& ctx.output_of(srcs@[k]@, "o"@) == Some(units@[k].obj@)
                    &&& ctx.output_of(srcs@[k]@, "d"@) == Some(units@[k].dep@)
                },
    {
        let src = &srcs[i];
        let obj = match ctx.map_src_to_obj(src) {
            Ok(o) => o,
            Err(e) => {
                assert forall|j: int| 0 <= j < i implies (#[trigger] ctx.relative_of(srcs@[j]@)) is Some by {
                    assert(ctx.output_of(srcs@[j]@, "o"@) == Some(units@[j].obj@));
                }
                return Err(e);
            },
        };
        let dep = match ctx.map_src_to_dep(src) {
            Ok(d) => d,
            Err(e) => return Err(e),
        };
        units.push(CompileUnit { src: src.clone(), obj, dep });
    }
    assert forall|i: int| 0 <= i < srcs@.len() implies (#[trigger] ctx.relative_of(srcs@[i]@)) is Some by {
        assert(ctx.output_of(srcs@[i]@, "o"@) == Some(units@[i].obj@));
    }
    Ok(units)
}

/// Whether a compile unit must be compiled again, given what its
/// dependency file showed: `None` where it could not be read, else for each
/// dependency whether it is newer than the object file (`None` where that
/// could not be told). It must, unless every dependency is known not to be
/// newer.
pub fn unit_is_stale(dep_checks: &Option<Vec<Option<bool>>>) -> (res: bool)
    ensures
        res == match dep_checks {
            None => true,
            Some(v) => exists|i: int| 0 <= i < v@.len() && #[trigger] v@[i] != Some(false),
        },
{
    match dep_checks {
        None => true,
        Some(v) => {
            let n = v.len();
            for i in 0..n
                invariant
                    n == v@.len(),
                    *dep_checks == Some(*v),
                    forall|j: int| 0 <= j < i ==> #[trigger] v@[j] == Some(false),
            {
                match v[i] {
                    Some(false) => {},
                    _ => {
                        assert(v@[i as int] != Some(false));
                        return true;
                    },
                }
            }
            false
        },
    }
}

/// Whether the program must be linked again: where some unit was compiled,
/// where the program does not exist, or unless each object file is known
/// not to be newer than the program (`obj_checks`, `None` where that could
/// not be told).
pub fn needs_link(compiled_any: bool, bin_exists: bool, obj_checks: &Vec<Option<bool>>) -> (res:
    bool)
    ensures
        res == (compiled_any || !bin_exists || exists|i: int|
            0 <= i < obj_checks@.len() && #[trigger] obj_checks@[i] != Some(false)),
{
    if compiled_any || !bin_exists {
        return true;
    }
    let n = obj_checks.len();
    for i in 0..n
        invariant
            n == obj_checks@.len(),
            forall|j: int| 0 <= j < i ==> #[trigger] obj_checks@[j] == Some(false),
    {
        match obj_checks[i] {
            Some(false) => {},
            _ => {
                assert(obj_checks@[i as int] != Some(false));
                return true;
            },
        }
    }
    false
}

/// One entry of a compilation database: the source file, the directory to
/// run in, the whole compiler command and the file it writes.
pub struct CompdbEntry {
    pub file: String,
    pub directory: String,
    pub arguments: Vec<String>,
    pub output: String,
}

/// The compilation-database entry of the source file `src`: run in the
/// project root, the command that `create_compile` gives for it, writing its
/// object file. A source that does not lie below the root is an error.
pub fn compdb_entry(ctx: &Config, src: &String) -> (res: Result<CompdbEntry, String>)
    ensures
        match (ctx.output_of(src@, "o"@), ctx.output_of(src@, "d"@)) {
            (Some(obj), Some(dep)) => res matches Ok(entry) && {
                &&& entry.file@ == src@
                &&& entry.directory@ == ctx.proj_root@
                &&& views(entry.arguments@) == seq![ctx.compiler.path@] + compile_args(
                    *ctx,
                    src@,
                    obj,
                    dep,
                )
                &&& entry.output@ == obj
            },
            _ => res matches Err(e) && e@ == unmapped_source_error(src@),
        },
{
    let obj = ctx.map_src_to_obj(src)?;
    let dep = ctx.map_src_to_dep(src)?;
    let cmd = create_compile(ctx, src, &obj, &dep);
    let mut arguments: Vec<String> = Vec::new();
    arguments.push(cmd.program);
    push_all(&mut arguments, &cmd.args);
    Ok(CompdbEntry {
        file: src.clone(),
        directory: ctx.proj_root.clone(),
        arguments,
        output: obj,
    })
}

} // verus!

verus! {

/// The `-I` arguments come in pairs, one per include directory and in its
/// order: `-I` and then the directory placed below the root.
proof fn lemma_include_arg_at(root: Seq<char>, dirs: Seq<Seq<char>>, i: int)
    requires
        0 <= i < dirs.len(),
    ensures
        include_args(root, dirs).len() == 2 * dirs.len(),
        include_args(root, dirs)[2 * i] == "-I"@,
        include_args(root, dirs)[2 * i + 1] == path_join(root, dirs[i]),
    decreases dirs.len(),
{
    let init = dirs.drop_last();
    let a = include_args(root, init);
    let all = include_args(root, dirs);
    let pair = seq!["-I"@, path_join(root, dirs.last())];
    assert(all == a + pair);
    if init.len() > 0 {
        lemma_include_arg_at(root, init, 0);
    } else {
        assert(a.len() == 0);
    }
    if i < init.len() {
        lemma_include_arg_at(root, init, i);
        assert(init[i] == dirs[i]);
        assert(all[2 * i] == a[2 * i]);
        assert(all[2 * i + 1] == a[2 * i + 1]);
    } else {
        assert(2 * i == a.len());
        assert(all[2 * i] == pair[0]);
        assert(all[2 * i + 1] == pair[1]);
    }
}

/// A build's profile changes only its optimization arguments: two
/// configurations of the same project with the same manifest give, for the
/// same files, the same compile arguments up to the final optimization
/// arguments, which are each profile's own.
pub proof fn lemma_profile_changes_only_optimization(
    a: Config,
    b: Config,
    src: Seq<char>,
    obj: Seq<char>,
    dep: Seq<char>,
)
    requires
        a.proj_root == b.proj_root,
        a.manifest == b.manifest,
    ensures
        ({
            let x = compile_args(a, src, obj, dep);
            let y = compile_args(b, src, obj, dep);
            let kx = x.len() - optimization_args(a.release).len();
            let ky = y.len() - optimization_args(b.release).len();
            &&& 0 <= kx && 0 <= ky
            &&& x.take(kx) == y.take(ky)
            &&& x.skip(kx) == optimization_args(a.release)
            &&& y.skip(ky) == optimization_args(b.release)
        }),
{
    let base = seq!["-c"@, src, "-o"@, obj] + views(a.manifest.build.flags@) + seq![
        "-std="@ + a.manifest.project.std@,
    ] + include_args(a.proj_root@, views(a.manifest.build.include_dirs@)) + seq![
        "-MMD"@,
        "-MF"@,
        dep,
    ];
    let x = compile_args(a, src, obj, dep);
    let y = compile_args(b, src, obj, dep);
    assert(x == base + optimization_args(a.release));
    assert(y == base + optimization_args(b.release));
    assert(x.take(base.len() as int) == base);
    assert(y.take(base.len() as int) == base);
    assert(x.skip(base.len() as int) == optimization_args(a.release));
    assert(y.skip(base.len() as int) == optimization_args(b.release));
}

/// Whatever the profile, the compile arguments pass each include directory
/// `i` of the manifest, placed below the project root, behind a `-I`, at its
/// place in the manifest's order: right after the flags and the standard.
pub proof fn lemma_compile_passes_include_dir(
    ctx: Config,
    src: Seq<char>,
    obj: Seq<char>,
    dep: Seq<char>,
    i: int,
)
    requires
        0 <= i < ctx.manifest.build.include_dirs@.len(),
    ensures
        ({
            let args = compile_args(ctx, src, obj, dep);
            let k = 5 + ctx.manifest.build.flags@.len() + 2 * i;
            &&& k + 1 < args.len()
            &&& args[k] == "-I"@
            &&& args[k + 1] == path_join(
                ctx.proj_root@,
                ctx.manifest.build.include_dirs@[i]@,
            )
        }),
{
    let args = compile_args(ctx, src, obj, dep);
    let dirs = views(ctx.manifest.build.include_dirs@);
    let head = seq!["-c"@, src, "-o"@, obj] + views(ctx.manifest.build.flags@) + seq![
        "-std="@ + ctx.manifest.project.std@,
    ];
    let inc = include_args(ctx.proj_root@, dirs);
    let tail = seq!["-MMD"@, "-MF"@, dep] + optimization_args(ctx.release);
    assert(args == head + inc + tail);
    assert(head.len() == 5 + ctx.manifest.build.flags@.len());
    lemma_include_arg_at(ctx.proj_root@, dirs, i);
    assert(dirs[i] == ctx.manifest.build.include_dirs@[i]@);
    let k = head.len() + 2 * i;
    assert(args[k] == inc[2 * i]);
    assert(args[k + 1] == inc[2 * i + 1]);
}

} // verus!
