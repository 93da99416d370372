//! Compiler command lines for a whole project, built from its manifest.
use vstd::prelude::*;
use crate::manifest::Manifest;
use crate::text::{str_eq, concat2, push_all, views};
use crate::file::{is_glob, has_glob_meta, glob_entries, glob_rejects, glob_outcomes_fit, GlobEntry, entry_view, outcome_view};

verus! {

/// A program to run and the arguments to run it with.
pub struct CommandLine {
    pub program: String,
    pub args: Vec<String>,
}

/// A C or C++ compiler.
pub enum Compiler {
    CC,
    CPP,
}

/// The program that runs a compiler.
pub open spec fn command_name(c: Compiler) -> Seq<char> {
    match c {
        Compiler::CC => "cc"@,
        Compiler::CPP => "cpp"@,
    }
}

/// The compiler of a project language: `c` or `c++`.
pub open spec fn lang_compiler(lang: Seq<char>) -> Option<Compiler> {
    if lang == "c"@ {
        Some(Compiler::CC)
    } else if lang == "c++"@ {
        Some(Compiler::CPP)
    } else {
        None
    }
}

impl Compiler {
    /// The program that runs this compiler.
    pub fn command(&self) -> (res: &str)
        ensures
            res@ == command_name(*self),
    {
        match self {
            Compiler::CC => "cc",
            Compiler::CPP => "cpp",
        }
    }
}

/// Builds the command lines that compile and link a project's files one by
/// one, into `build/`.
pub struct Commander {
    compiler: Compiler,
    flags: Vec<String>,
    std: String,
    out: String,
}

impl Commander {
    /// The compiler that runs.
    pub closed spec fn compiler_of(&self) -> Compiler {
        self.compiler
    }

    /// The flags passed when compiling.
    pub closed spec fn flags_of(&self) -> Seq<Seq<char>> {
        views(self.flags@)
    }

    /// The language standard.
    pub closed spec fn std_of(&self) -> Seq<char> {
        self.std@
    }

    /// The name of the linked program.
    pub closed spec fn out_of(&self) -> Seq<char> {
        self.out@
    }

    /// The commander of a project: its language's compiler, flags and
    /// standard, and its name for the program. A language other than `c` or
    /// `c++` is refused.
    pub fn new(manifest: Manifest) -> (res: Result<Self, String>)
        ensures
            res is Ok <==> lang_compiler(manifest.project.lang@) is Some,
            match res {
                Ok(c) => {
                    &&& Some(c.compiler_of()) == lang_compiler(manifest.project.lang@)
                    &&& c.flags_of() == views(manifest.build.flags@)
                    &&& c.std_of() == manifest.project.std@
                    &&& c.out_of() == manifest.project.name@
                },
                Err(e) => e@ == "Invalid language: "@ + manifest.project.lang@,
            },
    {
        let compiler = if str_eq(manifest.project.lang.as_str(), "c") {
            Compiler::CC
        } else if str_eq(manifest.project.lang.as_str(), "c++") {
            Compiler::CPP
        } else {
            return Err(concat2("Invalid language: ", manifest.project.lang.as_str()));
        };
        Ok(Commander {
            compiler,
            flags: manifest.build.flags,
            std: manifest.project.std,
            out: manifest.project.name,
        })
    }

    /// The command that compiles `src` to `build/<src>`, with the project's
    /// flags and standard.
    pub fn compile(&self, src: &String) -> (res: Result<CommandLine, String>)
        ensures
            res matches Ok(cmd) && cmd.program@ == command_name(self.compiler_of()) && views(
                cmd.args@,
            ) == seq!["-c"@, src@, "-o"@, "build/"@ + src@] + self.flags_of() + seq![
                "-std="@ + self.std_of(),
            ],
    {
        let mut args: Vec<String> = Vec::new();
        args.push(String::from_str("-c"));
        args.push(src.clone());
        args.push(String::from_str("-o"));
        args.push(concat2("build/", src.as_str()));
        assert(views(args@) == seq!["-c"@, src@, "-o"@, "build/"@ + src@]);
        push_all(&mut args, &self.flags);
        let ghost before = views(args@);
        args.push(concat2("-std=", self.std.as_str()));
        assert(views(args@) == before.push("-std="@ + self.std@));
        Ok(CommandLine { program: String::from_str(self.compiler.command()), args })
    }

    /// The command that links `objs` into `build/<name>`.
    pub fn link(&self, objs: &Vec<String>) -> (res: Result<CommandLine, String>)
        ensures
            res matches Ok(cmd) && cmd.program@ == command_name(self.compiler_of()) && views(
                cmd.args@,
            ) == views(objs@) + seq!["-o"@, "build/"@ + self.out_of()],
    {
        let mut args: Vec<String> = Vec::new();
        push_all(&mut args, objs);
        args.push(String::from_str("-o"));
        args.push(concat2("build/", self.out.as_str()));
        Ok(CommandLine { program: String::from_str(self.compiler.command()), args })
    }
}

} // verus!

verus! {

/// The readable paths among the matches of a glob, in order.
pub open spec fn readable_matches(es: Seq<Option<Seq<char>>>) -> Seq<Seq<char>>
    decreases es.len(),
{
    if es.len() == 0 {
        seq![]
    } else {
        readable_matches(es.drop_last()) + match es.last() {
            Some(p) => seq![p],
            None => seq![],
        }
    }
}

/// The source list of a whole-project build: each manifest entry in order,
/// a glob pattern replaced by its readable matches `found[i]`.
pub open spec fn expand_sources(
    srcs: Seq<Seq<char>>,
    found: Seq<Option<Seq<Option<Seq<char>>>>>,
) -> Seq<Seq<char>>
    decreases srcs.len(),
{
    if srcs.len() == 0 {
        seq![]
    } else {
        expand_sources(srcs.drop_last(), found.drop_last()) + if has_glob_meta(srcs.last()) {
            readable_matches(found.last()->0)
        } else {
            seq![srcs.last()]
        }
    }
}

/// The program of a whole-project build: `cc` for C, `c++` for C++.
pub open spec fn build_program(lang: Seq<char>) -> Option<Seq<char>> {
    if lang == "c++"@ {
        Some("c++"@)
    } else if lang == "c"@ {
        Some("cc"@)
    } else {
        None
    }
}

/// The arguments of a whole-project build, given the glob outcomes
/// `found`: the sources, the program name to write, the flags and the
/// standard.
pub open spec fn build_args(m: Manifest, found: Seq<Option<Seq<Option<Seq<char>>>>>) -> Seq<
    Seq<char>,
> {
    expand_sources(views(m.build.srcs@), found) + seq!["-o"@, m.project.name@] + views(
        m.build.flags@,
    ) + seq!["-std="@ + m.project.std@]
}

/// Whether glob accepts each glob pattern among `srcs`.
pub open spec fn patterns_accepted(srcs: Seq<Seq<char>>) -> bool {
    forall|i: int| 0 <= i < srcs.len() && has_glob_meta(#[trigger] srcs[i]) ==> !glob_rejects(srcs[i])
}

/// The command that compiles and links a whole project in one go, given
/// the matches `found[i]` of each manifest entry that is a glob pattern;
/// unreadable matches are left out. A language other than `c` or `c++` is
/// refused.
pub fn build_from(manifest: &Manifest, found: &Vec<Option<Vec<GlobEntry>>>) -> (res: Result<
    CommandLine,
    String,
>)
    requires
        found@.len() == manifest.build.srcs@.len(),
        forall|i: int|
            0 <= i < found@.len() && has_glob_meta(#[trigger] manifest.build.srcs@[i]@)
                ==> found@[i] is Some,
    ensures
        match build_program(manifest.project.lang@) {
            None => res matches Err(e) && e@ == "Invalid project language"@,
            Some(p) => res matches Ok(cmd) && cmd.program@ == p && views(cmd.args@) == build_args(
                *manifest,
                found@.map_values(|o: Option<Vec<GlobEntry>>| outcome_view(o)),
            ),
        },
{
    let program = if str_eq(manifest.project.lang.as_str(), "c++") {
        String::from_str("c++")
    } else if str_eq(manifest.project.lang.as_str(), "c") {
        String::from_str("cc")
    } else {
        return Err(String::from_str("Invalid project language"));
    };
    let srcs = &manifest.build.srcs;
    let ghost ss = views(srcs@);
    let ghost fs = found@.map_values(|o: Option<Vec<GlobEntry>>| outcome_view(o));
    let n = srcs.len();
    let mut args: Vec<String> = Vec::new();
    assert(ss.take(0) == Seq::<Seq<char>>::empty());
    assert(views(args@) == Seq::<Seq<char>>::empty());
    for i in 0..n
        invariant
            n == srcs@.len(),
            n == found@.len(),
            ss == views(srcs@),
            fs == found@.map_values(|o: Option<Vec<GlobEntry>>| outcome_view(o)),
            srcs == &manifest.build.srcs,
            forall|k: int|
                0 <= k < found@.len() && has_glob_meta(#[trigger] manifest.build.srcs@[k]@)
                    ==> found@[k] is Some,
            views(args@) == expand_sources(ss.take(i as int), fs.take(i as int)),
    {
        let src = &srcs[i];
        assert(ss.take(i + 1).drop_last() == ss.take(i as int));
        assert(fs.take(i + 1).drop_last() == fs.take(i as int));
        assert(ss.take(i + 1).last() == src@);
        assert(fs.take(i + 1).last() == outcome_view(found@[i as int]));
        let ghost before = views(args@);
        if !is_glob(src) {
            args.push(src.clone());
            assert(views(args@) == before + seq![src@]);
        } else {
            assert(found@[i as int] is Some);
            match &found[i] {
                None => {},
                Some(entries) => {
                    let ghost es = entries@.map_values(|e: GlobEntry| entry_view(e));
                    assert(fs[i as int] == Some(es));
                    let m = entries.len();
                    for j in 0..m
                        invariant
                            m == entries@.len(),
                            es == entries@.map_values(|e: GlobEntry| entry_view(e)),
                            views(args@) == before + readable_matches(es.take(j as int)),
                    {
                        assert(es.take(j + 1).drop_last() == es.take(j as int));
                        assert(es.take(j + 1).last() == entry_view(entries@[j as int]));
                        let ghost prev = views(args@);
                        match &entries[j] {
                            GlobEntry::Path(p) => {
                                args.push(p.clone());
                                assert(views(args@) == prev + seq![p@]);
                            },
                            GlobEntry::Unreadable => {
                                assert(readable_matches(es.take(j + 1)) == readable_matches(es.take(j as int)) + Seq::<Seq<char>>::empty());
                            },
                        }
                    }
                    assert(es.take(m as int) == es);
                },
            }
        }
    }
    assert(ss.take(n as int) == ss);
    assert(fs.take(n as int) == fs);
    let ghost expanded = views(args@);
    args.push(String::from_str("-o"));
    args.push(manifest.project.name.clone());
    assert(views(args@) == expanded + seq!["-o"@, manifest.project.name@]);
    push_all(&mut args, &manifest.build.flags);
    let ghost before_std = views(args@);
    args.push(concat2("-std=", manifest.project.std.as_str()));
    assert(views(args@) == before_std.push("-std="@ + manifest.project.std@));
    Ok(CommandLine { program, args })
}

} // verus!

verus! {

/// The command that compiles and links a whole project in one go, with each
/// glob pattern of the manifest expanded on the disk. A language other than
/// `c` or `c++` is refused. Which paths a pattern matches depends on the
/// disk: the arguments are `build_args` for some outcome of globbing that
/// fits the patterns. The build cannot go on from a pattern that glob
/// refuses as malformed, so such patterns are left out by `requires`;
/// `try_build` checks for them first.
pub fn build(manifest: Manifest) -> (res: Result<CommandLine, String>)
    requires
        build_program(manifest.project.lang@) is Some ==> patterns_accepted(
            views(manifest.build.srcs@),
        ),
    ensures
        match build_program(manifest.project.lang@) {
            None => res matches Err(e) && e@ == "Invalid project language"@,
            Some(p) => exists|found: Seq<Option<Seq<Option<Seq<char>>>>>|
                {
                    &&& glob_outcomes_fit(views(manifest.build.srcs@), found)
                    &&& res is Ok
                    &&& res->Ok_0.program@ == p
                    &&& views(res->Ok_0.args@) == #[trigger] build_args(manifest, found)
                },
        },
{
    if !(str_eq(manifest.project.lang.as_str(), "c++") || str_eq(manifest.project.lang.as_str(), "c")) {
        return Err(String::from_str("Invalid project language"));
    }
    let srcs = &manifest.build.srcs;
    let ghost ss = views(srcs@);
    let n = srcs.len();
    let mut found: Vec<Option<Vec<GlobEntry>>> = Vec::new();
    for i in 0..n
        invariant
            n == srcs@.len(),
            ss == views(srcs@),
            srcs == &manifest.build.srcs,
            build_program(manifest.project.lang@) is Some,
            patterns_accepted(ss),
            found@.len() == i,
            forall|j: int|
                0 <= j < i && has_glob_meta(#[trigger] ss[j]) ==> found@[j] is Some,
            forall|j: int| 0 <= j < i && !has_glob_meta(#[trigger] ss[j]) ==> found@[j] is None,
    {
        assert(ss[i as int] == srcs@[i as int]@);
        if is_glob(&srcs[i]) {
            let entries = glob_entries(srcs[i].as_str());
            found.push(entries);
        } else {
            found.push(None);
        }
    }
    let ghost fs = found@.map_values(|o: Option<Vec<GlobEntry>>| outcome_view(o));
    assert(glob_outcomes_fit(ss, fs)) by {
        assert forall|i: int| 0 <= i < ss.len() && has_glob_meta(#[trigger] ss[i]) implies (
        fs[i] is None <==> glob_rejects(ss[i])) by {
            assert(fs[i] == outcome_view(found@[i]));
        }
    }
    assert forall|i: int| 0 <= i < found@.len() && has_glob_meta(#[trigger] manifest.build.srcs@[i]@) implies found@[i] is Some by {
        assert(ss[i] == manifest.build.srcs@[i]@);
    }
    let r = build_from(&manifest, &found);
    assert(views(r->Ok_0.args@) == build_args(manifest, fs));
    r
}

/// The command that compiles and links a whole project, as `build` has
/// it; `None` where the language is C or C++ and glob refuses one of the
/// manifest's patterns.
pub fn try_build(manifest: Manifest) -> (res: Option<Result<CommandLine, String>>)
    ensures
        res is None <==> build_program(manifest.project.lang@) is Some && !patterns_accepted(
            views(manifest.build.srcs@),
        ),
        res matches Some(r) ==> match build_program(manifest.project.lang@) {
            None => r matches Err(e) && e@ == "Invalid project language"@,
            Some(p) => exists|found: Seq<Option<Seq<Option<Seq<char>>>>>|
                {
                    &&& glob_outcomes_fit(views(manifest.build.srcs@), found)
                    &&& r is Ok
                    &&& r->Ok_0.program@ == p
                    &&& views(r->Ok_0.args@) == #[trigger] build_args(manifest, found)
                },
        },
{
    if str_eq(manifest.project.lang.as_str(), "c++") || str_eq(manifest.project.lang.as_str(), "c") {
        let srcs = &manifest.build.srcs;
        let ghost ss = views(srcs@);
        let n = srcs.len();
        for i in 0..n
            invariant
                n == srcs@.len(),
                ss == views(srcs@),
                srcs == &manifest.build.srcs,
                build_program(manifest.project.lang@) is Some,
                forall|j: int| 0 <= j < i && has_glob_meta(#[trigger] ss[j]) ==> !glob_rejects(ss[j]),
        {
            assert(ss[i as int] == srcs@[i as int]@);
            if is_glob(&srcs[i]) && glob_entries(srcs[i].as_str()).is_none() {
                assert(!patterns_accepted(ss));
                return None;
            }
        }
    }
    Some(build(manifest))
}

} // verus!
