//! The configuration of one build: where the project and its outputs are,
//! which compiler runs, and how sources map to object and dependency files.
use vstd::prelude::*;
use crate::manifest::Manifest;
use crate::paths::{join, strip_prefix, with_extension, path_join, path_strip_prefix, path_with_extension};
use crate::text::{str_eq, concat2, concat3};

verus! {

/// The name of the compiler program for a language: `cc` for C, `c++` for
/// C++ (`c++` or `cpp`); none for another language.
pub open spec fn compiler_program(lang: Seq<char>) -> Option<Seq<char>> {
    if lang == "c"@ {
        Some("cc"@)
    } else if lang == "c++"@ || lang == "cpp"@ {
        Some("c++"@)
    } else {
        None
    }
}

/// The error for a language that has no compiler.
pub open spec fn invalid_language_error(lang: Seq<char>) -> Seq<char> {
    "Invalid language: "@ + lang
}

/// The error for a compiler program that is not installed.
pub open spec fn not_found_error(program: Seq<char>) -> Seq<char> {
    "Compiler "@ + program + " not found."@
}

/// The error for a source file outside the project.
pub open spec fn unmapped_source_error(src: Seq<char>) -> Seq<char> {
    "Failed to map source file "@ + src + " to output file."@
}

/// Whether `s` ends with `suffix`.
pub open spec fn ends_with(s: Seq<char>, suffix: Seq<char>) -> bool {
    suffix.len() <= s.len() && s.skip(s.len() - suffix.len()) == suffix
}

/// Whether `path` names the file `name` in some directory: it is `name`
/// itself, or ends with `/` and `name`.
pub open spec fn path_of_file(path: Seq<char>, name: Seq<char>) -> bool {
    path == name || ends_with(path, seq!['/'] + name)
}

/// Where `name` is found as an executable, by the program search path.
/// Trusted: `which::which`. Whether and where it finds the program depends
/// on the environment and the disk. What is stated is what its source shows
/// for a name without `/` on Unix: each candidate is a directory of the
/// search path joined with the name, so a path it finds is the name itself
/// (an empty directory entry) or ends with `/` and the name (the lossy
/// conversion to a string only touches the directory part).
#[verifier::external_body]
fn find_executable(name: &str) -> (res: Option<String>)
    ensures
        res matches Some(p) ==> ((forall|i: int| 0 <= i < name@.len() ==> name@[i] != '/')
            ==> path_of_file(p@, name@)),
{
    match which::which(name) {
        Ok(path) => Some(path.to_string_lossy().into_owned()),
        Err(_) => None,
    }
}

/// The compiler program of a language: `cc` for C, `c++` for C++ (`c++` or
/// `cpp`); none for another language.
pub fn program_of(lang: &str) -> (res: Option<&'static str>)
    ensures
        match res {
            Some(p) => compiler_program(lang@) == Some(p@),
            None => compiler_program(lang@) is None,
        },
{
    if str_eq(lang, "c") {
        Some("cc")
    } else if str_eq(lang, "c++") || str_eq(lang, "cpp") {
        Some("c++")
    } else {
        None
    }
}

/// The compiler programs hold no `/`.
proof fn lemma_program_has_no_separator(lang: Seq<char>)
    requires
        compiler_program(lang) is Some,
    ensures
        forall|i: int|
            0 <= i < compiler_program(lang)->0.len() ==> #[trigger] compiler_program(lang)->0[i]
                != '/',
{
    reveal_strlit("cc");
    reveal_strlit("c++");
}

/// A compiler, by the path of its executable.
pub struct Compiler {
    pub path: String,
}

impl Compiler {
    /// The compiler for a search for `program` that found `found`; a search
    /// that found nothing is an error.
    pub fn from_found(program: &str, found: Option<String>) -> (res: Result<Self, String>)
        ensures
            match found {
                Some(p) => res matches Ok(c) && c.path@ == p@,
                None => res matches Err(e) && e@ == not_found_error(program@),
            },
    {
        match found {
            Some(path) => Ok(Compiler { path }),
            None => Err(concat3("Compiler ", program, " not found.")),
        }
    }

    /// The compiler of a language, looked up on the program search path by
    /// the language's program (`program_of`). A language other than C and
    /// C++ is refused without a search; otherwise the result is the path
    /// that the search found, which names a file of the program's name, or the
    /// error that it found none.
    pub fn from_lang(lang: &str) -> (res: Result<Self, String>)
        ensures
            compiler_program(lang@) is None ==> (res matches Err(e) && e@
                == invalid_language_error(lang@)),
            compiler_program(lang@) matches Some(p) ==> match res {
                Ok(c) => path_of_file(c.path@, p),
                Err(e) => e@ == not_found_error(p),
            },
    {
        let name = match program_of(lang) {
            Some(n) => n,
            None => return Err(concat2("Invalid language: ", lang)),
        };
        proof {
            lemma_program_has_no_separator(lang@);
        }
        let found = find_executable(name);
        Self::from_found(name, found)
    }
}

/// The configuration of a build.
pub struct Config {
    pub proj_root: String,
    pub build_dir: String,
    pub output_dir: String,
    pub compiler: Compiler,
    pub manifest: Manifest,
    pub bin: String,
    pub release: bool,
}

/// The directory, below the build directory, of one build profile.
pub open spec fn profile_dir(release: bool) -> Seq<char> {
    if release {
        "release"@
    } else {
        "debug"@
    }
}

/// Whether `c` is laid out as a build of the project at `proj_root` with
/// `manifest`: outputs go to `build/debug` or `build/release` under the
/// root (plainly so where the root is not empty and does not end in `/`),
/// and the program to the project's name there.
pub open spec fn laid_out(c: Config, release: bool, proj_root: String, manifest: Manifest) -> bool {
    &&& c.proj_root == proj_root
    &&& c.build_dir@ == path_join(proj_root@, "build"@)
    &&& c.output_dir@ == path_join(c.build_dir@, profile_dir(release))
    &&& c.bin@ == path_join(c.output_dir@, manifest.project.name@)
    &&& c.manifest == manifest
    &&& c.release == release
    &&& proj_root@.len() > 0 && proj_root@.last() != '/' ==> {
        &&& c.build_dir@ == proj_root@ + "/build"@
        &&& c.output_dir@ == proj_root@ + "/build/"@ + profile_dir(release)
    }
}

impl Config {
    /// The path of `src` relative to the project root, if it lies below it.
    pub open spec fn relative_of(&self, src: Seq<char>) -> Option<Seq<char>> {
        path_strip_prefix(src, self.proj_root@)
    }

    /// Where the file of `src` with extension `ext` goes in the output
    /// directory, if `src` lies below the project root.
    pub open spec fn output_of(&self, src: Seq<char>, ext: Seq<char>) -> Option<Seq<char>> {
        match self.relative_of(src) {
            Some(rel) => Some(path_with_extension(path_join(self.output_dir@, rel), ext)),
            None => None,
        }
    }

    /// The configuration of a project at `proj_root` with `manifest`, given
    /// what the search for the compiler program of its language found:
    /// outputs go to `build/debug` or `build/release` under the root, the
    /// program to the project's name there, and the compiler is the one
    /// found. A language other than C and C++ is refused, and so is a search
    /// that found nothing.
    pub fn from_lookup(release: bool, proj_root: String, manifest: Manifest, found: Option<
        String,
    >) -> (res: Result<Self, String>)
        ensures
            match compiler_program(manifest.project.lang@) {
                None => res matches Err(e) && e@ == invalid_language_error(manifest.project.lang@),
                Some(p) => match found {
                    None => res matches Err(e) && e@ == not_found_error(p),
                    Some(path) => res matches Ok(c) && c.compiler.path@ == path@ && laid_out(
                        c,
                        release,
                        proj_root,
                        manifest,
                    ),
                },
            },
    {
        let name = match program_of(manifest.project.lang.as_str()) {
            Some(n) => n,
            None => return Err(concat2("Invalid language: ", manifest.project.lang.as_str())),
        };
        let compiler = Compiler::from_found(name, found)?;
        let build_dir = join(proj_root.as_str(), "build");
        let output_dir = if release {
            join(build_dir.as_str(), "release")
        } else {
            join(build_dir.as_str(), "debug")
        };
        proof {
            reveal_strlit("build");
            reveal_strlit("/build");
            reveal_strlit("/build/");
            reveal_strlit("release");
            reveal_strlit("debug");
            if proj_root@.len() > 0 && proj_root@.last() != '/' {
                assert(build_dir@ == proj_root@ + "/build"@);
                assert(build_dir@.last() == 'd');
                assert(output_dir@ == proj_root@ + "/build/"@ + profile_dir(release));
            }
        }
        let bin = join(output_dir.as_str(), manifest.project.name.as_str());
        Ok(Config { proj_root, build_dir, output_dir, manifest, compiler, bin, release })
    }

    /// The configuration of a project at `proj_root` with `manifest`, as
    /// `from_lookup` has it for the search, on the program search path, for
    /// the compiler program of the project's language. A path the search
    /// found names a file of that program's name.
    pub fn new(release: bool, proj_root: String, manifest: Manifest) -> (res: Result<Self, String>)
        ensures
            match compiler_program(manifest.project.lang@) {
                None => res matches Err(e) && e@ == invalid_language_error(manifest.project.lang@),
                Some(p) => match res {
                    Ok(c) => path_of_file(c.compiler.path@, p) && laid_out(
                        c,
                        release,
                        proj_root,
                        manifest,
                    ),
                    Err(e) => e@ == not_found_error(p),
                },
            },
    {
        let name = match program_of(manifest.project.lang.as_str()) {
            Some(n) => n,
            None => return Err(concat2("Invalid language: ", manifest.project.lang.as_str())),
        };
        proof {
            lemma_program_has_no_separator(manifest.project.lang@);
        }
        let found = find_executable(name);
        Self::from_lookup(release, proj_root, manifest, found)
    }

    /// The path of `src` relative to the project root, or an error where it
    /// does not lie below the root.
    pub fn src_to_relative(&self, src: &String) -> (res: Result<String, String>)
        ensures
            match self.relative_of(src@) {
                Some(rel) => res matches Ok(r) && r@ == rel,
                None => res matches Err(e) && e@ == unmapped_source_error(src@),
            },
    {
        match strip_prefix(src.as_str(), self.proj_root.as_str()) {
            Some(rel) => Ok(rel),
            None => Err(concat3("Failed to map source file ", src.as_str(), " to output file.")),
        }
    }

    /// The object file of a source file: its place under the output
    /// directory, with extension `o`.
    pub fn map_src_to_obj(&self, src: &String) -> (res: Result<String, String>)
        ensures
            match self.output_of(src@, "o"@) {
                Some(obj) => res matches Ok(r) && r@ == obj,
                None => res matches Err(e) && e@ == unmapped_source_error(src@),
            },
    {
        let relative = self.src_to_relative(src)?;
        let joined = join(self.output_dir.as_str(), relative.as_str());
        proof {
            reveal_strlit("o");
        }
        Ok(with_extension(joined.as_str(), "o"))
    }

    /// The dependency file of a source file: its place under the output
    /// directory, with extension `d`.
    pub fn map_src_to_dep(&self, src: &String) -> (res: Result<String, String>)
        ensures
            match self.output_of(src@, "d"@) {
                Some(dep) => res matches Ok(r) && r@ == dep,
                None => res matches Err(e) && e@ == unmapped_source_error(src@),
            },
    {
        let relative = self.src_to_relative(src)?;
        let joined = join(self.output_dir.as_str(), relative.as_str());
        proof {
            reveal_strlit("d");
        }
        Ok(with_extension(joined.as_str(), "d"))
    }
}

/// A source's object file and its dependency file go together: both exist
/// exactly when the source lies below the project root, and they are the
/// same place under the output directory, with extension `o` and `d`.
pub proof fn lemma_object_and_dep_paired(cfg: Config, src: Seq<char>)
    ensures
        cfg.output_of(src, "o"@) is Some <==> cfg.relative_of(src) is Some,
        cfg.output_of(src, "d"@) is Some <==> cfg.relative_of(src) is Some,
        cfg.relative_of(src) matches Some(rel) ==> {
            &&& cfg.output_of(src, "o"@) == Some(path_with_extension(path_join(cfg.output_dir@, rel), "o"@))
            &&& cfg.output_of(src, "d"@) == Some(path_with_extension(path_join(cfg.output_dir@, rel), "d"@))
        },
{
}

} // verus!
