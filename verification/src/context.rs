//! The context of a build into `build/`: the project, its compiler and
//! where its object files go.
use vstd::prelude::*;
use crate::manifest::Manifest;
use crate::paths::{join, strip_prefix, with_extension, path_join, path_strip_prefix, path_with_extension};
use crate::text::{str_eq, concat2, concat3};

verus! {

/// A C or C++ compiler.
pub enum Compiler {
    CC,
    CPP,
}

/// The program that runs a compiler.
pub open spec fn command_name(c: Compiler) -> Seq<char> {
    match c {
        Compiler::CC => "cc"@,
        Compiler::CPP => "cpp"@,
    }
}

/// The compiler of a language: `c` or `c++`.
pub open spec fn lang_compiler(lang: Seq<char>) -> Option<Compiler> {
    if lang == "c"@ {
        Some(Compiler::CC)
    } else if lang == "c++"@ {
        Some(Compiler::CPP)
    } else {
        None
    }
}

impl Compiler {
    /// The program that runs this compiler.
    pub fn command(&self) -> (res: &str)
        ensures
            res@ == command_name(*self),
    {
        match self {
            Compiler::CC => "cc",
            Compiler::CPP => "cpp",
        }
    }

    /// The compiler of a language; a language other than `c` or `c++` is
    /// refused.
    pub fn from_lang(lang: &str) -> (res: Result<Self, String>)
        ensures
            match lang_compiler(lang@) {
                Some(c) => res == Ok::<Compiler, String>(c),
                None => res matches Err(e) && e@ == "Invalid language: "@ + lang@,
            },
    {
        if str_eq(lang, "c") {
            Ok(Compiler::CC)
        } else if str_eq(lang, "c++") {
            Ok(Compiler::CPP)
        } else {
            Err(concat2("Invalid language: ", lang))
        }
    }
}

/// A project, its compiler and its build directory.
pub struct Context {
    pub proj_root: String,
    pub build_dir: String,
    pub compiler: Compiler,
    pub manifest: Manifest,
}

impl Context {
    /// Where the object file of `src` goes, if `src` lies below the project
    /// root: its place under the build directory, with extension `o`.
    pub open spec fn output_of(&self, src: Seq<char>) -> Option<Seq<char>> {
        match path_strip_prefix(src, self.proj_root@) {
            Some(rel) => Some(path_with_extension(path_join(self.build_dir@, rel), "o"@)),
            None => None,
        }
    }

    /// The context of a project at `proj_root` with `manifest`: the
    /// compiler of its language, and `build` under the root.
    pub fn new(proj_root: String, manifest: Manifest) -> (res: Result<Self, String>)
        ensures
            match lang_compiler(manifest.project.lang@) {
                Some(c) => res matches Ok(ctx) && {
                    &&& ctx.proj_root == proj_root
                    &&& ctx.build_dir@ == path_join(proj_root@, "build"@)
                    &&& ctx.compiler == c
                    &&& ctx.manifest == manifest
                },
                None => res matches Err(e) && e@ == "Invalid language: "@ + manifest.project.lang@,
            },
    {
        let compiler = Compiler::from_lang(manifest.project.lang.as_str())?;
        let build_dir = join(proj_root.as_str(), "build");
        Ok(Context { proj_root, build_dir, manifest, compiler })
    }

    /// The object file of `src`, or an error where `src` does not lie below
    /// the project root.
    pub fn map_src_to_output(&self, src: &String) -> (res: Result<String, String>)
        ensures
            match self.output_of(src@) {
                Some(out) => res matches Ok(r) && r@ == out,
                None => res matches Err(e) && e@ == "Failed to map source "@ + src@
                    + " to output file."@,
            },
    {
        match strip_prefix(src.as_str(), self.proj_root.as_str()) {
            Some(relative) => {
                let joined = join(self.build_dir.as_str(), relative.as_str());
                proof {
                    reveal_strlit("o");
                }
                Ok(with_extension(joined.as_str(), "o"))
            },
            None => Err(concat3("Failed to map source ", src.as_str(), " to output file.")),
        }
    }
}

} // verus!
