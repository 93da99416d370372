//! The project manifest (`build.toml`): what a project is and how it is
//! built.
use vstd::prelude::*;
use crate::text::str_eq;

verus! {

/// The `[project]` table of a manifest.
pub struct ProjectInfo {
    pub name: String,
    pub lang: String,
    pub std: String,
    pub version: String,
}

/// The `[build]` table of a manifest.
pub struct BuildInfo {
    pub srcs: Vec<String>,
    pub include_dirs: Vec<String>,
    pub flags: Vec<String>,
}

/// A whole manifest.
pub struct Manifest {
    pub project: ProjectInfo,
    pub build: BuildInfo,
}

/// The language standard a new project gets when none is given: `c17` for
/// C and `c++17` for C++ (`c++` or `cpp`); none for another language.
pub open spec fn default_std(lang: Seq<char>) -> Option<Seq<char>> {
    if lang == "c"@ {
        Some("c17"@)
    } else if lang == "c++"@ || lang == "cpp"@ {
        Some("c++17"@)
    } else {
        None
    }
}

/// The version a new project starts at.
pub open spec fn initial_version() -> Seq<char> {
    "0.1.0"@
}

impl Manifest {
    /// The manifest of a new project with no sources, include directories
    /// or flags yet. Where `std` is given it is used as it is; else the
    /// language's default standard, and a language without one is refused.
    pub fn default(name: &String, lang: &String, std: &Option<String>) -> (res: Result<
        Self,
        String,
    >)
        ensures
            res is Err <==> std is None && default_std(lang@) is None,
            match res {
                Ok(m) => {
                    &&& m.project.name@ == name@
                    &&& m.project.lang@ == lang@
                    &&& m.project.std@ == match std {
                        Some(s) => s@,
                        None => default_std(lang@)->0,
                    }
                    &&& m.project.version@ == initial_version()
                    &&& m.build.srcs@.len() == 0
                    &&& m.build.include_dirs@.len() == 0
                    &&& m.build.flags@.len() == 0
                },
                Err(e) => e@ == "Invalid language specified."@,
            },
    {
        let std = match std {
            Some(s) => s.clone(),
            None => {
                if str_eq(lang.as_str(), "c") {
                    String::from_str("c17")
                } else if str_eq(lang.as_str(), "c++") || str_eq(lang.as_str(), "cpp") {
                    String::from_str("c++17")
                } else {
                    return Err(String::from_str("Invalid language specified."));
                }
            },
        };
        Ok(Manifest {
            project: ProjectInfo {
                name: name.clone(),
                lang: lang.clone(),
                std: std,
                version: String::from_str("0.1.0"),
            },
            build: BuildInfo { srcs: Vec::new(), include_dirs: Vec::new(), flags: Vec::new() },
        })
    }
}

} // verus!
