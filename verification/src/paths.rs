//! File-system paths, held as strings, and the three `std::path`
//! operations that the build logic uses on them. The program only runs on
//! Unix, so these are the Unix path rules.
use vstd::prelude::*;

verus! {

/// What `Path::join` returns for `base` and `rel`.
pub uninterp spec fn path_join(base: Seq<char>, rel: Seq<char>) -> Seq<char>;

/// What `Path::strip_prefix` returns for `path` and `base`: the rest of
/// `path` after the whole leading components of `base`, or nothing where
/// `base` is not such a prefix.
pub uninterp spec fn path_strip_prefix(path: Seq<char>, base: Seq<char>) -> Option<Seq<char>>;

/// What `Path::with_extension` returns for `path` and `ext`.
pub uninterp spec fn path_with_extension(path: Seq<char>, ext: Seq<char>) -> Seq<char>;

/// Whether a path is absolute: on Unix, whether it starts with `/`.
pub open spec fn is_absolute(p: Seq<char>) -> bool {
    p.len() > 0 && p[0] == '/'
}

/// `base` joined with `rel`.
/// Trusted: `std::path::Path::join`. Its result is named `path_join`; as
/// std documents for `PathBuf::push`, an absolute `rel` replaces `base`,
/// and a relative `rel` is added after `base` with one `/` between them
/// where `base` is not empty and does not already end in `/`. What it gives
/// in the other cases is left to the name. The conversion back to a string
/// loses nothing, as both inputs are UTF-8.
#[verifier::external_body]
pub fn join(base: &str, rel: &str) -> (res: String)
    ensures
        res@ == path_join(base@, rel@),
        is_absolute(rel@) ==> res@ == rel@,
        !is_absolute(rel@) && base@.len() > 0 && base@.last() != '/' ==> res@ == base@ + seq!['/']
            + rel@,
{
    std::path::Path::new(base).join(rel).to_string_lossy().into_owned()
}

/// `path` without its leading `base`, or `None` where `base` is not a
/// prefix of `path` made of whole components.
/// Trusted: `std::path::Path::strip_prefix`, whose result is named
/// `path_strip_prefix`; nothing more of it is stated.
#[verifier::external_body]
pub fn strip_prefix(path: &str, base: &str) -> (res: Option<String>)
    ensures
        match res {
            Some(r) => path_strip_prefix(path@, base@) == Some(r@),
            None => path_strip_prefix(path@, base@) is None,
        },
{
    match std::path::Path::new(path).strip_prefix(base) {
        Ok(rest) => Some(rest.to_string_lossy().into_owned()),
        Err(_) => None,
    }
}

/// `path` with its extension set to `ext`, which holds no `/`.
/// Trusted: `std::path::Path::with_extension`, whose result is named
/// `path_with_extension`; nothing more of it is stated. std panics on an
/// extension that holds a path separator, which on Unix is `/`, so that is
/// left out.
#[verifier::external_body]
pub fn with_extension(path: &str, ext: &str) -> (res: String)
    requires
        forall|i: int| 0 <= i < ext@.len() ==> #[trigger] ext@[i] != '/',
    ensures
        res@ == path_with_extension(path@, ext@),
{
    std::path::Path::new(path).with_extension(ext).to_string_lossy().into_owned()
}

} // verus!
