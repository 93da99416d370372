//! Source lists and compiler dependency files.
use vstd::prelude::*;
use crate::text::{chars_of, string_of, concat2, views};
use crate::paths::{join, path_join};
use crate::config::Config;

verus! {

/// The characters that make a source entry a glob pattern.
pub open spec fn is_glob_meta(c: char) -> bool {
    c == '*' || c == '?' || c == '[' || c == ']' || c == '{' || c == '}' || c == '!'
}

/// Whether `s` holds a glob metacharacter that no backslash escapes. A
/// backslash escapes the character after it.
pub open spec fn has_glob_meta(s: Seq<char>) -> bool
    decreases s.len(),
{
    if s.len() == 0 {
        false
    } else if s[0] == '\\' {
        if s.len() < 2 {
            false
        } else {
            has_glob_meta(s.skip(2))
        }
    } else if is_glob_meta(s[0]) {
        true
    } else {
        has_glob_meta(s.skip(1))
    }
}

/// Whether a source entry is a glob pattern, to be expanded against the
/// file system, rather than a plain path.
pub fn is_glob(pattern: &String) -> (res: bool)
    ensures
        res == has_glob_meta(pattern@),
{
    let cs = chars_of(pattern.as_str());
    let n = cs.len();
    let mut i: usize = 0;
    assert(cs@.skip(0) == cs@);
    while i < n
        invariant
            n == cs@.len(),
            cs@ == pattern@,
            i <= n,
            has_glob_meta(pattern@) == has_glob_meta(cs@.skip(i as int)),
        decreases n - i,
    {
        let c = cs[i];
        assert(cs@.skip(i as int)[0] == c);
        if c == '\\' {
            if i + 1 >= n {
                assert(cs@.skip(i as int).len() < 2);
                return false;
            }
            assert(cs@.skip(i as int).skip(2) == cs@.skip(i + 2));
            i = i + 2;
        } else if c == '*' || c == '?' || c == '[' || c == ']' || c == '{' || c == '}' || c == '!' {
            return true;
        } else {
            assert(cs@.skip(i as int).skip(1) == cs@.skip(i + 1));
            i = i + 1;
        }
    }
    false
}

} // verus!

verus! {

/// `s` with each backslash-newline line continuation replaced by a space,
/// scanning from the left.
pub open spec fn unfold_continuations(s: Seq<char>) -> Seq<char>
    decreases s.len(),
{
    if s.len() == 0 {
        s
    } else if s.len() >= 2 && s[0] == '\\' && s[1] == '\n' {
        seq![' '] + unfold_continuations(s.skip(2))
    } else {
        seq![s[0]] + unfold_continuations(s.skip(1))
    }
}

/// What follows the first `": "` in `s`, if there is one.
pub open spec fn after_separator(s: Seq<char>) -> Option<Seq<char>>
    decreases s.len(),
{
    if s.len() < 2 {
        None
    } else if s[0] == ':' && s[1] == ' ' {
        Some(s.skip(2))
    } else {
        after_separator(s.skip(1))
    }
}

/// Whether `c` is white space in the sense of Unicode's `White_Space`
/// property, as `char::is_whitespace` has it.
pub open spec fn is_white_space(c: char) -> bool {
    let n = c as u32;
    (9 <= n <= 13) || n == 32 || n == 0x85 || n == 0xA0 || n == 0x1680 || (0x2000 <= n <= 0x200A)
        || n == 0x2028 || n == 0x2029 || n == 0x202F || n == 0x205F || n == 0x3000
}

/// `s` without its leading white space.
pub open spec fn trim_start(s: Seq<char>) -> Seq<char>
    decreases s.len(),
{
    if s.len() > 0 && is_white_space(s[0]) {
        trim_start(s.skip(1))
    } else {
        s
    }
}

/// `s` without its trailing white space.
pub open spec fn trim_end(s: Seq<char>) -> Seq<char>
    decreases s.len(),
{
    if s.len() > 0 && is_white_space(s.last()) {
        trim_end(s.drop_last())
    } else {
        s
    }
}

/// `s` without its leading and trailing white space.
pub open spec fn trim(s: Seq<char>) -> Seq<char> {
    trim_end(trim_start(s))
}

/// The entries of a space-separated list `s`, where a backslash makes the
/// character after it part of the entry (a lone backslash at the end is
/// dropped), and `cur` is what the entry being read already holds.
pub open spec fn split_escaped(s: Seq<char>, cur: Seq<char>) -> Seq<Seq<char>>
    decreases s.len(),
{
    if s.len() == 0 {
        seq![cur]
    } else if s[0] == '\\' {
        if s.len() >= 2 {
            split_escaped(s.skip(2), cur.push(s[1]))
        } else {
            split_escaped(s.skip(1), cur)
        }
    } else if s[0] == ' ' {
        seq![cur] + split_escaped(s.skip(1), seq![])
    } else {
        split_escaped(s.skip(1), cur.push(s[0]))
    }
}

/// The dependencies that a make-style dependency file `raw` lists: after
/// joining continued lines, the space-separated, backslash-escaped entries
/// that follow the first `": "`, with the white space around the list
/// removed. None where the file has no `": "`.
pub open spec fn dep_entries(raw: Seq<char>) -> Option<Seq<Seq<char>>> {
    match after_separator(unfold_continuations(raw)) {
        Some(rest) => Some(split_escaped(trim(rest), seq![])),
        None => None,
    }
}

fn unfold(cs: &Vec<char>) -> (res: Vec<char>)
    ensures
        res@ == unfold_continuations(cs@),
{
    let n = cs.len();
    let mut out: Vec<char> = Vec::new();
    let mut i: usize = 0;
    assert(cs@.skip(0) == cs@);
    while i < n
        invariant
            n == cs@.len(),
            i <= n,
            unfold_continuations(cs@) == out@ + unfold_continuations(cs@.skip(i as int)),
        decreases n - i,
    {
        let ghost rest = cs@.skip(i as int);
        if i + 1 < n && cs[i] == '\\' && cs[i + 1] == '\n' {
            assert(rest.skip(2) == cs@.skip(i + 2));
            assert(out@.push(' ') + unfold_continuations(cs@.skip(i + 2)) == out@ + (seq![' ']
                + unfold_continuations(cs@.skip(i + 2))));
            out.push(' ');
            i = i + 2;
        } else {
            assert(rest.skip(1) == cs@.skip(i + 1));
            assert(rest[0] == cs@[i as int]);
            assert(out@.push(cs@[i as int]) + unfold_continuations(cs@.skip(i + 1)) == out@ + (seq![
                cs@[i as int],
            ] + unfold_continuations(cs@.skip(i + 1))));
            out.push(cs[i]);
            i = i + 1;
        }
    }
    assert(out@ + unfold_continuations(cs@.skip(n as int)) == out@);
    out
}

/// The position just after the first `": "` in `cs`, if there is one.
fn find_after_separator(cs: &Vec<char>) -> (res: Option<usize>)
    ensures
        match res {
            Some(k) => k <= cs@.len() && after_separator(cs@) == Some(cs@.skip(k as int)),
            None => after_separator(cs@) is None,
        },
{
    let n = cs.len();
    let mut i: usize = 0;
    assert(cs@.skip(0) == cs@);
    while n >= 2 && i <= n - 2
        invariant
            n == cs@.len(),
            i <= n,
            after_separator(cs@) == after_separator(cs@.skip(i as int)),
        decreases n - i,
    {
        let ghost rest = cs@.skip(i as int);
        assert(rest[0] == cs@[i as int] && rest[1] == cs@[i + 1]);
        if cs[i] == ':' && cs[i + 1] == ' ' {
            assert(rest.skip(2) == cs@.skip(i + 2));
            return Some(i + 2);
        }
        assert(rest.skip(1) == cs@.skip(i + 1));
        i = i + 1;
    }
    None
}

fn is_white_space_char(c: char) -> (res: bool)
    ensures
        res == is_white_space(c),
{
    let n = c as u32;
    (9 <= n && n <= 13) || n == 32 || n == 0x85 || n == 0xA0 || n == 0x1680 || (0x2000 <= n && n
        <= 0x200A) || n == 0x2028 || n == 0x2029 || n == 0x202F || n == 0x205F || n == 0x3000
}

/// The characters of `cs` from `lo` to `hi`.
fn slice_of(cs: &Vec<char>, lo: usize, hi: usize) -> (res: Vec<char>)
    requires
        lo <= hi <= cs@.len(),
    ensures
        res@ == cs@.subrange(lo as int, hi as int),
{
    let mut out: Vec<char> = Vec::new();
    let mut i = lo;
    while i < hi
        invariant
            lo <= i <= hi <= cs@.len(),
            out@ == cs@.subrange(lo as int, i as int),
        decreases hi - i,
    {
        out.push(cs[i]);
        assert(cs@.subrange(lo as int, i + 1) == cs@.subrange(lo as int, i as int).push(
            cs@[i as int],
        ));
        i = i + 1;
    }
    out
}

/// `cs` from position `from` on, without its surrounding white space.
fn trimmed_from(cs: &Vec<char>, from: usize) -> (res: Vec<char>)
    requires
        from <= cs@.len(),
    ensures
        res@ == trim(cs@.skip(from as int)),
{
    let n = cs.len();
    let mut lo = from;
    while lo < n && is_white_space_char(cs[lo])
        invariant
            from <= lo <= n,
            n == cs@.len(),
            trim_start(cs@.skip(from as int)) == trim_start(cs@.skip(lo as int)),
        decreases n - lo,
    {
        assert(cs@.skip(lo as int).skip(1) == cs@.skip(lo + 1));
        lo = lo + 1;
    }
    assert(trim_start(cs@.skip(lo as int)) == cs@.skip(lo as int));
    let mut hi = n;
    assert(cs@.skip(lo as int) == cs@.subrange(lo as int, n as int));
    while hi > lo && is_white_space_char(cs[hi - 1])
        invariant
            lo <= hi <= n,
            n == cs@.len(),
            trim_end(cs@.skip(lo as int)) == trim_end(cs@.subrange(lo as int, hi as int)),
        decreases hi,
    {
        assert(cs@.subrange(lo as int, hi as int).drop_last() == cs@.subrange(
            lo as int,
            hi - 1,
        ));
        hi = hi - 1;
    }
    assert(trim_end(cs@.subrange(lo as int, hi as int)) == cs@.subrange(lo as int, hi as int));
    slice_of(cs, lo, hi)
}

/// The entries of the escaped, space-separated list `cs`.
fn split_entries(cs: &Vec<char>) -> (res: Vec<String>)
    ensures
        views(res@) == split_escaped(cs@, seq![]),
{
    let n = cs.len();
    let mut out: Vec<String> = Vec::new();
    let mut cur: Vec<char> = Vec::new();
    let mut i: usize = 0;
    assert(cs@.skip(0) == cs@);
    assert(views(out@) == Seq::<Seq<char>>::empty());
    while i < n
        invariant
            n == cs@.len(),
            i <= n,
            split_escaped(cs@, seq![]) == views(out@) + split_escaped(cs@.skip(i as int), cur@),
        decreases n - i,
    {
        let ghost rest = cs@.skip(i as int);
        assert(rest[0] == cs@[i as int]);
        let c = cs[i];
        if c == '\\' {
            if i + 1 < n {
                assert(rest.skip(2) == cs@.skip(i + 2));
                assert(rest[1] == cs@[i + 1]);
                cur.push(cs[i + 1]);
                i = i + 2;
            } else {
                assert(rest.skip(1) == cs@.skip(i + 1));
                i = i + 1;
            }
        } else if c == ' ' {
            assert(rest.skip(1) == cs@.skip(i + 1));
            let ghost old_views = views(out@);
            let entry = string_of(&cur);
            out.push(entry);
            assert(views(out@) == old_views.push(cur@));
            assert(views(out@) + split_escaped(cs@.skip(i + 1), seq![]) == old_views + (seq![cur@]
                + split_escaped(cs@.skip(i + 1), seq![])));
            cur = Vec::new();
            assert(cur@ == Seq::<char>::empty());
            i = i + 1;
        } else {
            assert(rest.skip(1) == cs@.skip(i + 1));
            cur.push(c);
            i = i + 1;
        }
    }
    assert(cs@.skip(n as int).len() == 0);
    let ghost old_views = views(out@);
    let last = string_of(&cur);
    out.push(last);
    assert(views(out@) == old_views.push(cur@));
    out
}

} // verus!

verus! {

/// The dependencies that the dependency file text `raw` lists, each as a
/// path below the project root, or an error where `raw` is not a
/// dependency file.
pub fn parse_dep_file(ctx: &Config, raw: &str) -> (res: Result<Vec<String>, String>)
    ensures
        match dep_entries(raw@) {
            Some(es) => res matches Ok(v) && views(v@) == es.map_values(
                |e: Seq<char>| path_join(ctx.proj_root@, e),
            ),
            None => res matches Err(e) && e@ == "Malformed depfile."@,
        },
{
    let cs = chars_of(raw);
    let joined = unfold(&cs);
    match find_after_separator(&joined) {
        None => Err(String::from_str("Malformed depfile.")),
        Some(k) => {
            let body = trimmed_from(&joined, k);
            let entries = split_entries(&body);
            let ghost es = views(entries@);
            let n = entries.len();
            let mut deps: Vec<String> = Vec::new();
            for i in 0..n
                invariant
                    n == entries@.len(),
                    es == views(entries@),
                    deps@.len() == i,
                    forall|j: int| 0 <= j < i ==> #[trigger] deps@[j]@ == path_join(ctx.proj_root@, es[j]),
            {
                assert(es[i as int] == entries@[i as int]@);
                let dep = join(ctx.proj_root.as_str(), entries[i].as_str());
                deps.push(dep);
            }
            assert(views(deps@) == es.map_values(|e: Seq<char>| path_join(ctx.proj_root@, e)));
            Ok(deps)
        },
    }
}

} // verus!

verus! {

/// One match of a glob pattern: a path, or an entry that could not be read.
pub enum GlobEntry {
    Path(String),
    Unreadable,
}

/// Whether `glob::glob` refuses `pattern` as malformed. This depends on the
/// pattern alone; which paths a pattern it accepts matches depends on the
/// disk.
pub uninterp spec fn glob_rejects(pattern: Seq<char>) -> bool;

/// The matches of `pattern` on the file system, or `None` where the pattern
/// is malformed.
/// Trusted: `glob::glob`, whose source refuses a pattern only when it fails
/// to compile, which the name `glob_rejects` stands for. The matches
/// themselves depend on the disk, so nothing is stated of them; each is
/// handed out in the iterator's order, a path as a string (lossily, where
/// it is not UTF-8) and an unreadable entry as `Unreadable`.
#[verifier::external_body]
pub(crate) fn glob_entries(pattern: &str) -> (res: Option<Vec<GlobEntry>>)
    ensures
        res is None <==> glob_rejects(pattern@),
{
    match glob::glob(pattern) {
        Ok(paths) => Some(
            paths.map(
                |entry| match entry {
                    Ok(path) => GlobEntry::Path(path.to_string_lossy().into_owned()),
                    Err(_) => GlobEntry::Unreadable,
                },
            ).collect(),
        ),
        Err(_) => None,
    }
}

/// A glob match as a plain value: the path, or nothing for an unreadable
/// entry.
pub open spec fn entry_view(e: GlobEntry) -> Option<Seq<char>> {
    match e {
        GlobEntry::Path(p) => Some(p@),
        GlobEntry::Unreadable => None,
    }
}

/// The outcome of a glob as a plain value.
pub open spec fn outcome_view(o: Option<Vec<GlobEntry>>) -> Option<Seq<Option<Seq<char>>>> {
    match o {
        Some(v) => Some(v@.map_values(|e: GlobEntry| entry_view(e))),
        None => None,
    }
}

/// The error for a malformed glob pattern.
pub open spec fn bad_pattern_error(src: Seq<char>) -> Seq<char> {
    "Failed to unwrap glob pattern: "@ + src
}

/// The error for a glob with an unreadable match.
pub open spec fn unreadable_error(src: Seq<char>) -> Seq<char> {
    "Unreadable path for glob result: "@ + src
}

/// The source files that one entry `src` of a manifest stands for, below
/// `root`: the entry itself where it is a plain path, else the matches
/// `found` of the pattern, which must be well formed and all readable.
pub open spec fn resolve_one(
    root: Seq<char>,
    src: Seq<char>,
    found: Option<Seq<Option<Seq<char>>>>,
) -> Result<Seq<Seq<char>>, Seq<char>> {
    if !has_glob_meta(src) {
        Ok(seq![path_join(root, src)])
    } else {
        match found {
            None => Err(bad_pattern_error(src)),
            Some(es) => if exists|i: int| 0 <= i < es.len() && #[trigger] es[i] is None {
                Err(unreadable_error(src))
            } else {
                Ok(es.map_values(|e: Option<Seq<char>>| path_join(root, e->0)))
            },
        }
    }
}

/// The source files that the entries `srcs` stand for, in order, given the
/// glob outcome `found[i]` of each entry; the first failing entry's error.
pub open spec fn resolve_all(
    root: Seq<char>,
    srcs: Seq<Seq<char>>,
    found: Seq<Option<Seq<Option<Seq<char>>>>>,
) -> Result<Seq<Seq<char>>, Seq<char>>
    decreases srcs.len(),
{
    if srcs.len() == 0 {
        Ok(seq![])
    } else {
        match resolve_all(root, srcs.drop_last(), found.drop_last()) {
            Err(e) => Err(e),
            Ok(done) => match resolve_one(root, srcs.last(), found.last()) {
                Err(e) => Err(e),
                Ok(more) => Ok(done + more),
            },
        }
    }
}

/// A list of strings, or an error, as plain values.
pub open spec fn list_result_view(r: Result<Vec<String>, String>) -> Result<Seq<Seq<char>>, Seq<char>> {
    match r {
        Ok(v) => Ok(views(v@)),
        Err(e) => Err(e@),
    }
}

/// Once a prefix of the entries fails, the whole list fails with its error.
proof fn lemma_resolve_prefix_error(
    root: Seq<char>,
    srcs: Seq<Seq<char>>,
    found: Seq<Option<Seq<Option<Seq<char>>>>>,
    k: int,
)
    requires
        0 <= k <= srcs.len(),
        found.len() == srcs.len(),
        resolve_all(root, srcs.take(k), found.take(k)) is Err,
    ensures
        resolve_all(root, srcs, found) == resolve_all(root, srcs.take(k), found.take(k)),
    decreases srcs.len() - k,
{
    if k == srcs.len() {
        assert(srcs.take(k) == srcs);
        assert(found.take(k) == found);
    } else {
        assert(srcs.take(k + 1).drop_last() == srcs.take(k));
        assert(found.take(k + 1).drop_last() == found.take(k));
        lemma_resolve_prefix_error(root, srcs, found, k + 1);
    }
}

/// The source files of a project, given the glob outcome `found[i]` of each
/// manifest entry (only read where the entry is a glob pattern): each
/// below the project root, in the manifest's order and, for a pattern, the
/// order of its matches.
pub fn resolve_sources(ctx: &Config, found: &Vec<Option<Vec<GlobEntry>>>) -> (res: Result<
    Vec<String>,
    String,
>)
    requires
        found@.len() == ctx.manifest.build.srcs@.len(),
    ensures
        list_result_view(res) == resolve_all(
            ctx.proj_root@,
            views(ctx.manifest.build.srcs@),
            found@.map_values(|o: Option<Vec<GlobEntry>>| outcome_view(o)),
        ),
{
    let srcs = &ctx.manifest.build.srcs;
    let ghost root = ctx.proj_root@;
    let ghost ss = views(srcs@);
    let ghost fs = found@.map_values(|o: Option<Vec<GlobEntry>>| outcome_view(o));
    let n = srcs.len();
    let mut paths: Vec<String> = Vec::new();
    assert(ss.take(0) == Seq::<Seq<char>>::empty());
    assert(fs.take(0) == Seq::<Option<Seq<Option<Seq<char>>>>>::empty());
    assert(views(paths@) == Seq::<Seq<char>>::empty());
    for i in 0..n
        invariant
            n == srcs@.len(),
            n == found@.len(),
            ss == views(srcs@),
            fs == found@.map_values(|o: Option<Vec<GlobEntry>>| outcome_view(o)),
            root == ctx.proj_root@,
            srcs == &ctx.manifest.build.srcs,
            resolve_all(root, ss.take(i as int), fs.take(i as int)) == Ok::<Seq<Seq<char>>, Seq<char>>(views(paths@)),
    {
        let src = &srcs[i];
        assert(ss.take(i + 1).drop_last() == ss.take(i as int));
        assert(fs.take(i + 1).drop_last() == fs.take(i as int));
        assert(ss.take(i + 1).last() == src@);
        assert(fs.take(i + 1).last() == outcome_view(found@[i as int]));
        let ghost before = views(paths@);
        if !is_glob(src) {
            let p = join(ctx.proj_root.as_str(), src.as_str());
            paths.push(p);
            assert(views(paths@) == before + seq![p@]);
        } else {
            match &found[i] {
                None => {
                    proof {
                        lemma_resolve_prefix_error(root, ss, fs, i + 1);
                        assert(ss.take(n as int) == ss);
                        assert(fs.take(n as int) == fs);
                    }
                    return Err(concat2("Failed to unwrap glob pattern: ", src.as_str()));
                },
                Some(entries) => {
                    let ghost es = entries@.map_values(|e: GlobEntry| entry_view(e));
                    let m = entries.len();
                    let mut j: usize = 0;
                    while j < m
                        invariant
                            m == entries@.len(),
                            j <= m,
                            es == entries@.map_values(|e: GlobEntry| entry_view(e)),
                            forall|k: int| 0 <= k < j ==> #[trigger] es[k] is Some,
                            views(paths@) == before + es.take(j as int).map_values(
                                |e: Option<Seq<char>>| path_join(root, e->0),
                            ),
                            root == ctx.proj_root@,
                            n == ss.len(),
                            n == fs.len(),
                            ss == views(ctx.manifest.build.srcs@),
                            fs == found@.map_values(|o: Option<Vec<GlobEntry>>| outcome_view(o)),
                            i < n,
                            fs[i as int] == Some(es),
                            ss[i as int] == src@,
                            has_glob_meta(src@),
                            resolve_all(root, ss.take(i as int), fs.take(i as int)) == Ok::<Seq<Seq<char>>, Seq<char>>(before),
                            ss.take(i + 1).drop_last() == ss.take(i as int),
                            fs.take(i + 1).drop_last() == fs.take(i as int),
                            ss.take(i + 1).last() == src@,
                            fs.take(i + 1).last() == fs[i as int],
                        decreases m - j,
                    {
                        match &entries[j] {
                            GlobEntry::Unreadable => {
                                assert(es[j as int] is None);
                                assert(exists|k: int| 0 <= k < es.len() && #[trigger] es[k] is None);
                                assert(resolve_one(root, src@, fs[i as int]) == Err::<Seq<Seq<char>>, Seq<char>>(unreadable_error(src@)));
                                proof {
                                    lemma_resolve_prefix_error(root, ss, fs, i + 1);
                                    assert(ss.take(n as int) == ss);
                                    assert(fs.take(n as int) == fs);
                                }
                                return Err(concat2("Unreadable path for glob result: ", src.as_str()));
                            },
                            GlobEntry::Path(p) => {
                                let ghost prev = views(paths@);
                                let q = join(ctx.proj_root.as_str(), p.as_str());
                                paths.push(q);
                                assert(es.take(j + 1).map_values(|e: Option<Seq<char>>| path_join(root, e->0))
                                    == es.take(j as int).map_values(|e: Option<Seq<char>>| path_join(root, e->0)).push(path_join(root, p@)));
                                assert(views(paths@) == prev.push(q@));
                            },
                        }
                        j = j + 1;
                    }
                    assert(es.take(m as int) == es);
                    assert(!(exists|k: int| 0 <= k < es.len() && #[trigger] es[k] is None));
                    assert(resolve_one(root, src@, fs[i as int]) == Ok::<Seq<Seq<char>>, Seq<char>>(es.map_values(|e: Option<Seq<char>>| path_join(root, e->0))));
                },
            }
        }
    }
    assert(ss.take(n as int) == ss);
    assert(fs.take(n as int) == fs);
    Ok(paths)
}

} // verus!

verus! {

/// Whether `found` could be what globbing the entries `srcs` gives: one
/// outcome per entry, and for each glob pattern, none exactly where glob
/// refuses the pattern.
pub open spec fn glob_outcomes_fit(
    srcs: Seq<Seq<char>>,
    found: Seq<Option<Seq<Option<Seq<char>>>>>,
) -> bool {
    &&& found.len() == srcs.len()
    &&& forall|i: int|
        0 <= i < srcs.len() && has_glob_meta(#[trigger] srcs[i]) ==> (found[i] is None
            <==> glob_rejects(srcs[i]))
}

/// Without glob patterns, the entries are just placed below the root.
proof fn lemma_resolve_plain(
    root: Seq<char>,
    srcs: Seq<Seq<char>>,
    found: Seq<Option<Seq<Option<Seq<char>>>>>,
)
    requires
        found.len() == srcs.len(),
        forall|i: int| 0 <= i < srcs.len() ==> !has_glob_meta(#[trigger] srcs[i]),
    ensures
        resolve_all(root, srcs, found) == Ok::<Seq<Seq<char>>, Seq<char>>(
            srcs.map_values(|s: Seq<char>| path_join(root, s)),
        ),
    decreases srcs.len(),
{
    if srcs.len() > 0 {
        let init = srcs.drop_last();
        assert forall|i: int| 0 <= i < init.len() implies !has_glob_meta(#[trigger] init[i]) by {
            assert(init[i] == srcs[i]);
        }
        lemma_resolve_plain(root, init, found.drop_last());
        assert(!has_glob_meta(srcs[srcs.len() - 1]));
        assert(srcs.map_values(|s: Seq<char>| path_join(root, s)) == init.map_values(
            |s: Seq<char>| path_join(root, s),
        ) + seq![path_join(root, srcs.last())]);
    } else {
        assert(srcs.map_values(|s: Seq<char>| path_join(root, s)) == Seq::<Seq<char>>::empty());
    }
}

/// The source files of a project: the manifest's entries in order, each
/// below the project root, a glob pattern replaced by its matches on the
/// disk. A malformed pattern, or an unreadable match, is an error, the
/// first in the manifest's order. Which paths a pattern matches depends on
/// the disk: the result is `resolve_all` for some outcome of globbing that
/// fits the patterns, and exact where the manifest lists no pattern.
pub fn convert_srcs(ctx: &Config) -> (res: Result<Vec<String>, String>)
    ensures
        exists|found: Seq<Option<Seq<Option<Seq<char>>>>>|
            glob_outcomes_fit(views(ctx.manifest.build.srcs@), found) && #[trigger] resolve_all(
                ctx.proj_root@,
                views(ctx.manifest.build.srcs@),
                found,
            ) == list_result_view(res),
        (forall|i: int|
            0 <= i < ctx.manifest.build.srcs@.len() ==> !has_glob_meta(
                #[trigger] ctx.manifest.build.srcs@[i]@,
            )) ==> list_result_view(res) == Ok::<Seq<Seq<char>>, Seq<char>>(
            views(ctx.manifest.build.srcs@).map_values(
                |s: Seq<char>| path_join(ctx.proj_root@, s),
            ),
        ),
{
    let srcs = &ctx.manifest.build.srcs;
    let ghost ss = views(srcs@);
    let n = srcs.len();
    let mut found: Vec<Option<Vec<GlobEntry>>> = Vec::new();
    for i in 0..n
        invariant
            n == srcs@.len(),
            ss == views(srcs@),
            found@.len() == i,
            forall|j: int|
                0 <= j < i && has_glob_meta(#[trigger] ss[j]) ==> (found@[j] is None
                    <==> glob_rejects(ss[j])),
    {
        if is_glob(&srcs[i]) {
            found.push(glob_entries(srcs[i].as_str()));
        } else {
            found.push(None);
        }
    }
    let ghost fs = found@.map_values(|o: Option<Vec<GlobEntry>>| outcome_view(o));
    assert(glob_outcomes_fit(ss, fs)) by {
        assert forall|i: int| 0 <= i < ss.len() && has_glob_meta(#[trigger] ss[i]) implies (
        fs[i] is None <==> glob_rejects(ss[i])) by {
            assert(fs[i] == outcome_view(found@[i]));
        }
    }
    let res = resolve_sources(ctx, &found);
    proof {
        if forall|i: int| 0 <= i < srcs@.len() ==> !has_glob_meta(#[trigger] srcs@[i]@) {
            assert forall|i: int| 0 <= i < ss.len() implies !has_glob_meta(#[trigger] ss[i]) by {
                assert(ss[i] == srcs@[i]@);
            }
            lemma_resolve_plain(ctx.proj_root@, ss, fs);
        }
    }
    res
}

} // verus!

verus! {

/// A path as a dependency file writes it: each space and backslash behind
/// a backslash.
pub open spec fn escape_entry(name: Seq<char>) -> Seq<char>
    decreases name.len(),
{
    if name.len() == 0 {
        seq![]
    } else {
        (if name[0] == ' ' || name[0] == '\\' {
            seq!['\\', name[0]]
        } else {
            seq![name[0]]
        }) + escape_entry(name.skip(1))
    }
}

/// A list of paths as a dependency file writes it: escaped, one space
/// between each two.
pub open spec fn escape_list(names: Seq<Seq<char>>) -> Seq<char>
    decreases names.len(),
{
    if names.len() <= 1 {
        if names.len() == 1 {
            escape_entry(names[0])
        } else {
            seq![]
        }
    } else {
        escape_entry(names[0]) + seq![' '] + escape_list(names.skip(1))
    }
}

/// The dependency file that says `target` depends on `names`.
pub open spec fn dep_file_text(target: Seq<char>, names: Seq<Seq<char>>) -> Seq<char> {
    target + seq![':', ' '] + escape_list(names)
}

proof fn lemma_split_escaped_entry(name: Seq<char>, rest: Seq<char>, cur: Seq<char>)
    ensures
        split_escaped(escape_entry(name) + rest, cur) == split_escaped(rest, cur + name),
    decreases name.len(),
{
    if name.len() == 0 {
        assert(escape_entry(name) + rest == rest);
        assert(cur + name == cur);
    } else {
        let tail = escape_entry(name.skip(1)) + rest;
        let c = name[0];
        lemma_split_escaped_entry(name.skip(1), rest, cur.push(c));
        assert(cur.push(c) + name.skip(1) == cur + name);
        if c == ' ' || c == '\\' {
            let s = escape_entry(name) + rest;
            assert(s == seq!['\\', c] + tail);
            assert(s[0] == '\\' && s[1] == c);
            assert(s.skip(2) == tail);
        } else {
            let s = escape_entry(name) + rest;
            assert(s == seq![c] + tail);
            assert(s[0] == c);
            assert(s.skip(1) == tail);
        }
    }
}

proof fn lemma_split_escaped_list(names: Seq<Seq<char>>)
    requires
        names.len() >= 1,
    ensures
        split_escaped(escape_list(names), seq![]) == names,
    decreases names.len(),
{
    if names.len() == 1 {
        lemma_split_escaped_entry(names[0], seq![], seq![]);
        assert(escape_entry(names[0]) + Seq::<char>::empty() == escape_entry(names[0]));
        assert(Seq::<char>::empty() + names[0] == names[0]);
        assert(names == seq![names[0]]);
    } else {
        let rest = seq![' '] + escape_list(names.skip(1));
        lemma_split_escaped_entry(names[0], rest, seq![]);
        assert(escape_list(names) == escape_entry(names[0]) + rest);
        assert(Seq::<char>::empty() + names[0] == names[0]);
        assert(rest[0] == ' ');
        assert(rest.skip(1) == escape_list(names.skip(1)));
        lemma_split_escaped_list(names.skip(1));
        assert(names == seq![names[0]] + names.skip(1));
    }
}

proof fn lemma_unfold_without_newline(s: Seq<char>)
    requires
        forall|i: int| 0 <= i < s.len() ==> s[i] != '\n',
    ensures
        unfold_continuations(s) == s,
    decreases s.len(),
{
    if s.len() > 0 {
        lemma_unfold_without_newline(s.skip(1));
        assert(seq![s[0]] + s.skip(1) == s);
    }
}

proof fn lemma_after_separator_target(target: Seq<char>, body: Seq<char>)
    requires
        forall|i: int| 0 <= i < target.len() ==> target[i] != ':',
    ensures
        after_separator(target + seq![':', ' '] + body) == Some(body),
    decreases target.len(),
{
    let s = target + seq![':', ' '] + body;
    if target.len() == 0 {
        assert(s[0] == ':' && s[1] == ' ');
        assert(s.skip(2) == body);
    } else {
        lemma_after_separator_target(target.skip(1), body);
        assert(s[0] == target[0]);
        assert(s.skip(1) == target.skip(1) + seq![':', ' '] + body);
    }
}

proof fn lemma_escape_entry_shape(name: Seq<char>)
    requires
        name.len() > 0,
    ensures
        escape_entry(name).len() > 0,
        escape_entry(name)[0] == '\\' || escape_entry(name)[0] == name[0],
        escape_entry(name).last() == name.last(),
        forall|i: int|
            0 <= i < escape_entry(name).len() ==> #[trigger] escape_entry(name)[i] == '\\' || exists|
                j: int,
            | 0 <= j < name.len() && name[j] == escape_entry(name)[i],
    decreases name.len(),
{
    let e = escape_entry(name);
    let c = name[0];
    let head = if c == ' ' || c == '\\' {
        seq!['\\', c]
    } else {
        seq![c]
    };
    let t = escape_entry(name.skip(1));
    assert(e == head + t);
    if name.len() > 1 {
        lemma_escape_entry_shape(name.skip(1));
        assert(name.skip(1).last() == name.last());
        assert forall|i: int| 0 <= i < e.len() implies #[trigger] e[i] == '\\' || exists|j: int|
            0 <= j < name.len() && name[j] == e[i] by {
            if i >= head.len() {
                let k = i - head.len();
                assert(e[i] == t[k]);
                if t[k] != '\\' {
                    let j = choose|j: int| 0 <= j < name.skip(1).len() && name.skip(1)[j] == t[k];
                    assert(name[j + 1] == e[i]);
                }
            } else if e[i] != '\\' {
                assert(name[0] == e[i]);
            }
        }
    } else {
        assert(t.len() == 0);
        assert(e == head);
        assert forall|i: int| 0 <= i < e.len() implies #[trigger] e[i] == '\\' || exists|j: int|
            0 <= j < name.len() && name[j] == e[i] by {
            if e[i] != '\\' {
                assert(name[0] == e[i]);
            }
        }
    }
}

} // verus!

verus! {

/// Each character of an escaped list is a backslash, a space, or a
/// character of one of the paths.
proof fn lemma_escape_list_chars(names: Seq<Seq<char>>)
    ensures
        forall|i: int|
            0 <= i < escape_list(names).len() ==> #[trigger] escape_list(names)[i] == '\\'
                || escape_list(names)[i] == ' ' || exists|k: int, j: int|
                0 <= k < names.len() && 0 <= j < names[k].len() && names[k][j] == escape_list(
                    names,
                )[i],
    decreases names.len(),
{
    let e = escape_list(names);
    if names.len() == 0 {
        assert(e.len() == 0);
    } else {
        let h = escape_entry(names[0]);
        if names[0].len() > 0 {
            lemma_escape_entry_shape(names[0]);
        } else {
            assert(h.len() == 0);
        }
        if names.len() == 1 {
            assert(e == h);
            assert forall|i: int| 0 <= i < e.len() implies #[trigger] e[i] == '\\' || e[i] == ' '
                || exists|k: int, j: int|
                0 <= k < names.len() && 0 <= j < names[k].len() && names[k][j] == e[i] by {
                if h[i] != '\\' {
                    let j = choose|j: int| 0 <= j < names[0].len() && names[0][j] == h[i];
                    assert(names[0][j] == e[i]);
                }
            }
        } else {
            let rest = names.skip(1);
            let t = escape_list(rest);
            lemma_escape_list_chars(rest);
            assert(e == h + seq![' '] + t);
            assert forall|i: int| 0 <= i < e.len() implies #[trigger] e[i] == '\\' || e[i] == ' '
                || exists|k: int, j: int|
                0 <= k < names.len() && 0 <= j < names[k].len() && names[k][j] == e[i] by {
                if i < h.len() {
                    assert(e[i] == h[i]);
                    if h[i] != '\\' {
                        let j = choose|j: int| 0 <= j < names[0].len() && names[0][j] == h[i];
                        assert(names[0][j] == e[i]);
                    }
                } else if i > h.len() {
                    let m = i - h.len() - 1;
                    assert(e[i] == t[m]);
                    if t[m] != '\\' && t[m] != ' ' {
                        let (k, j) = choose|k: int, j: int|
                            0 <= k < rest.len() && 0 <= j < rest[k].len() && rest[k][j] == t[m];
                        assert(names[k + 1][j] == e[i]);
                    }
                }
            }
        }
    }
}

/// An escaped list ends as its last path does, where that is not empty.
proof fn lemma_escape_list_last(names: Seq<Seq<char>>)
    requires
        names.len() >= 1,
        names.last().len() > 0,
    ensures
        escape_list(names).len() > 0,
        escape_list(names).last() == names.last().last(),
    decreases names.len(),
{
    if names.len() == 1 {
        lemma_escape_entry_shape(names[0]);
    } else {
        let rest = names.skip(1);
        assert(rest.last() == names.last());
        lemma_escape_list_last(rest);
        let e = escape_list(names);
        assert(e == escape_entry(names[0]) + seq![' '] + escape_list(rest));
    }
}

} // verus!

verus! {

/// A dependency file reads back as the list of paths it was written with:
/// `dep_entries`, which `parse_dep_file` reads by, gives exactly the paths
/// of the file that says `target` depends on `names`. This holds for a
/// target without `:` or newlines, and for at least one path, where the
/// first and last paths are not empty, the last does not end in a space,
/// and no path holds white space other than the space.
pub proof fn lemma_dep_file_round_trip(target: Seq<char>, names: Seq<Seq<char>>)
    requires
        forall|i: int| 0 <= i < target.len() ==> #[trigger] target[i] != ':' && target[i] != '\n',
        names.len() >= 1,
        names[0].len() > 0,
        names.last().len() > 0,
        names.last().last() != ' ',
        forall|k: int, j: int|
            0 <= k < names.len() && 0 <= j < names[k].len() ==> #[trigger] names[k][j] == ' '
                || !is_white_space(names[k][j]),
    ensures
        dep_entries(dep_file_text(target, names)) == Some(names),
{
    let body = escape_list(names);
    let text = dep_file_text(target, names);
    lemma_escape_list_chars(names);
    lemma_escape_list_last(names);
    assert forall|i: int| 0 <= i < text.len() implies text[i] != '\n' by {
        if i < target.len() {
            assert(text[i] == target[i]);
        } else if i >= target.len() + 2 {
            let m = i - target.len() - 2;
            assert(text[i] == body[m]);
            if body[m] != '\\' && body[m] != ' ' {
                let (k, j) = choose|k: int, j: int|
                    0 <= k < names.len() && 0 <= j < names[k].len() && names[k][j] == body[m];
                assert(names[k][j] == ' ' || !is_white_space(names[k][j]));
            }
        }
    }
    lemma_unfold_without_newline(text);
    lemma_after_separator_target(target, body);
    let c = names[0][0];
    let head = escape_entry(names[0]);
    if names.len() == 1 {
        assert(body == head);
    } else {
        assert(body == head + seq![' '] + escape_list(names.skip(1)));
    }
    assert(body[0] == head[0]);
    if c == ' ' || c == '\\' {
        assert(head[0] == '\\');
    } else {
        assert(head[0] == c);
        assert(c == ' ' || !is_white_space(c));
    }
    assert(!is_white_space(body[0]));
    let l = names.last();
    assert(l == names[names.len() - 1]);
    assert(l[l.len() - 1] == ' ' || !is_white_space(l[l.len() - 1]));
    assert(!is_white_space(body.last()));
    assert(trim_start(body) == body);
    assert(trim_end(body) == body);
    lemma_split_escaped_list(names);
}

} // verus!

verus! {

/// `s` with a backslash before each glob metacharacter and backslash.
pub open spec fn escape_pattern(s: Seq<char>) -> Seq<char>
    decreases s.len(),
{
    if s.len() == 0 {
        seq![]
    } else {
        (if is_glob_meta(s[0]) || s[0] == '\\' {
            seq!['\\', s[0]]
        } else {
            seq![s[0]]
        }) + escape_pattern(s.skip(1))
    }
}

/// A source entry whose metacharacters and backslashes are all escaped is
/// a plain path, never a glob pattern.
pub proof fn lemma_escaped_pattern_is_plain(s: Seq<char>)
    ensures
        !has_glob_meta(escape_pattern(s)),
    decreases s.len(),
{
    if s.len() > 0 {
        let c = s[0];
        let e = escape_pattern(s);
        let t = escape_pattern(s.skip(1));
        lemma_escaped_pattern_is_plain(s.skip(1));
        if is_glob_meta(c) || c == '\\' {
            assert(e == seq!['\\', c] + t);
            assert(e[0] == '\\');
            assert(e.skip(2) == t);
        } else {
            assert(e == seq![c] + t);
            assert(e[0] == c);
            assert(e.skip(1) == t);
        }
    }
}

/// A source entry without backslashes is a glob pattern exactly when it
/// holds a metacharacter.
pub proof fn lemma_unescaped_pattern(s: Seq<char>)
    requires
        forall|i: int| 0 <= i < s.len() ==> #[trigger] s[i] != '\\',
    ensures
        has_glob_meta(s) <==> exists|i: int| 0 <= i < s.len() && is_glob_meta(#[trigger] s[i]),
    decreases s.len(),
{
    if s.len() > 0 {
        let t = s.skip(1);
        assert forall|i: int| 0 <= i < t.len() implies #[trigger] t[i] != '\\' by {
            assert(t[i] == s[i + 1]);
        }
        lemma_unescaped_pattern(t);
        if exists|i: int| 0 <= i < t.len() && is_glob_meta(#[trigger] t[i]) {
            let i = choose|i: int| 0 <= i < t.len() && is_glob_meta(#[trigger] t[i]);
            assert(s[i + 1] == t[i]);
        }
        if exists|i: int| 0 <= i < s.len() && is_glob_meta(#[trigger] s[i]) {
            let i = choose|i: int| 0 <= i < s.len() && is_glob_meta(#[trigger] s[i]);
            if i > 0 {
                assert(t[i - 1] == s[i]);
            }
        }
    }
}

} // verus!

verus! {

/// Joining continued lines works piece by piece: the text `a` followed by
/// `b` unfolds as `a` and `b` do apart, unless `a` ends with a backslash
/// that `b`'s leading newline continues.
pub proof fn lemma_unfold_concat(a: Seq<char>, b: Seq<char>)
    requires
        !(a.len() > 0 && a.last() == '\\' && b.len() > 0 && b[0] == '\n'),
    ensures
        unfold_continuations(a + b) == unfold_continuations(a) + unfold_continuations(b),
    decreases a.len(),
{
    let s = a + b;
    if a.len() == 0 {
        assert(s == b);
        assert(unfold_continuations(a) == a);
        assert(a + unfold_continuations(b) == unfold_continuations(b));
    } else if a.len() >= 2 && a[0] == '\\' && a[1] == '\n' {
        assert(s[0] == '\\' && s[1] == '\n');
        assert(s.skip(2) == a.skip(2) + b);
        assert(a.skip(2).len() > 0 ==> a.skip(2).last() == a.last());
        lemma_unfold_concat(a.skip(2), b);
        assert(seq![' '] + (unfold_continuations(a.skip(2)) + unfold_continuations(b)) == (seq![' ']
            + unfold_continuations(a.skip(2))) + unfold_continuations(b));
    } else {
        assert(s[0] == a[0]);
        assert(!(s.len() >= 2 && s[0] == '\\' && s[1] == '\n')) by {
            if a.len() == 1 {
                if b.len() > 0 {
                    assert(s[1] == b[0]);
                }
            } else {
                assert(s[1] == a[1]);
            }
        }
        assert(s.skip(1) == a.skip(1) + b);
        assert(a.skip(1).len() > 0 ==> a.skip(1).last() == a.last());
        lemma_unfold_concat(a.skip(1), b);
        assert(seq![a[0]] + (unfold_continuations(a.skip(1)) + unfold_continuations(b)) == (seq![
            a[0],
        ] + unfold_continuations(a.skip(1))) + unfold_continuations(b));
    }
}

/// Every backslash-newline line continuation becomes one space, wherever it
/// stands: the text `a`, a continuation, then `b`, unfolds as `a`, a space,
/// then `b`.
pub proof fn lemma_unfold_continuation(a: Seq<char>, b: Seq<char>)
    ensures
        unfold_continuations(a + seq!['\\', '\n'] + b) == unfold_continuations(a) + seq![' ']
            + unfold_continuations(b),
{
    let c = seq!['\\', '\n'] + b;
    assert(a + seq!['\\', '\n'] + b == a + c);
    lemma_unfold_concat(a, c);
    assert(c[0] == '\\' && c[1] == '\n');
    assert(c.skip(2) == b);
}

/// A dependency file reads the same with any of its line continuations
/// written out as a space: a list continued over several lines gives the
/// dependencies it would give on one line.
pub proof fn lemma_dep_entries_continuation(a: Seq<char>, b: Seq<char>)
    ensures
        dep_entries(a + seq!['\\', '\n'] + b) == dep_entries(a + seq![' '] + b),
{
    lemma_unfold_continuation(a, b);
    let c = seq![' '] + b;
    assert(a + seq![' '] + b == a + c);
    lemma_unfold_concat(a, c);
    lemma_unfold_concat(seq![' '], b);
    assert(unfold_continuations(seq![' ']) == seq![' ']) by {
        let e = Seq::<char>::empty();
        assert(seq![' '].skip(1) == e);
        assert(unfold_continuations(e) == e);
        assert(seq![' '] + e == seq![' ']);
    }
    assert(unfold_continuations(a) + seq![' '] + unfold_continuations(b) == unfold_continuations(a)
        + (seq![' '] + unfold_continuations(b)));
}

} // verus!
