//! Relations between paths, given as strings.

use vstd::prelude::*;
use std::path::Path;
use path_absolutize::Absolutize;
use crate::transpile::string_views;

verus! {

/// The path that leads from `base` to `path`, as `pathdiff::diff_paths`
/// computes it from the two paths' text alone.
pub uninterp spec fn path_diff(path: Seq<char>, base: Seq<char>) -> Option<Seq<char>>;

/// Relies on `pathdiff::diff_paths`: the relative path from `base` to `path`,
/// `None` where it cannot be formed (a relative `path` against an absolute
/// `base`, or a `base` that climbs out with `..`).
#[verifier::external_body]
pub(crate) fn diff_paths(path: &str, base: &str) -> (r: Option<String>)
    ensures
        match r {
            Some(s) => path_diff(path@, base@) == Some(s@),
            None => path_diff(path@, base@) is None,
        },
{
    pathdiff::diff_paths(path, base).map(|p| p.to_string_lossy().into_owned())
}

/// `path` relative to the working directory `cwd`.
pub fn relativize(path: &str, cwd: &str) -> (r: Option<String>)
    ensures
        match r {
            Some(s) => path_diff(path@, cwd@) == Some(s@),
            None => path_diff(path@, cwd@) is None,
        },
{
    diff_paths(path, cwd)
}

/// The ancestors of a path, as `Path::ancestors` lists them: the path itself
/// first, then each parent in turn.
pub uninterp spec fn ancestors_of(p: Seq<char>) -> Seq<Seq<char>>;

/// The path `rest` adjoined to `base`, as `Path::join` forms it.
pub uninterp spec fn joined(base: Seq<char>, rest: Seq<char>) -> Seq<char>;

/// Whether a path is absolute, as `Path::is_absolute` decides it.
pub uninterp spec fn absolute(p: Seq<char>) -> bool;

/// The absolute form of `p` against the working directory `cwd`, as
/// `path_absolutize`'s `absolutize_from` computes it.
pub uninterp spec fn absolutized(p: Seq<char>, cwd: Seq<char>) -> Option<Seq<char>>;

/// Relies on `Path::ancestors`: the path itself comes first.
#[verifier::external_body]
fn path_ancestors(p: &str) -> (r: Vec<String>)
    ensures
        string_views(r@) == ancestors_of(p@),
        r@.len() >= 1 && r@[0]@ == p@,
{
    Path::new(p).ancestors().map(|a| a.to_string_lossy().into_owned()).collect()
}

/// Relies on `Path::join`.
#[verifier::external_body]
pub(crate) fn join_path(base: &str, rest: &str) -> (r: String)
    ensures
        r@ == joined(base@, rest@),
{
    Path::new(base).join(rest).to_string_lossy().into_owned()
}

/// Relies on `Path::is_absolute`.
#[verifier::external_body]
fn is_absolute(p: &str) -> (r: bool)
    ensures
        r == absolute(p@),
{
    Path::new(p).is_absolute()
}

/// Relies on `Path::exists`: what it answers depends on the file system at
/// the time of the call, so nothing is stated of it.
#[verifier::external_body]
fn path_exists(p: &str) -> (r: bool) {
    Path::new(p).exists()
}

/// Relies on `path_absolutize::Absolutize::absolutize_from`: the absolute
/// form of `p` against the absolute directory `cwd`, `None` where it fails.
/// (Against a relative `cwd` it may panic on `..`.)
#[verifier::external_body]
fn absolutize_from(p: &str, cwd: &str) -> (r: Option<String>)
    requires
        absolute(cwd@),
    ensures
        match r {
            Some(s) => absolutized(p@, cwd@) == Some(s@),
            None => absolutized(p@, cwd@) is None,
        },
{
    Path::new(p).absolutize_from(cwd).ok().map(|a| a.to_string_lossy().into_owned())
}

/// The start path of a search for a project root: `p` itself where it is
/// absolute, else its absolute form against `cwd`, where `cwd` is absolute.
pub open spec fn search_start(p: Seq<char>, cwd: Seq<char>) -> Option<Seq<char>> {
    if absolute(p) {
        Some(p)
    } else if absolute(cwd) {
        absolutized(p, cwd)
    } else {
        None
    }
}

/// The index of the first `true` in `present`, -1 where there is none.
pub open spec fn first_true(present: Seq<bool>) -> int
    decreases present.len(),
{
    if present.len() == 0 {
        -1
    } else {
        let f = first_true(present.drop_last());
        if f >= 0 {
            f
        } else if present.last() {
            present.len() - 1
        } else {
            -1
        }
    }
}

proof fn lemma_first_true(present: Seq<bool>)
    ensures
        -1 <= first_true(present) < present.len(),
        first_true(present) >= 0 ==> present[first_true(present)],
        forall|j: int| 0 <= j < present.len() && (first_true(present) < 0 || j < first_true(present))
            ==> !#[trigger] present[j],
    decreases present.len(),
{
    if present.len() > 0 {
        let d = present.drop_last();
        lemma_first_true(d);
        assert forall|j: int|
            0 <= j < present.len() && (first_true(present) < 0 || j < first_true(present)) implies !#[trigger] present[j] by {
            if j < present.len() - 1 {
                assert(present[j] == d[j]);
            }
        }
    }
}

/// The paths whose existence decides the search: `marker` in each ancestor,
/// deepest first.
pub open spec fn candidates(ancestors: Seq<Seq<char>>, marker: Seq<char>) -> Seq<Seq<char>> {
    ancestors.map_values(|a: Seq<char>| joined(a, marker))
}

/// `root` relative to `cwd` where that can be formed, else `root` itself.
pub open spec fn relative_or_self(root: Seq<char>, cwd: Seq<char>) -> Seq<char> {
    match path_diff(root, cwd) {
        Some(r) => r,
        None => root,
    }
}

/// The root picked from the ancestors, given for each whether it holds the
/// marker: the deepest one that does, relative to `cwd`.
pub open spec fn root_choice(ancestors: Seq<Seq<char>>, present: Seq<bool>, cwd: Seq<char>) -> Option<
    Seq<char>,
> {
    let i = first_true(present);
    if 0 <= i < ancestors.len() {
        Some(relative_or_self(ancestors[i], cwd))
    } else {
        None
    }
}

/// `r` is what `root_choice` picks for some answer per ancestor.
pub open spec fn chosen_for_some_answers(
    r: Option<Seq<char>>,
    ancestors: Seq<Seq<char>>,
    cwd: Seq<char>,
) -> bool {
    exists|present: Seq<bool>|
        #![trigger root_choice(ancestors, present, cwd)]
        present.len() == ancestors.len() && r == root_choice(ancestors, present, cwd)
}

/// The characters of the string, where there is one.
pub open spec fn opt_string(o: Option<String>) -> Option<Seq<char>> {
    match o {
        Some(s) => Some(s@),
        None => None,
    }
}

/// The index of the first `true` answer.
pub fn first_marked(present: &Vec<bool>) -> (r: Option<usize>)
    ensures
        r matches Some(i) ==> i < present@.len() && present@[i as int] && forall|j: int|
            0 <= j < i ==> !present@[j],
        r is None ==> forall|j: int| 0 <= j < present@.len() ==> !present@[j],
        match r {
            Some(i) => i == first_true(present@),
            None => first_true(present@) < 0,
        },
{
    proof {
        lemma_first_true(present@);
    }
    let mut i: usize = 0;
    while i < present.len()
        invariant
            i <= present@.len(),
            first_true(present@.subrange(0, i as int)) < 0,
            forall|j: int| 0 <= j < i ==> !present@[j],
        decreases present@.len() - i,
    {
        assert(present@.subrange(0, i + 1).drop_last() =~= present@.subrange(0, i as int));
        if present[i] {
            proof {
                let q = present@.subrange(0, i + 1);
                assert(first_true(q) == i);
                lemma_first_true_prefix(present@, i + 1);
            }
            return Some(i);
        }
        i = i + 1;
    }
    assert(present@.subrange(0, present@.len() as int) =~= present@);
    None
}

proof fn lemma_first_true_prefix(present: Seq<bool>, n: int)
    requires
        0 <= n <= present.len(),
        first_true(present.subrange(0, n)) >= 0,
    ensures
        first_true(present) == first_true(present.subrange(0, n)),
    decreases present.len(),
{
    if n == present.len() {
        assert(present.subrange(0, n) =~= present);
    } else {
        assert(present.drop_last().subrange(0, n) =~= present.subrange(0, n));
        lemma_first_true_prefix(present.drop_last(), n);
    }
}

/// `marker` joined to each ancestor, in the ancestors' order.
pub fn marker_paths(ancestors: &Vec<String>, marker: &str) -> (r: Vec<String>)
    ensures
        string_views(r@) == candidates(string_views(ancestors@), marker@),
{
    let mut out: Vec<String> = Vec::new();
    let mut i: usize = 0;
    while i < ancestors.len()
        invariant
            i <= ancestors@.len(),
            string_views(out@) == candidates(string_views(ancestors@).subrange(0, i as int), marker@),
        decreases ancestors@.len() - i,
    {
        let ghost before = out@;
        out.push(join_path(ancestors[i].as_str(), marker));
        assert(string_views(out@) =~= string_views(before).push(joined(ancestors@[i as int]@, marker@)));
        assert(candidates(string_views(ancestors@).subrange(0, i + 1), marker@) =~= candidates(
            string_views(ancestors@).subrange(0, i as int),
            marker@,
        ).push(joined(ancestors@[i as int]@, marker@)));
        i = i + 1;
    }
    assert(string_views(ancestors@).subrange(0, ancestors@.len() as int) =~= string_views(ancestors@));
    out
}

/// The root picked from `ancestors`, given for each whether it holds the
/// marker: the first (deepest) that does, made relative to `cwd` where that
/// can be formed; `None` where none does.
pub fn pick_root(ancestors: &Vec<String>, present: &Vec<bool>, cwd: &str) -> (r: Option<String>)
    requires
        present@.len() == ancestors@.len(),
    ensures
        opt_string(r) == root_choice(string_views(ancestors@), present@, cwd@),
{
    match first_marked(present) {
        None => None,
        Some(i) => {
            let root = ancestors[i].clone();
            assert(string_views(ancestors@)[i as int] == root@);
            match diff_paths(root.as_str(), cwd) {
                Some(rel) => Some(rel),
                None => Some(root),
            }
        },
    }
}

/// Asks the file system, for each path, whether it exists.
fn probe_paths(paths: &Vec<String>) -> (r: Vec<bool>)
    ensures
        r@.len() == paths@.len(),
{
    let mut out: Vec<bool> = Vec::new();
    let mut i: usize = 0;
    while i < paths.len()
        invariant
            i <= paths@.len(),
            out@.len() == i,
        decreases paths@.len() - i,
    {
        out.push(path_exists(paths[i].as_str()));
        i = i + 1;
    }
    out
}

/// The root of the project that `base_path` lies in: the deepest of the
/// search start and its ancestors that holds `marker`, relative to `cwd`
/// where that can be formed. Which ancestors hold the marker is asked of the
/// file system (`present` below, one answer per path of `candidates`), so
/// the result is the choice of `root_choice` for those answers.
pub fn locate_root(base_path: &str, cwd: &str, marker: &str) -> (r: Option<String>)
    ensures
        search_start(base_path@, cwd@) is None ==> r is None,
        search_start(base_path@, cwd@) matches Some(a) ==> chosen_for_some_answers(
            opt_string(r),
            ancestors_of(a),
            cwd@,
        ),
{
    let start = if is_absolute(base_path) {
        base_path.to_owned()
    } else if is_absolute(cwd) {
        match absolutize_from(base_path, cwd) {
            Some(a) => a,
            None => {
                return None;
            },
        }
    } else {
        return None;
    };
    let ancestors = path_ancestors(start.as_str());
    let paths = marker_paths(&ancestors, marker);
    let present = probe_paths(&paths);
    assert(string_views(paths@).len() == paths@.len());
    assert(string_views(ancestors@).len() == ancestors@.len());
    assert(candidates(string_views(ancestors@), marker@).len() == ancestors@.len());
    let r = pick_root(&ancestors, &present, cwd);
    assert(search_start(base_path@, cwd@) == Some(start@));
    assert(present@.len() == ancestors_of(start@).len() && opt_string(r) == root_choice(
        ancestors_of(start@),
        present@,
        cwd@,
    ));
    assert(chosen_for_some_answers(opt_string(r), ancestors_of(start@), cwd@));
    r
}

} // verus!
