//! Path-string utilities: file names, extensions, workspace-relative
//! paths, and package-scope filtering.
//!
//! Paths here are canonical forward-slash strings; all functions are
//! specified over their character sequences.

use vstd::prelude::*;

use crate::text::chars_of;
use crate::text::ends_with;
use crate::text::starts_with;
use crate::text::string_of;
use crate::text::vec_chars_eq;
use crate::text::vec_ends_with;
use crate::text::vec_starts_with;

verus! {

/// The part of a path after its last `/`; the whole path when it has none.
pub open spec fn file_name_of(s: Seq<char>) -> Seq<char>
    decreases s.len(),
{
    if s.len() == 0 {
        s
    } else if s.last() == '/' {
        Seq::<char>::empty()
    } else {
        file_name_of(s.drop_last()).push(s.last())
    }
}

/// Extracts the file name (after the last `/`) as characters.
pub fn file_name_chars(path: &Vec<char>) -> (r: Vec<char>)
    ensures
        r@ == file_name_of(path@),
{
    let mut out: Vec<char> = Vec::new();
    let mut i: usize = 0;
    while i < path.len()
        invariant
            i <= path@.len(),
            out@ == file_name_of(path@.take(i as int)),
        decreases path@.len() - i,
    {
        proof {
            assert(path@.take(i as int + 1).drop_last() =~= path@.take(i as int));
            assert(path@.take(i as int + 1).last() == path@[i as int]);
        }
        if path[i] == '/' {
            out.clear();
        } else {
            out.push(path[i]);
        }
        i += 1;
    }
    proof {
        assert(path@.take(path@.len() as int) =~= path@);
    }
    out
}

/// Equality of a character vector against a string literal's characters.
pub fn name_is(name: &Vec<char>, lit: &str) -> (r: bool)
    ensures
        r == (name@ == lit@),
{
    let l = chars_of(lit);
    vec_chars_eq(name, &l)
}

/// Suffix test of a character vector against a string literal.
pub fn has_suffix(s: &Vec<char>, lit: &str) -> (r: bool)
    ensures
        r == ends_with(s@, lit@),
{
    let l = chars_of(lit);
    vec_ends_with(s, &l)
}

/// Prefix test of a character vector against a string literal.
pub fn has_prefix(s: &Vec<char>, lit: &str) -> (r: bool)
    ensures
        r == starts_with(s@, lit@),
{
    let l = chars_of(lit);
    vec_starts_with(s, &l)
}

/// True when the path names a TypeScript or JavaScript module file.
pub open spec fn is_ts_js_spec(path: Seq<char>) -> bool {
    ||| ends_with(path, ".ts"@)
    ||| ends_with(path, ".tsx"@)
    ||| ends_with(path, ".js"@)
    ||| ends_with(path, ".jsx"@)
    ||| ends_with(path, ".mts"@)
    ||| ends_with(path, ".mjs"@)
    ||| ends_with(path, ".cts"@)
    ||| ends_with(path, ".cjs"@)
}

/// Check whether a path names a TS/JS module file by its extension.
pub fn is_ts_js_file(path: &str) -> (r: bool)
    ensures
        r == is_ts_js_spec(path@),
{
    let cs = chars_of(path);
    has_suffix(&cs, ".ts") || has_suffix(&cs, ".tsx") || has_suffix(&cs, ".js") || has_suffix(
        &cs,
        ".jsx",
    ) || has_suffix(&cs, ".mts") || has_suffix(&cs, ".mjs") || has_suffix(&cs, ".cts")
        || has_suffix(&cs, ".cjs")
}

/// The workspace-relative form of `path` under `root`: the remainder after
/// `root` and a separating `/`, the empty string for `root` itself, and
/// nothing when `path` is not under `root`.
pub open spec fn rel_of(path: Seq<char>, root: Seq<char>) -> Option<Seq<char>> {
    if path == root {
        Some(Seq::<char>::empty())
    } else if starts_with(path, root.push('/')) {
        Some(path.skip(root.len() as int + 1))
    } else {
        None
    }
}

/// True when `path` equals `root` or lies below it.
pub open spec fn is_descendant(path: Seq<char>, root: Seq<char>) -> bool {
    rel_of(path, root) is Some
}

/// Strips the workspace root from a path, yielding the relative form.
pub fn path_to_relative(path: &String, workspace_root: &String) -> (r: Option<String>)
    ensures
        match r {
            Some(s) => rel_of(path@, workspace_root@) == Some(s@),
            None => rel_of(path@, workspace_root@) is None,
        },
{
    let pc = chars_of(path.as_str());
    let mut rc = chars_of(workspace_root.as_str());
    if vec_chars_eq(&pc, &rc) {
        let empty: Vec<char> = Vec::new();
        return Some(string_of(&empty));
    }
    rc.push('/');
    proof {
        assert(rc@ == workspace_root@.push('/'));
    }
    if vec_starts_with(&pc, &rc) {
        let mut out: Vec<char> = Vec::new();
        let mut i: usize = rc.len();
        while i < pc.len()
            invariant
                rc@.len() <= i <= pc@.len(),
                rc@.len() == workspace_root@.len() + 1,
                pc@ == path@,
                out@ == path@.subrange(rc@.len() as int, i as int),
            decreases pc@.len() - i,
        {
            out.push(pc[i]);
            i += 1;
        }
        proof {
            assert(out@ =~= path@.skip(workspace_root@.len() as int + 1));
        }
        Some(string_of(&out))
    } else {
        None
    }
}

/// The relative forms of the paths that lie under the root, source order
/// kept.
pub open spec fn rel_list(ps: Seq<Seq<char>>, root: Seq<char>) -> Seq<Seq<char>>
    decreases ps.len(),
{
    if ps.len() == 0 {
        Seq::<Seq<char>>::empty()
    } else {
        let rest = rel_list(ps.drop_last(), root);
        match rel_of(ps.last(), root) {
            Some(r) => rest.push(r),
            None => rest,
        }
    }
}

/// Maps paths to their workspace-relative form, dropping those outside the
/// root.
pub fn to_relative_strings(paths: &Vec<String>, workspace_root: &String) -> (r: Vec<String>)
    ensures
        crate::graph::row_view(r@) == rel_list(crate::graph::row_view(paths@), workspace_root@),
{
    let mut out: Vec<String> = Vec::new();
    let mut i: usize = 0;
    while i < paths.len()
        invariant
            i <= paths@.len(),
            crate::graph::row_view(out@) == rel_list(
                crate::graph::row_view(paths@).take(i as int),
                workspace_root@,
            ),
        decreases paths@.len() - i,
    {
        proof {
            assert(crate::graph::row_view(paths@).take(i as int + 1).drop_last()
                =~= crate::graph::row_view(paths@).take(i as int));
            assert(crate::graph::row_view(paths@).take(i as int + 1).last() == paths@[i as int]@);
        }
        let ghost out0 = crate::graph::row_view(out@);
        match path_to_relative(&paths[i], workspace_root) {
            Some(rel) => {
                out.push(rel);
                proof {
                    assert(crate::graph::row_view(out@) =~= out0.push(out@.last()@));
                }
            },
            None => {},
        }
        i += 1;
    }
    proof {
        assert(crate::graph::row_view(paths@).take(paths@.len() as int) =~= crate::graph::row_view(
            paths@,
        ));
    }
    out
}

/// Maps a borrowed list of paths to relative form; same contract as
/// [`to_relative_strings`].
pub fn to_relative_strings_vec(paths: &Vec<String>, workspace_root: &String) -> (r: Vec<String>)
    ensures
        crate::graph::row_view(r@) == rel_list(crate::graph::row_view(paths@), workspace_root@),
{
    to_relative_strings(paths, workspace_root)
}

/// True when `path` lies within the package scope: the empty scope matches
/// everything, otherwise the path must equal the scope or start with
/// `scope/`.
pub open spec fn matches_scope(path: Seq<char>, scope: Seq<char>) -> bool {
    scope.len() == 0 || path == scope || starts_with(path, scope.push('/'))
}

/// Directory-aware package-scope match.
pub fn matches_package_scope(path: &str, scope: &str) -> (r: bool)
    ensures
        r == matches_scope(path@, scope@),
{
    let sc = chars_of(scope);
    if sc.len() == 0 {
        return true;
    }
    let pc = chars_of(path);
    if vec_chars_eq(&pc, &sc) {
        return true;
    }
    let mut pref = sc;
    pref.push('/');
    proof {
        assert(pref@ == scope@.push('/'));
    }
    vec_starts_with(&pc, &pref)
}

/// The paths that match the scope, source order kept.
pub open spec fn scope_filtered(ps: Seq<Seq<char>>, scope: Seq<char>) -> Seq<Seq<char>>
    decreases ps.len(),
{
    if ps.len() == 0 {
        Seq::<Seq<char>>::empty()
    } else {
        let rest = scope_filtered(ps.drop_last(), scope);
        if matches_scope(ps.last(), scope) {
            rest.push(ps.last())
        } else {
            rest
        }
    }
}

/// Filters paths to those matching the package scope.
pub fn filter_by_package_scope(paths: Vec<String>, scope: &str) -> (r: Vec<String>)
    ensures
        crate::graph::row_view(r@) == scope_filtered(crate::graph::row_view(paths@), scope@),
{
    let mut out: Vec<String> = Vec::new();
    let mut i: usize = 0;
    while i < paths.len()
        invariant
            i <= paths@.len(),
            crate::graph::row_view(out@) == scope_filtered(
                crate::graph::row_view(paths@).take(i as int),
                scope@,
            ),
        decreases paths@.len() - i,
    {
        proof {
            assert(crate::graph::row_view(paths@).take(i as int + 1).drop_last()
                =~= crate::graph::row_view(paths@).take(i as int));
            assert(crate::graph::row_view(paths@).take(i as int + 1).last() == paths@[i as int]@);
        }
        let ghost out0 = crate::graph::row_view(out@);
        if matches_package_scope(paths[i].as_str(), scope) {
            let p = paths[i].clone();
            out.push(p);
            proof {
                assert(crate::graph::row_view(out@) =~= out0.push(out@.last()@));
            }
        }
        i += 1;
    }
    proof {
        assert(crate::graph::row_view(paths@).take(paths@.len() as int) =~= crate::graph::row_view(
            paths@,
        ));
    }
    out
}

} // verus!
