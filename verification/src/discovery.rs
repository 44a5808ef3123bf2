//! Test-file discovery.
//!
//! Maps affected source files to their test files by convention: a test
//! file is included directly; for a source file, candidate tests are looked
//! for next to the source, in a sibling `__tests__` directory, and in a
//! workspace `test/` mirror. Only candidates that exist are returned; the
//! caller supplies the set of existing files.

use vstd::prelude::*;

use crate::graph::row_view;
use crate::graph::vec_str_contains;
use crate::paths::file_name_of;
use crate::paths::has_prefix;
use crate::paths::has_suffix;
use crate::paths::name_is;
use crate::paths::rel_of;
use crate::text::chars_of;
use crate::text::ends_with;
use crate::text::starts_with;
use crate::text::string_of;
use vstd::seq_lib::lemma_seq_contains_after_push;

verus! {

/// True when the `/`-separated component of `s` starting at `i` is `comp`.
pub open spec fn component_at(s: Seq<char>, i: int, comp: Seq<char>) -> bool {
    &&& 0 <= i && i + comp.len() <= s.len()
    &&& s.subrange(i, i + comp.len() as int) == comp
    &&& (i == 0 || s[i - 1] == '/')
    &&& (i + comp.len() == s.len() || s[i + comp.len() as int] == '/')
}

/// True when some `/`-separated component of `s` equals `comp`.
pub open spec fn has_component(s: Seq<char>, comp: Seq<char>) -> bool {
    exists|i: int| component_at(s, i, comp)
}

fn component_match(s: &Vec<char>, i: usize, comp: &Vec<char>) -> (r: bool)
    requires
        i <= s@.len(),
    ensures
        r == component_at(s@, i as int, comp@),
{
    if comp.len() > s.len() - i {
        return false;
    }
    if !(i == 0 || s[i - 1] == '/') {
        return false;
    }
    if !(i + comp.len() == s.len() || s[i + comp.len()] == '/') {
        return false;
    }
    let n = s.len();
    let mut k: usize = 0;
    while k < comp.len()
        invariant
            k <= comp@.len(),
            n == s@.len(),
            i + comp@.len() <= s@.len(),
            forall|j: int| 0 <= j < k ==> s@[i + j] == comp@[j],
        decreases comp@.len() - k,
    {
        if s[i + k] != comp[k] {
            assert(s@.subrange(i as int, i + comp@.len() as int)[k as int] != comp@[k as int]);
            return false;
        }
        k += 1;
    }
    assert(s@.subrange(i as int, i + comp@.len() as int) =~= comp@);
    true
}

pub(crate) fn find_component(s: &Vec<char>, lit: &str) -> (r: bool)
    requires
        lit@.len() > 0,
    ensures
        r == has_component(s@, lit@),
{
    let comp = chars_of(lit);
    let mut i: usize = 0;
    while i < s.len()
        invariant
            i <= s@.len(),
            comp@ == lit@,
            forall|j: int| 0 <= j < i ==> !component_at(s@, j, lit@),
        decreases s@.len() - i,
    {
        if component_match(s, i, &comp) {
            return true;
        }
        i += 1;
    }
    proof {
        assert(forall|j: int| component_at(s@, j, lit@) ==> 0 <= j < s@.len());
    }
    false
}

/// True when the file name carries one of the test suffixes.
pub open spec fn has_test_suffix(name: Seq<char>) -> bool {
    ||| ends_with(name, ".test.ts"@)
    ||| ends_with(name, ".test.tsx"@)
    ||| ends_with(name, ".spec.ts"@)
    ||| ends_with(name, ".spec.tsx"@)
    ||| ends_with(name, ".test.js"@)
    ||| ends_with(name, ".test.jsx"@)
    ||| ends_with(name, ".spec.js"@)
    ||| ends_with(name, ".spec.jsx"@)
    ||| ends_with(name, ".test.mts"@)
    ||| ends_with(name, ".test.mjs"@)
    ||| ends_with(name, ".spec.mts"@)
    ||| ends_with(name, ".spec.mjs"@)
}

/// True when the path is a test file: its name carries a test suffix, or
/// some path component is `__tests__`.
pub open spec fn is_test_file_spec(path: Seq<char>) -> bool {
    has_test_suffix(file_name_of(path)) || has_component(path, "__tests__"@)
}

/// Check if a path is a test file.
pub fn is_test_file(path: &str) -> (r: bool)
    ensures
        r == is_test_file_spec(path@),
{
    let cs = chars_of(path);
    let name = crate::paths::file_name_chars(&cs);
    if has_suffix(&name, ".test.ts") || has_suffix(&name, ".test.tsx") || has_suffix(
        &name,
        ".spec.ts",
    ) || has_suffix(&name, ".spec.tsx") || has_suffix(&name, ".test.js") || has_suffix(
        &name,
        ".test.jsx",
    ) || has_suffix(&name, ".spec.js") || has_suffix(&name, ".spec.jsx") || has_suffix(
        &name,
        ".test.mts",
    ) || has_suffix(&name, ".test.mjs") || has_suffix(&name, ".spec.mts") || has_suffix(
        &name,
        ".spec.mjs",
    ) {
        return true;
    }
    proof {
        reveal_strlit("__tests__");
    }
    find_component(&cs, "__tests__")
}

/// The directory part of a path: the characters before the last `/`.
pub open spec fn dir_of(s: Seq<char>) -> Seq<char>
    decreases s.len(),
{
    if s.len() == 0 {
        s
    } else if s.last() == '/' {
        s.drop_last()
    } else {
        dir_of(s.drop_last())
    }
}

/// True when the path contains a `/`.
pub open spec fn has_slash(s: Seq<char>) -> bool {
    exists|i: int| 0 <= i < s.len() && s[i] == '/'
}

/// The file name with its final extension removed; names without a dot
/// past the first character keep their full form.
pub open spec fn chop_ext(name: Seq<char>) -> Seq<char>
    decreases name.len(),
{
    if name.len() == 0 {
        name
    } else if name.last() == '.' {
        name.drop_last()
    } else {
        chop_ext(name.drop_last())
    }
}

/// True when the name has a `.` at some position after the first.
pub open spec fn has_late_dot(name: Seq<char>) -> bool {
    exists|i: int| 1 <= i < name.len() && name[i] == '.'
}

/// The stem of a file name: the name with the extension chopped off.
pub open spec fn stem_of(name: Seq<char>) -> Seq<char> {
    if has_late_dot(name) {
        chop_ext(name)
    } else {
        name
    }
}

pub(crate) fn dir_chars(path: &Vec<char>) -> (r: Vec<char>)
    ensures
        r@ == dir_of(path@),
{
    let mut last_slash: usize = 0;
    let mut found = false;
    let mut i: usize = 0;
    while i < path.len()
        invariant
            i <= path@.len(),
            found ==> last_slash < i && path@[last_slash as int] == '/' && (forall|j: int|
                last_slash < j < i ==> path@[j] != '/'),
            !found ==> forall|j: int| 0 <= j < i ==> path@[j] != '/',
            dir_of(path@.take(i as int)) == if found {
                path@.take(last_slash as int)
            } else {
                Seq::<char>::empty()
            },
        decreases path@.len() - i,
    {
        proof {
            assert(path@.take(i as int + 1).drop_last() =~= path@.take(i as int));
            assert(path@.take(i as int + 1).last() == path@[i as int]);
            assert(path@.take(0int) =~= Seq::<char>::empty());
        }
        if path[i] == '/' {
            last_slash = i;
            found = true;
        }
        i += 1;
    }
    proof {
        assert(path@.take(path@.len() as int) =~= path@);
    }
    let mut out: Vec<char> = Vec::new();
    if found {
        let mut k: usize = 0;
        while k < last_slash
            invariant
                k <= last_slash <= path@.len(),
                out@ == path@.take(k as int),
            decreases last_slash - k,
        {
            proof {
                assert(path@.take(k as int + 1) =~= path@.take(k as int).push(path@[k as int]));
            }
            out.push(path[k]);
            k += 1;
        }
    }
    out
}

fn has_slash_exec(path: &Vec<char>) -> (r: bool)
    ensures
        r == has_slash(path@),
{
    let mut i: usize = 0;
    while i < path.len()
        invariant
            i <= path@.len(),
            forall|j: int| 0 <= j < i ==> path@[j] != '/',
        decreases path@.len() - i,
    {
        if path[i] == '/' {
            return true;
        }
        i += 1;
    }
    false
}

fn stem_chars(name: &Vec<char>) -> (r: Vec<char>)
    ensures
        r@ == stem_of(name@),
{
    let mut last_dot: usize = 0;
    let mut found = false;
    let mut i: usize = 0;
    while i < name.len()
        invariant
            i <= name@.len(),
            found ==> 1 <= last_dot < i && name@[last_dot as int] == '.' && (forall|j: int|
                last_dot < j < i ==> name@[j] != '.'),
            !found ==> forall|j: int| 1 <= j < i ==> name@[j] != '.',
        decreases name@.len() - i,
    {
        if name[i] == '.' && i >= 1 {
            last_dot = i;
            found = true;
        }
        i += 1;
    }
    if !found {
        proof {
            assert(!has_late_dot(name@));
        }
        let mut out: Vec<char> = Vec::new();
        crate::text::append_chars(&mut out, name);
        proof {
            assert(out@ =~= name@);
        }
        return out;
    }
    proof {
        assert(has_late_dot(name@));
        lemma_chop_ext_take(name@, last_dot as int);
    }
    let mut out: Vec<char> = Vec::new();
    let mut k: usize = 0;
    while k < last_dot
        invariant
            k <= last_dot <= name@.len(),
            out@ == name@.take(k as int),
        decreases last_dot - k,
    {
        proof {
            assert(name@.take(k as int + 1) =~= name@.take(k as int).push(name@[k as int]));
        }
        out.push(name[k]);
        k += 1;
    }
    out
}

/// When position `d` holds the last dot of the name, chopping the
/// extension keeps exactly the characters before `d`.
proof fn lemma_chop_ext_take(name: Seq<char>, d: int)
    requires
        0 <= d < name.len(),
        name[d] == '.',
        forall|j: int| d < j < name.len() ==> name[j] != '.',
    ensures
        chop_ext(name) == name.take(d),
    decreases name.len(),
{
    if d == name.len() - 1 {
        assert(name.drop_last() =~= name.take(d));
    } else {
        assert(name.last() != '.');
        lemma_chop_ext_take(name.drop_last(), d);
        assert(name.drop_last().take(d) =~= name.take(d));
    }
}

/// The candidate test paths for one directory-and-stem pair, one per
/// candidate test extension. Candidate generation probes only the four
/// primary extensions below; the longer suffix list of
/// [`has_test_suffix`] serves detection, not candidate generation.
pub open spec fn exts_mapped(dir: Seq<char>, stem: Seq<char>) -> Seq<Seq<char>> {
    seq![
        dir + seq!['/'] + stem + ".test.ts"@,
        dir + seq!['/'] + stem + ".test.tsx"@,
        dir + seq!['/'] + stem + ".spec.ts"@,
        dir + seq!['/'] + stem + ".spec.tsx"@,
    ]
}

/// The `test/` mirror directory for a source below the root: the source's
/// relative directory with a leading `src` dropped, under `<root>/test`.
pub open spec fn mirror_dir(source: Seq<char>, root: Seq<char>) -> Option<Seq<char>> {
    match rel_of(source, root) {
        Option::None => Option::<Seq<char>>::None,
        Option::Some(rel) => {
            if !has_slash(rel) {
                Option::<Seq<char>>::None
            } else {
                let rp = dir_of(rel);
                let tr = if rp == "src"@ {
                    Seq::<char>::empty()
                } else if starts_with(rp, "src/"@) {
                    rp.skip(4)
                } else {
                    rp
                };
                if tr.len() == 0 {
                    Option::Some(root + "/test"@)
                } else {
                    Option::Some(root + "/test/"@ + tr)
                }
            }
        },
    }
}

/// All candidate test paths for a source file: co-located tests, tests in
/// a sibling `__tests__` directory, and tests in the workspace `test/`
/// mirror. A source path without a directory has no candidates.
pub open spec fn candidate_list(source: Seq<char>, root: Seq<char>) -> Seq<Seq<char>> {
    if !has_slash(source) {
        Seq::<Seq<char>>::empty()
    } else {
        let dir = dir_of(source);
        let stem = stem_of(file_name_of(source));
        let c1 = exts_mapped(dir, stem);
        let c2 = exts_mapped(dir + "/__tests__"@, stem);
        let c3 = match mirror_dir(source, root) {
            Option::Some(md) => exts_mapped(md, stem),
            Option::None => Seq::<Seq<char>>::empty(),
        };
        c1 + c2 + c3
    }
}

fn joined_exec(dir: &Vec<char>, stem: &Vec<char>, ext: &str) -> (r: String)
    ensures
        r@ == dir@ + seq!['/'] + stem@ + ext@,
{
    let mut out: Vec<char> = Vec::new();
    crate::text::append_chars(&mut out, dir);
    out.push('/');
    crate::text::append_chars(&mut out, stem);
    crate::text::append_lit(&mut out, ext);
    proof {
        assert(out@ =~= dir@ + seq!['/'] + stem@ + ext@);
    }
    string_of(&out)
}

fn push_exts(cands: &mut Vec<String>, dir: &Vec<char>, stem: &Vec<char>)
    ensures
        row_view(final (cands)@) == row_view(old(cands)@) + exts_mapped(dir@, stem@),
{
    let ghost c0 = row_view(cands@);
    cands.push(joined_exec(dir, stem, ".test.ts"));
    cands.push(joined_exec(dir, stem, ".test.tsx"));
    cands.push(joined_exec(dir, stem, ".spec.ts"));
    cands.push(joined_exec(dir, stem, ".spec.tsx"));
    proof {
        assert(row_view(cands@) =~= c0 + exts_mapped(dir@, stem@));
    }
}

/// Builds the candidate test paths for one source file, in convention
/// order.
pub fn test_candidates(source: &String, workspace_root: &String) -> (r: Vec<String>)
    ensures
        row_view(r@) == candidate_list(source@, workspace_root@),
{
    let cs = chars_of(source.as_str());
    let mut cands: Vec<String> = Vec::new();
    if !has_slash_exec(&cs) {
        proof {
            assert(row_view(cands@) =~= candidate_list(source@, workspace_root@));
        }
        return cands;
    }
    let dir = dir_chars(&cs);
    let name = crate::paths::file_name_chars(&cs);
    let stem = stem_chars(&name);

    push_exts(&mut cands, &dir, &stem);

    let mut tests_dir = Vec::new();
    crate::text::append_chars(&mut tests_dir, &dir);
    crate::text::append_lit(&mut tests_dir, "/__tests__");
    proof {
        assert(tests_dir@ == dir_of(source@) + "/__tests__"@);
    }
    push_exts(&mut cands, &tests_dir, &stem);

    match crate::paths::path_to_relative(source, workspace_root) {
        Option::None => {
            proof {
                assert(mirror_dir(source@, workspace_root@) is None);
                assert(row_view(cands@) =~= candidate_list(source@, workspace_root@));
            }
        },
        Option::Some(rel) => {
            let relc = chars_of(rel.as_str());
            if !has_slash_exec(&relc) {
                proof {
                    assert(mirror_dir(source@, workspace_root@) is None);
                    assert(row_view(cands@) =~= candidate_list(source@, workspace_root@));
                }
            } else {
                let rp = dir_chars(&relc);
                let mut tr: Vec<char> = Vec::new();
                if name_is(&rp, "src") {
                } else if has_prefix(&rp, "src/") {
                    proof {
                        reveal_strlit("src/");
                        assert(tr@ =~= rp@.subrange(4, 4));
                    }
                    let mut k: usize = 4;
                    while k < rp.len()
                        invariant
                            4 <= k <= rp@.len(),
                            tr@ == rp@.subrange(4, k as int),
                        decreases rp@.len() - k,
                    {
                        tr.push(rp[k]);
                        k += 1;
                    }
                    proof {
                        assert(tr@ =~= rp@.skip(4));
                    }
                } else {
                    crate::text::append_chars(&mut tr, &rp);
                    proof {
                        assert(tr@ =~= rp@);
                    }
                }
                let mut md: Vec<char> = Vec::new();
                crate::text::append_lit(&mut md, workspace_root.as_str());
                if tr.len() == 0 {
                    crate::text::append_lit(&mut md, "/test");
                    proof {
                        assert(md@ == workspace_root@ + "/test"@);
                    }
                } else {
                    crate::text::append_lit(&mut md, "/test/");
                    crate::text::append_chars(&mut md, &tr);
                    proof {
                        assert(md@ =~= workspace_root@ + "/test/"@ + tr@);
                    }
                }
                proof {
                    assert(mirror_dir(source@, workspace_root@) == Option::Some(md@));
                }
                push_exts(&mut cands, &md, &stem);
                proof {
                    assert(row_view(cands@) =~= candidate_list(source@, workspace_root@));
                }
            }
        },
    }
    cands
}

/// Everything [`discover_tests`] returns for the given inputs: a test file
/// among the affected paths, or an existing candidate test of an affected
/// source file.
pub open spec fn discovered(
    aff: Seq<Seq<char>>,
    root: Seq<char>,
    exist: Set<Seq<char>>,
    t: Seq<char>,
) -> bool {
    exists|i: int|
        0 <= i < aff.len() && (if is_test_file_spec(#[trigger] aff[i]) {
            t == aff[i]
        } else {
            candidate_list(aff[i], root).contains(t) && exist.contains(t)
        })
}

/// Discover test files for the affected files: affected test files are
/// kept directly; for other affected files, the candidate tests that exist
/// (per `existing_files`) are collected. Each test appears once.
pub fn discover_tests(
    affected: &Vec<String>,
    workspace_root: &String,
    existing_files: &Vec<String>,
) -> (r: Vec<String>)
    ensures
        row_view(r@).no_duplicates(),
        forall|t: Seq<char>|
            #[trigger] row_view(r@).contains(t) <==> discovered(
                row_view(affected@),
                workspace_root@,
                row_view(existing_files@).to_set(),
                t,
            ),
{
    let ghost aff = row_view(affected@);
    let ghost exist = row_view(existing_files@).to_set();
    let mut out: Vec<String> = Vec::new();
    let mut i: usize = 0;
    while i < affected.len()
        invariant
            i <= affected@.len(),
            aff == row_view(affected@),
            exist == row_view(existing_files@).to_set(),
            row_view(out@).no_duplicates(),
            forall|t: Seq<char>|
                #[trigger] row_view(out@).contains(t) <==> exists|j: int|
                    0 <= j < i && (if is_test_file_spec(#[trigger] aff[j]) {
                        t == aff[j]
                    } else {
                        candidate_list(aff[j], workspace_root@).contains(t) && exist.contains(t)
                    }),
        decreases affected@.len() - i,
    {
        let p = &affected[i];
        if is_test_file(p.as_str()) {
            let ghost o0 = row_view(out@);
            let already = vec_str_contains(&out, p);
            if !already {
                out.push(p.clone());
                proof {
                    assert(row_view(out@) =~= o0.push(p@));
                    lemma_push_keeps_no_dup(o0, p@);
                    assert forall|t: Seq<char>| #[trigger] row_view(out@).contains(t) implies (
                    exists|j: int|
                        0 <= j < i + 1 && (if is_test_file_spec(#[trigger] aff[j]) {
                            t == aff[j]
                        } else {
                            candidate_list(aff[j], workspace_root@).contains(t)
                                && exist.contains(t)
                        })) by {
                        lemma_seq_contains_after_push(o0, p@, t);
                        if t == p@ {
                            assert(aff[i as int] == p@);
                        }
                    };
                    assert forall|j: int, t: Seq<char>|
                        #![trigger candidate_list(aff[j], workspace_root@).contains(t)]
                        0 <= j < i + 1 && !is_test_file_spec(aff[j]) && candidate_list(
                            aff[j],
                            workspace_root@,
                        ).contains(t) && exist.contains(t) implies row_view(out@).contains(t) by {
                        lemma_seq_contains_after_push(o0, p@, t);
                    };
                    assert forall|j: int|
                        0 <= j < i + 1 && is_test_file_spec(#[trigger] aff[j]) implies row_view(
                        out@,
                    ).contains(aff[j]) by {
                        lemma_seq_contains_after_push(o0, p@, aff[j]);
                        if j == i as int {
                            assert(aff[j] == p@);
                        }
                    };
                }
            } else {
                proof {
                    assert(aff[i as int] == p@);
                    assert forall|j: int|
                        0 <= j < i + 1 && is_test_file_spec(#[trigger] aff[j]) implies row_view(
                        out@,
                    ).contains(aff[j]) by {
                        if j == i as int {
                            assert(row_view(out@).contains(p@));
                        }
                    };
                }
            }
        } else {
            let cands = test_candidates(p, workspace_root);
            let ghost snapshot = row_view(out@);
            let mut m: usize = 0;
            while m < cands.len()
                invariant
                    m <= cands@.len(),
                    i < affected@.len(),
                    aff == row_view(affected@),
                    exist == row_view(existing_files@).to_set(),
                    aff[i as int] == affected@[i as int]@,
                    !is_test_file_spec(aff[i as int]),
                    row_view(cands@) == candidate_list(aff[i as int], workspace_root@),
                    row_view(out@).no_duplicates(),
                    forall|t: Seq<char>|
                        #[trigger] row_view(out@).contains(t) <==> (snapshot.contains(t) || (
                        exists|n: int|
                            0 <= n < m && row_view(cands@)[n] == t && exist.contains(t))),
                    forall|t: Seq<char>|
                        #[trigger] snapshot.contains(t) <==> exists|j: int|
                            0 <= j < i && (if is_test_file_spec(#[trigger] aff[j]) {
                                t == aff[j]
                            } else {
                                candidate_list(aff[j], workspace_root@).contains(t)
                                    && exist.contains(t)
                            }),
                decreases cands@.len() - m,
            {
                let c = &cands[m];
                let ghost o0 = row_view(out@);
                let ghost x = cands@[m as int]@;
                let in_exist = vec_str_contains(existing_files, c);
                proof {
                    if in_exist {
                        assert(row_view(existing_files@).to_set().contains(x));
                    } else {
                        if exist.contains(x) {
                            assert(row_view(existing_files@).contains(x));
                        }
                    }
                }
                if in_exist && !vec_str_contains(&out, c) {
                    out.push(c.clone());
                    proof {
                        assert(row_view(out@) =~= o0.push(x));
                        lemma_push_keeps_no_dup(o0, x);
                        assert forall|t: Seq<char>| #[trigger] row_view(out@).contains(t) implies (
                        snapshot.contains(t) || (exists|n: int|
                            0 <= n < m + 1 && row_view(cands@)[n] == t && exist.contains(t))) by {
                            lemma_seq_contains_after_push(o0, x, t);
                            if t == x {
                                assert(row_view(cands@)[m as int] == x);
                            }
                        };
                        assert forall|t: Seq<char>|
                            (snapshot.contains(t) || (exists|n: int|
                                0 <= n < m + 1 && row_view(cands@)[n] == t && exist.contains(
                                    t,
                                ))) implies #[trigger] row_view(out@).contains(t) by {
                            lemma_seq_contains_after_push(o0, x, t);
                        };
                    }
                } else {
                    proof {
                        assert forall|t: Seq<char>|
                            (snapshot.contains(t) || (exists|n: int|
                                0 <= n < m + 1 && row_view(cands@)[n] == t && exist.contains(
                                    t,
                                ))) implies #[trigger] row_view(out@).contains(t) by {
                            if !snapshot.contains(t) {
                                let n = choose|n: int|
                                    0 <= n < m + 1 && #[trigger] row_view(cands@)[n] == t
                                        && exist.contains(t);
                                if n == m as int {
                                    assert(t == x);
                                    assert(row_view(out@).contains(x));
                                }
                            }
                        };
                    }
                }
                m += 1;
            }
            proof {
                assert forall|t: Seq<char>| #[trigger] row_view(out@).contains(t) implies (exists|
                    j: int,
                |
                    0 <= j < i + 1 && (if is_test_file_spec(#[trigger] aff[j]) {
                        t == aff[j]
                    } else {
                        candidate_list(aff[j], workspace_root@).contains(t) && exist.contains(t)
                    })) by {
                    if !snapshot.contains(t) {
                        let n = choose|n: int|
                            0 <= n < cands@.len() && #[trigger] row_view(cands@)[n] == t
                                && exist.contains(t);
                        assert(row_view(cands@).contains(t));
                        assert(candidate_list(aff[i as int], workspace_root@).contains(t));
                    }
                };
                assert forall|j: int, t: Seq<char>|
                    #![trigger candidate_list(aff[j], workspace_root@).contains(t)]
                    0 <= j < i + 1 && !is_test_file_spec(aff[j]) && candidate_list(
                        aff[j],
                        workspace_root@,
                    ).contains(t) && exist.contains(t) implies row_view(out@).contains(t) by {
                    if j == i as int {
                        let n = choose|n: int|
                            0 <= n < row_view(cands@).len() && #[trigger] row_view(cands@)[n]
                                == t;
                    }
                };
                assert forall|j: int|
                    0 <= j < i + 1 && is_test_file_spec(#[trigger] aff[j]) implies row_view(
                    out@,
                ).contains(aff[j]) by {
                    assert(j != i as int);
                };
            }
        }
        i += 1;
    }
    out
}

/// Pushing an element that is absent keeps a sequence duplicate-free.
pub(crate) proof fn lemma_push_keeps_no_dup(s: Seq<Seq<char>>, x: Seq<char>)
    requires
        s.no_duplicates(),
        !s.contains(x),
    ensures
        s.push(x).no_duplicates(),
{
    assert forall|a: int, b: int|
        0 <= a < s.push(x).len() && 0 <= b < s.push(x).len() && a != b implies s.push(x)[a]
        != s.push(x)[b] by {
        if a == s.len() && s.push(x)[b] == x {
            assert(s[b] == x);
            assert(s.contains(x));
        }
        if b == s.len() && s.push(x)[a] == x {
            assert(s[a] == x);
            assert(s.contains(x));
        }
    };
}

} // verus!
