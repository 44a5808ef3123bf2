//! Affected-query orchestration.
//!
//! Combines the dirty tracker, the dependency graph and the discovery
//! layer into one state. A query first applies the pending watcher
//! events, then walks a fixed precedence of states: a forced full run, a
//! still-warming graph, a recorded config change, a dirty-set overflow, a
//! graph overflow, a quiet (empty) dirty set, and finally the incremental
//! computation over the reverse-dependency closure.

use vstd::prelude::*;

use crate::compute::in_closure;
use crate::dirty::is_config_file_spec;
use crate::dirty::DirtyTracker;
use crate::discovery::candidate_list;
use crate::discovery::discovered;
use crate::discovery::is_test_file_spec;
use crate::graph::row_view;
use crate::graph::vec_str_contains;
use crate::graph::DepGraph;
use crate::paths::matches_scope;
use crate::paths::rel_list;
use crate::paths::rel_of;
use crate::paths::scope_filtered;
use crate::stable_id::is_lower_hex;

verus! {

/// Result of one affected-tests query.
#[derive(Debug)]
pub struct AffectedResult {
    /// Workspace-relative test files to run, filtered by scope.
    pub test_files: Vec<String>,
    /// Workspace-relative files drained from the dirty set.
    pub dirty_files: Vec<String>,
    /// Whether the caller should run everything in scope instead.
    pub is_full_run: bool,
}

impl AffectedResult {
    /// An empty result: nothing dirty, nothing to run.
    pub fn empty() -> (r: AffectedResult)
        ensures
            r.test_files@.len() == 0,
            r.dirty_files@.len() == 0,
            !r.is_full_run,
    {
        AffectedResult { test_files: Vec::new(), dirty_files: Vec::new(), is_full_run: false }
    }

    /// A full-run verdict with no tests listed yet.
    pub fn full_run_empty() -> (r: AffectedResult)
        ensures
            r.test_files@.len() == 0,
            r.dirty_files@.len() == 0,
            r.is_full_run,
    {
        AffectedResult { test_files: Vec::new(), dirty_files: Vec::new(), is_full_run: true }
    }
}

/// A graph maintenance action derived from one watcher event.
pub enum GraphUpdate {
    /// Not a module file, or its state could not be read: leave the graph.
    Skip,
    /// The file is gone: drop its node and edges.
    Remove,
    /// The file was re-parsed: replace its outgoing edges with the given
    /// resolved imports.
    SetImports(Vec<String>),
}

/// Shared state for affected test selection.
pub struct AffectedState {
    /// The dirty tracker.
    pub tracker: DirtyTracker,
    /// The module dependency graph.
    pub graph: DepGraph,
    /// Latched once the initial graph build has finished.
    pub graph_ready: bool,
    /// The canonical workspace root.
    pub workspace_root: String,
}

/// A relative test path selected by a full run: some existing workspace
/// test file under the root that matches the scope.
pub open spec fn full_run_test(
    files: Set<Seq<char>>,
    root: Seq<char>,
    scope: Seq<char>,
    t: Seq<char>,
) -> bool {
    exists|a: Seq<char>|
        #[trigger] files.contains(a) && is_test_file_spec(a) && rel_of(a, root) == Some(t)
            && matches_scope(t, scope)
}

/// A relative test path selected by an incremental run: the relative form
/// of a test discovered for some affected file, within the scope.
pub open spec fn incremental_test(
    g: DepGraph,
    dirty: Set<Seq<char>>,
    root: Seq<char>,
    exist: Set<Seq<char>>,
    scope: Seq<char>,
    t: Seq<char>,
) -> bool {
    exists|a: Seq<char>|
        #[trigger] selected_abs(g, dirty, root, exist, a) && rel_of(a, root) == Some(t)
            && matches_scope(t, scope)
}

/// An absolute test path discovered for some affected file.
pub open spec fn selected_abs(
    g: DepGraph,
    dirty: Set<Seq<char>>,
    root: Seq<char>,
    exist: Set<Seq<char>>,
    a: Seq<char>,
) -> bool {
    exists|p: Seq<char>|
        #[trigger] in_closure(g, dirty, p) && (if is_test_file_spec(p) {
            a == p
        } else {
            candidate_list(p, root).contains(a) && exist.contains(a)
        })
}

/// Membership in a relative-path list: exactly the relative forms of the
/// input paths under the root.
proof fn lemma_rel_list_membership(ps: Seq<Seq<char>>, root: Seq<char>, t: Seq<char>)
    ensures
        rel_list(ps, root).contains(t) <==> exists|i: int|
            0 <= i < ps.len() && rel_of(#[trigger] ps[i], root) == Some(t),
    decreases ps.len(),
{
    if ps.len() > 0 {
        lemma_rel_list_membership(ps.drop_last(), root, t);
        let rest = rel_list(ps.drop_last(), root);
        match rel_of(ps.last(), root) {
            Option::Some(r) => {
                vstd::seq_lib::lemma_seq_contains_after_push(rest, r, t);
                if rel_list(ps, root).contains(t) {
                    if t == r {
                        assert(rel_of(ps[ps.len() - 1], root) == Some(t));
                    } else {
                        let i = choose|i: int|
                            0 <= i < ps.drop_last().len() && rel_of(
                                #[trigger] ps.drop_last()[i],
                                root,
                            ) == Some(t);
                        assert(rel_of(ps[i], root) == Some(t));
                    }
                }
                if exists|i: int| 0 <= i < ps.len() && rel_of(#[trigger] ps[i], root) == Some(t) {
                    let i = choose|i: int|
                        0 <= i < ps.len() && rel_of(#[trigger] ps[i], root) == Some(t);
                    if i < ps.len() - 1 {
                        assert(rel_of(ps.drop_last()[i], root) == Some(t));
                    }
                }
            },
            Option::None => {
                if rel_list(ps, root).contains(t) {
                    let i = choose|i: int|
                        0 <= i < ps.drop_last().len() && rel_of(
                            #[trigger] ps.drop_last()[i],
                            root,
                        ) == Some(t);
                    assert(rel_of(ps[i], root) == Some(t));
                }
                if exists|i: int| 0 <= i < ps.len() && rel_of(#[trigger] ps[i], root) == Some(t) {
                    let i = choose|i: int|
                        0 <= i < ps.len() && rel_of(#[trigger] ps[i], root) == Some(t);
                    assert(i < ps.len() - 1);
                    assert(rel_of(ps.drop_last()[i], root) == Some(t));
                }
            },
        }
    }
}

/// Membership in a scope-filtered list.
proof fn lemma_scope_filtered_membership(ps: Seq<Seq<char>>, scope: Seq<char>, t: Seq<char>)
    ensures
        scope_filtered(ps, scope).contains(t) <==> ps.contains(t) && matches_scope(t, scope),
    decreases ps.len(),
{
    if ps.len() > 0 {
        lemma_scope_filtered_membership(ps.drop_last(), scope, t);
        let rest = scope_filtered(ps.drop_last(), scope);
        if matches_scope(ps.last(), scope) {
            vstd::seq_lib::lemma_seq_contains_after_push(rest, ps.last(), t);
        }
        if ps.drop_last().contains(t) {
            let i = choose|i: int|
                0 <= i < ps.drop_last().len() && #[trigger] ps.drop_last()[i] == t;
            assert(ps[i] == t);
        }
        if ps.contains(t) && t != ps.last() {
            let i = choose|i: int| 0 <= i < ps.len() && #[trigger] ps[i] == t;
            assert(ps.drop_last()[i] == t);
        }
    }
}

/// Generates a short hexadecimal request-correlation identifier.
pub fn generate_request_id() -> (r: String)
    ensures
        r@.len() >= 1,
        forall|i: int| 0 <= i < r@.len() ==> is_lower_hex(#[trigger] r@[i]),
{
    let nanos = crate::fsys::now_unix_nanos();
    let v: u64 = nanos % 0xFFFFFF;
    let h = crate::text::u64_to_hex(v);
    proof {
        crate::text::lemma_hex_seq_is_hex(v as nat);
    }
    crate::text::string_of(&h)
}

impl AffectedState {
    /// Well-formedness of the tracker and the graph.
    pub open spec fn wf(self) -> bool {
        self.tracker.wf() && self.graph.wf()
    }

    /// Create a new affected state for the workspace; the graph starts
    /// empty and not ready.
    pub fn new(workspace_root: String) -> (r: AffectedState)
        ensures
            r.wf(),
            !r.graph_ready,
            r.workspace_root == workspace_root,
            r.graph.node_set() == Set::<Seq<char>>::empty(),
            !r.graph.overflow_latched(),
            r.tracker.dirty_set() == Set::<Seq<char>>::empty(),
            !r.tracker.overflow_flag(),
            !r.tracker.config_changed_flag(),
    {
        let tracker = DirtyTracker::new(workspace_root.clone());
        let graph = DepGraph::new();
        AffectedState { tracker, graph, graph_ready: false, workspace_root }
    }

    /// Apply one watcher event: record a config-file change by hash
    /// comparison, add the path to the dirty set, and, when the graph is
    /// ready, apply the graph maintenance action.
    pub fn apply_event(
        &mut self,
        path: &String,
        content_hash: Option<&String>,
        update: &GraphUpdate,
    )
        requires
            old(self).wf(),
        ensures
            final(self).wf(),
            final(self).graph_ready == old(self).graph_ready,
            final(self).workspace_root == old(self).workspace_root,
            match content_hash {
                Some(h) => is_config_file_spec(path@) ==> final(self).tracker.hash_of(path@)
                    == Some(h@),
                None => true,
            },
            // config-change latch
            final(self).tracker.config_changed_flag() == (
            old(self).tracker.config_changed_flag() || (is_config_file_spec(path@)
                && match content_hash {
                Some(h) => old(self).tracker.hash_of(path@) is Some && old(self).tracker.hash_of(
                    path@,
                ) != Some(h@),
                None => false,
            })),
            // dirty set and overflow
            old(self).tracker.dirty_set().len() < crate::dirty::MAX_DIRTY_FILES ==> final(self).tracker.dirty_set() == old(self).tracker.dirty_set().insert(path@) && final(self).tracker.overflow_flag() == old(self).tracker.overflow_flag(),
            old(self).tracker.dirty_set().len() >= crate::dirty::MAX_DIRTY_FILES ==> final(self).tracker.dirty_set() == old(self).tracker.dirty_set() && final(self).tracker.overflow_flag(),
            // graph maintenance
            !old(self).graph_ready ==> final(self).graph == old(self).graph,
            old(self).graph_ready && update is Skip ==> final(self).graph == old(self).graph,
            old(self).graph_ready && update is Remove ==> {
                &&& final(self).graph.node_set() == old(self).graph.node_set().remove(path@)
                    || (!old(self).graph.has_node(path@) && final(self).graph == old(self).graph)
                &&& forall|q: Seq<char>|
                    q != path@ ==> final(self).graph.succ(q) == old(self).graph.succ(q).remove(
                        path@,
                    ) || final(self).graph.succ(q) == old(self).graph.succ(q)
            },
            match update {
                GraphUpdate::SetImports(imports) => old(self).graph_ready ==> {
                    &&& forall|q: Seq<char>|
                        q != path@ ==> final(self).graph.succ(q) == old(self).graph.succ(q)
                    &&& final(self).graph.has_node(path@) ==> final(self).graph.succ(path@)
                        == row_view(imports@).to_set().intersect(final(self).graph.node_set())
                    &&& old(self).graph.node_set().subset_of(final(self).graph.node_set())
                },
                _ => true,
            },
    {
        if crate::dirty::is_config_file(path.as_str()) {
            match content_hash {
                Option::Some(h) => {
                    let changed = self.tracker.check_config_change(path, h);
                    if changed {
                        self.tracker.set_config_changed();
                    }
                },
                Option::None => {},
            }
        }
        self.tracker.add_dirty(path.clone());
        if self.graph_ready {
            match update {
                GraphUpdate::Skip => {},
                GraphUpdate::Remove => {
                    self.graph.remove_file(path);
                },
                GraphUpdate::SetImports(imports) => {
                    let ghost mid = *self;
                    let ghost g0 = self.graph;
                    proof {
                        if !g0.has_node(path@) {
                            g0.lemma_succ_absent(path@);
                        }
                    }
                    self.graph.add_file(path.clone());
                    proof {
                        assert forall|q: Seq<char>| self.graph.succ(q) == g0.succ(q) by {
                            if !g0.has_node(path@) && g0.node_set().len()
                                < crate::graph::MAX_GRAPH_NODES && q == path@ {
                                assert(g0.succ(path@) == Set::<Seq<char>>::empty());
                            }
                        };
                    }
                    let mut k: usize = 0;
                    while k < imports.len()
                        invariant
                            self.graph.wf(),
                            k <= imports@.len(),
                            self.tracker == mid.tracker,
                            self.graph_ready == mid.graph_ready,
                            self.workspace_root == mid.workspace_root,
                            g0.node_set().subset_of(self.graph.node_set()),
                            forall|q: Seq<char>| self.graph.succ(q) == g0.succ(q),
                        decreases imports@.len() - k,
                    {
                        let imp = imports[k].clone();
                        let ghost before = self.graph;
                        let ghost impv = imports@[k as int]@;
                        proof {
                            if !before.has_node(impv) {
                                before.lemma_succ_absent(impv);
                            }
                        }
                        self.graph.add_file(imp);
                        proof {
                            assert forall|q: Seq<char>| self.graph.succ(q) == g0.succ(q) by {
                                if !before.has_node(impv) && before.node_set().len()
                                    < crate::graph::MAX_GRAPH_NODES && q == impv {
                                    assert(before.succ(impv) == Set::<Seq<char>>::empty());
                                }
                                assert(self.graph.succ(q) == before.succ(q));
                            };
                        }
                        k += 1;
                    }
                    self.graph.update_edges(path, imports);
                },
            }
        }
    }
}

impl AffectedState {
    /// All workspace test files within the scope, workspace-relative:
    /// the full-run verdict's test list.
    pub fn discover_all_tests_scoped(
        &self,
        package_scope: &str,
        workspace_files: &Vec<String>,
    ) -> (r: Vec<String>)
        ensures
            row_view(r@).no_duplicates(),
            forall|t: Seq<char>|
                #[trigger] row_view(r@).contains(t) <==> full_run_test(
                    row_view(workspace_files@).to_set(),
                    self.workspace_root@,
                    package_scope@,
                    t,
                ),
    {
        let mut out: Vec<String> = Vec::new();
        let mut i: usize = 0;
        while i < workspace_files.len()
            invariant
                i <= workspace_files@.len(),
                row_view(out@).no_duplicates(),
                forall|t: Seq<char>|
                    #[trigger] row_view(out@).contains(t) <==> exists|j: int|
                        0 <= j < i && is_test_file_spec(#[trigger] row_view(workspace_files@)[j])
                            && rel_of(row_view(workspace_files@)[j], self.workspace_root@)
                            == Some(t) && matches_scope(t, package_scope@),
            decreases workspace_files@.len() - i,
        {
            let abs = &workspace_files[i];
            let ghost o0 = row_view(out@);
            if crate::discovery::is_test_file(abs.as_str()) {
                match crate::paths::path_to_relative(abs, &self.workspace_root) {
                    Option::Some(rel) => {
                        if crate::paths::matches_package_scope(
                            rel.as_str(),
                            package_scope,
                        ) {
                            let already = vec_str_contains(&out, &rel);
                            if !already {
                                out.push(rel);
                                proof {
                                    assert(row_view(out@) =~= o0.push(out@.last()@));
                                    crate::discovery::lemma_push_keeps_no_dup(o0, out@.last()@);
                                    let x = out@.last()@;
                                    assert forall|t: Seq<char>|
                                        #[trigger] row_view(out@).contains(t) <==> (o0.contains(t)
                                            || t == x) by {
                                        vstd::seq_lib::lemma_seq_contains_after_push(o0, x, t);
                                    };
                                    assert(rel_of(
                                        row_view(workspace_files@)[i as int],
                                        self.workspace_root@,
                                    ) == Some(x));
                                }
                            }
                        }
                    },
                    Option::None => {},
                }
            }
            proof {
                assert forall|t: Seq<char>| #[trigger] row_view(out@).contains(t) implies (exists|
                    j: int,
                |
                    0 <= j < i + 1 && is_test_file_spec(#[trigger] row_view(workspace_files@)[j])
                        && rel_of(row_view(workspace_files@)[j], self.workspace_root@) == Some(t)
                        && matches_scope(t, package_scope@)) by {
                    if o0.contains(t) {
                        let j = choose|j: int|
                            0 <= j < i && is_test_file_spec(
                                #[trigger] row_view(workspace_files@)[j],
                            ) && rel_of(row_view(workspace_files@)[j], self.workspace_root@)
                                == Some(t) && matches_scope(t, package_scope@);
                    }
                };
                assert forall|j: int, t: Seq<char>|
                    #![trigger row_view(workspace_files@)[j], rel_of(row_view(workspace_files@)[j], self.workspace_root@), matches_scope(t, package_scope@)]
                    0 <= j < i + 1 && is_test_file_spec(row_view(workspace_files@)[j]) && rel_of(
                        row_view(workspace_files@)[j],
                        self.workspace_root@,
                    ) == Some(t) && matches_scope(t, package_scope@) implies row_view(
                    out@,
                ).contains(t) by {
                    if j == i as int {
                        assert(row_view(out@).contains(t));
                    }
                };
            }
            i += 1;
        }
        proof {
            assert forall|t: Seq<char>| #[trigger] row_view(out@).contains(t) implies full_run_test(
                row_view(workspace_files@).to_set(),
                self.workspace_root@,
                package_scope@,
                t,
            ) by {
                let j = choose|j: int|
                    0 <= j < workspace_files@.len() && is_test_file_spec(
                        #[trigger] row_view(workspace_files@)[j],
                    ) && rel_of(row_view(workspace_files@)[j], self.workspace_root@) == Some(t)
                        && matches_scope(t, package_scope@);
                assert(row_view(workspace_files@).to_set().contains(
                    row_view(workspace_files@)[j],
                ));
            };
            assert forall|t: Seq<char>|
                full_run_test(
                    row_view(workspace_files@).to_set(),
                    self.workspace_root@,
                    package_scope@,
                    t,
                ) implies #[trigger] row_view(out@).contains(t) by {
                let a = choose|a: Seq<char>|
                    #[trigger] row_view(workspace_files@).to_set().contains(a)
                        && is_test_file_spec(a) && rel_of(a, self.workspace_root@) == Some(t)
                        && matches_scope(t, package_scope@);
                assert(row_view(workspace_files@).contains(a));
                let j = choose|j: int|
                    0 <= j < row_view(workspace_files@).len() && #[trigger] row_view(
                        workspace_files@,
                    )[j] == a;
            };
        }
        out
    }

    /// Answer one affected-tests query over the current state.
    ///
    /// Precedence: a forced full run first; then warming (graph not
    /// ready) with an empty full-run verdict; otherwise the dirty set and
    /// both flags are drained, and a recorded config change, a dirty-set
    /// overflow or a latched graph overflow each force a full run; an
    /// empty dirty set answers quietly; otherwise the query answers the
    /// tests discovered over the reverse-dependency closure of the dirty
    /// set, filtered by the package scope. `workspace_files` is the
    /// caller's snapshot of the workspace's files, used for full-run
    /// discovery and for candidate existence.
    pub fn get_affected_tests(
        &mut self,
        force_full: bool,
        package_scope: &str,
        workspace_files: &Vec<String>,
    ) -> (r: AffectedResult)
        requires
            old(self).wf(),
        ensures
            final(self).wf(),
            final(self).graph == old(self).graph,
            final(self).graph_ready == old(self).graph_ready,
            final(self).workspace_root == old(self).workspace_root,
            force_full ==> {
                &&& final(self).tracker == old(self).tracker
                &&& r.is_full_run
                &&& r.dirty_files@.len() == 0
                &&& forall|t: Seq<char>|
                    #[trigger] row_view(r.test_files@).contains(t) <==> full_run_test(
                        row_view(workspace_files@).to_set(),
                        old(self).workspace_root@,
                        package_scope@,
                        t,
                    )
            },
            !force_full && !old(self).graph_ready ==> {
                &&& final(self).tracker == old(self).tracker
                &&& r.is_full_run
                &&& r.test_files@.len() == 0
                &&& r.dirty_files@.len() == 0
            },
            !force_full && old(self).graph_ready ==> {
                &&& final(self).tracker.dirty_set() == Set::<Seq<char>>::empty()
                &&& !final(self).tracker.overflow_flag()
                &&& !final(self).tracker.config_changed_flag()
                &&& forall|t: Seq<char>|
                    #[trigger] row_view(r.dirty_files@).contains(t) <==> exists|p: Seq<char>|
                        #[trigger] old(self).tracker.dirty_set().contains(p) && rel_of(
                            p,
                            old(self).workspace_root@,
                        ) == Some(t)
                &&& (old(self).tracker.config_changed_flag() || old(self).tracker.overflow_flag()
                    || old(self).graph.overflow_latched()) ==> r.is_full_run && (forall|
                    t: Seq<char>,
                |
                    #[trigger] row_view(r.test_files@).contains(t) <==> full_run_test(
                        row_view(workspace_files@).to_set(),
                        old(self).workspace_root@,
                        package_scope@,
                        t,
                    ))
                &&& !(old(self).tracker.config_changed_flag() || old(
                    self,
                ).tracker.overflow_flag() || old(self).graph.overflow_latched()) && old(
                    self,
                ).tracker.dirty_set().len() == 0 ==> !r.is_full_run && r.test_files@.len() == 0
                &&& !(old(self).tracker.config_changed_flag() || old(
                    self,
                ).tracker.overflow_flag() || old(self).graph.overflow_latched()) && old(
                    self,
                ).tracker.dirty_set().len() > 0 ==> !r.is_full_run && (forall|t: Seq<char>|
                    #[trigger] row_view(r.test_files@).contains(t) <==> incremental_test(
                        old(self).graph,
                        old(self).tracker.dirty_set(),
                        old(self).workspace_root@,
                        row_view(workspace_files@).to_set(),
                        package_scope@,
                        t,
                    ))
            },
    {
        if force_full {
            let test_files = self.discover_all_tests_scoped(package_scope, workspace_files);
            return AffectedResult { test_files, dirty_files: Vec::new(), is_full_run: true };
        }
        if !self.graph_ready {
            return AffectedResult::full_run_empty();
        }
        let (dirty, overflow, config_changed) = self.tracker.drain();
        let root = self.workspace_root.clone();
        let dirty_files = crate::paths::to_relative_strings(&dirty, &root);
        proof {
            assert forall|t: Seq<char>|
                #[trigger] row_view(dirty_files@).contains(t) <==> exists|p: Seq<char>|
                    #[trigger] old(self).tracker.dirty_set().contains(p) && rel_of(
                        p,
                        old(self).workspace_root@,
                    ) == Some(t) by {
                lemma_rel_list_membership(row_view(dirty@), root@, t);
                if row_view(dirty_files@).contains(t) {
                    let i = choose|i: int|
                        0 <= i < row_view(dirty@).len() && rel_of(
                            #[trigger] row_view(dirty@)[i],
                            root@,
                        ) == Some(t);
                    assert(row_view(dirty@).contains(row_view(dirty@)[i]));
                    assert(old(self).tracker.dirty_set().contains(row_view(dirty@)[i]));
                } else {
                    if exists|p: Seq<char>|
                        #[trigger] old(self).tracker.dirty_set().contains(p) && rel_of(
                            p,
                            old(self).workspace_root@,
                        ) == Some(t) {
                        let p = choose|p: Seq<char>|
                            #[trigger] old(self).tracker.dirty_set().contains(p) && rel_of(
                                p,
                                old(self).workspace_root@,
                            ) == Some(t);
                        assert(row_view(dirty@).to_set().contains(p));
                        assert(row_view(dirty@).contains(p));
                        let i = choose|i: int|
                            0 <= i < row_view(dirty@).len() && #[trigger] row_view(dirty@)[i]
                                == p;
                    }
                }
            };
        }
        if config_changed || overflow || self.graph.is_overflow() {
            let test_files = self.discover_all_tests_scoped(package_scope, workspace_files);
            return AffectedResult { test_files, dirty_files, is_full_run: true };
        }
        if dirty.len() == 0 {
            proof {
                row_view(dirty@).unique_seq_to_set();
            }
            return AffectedResult {
                test_files: Vec::new(),
                dirty_files,
                is_full_run: false,
            };
        }
        proof {
            row_view(dirty@).unique_seq_to_set();
        }
        let affected = crate::compute::compute_affected(&dirty, &self.graph);
        let tests_abs = crate::discovery::discover_tests(&affected, &root, workspace_files);
        proof {
            let g = old(self).graph;
            let dset = old(self).tracker.dirty_set();
            let exist = row_view(workspace_files@).to_set();
            assert forall|a: Seq<char>|
                #[trigger] row_view(tests_abs@).contains(a) <==> selected_abs(
                    g,
                    dset,
                    root@,
                    exist,
                    a,
                ) by {
                if row_view(tests_abs@).contains(a) {
                    assert(discovered(row_view(affected@), root@, exist, a));
                    let i = choose|i: int|
                        0 <= i < row_view(affected@).len() && (if is_test_file_spec(
                            #[trigger] row_view(affected@)[i],
                        ) {
                            a == row_view(affected@)[i]
                        } else {
                            candidate_list(row_view(affected@)[i], root@).contains(a)
                                && exist.contains(a)
                        });
                    let p = row_view(affected@)[i];
                    assert(row_view(affected@).contains(p));
                    assert(in_closure(g, dset, p));
                }
                if selected_abs(g, dset, root@, exist, a) {
                    let p = choose|p: Seq<char>|
                        #[trigger] in_closure(g, dset, p) && (if is_test_file_spec(p) {
                            a == p
                        } else {
                            candidate_list(p, root@).contains(a) && exist.contains(a)
                        });
                    assert(row_view(affected@).contains(p));
                    let i = choose|i: int|
                        0 <= i < row_view(affected@).len() && #[trigger] row_view(affected@)[i]
                            == p;
                    assert(discovered(row_view(affected@), root@, exist, a));
                }
            };
        }
        let rels = crate::paths::to_relative_strings_vec(&tests_abs, &root);
        let test_files = crate::paths::filter_by_package_scope(rels, package_scope);
        proof {
            let g = old(self).graph;
            let dset = old(self).tracker.dirty_set();
            let exist = row_view(workspace_files@).to_set();
            assert forall|t: Seq<char>|
                #[trigger] row_view(test_files@).contains(t) <==> incremental_test(
                    g,
                    dset,
                    root@,
                    exist,
                    package_scope@,
                    t,
                ) by {
                lemma_scope_filtered_membership(
                    rel_list(row_view(tests_abs@), root@),
                    package_scope@,
                    t,
                );
                lemma_rel_list_membership(row_view(tests_abs@), root@, t);
                if row_view(test_files@).contains(t) {
                    let i = choose|i: int|
                        0 <= i < row_view(tests_abs@).len() && rel_of(
                            #[trigger] row_view(tests_abs@)[i],
                            root@,
                        ) == Some(t);
                    let a = row_view(tests_abs@)[i];
                    assert(row_view(tests_abs@).contains(a));
                    assert(selected_abs(g, dset, root@, exist, a));
                }
                if incremental_test(g, dset, root@, exist, package_scope@, t) {
                    let a = choose|a: Seq<char>|
                        #[trigger] selected_abs(g, dset, root@, exist, a) && rel_of(a, root@)
                            == Some(t) && matches_scope(t, package_scope@);
                    assert(row_view(tests_abs@).contains(a));
                    let i = choose|i: int|
                        0 <= i < row_view(tests_abs@).len() && #[trigger] row_view(tests_abs@)[i]
                            == a;
                    assert(rel_list(row_view(tests_abs@), root@).contains(t));
                }
            };
        }
        AffectedResult { test_files, dirty_files, is_full_run: false }
    }
}

} // verus!
