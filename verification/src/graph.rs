//! Module dependency graph.
//!
//! A directed graph over canonical module paths; an edge `A -> B` means
//! "A imports B". Nodes live in an arena-style table with stable slots, so
//! removing a file never renumbers the others. The node count is bounded;
//! crossing the bound latches an overflow flag that callers treat as a
//! signal to fall back to a full test run.

use vstd::prelude::*;

use vstd::seq_lib::*;
use vstd::set_lib::lemma_len_subset;

verus! {

/// Maximum number of nodes before the graph latches overflow.
pub const MAX_GRAPH_NODES: usize = 10000;

/// A node in the dependency graph.
#[derive(Debug)]
pub enum GraphNode {
    /// A module file, identified by its canonical path.
    Module(String),
}

/// The path a node stands for.
pub open spec fn node_path(n: GraphNode) -> Seq<char> {
    match n {
        GraphNode::Module(p) => p@,
    }
}

/// True when slot `i` holds a live node.
pub open spec fn alive_at(nodes: Seq<GraphNode>, alive: Seq<bool>, i: int) -> bool {
    0 <= i < nodes.len() && i < alive.len() && alive[i]
}

/// The set of live node paths.
pub open spec fn node_set_in(nodes: Seq<GraphNode>, alive: Seq<bool>) -> Set<Seq<char>> {
    Set::new(
        |p: Seq<char>|
            exists|i: int| alive_at(nodes, alive, i) && node_path(#[trigger] nodes[i]) == p,
    )
}

/// The slot of the live node with path `p`.
pub open spec fn idx_of_in(nodes: Seq<GraphNode>, alive: Seq<bool>, p: Seq<char>) -> int {
    choose|i: int| alive_at(nodes, alive, i) && node_path(#[trigger] nodes[i]) == p
}

/// The paths in one outgoing-edge row.
pub open spec fn row_view(row: Seq<String>) -> Seq<Seq<char>> {
    row.map_values(|s: String| s@)
}

/// How many slots are live.
pub open spec fn count_alive(s: Seq<bool>) -> nat
    decreases s.len(),
{
    if s.len() == 0 {
        0
    } else {
        count_alive(s.drop_last()) + if s.last() {
            1nat
        } else {
            0nat
        }
    }
}

/// Dependency graph storing file import relationships.
pub struct DepGraph {
    nodes: Vec<GraphNode>,
    alive: Vec<bool>,
    rows: Vec<Vec<String>>,
    n_alive: usize,
    overflow: bool,
}

impl DepGraph {
    /// The set of module paths currently in the graph.
    pub closed spec fn node_set(self) -> Set<Seq<char>> {
        node_set_in(self.nodes@, self.alive@)
    }

    /// True when the graph holds a node for `p`.
    pub open spec fn has_node(self, p: Seq<char>) -> bool {
        self.node_set().contains(p)
    }

    /// The slot of the live node holding `p`.
    pub closed spec fn slot_of(self, p: Seq<char>) -> int {
        idx_of_in(self.nodes@, self.alive@, p)
    }

    /// The set of paths that `p` imports (outgoing edges of `p`).
    pub closed spec fn succ(self, p: Seq<char>) -> Set<Seq<char>> {
        if self.has_node(p) {
            row_view(self.rows@[self.slot_of(p)]@).to_set()
        } else {
            Set::<Seq<char>>::empty()
        }
    }

    /// The set of paths that import `p` (in-neighbors of `p`).
    pub open spec fn dependents_of(self, p: Seq<char>) -> Set<Seq<char>> {
        Set::new(|q: Seq<char>| self.node_set().contains(q) && self.succ(q).contains(p))
    }

    /// Whether the overflow flag is latched.
    pub closed spec fn overflow_latched(self) -> bool {
        self.overflow
    }

    /// Total number of edges.
    pub closed spec fn edge_total(self) -> int {
        row_len_sum(self.rows@, self.rows@.len() as int)
    }

    closed spec fn row_ok(self, i: int) -> bool {
        &&& row_view(self.rows@[i]@).no_duplicates()
        &&& forall|k: int|
            0 <= k < self.rows@[i]@.len() ==> self.node_set().contains(
                #[trigger] row_view(self.rows@[i]@)[k],
            )
    }

    /// Well-formedness: parallel tables agree, live paths are distinct,
    /// rows list only live nodes without repetition, dead slots hold no
    /// edges, and the live count respects the bound.
    pub closed spec fn wf(self) -> bool {
        &&& self.alive@.len() == self.nodes@.len()
        &&& self.rows@.len() == self.nodes@.len()
        &&& self.n_alive == count_alive(self.alive@)
        &&& self.n_alive <= MAX_GRAPH_NODES
        &&& forall|i: int, j: int|
            alive_at(self.nodes@, self.alive@, i) && alive_at(self.nodes@, self.alive@, j) && i
                != j ==> node_path(#[trigger] self.nodes@[i]) != node_path(
                #[trigger] self.nodes@[j],
            )
        &&& forall|i: int|
            0 <= i < self.nodes@.len() && !self.alive@[i] ==> (#[trigger] self.rows@[i]@).len()
                == 0
        &&& forall|i: int| alive_at(self.nodes@, self.alive@, i) ==> self.row_ok(i)
    }

    /// Create a new empty dependency graph.
    pub fn new() -> (r: DepGraph)
        ensures
            r.wf(),
            r.node_set() == Set::<Seq<char>>::empty(),
            !r.overflow_latched(),
            r.edge_total() == 0,
    {
        let g = DepGraph {
            nodes: Vec::new(),
            alive: Vec::new(),
            rows: Vec::new(),
            n_alive: 0,
            overflow: false,
        };
        proof {
            assert(g.node_set() =~= Set::<Seq<char>>::empty());
        }
        g
    }

    fn find_idx(&self, path: &String) -> (r: Option<usize>)
        requires
            self.wf(),
        ensures
            match r {
                Some(i) => alive_at(self.nodes@, self.alive@, i as int) && node_path(
                    self.nodes@[i as int],
                ) == path@ && i as int == self.slot_of(path@),
                None => !self.has_node(path@),
            },
    {
        let mut i: usize = 0;
        while i < self.nodes.len()
            invariant
                self.wf(),
                i <= self.nodes@.len(),
                forall|j: int|
                    0 <= j < i ==> !(alive_at(self.nodes@, self.alive@, j) && node_path(
                        #[trigger] self.nodes@[j],
                    ) == path@),
            decreases self.nodes@.len() - i,
        {
            if self.alive[i] {
                let found = match &self.nodes[i] {
                    GraphNode::Module(p) => p.eq(path),
                };
                if found {
                    proof {
                        assert(alive_at(self.nodes@, self.alive@, i as int) && node_path(
                            self.nodes@[i as int],
                        ) == path@);
                        let w = self.slot_of(path@);
                        assert(alive_at(self.nodes@, self.alive@, w) && node_path(self.nodes@[w])
                            == path@);
                    }
                    return Some(i);
                }
            }
            i += 1;
        }
        proof {
            assert(forall|j: int|
                !(alive_at(self.nodes@, self.alive@, j) && node_path(#[trigger] self.nodes@[j])
                    == path@));
            assert(!self.node_set().contains(path@));
        }
        None
    }

    /// Check if graph contains a file.
    pub fn contains(&self, path: &String) -> (r: bool)
        requires
            self.wf(),
        ensures
            r == self.has_node(path@),
    {
        self.find_idx(path).is_some()
    }

    /// Check if the graph has latched overflow.
    pub fn is_overflow(&self) -> (r: bool)
        ensures
            r == self.overflow_latched(),
    {
        self.overflow
    }

    /// Get the current node count.
    pub fn node_count(&self) -> (r: usize)
        requires
            self.wf(),
        ensures
            r == self.node_set().len(),
            self.node_set().finite(),
    {
        proof {
            lemma_node_set_card(self.nodes@, self.alive@, self.nodes@.len() as int);
            assert(node_set_upto(self.nodes@, self.alive@, self.nodes@.len() as int)
                =~= self.node_set());
            assert(self.alive@.take(self.alive@.len() as int) =~= self.alive@);
        }
        self.n_alive
    }

    /// Add a file to the graph; idempotent on the path. Returns the node's
    /// slot, or `None` when the node bound would be crossed, in which case
    /// the overflow flag latches. The overflow flag never clears.
    pub fn add_file(&mut self, path: String) -> (r: Option<usize>)
        requires
            old(self).wf(),
        ensures
            final(self).wf(),
            old(self).overflow_latched() ==> final(self).overflow_latched(),
            old(self).has_node(path@) ==> (r matches Some(i) && i as int == old(self).slot_of(
                path@,
            )) && *final(self) == *old(self),
            !old(self).has_node(path@) && old(self).node_set().len() < MAX_GRAPH_NODES ==> {
                &&& r matches Some(i) && i as int == final(self).slot_of(path@)
                &&& final(self).node_set() == old(self).node_set().insert(path@)
                &&& final(self).succ(path@) == Set::<Seq<char>>::empty()
                &&& forall|q: Seq<char>| q != path@ ==> final(self).succ(q) == old(self).succ(q)
                &&& final(self).overflow_latched() == old(self).overflow_latched()
                &&& final(self).edge_total() == old(self).edge_total()
            },
            !old(self).has_node(path@) && old(self).node_set().len() >= MAX_GRAPH_NODES ==> {
                &&& r is None
                &&& final(self).overflow_latched()
                &&& final(self).node_set() == old(self).node_set()
                &&& forall|q: Seq<char>| final(self).succ(q) == old(self).succ(q)
                &&& final(self).edge_total() == old(self).edge_total()
            },
    {
        proof {
            lemma_node_set_card(self.nodes@, self.alive@, self.nodes@.len() as int);
            assert(node_set_upto(self.nodes@, self.alive@, self.nodes@.len() as int)
                =~= self.node_set());
            assert(self.alive@.take(self.alive@.len() as int) =~= self.alive@);
        }
        if let Some(i) = self.find_idx(&path) {
            return Some(i);
        }
        if self.n_alive >= MAX_GRAPH_NODES {
            self.overflow = true;
            proof {
                assert(self.node_set() == old(self).node_set());
                assert forall|q: Seq<char>| self.succ(q) == old(self).succ(q) by {
                    assert(self.node_set() == old(self).node_set());
                };
                assert(self.wf()) by {
                    assert forall|i: int|
                        alive_at(self.nodes@, self.alive@, i) implies self.row_ok(i) by {
                        assert(old(self).row_ok(i));
                    };
                }
            }
            return None;
        }
        let ghost old_g = *self;
        let i = self.nodes.len();
        self.nodes.push(GraphNode::Module(path));
        self.alive.push(true);
        self.rows.push(Vec::new());
        self.n_alive = self.n_alive + 1;
        proof {
            let ghost p = node_path(self.nodes@[i as int]);
            assert(self.alive@.drop_last() =~= old_g.alive@);
            assert(count_alive(self.alive@) == count_alive(old_g.alive@) + 1);
            assert(self.node_set() =~= old_g.node_set().insert(p)) by {
                assert forall|q: Seq<char>| self.node_set().contains(q) implies old_g.node_set().insert(
                    p,
                ).contains(q) by {
                    let j = choose|j: int|
                        alive_at(self.nodes@, self.alive@, j) && node_path(
                            #[trigger] self.nodes@[j],
                        ) == q;
                    if j < i {
                        assert(old_g.node_set().contains(q));
                    }
                };
                assert forall|q: Seq<char>| old_g.node_set().insert(p).contains(q) implies self.node_set().contains(
                    q,
                ) by {
                    if q == p {
                        assert(alive_at(self.nodes@, self.alive@, i as int));
                    } else {
                        let j = choose|j: int|
                            alive_at(old_g.nodes@, old_g.alive@, j) && node_path(
                                #[trigger] old_g.nodes@[j],
                            ) == q;
                        assert(alive_at(self.nodes@, self.alive@, j));
                        assert(node_path(self.nodes@[j]) == q);
                    }
                };
            }
            assert(self.wf()) by {
                assert(forall|j: int|
                    alive_at(self.nodes@, self.alive@, j) && j != i ==> alive_at(
                        old_g.nodes@,
                        old_g.alive@,
                        j,
                    ) && self.nodes@[j] == old_g.nodes@[j]);
                assert forall|j: int| alive_at(self.nodes@, self.alive@, j) implies self.row_ok(
                    j,
                ) by {
                    if j != i {
                        assert(old_g.row_ok(j));
                        assert(self.rows@[j] == old_g.rows@[j]);
                        assert(forall|k: int|
                            0 <= k < self.rows@[j]@.len() ==> self.node_set().contains(
                                #[trigger] row_view(self.rows@[j]@)[k],
                            ));
                    } else {
                        assert(row_view(self.rows@[i as int]@) =~= Seq::<Seq<char>>::empty());
                    }
                };
            }
            assert(self.succ(p) =~= Set::<Seq<char>>::empty()) by {
                assert(self.slot_of(p) == i) by {
                    let w = self.slot_of(p);
                    assert(alive_at(self.nodes@, self.alive@, i as int) && node_path(
                        self.nodes@[i as int],
                    ) == p);
                    assert(alive_at(self.nodes@, self.alive@, w) && node_path(self.nodes@[w])
                        == p);
                }
                assert(row_view(self.rows@[i as int]@) =~= Seq::<Seq<char>>::empty());
            }
            assert forall|q: Seq<char>| q != p implies self.succ(q) == old_g.succ(q) by {
                lemma_succ_one_unchanged(old_g, *self, q, i as int);
            };
            assert(self.edge_total() == old_g.edge_total()) by {
                lemma_row_len_sum_push_empty(old_g.rows@, self.rows@);
            }
        }
        Some(i)
    }

    /// Atomically replace the outgoing edges of `from` with the given
    /// imports. Imports that are not nodes of the graph are silently
    /// skipped; other nodes' edges are untouched. A missing `from` is a
    /// no-op.
    pub fn update_edges(&mut self, from: &String, imports: &Vec<String>)
        requires
            old(self).wf(),
        ensures
            final(self).wf(),
            final(self).node_set() == old(self).node_set(),
            final(self).overflow_latched() == old(self).overflow_latched(),
            !old(self).has_node(from@) ==> *final(self) == *old(self),
            old(self).has_node(from@) ==> {
                &&& final(self).succ(from@) == row_view(imports@).to_set().intersect(
                    old(self).node_set(),
                )
                &&& forall|q: Seq<char>|
                    q != from@ ==> final(self).succ(q) == old(self).succ(q)
            },
    {
        let idx = self.find_idx(from);
        match idx {
            None => {},
            Some(i) => {
                let ghost g0 = *self;
                let mut keep: Vec<String> = Vec::new();
                let mut k: usize = 0;
                while k < imports.len()
                    invariant
                        *self == g0,
                        self.wf(),
                        k <= imports@.len(),
                        row_view(keep@).no_duplicates(),
                        forall|t: Seq<char>|
                            #[trigger] row_view(keep@).contains(t) <==> (row_view(
                                imports@.take(k as int),
                            ).contains(t) && self.node_set().contains(t)),
                    decreases imports@.len() - k,
                {
                    let imp = &imports[k];
                    let ghost pre = row_view(imports@.take(k as int));
                    let ghost x = imports@[k as int]@;
                    proof {
                        imports@.lemma_take_succ_push(k as int);
                        assert(row_view(imports@.take(k as int + 1)) =~= pre.push(x));
                    }
                    let ghost keep0 = row_view(keep@);
                    if self.contains(imp) && !vec_str_contains(&keep, imp) {
                        keep.push(imp.clone());
                        proof {
                            assert(row_view(keep@) =~= keep0.push(x));
                            assert(row_view(keep@).no_duplicates()) by {
                                assert forall|a: int, b: int|
                                    0 <= a < row_view(keep@).len() && 0 <= b < row_view(
                                        keep@,
                                    ).len() && a != b implies row_view(keep@)[a] != row_view(
                                    keep@,
                                )[b] by {
                                    if a == keep0.len() && row_view(keep@)[b] == x {
                                        assert(keep0[b] == x);
                                        assert(keep0.contains(x));
                                    }
                                    if b == keep0.len() && row_view(keep@)[a] == x {
                                        assert(keep0[a] == x);
                                        assert(keep0.contains(x));
                                    }
                                };
                            }
                            assert forall|t: Seq<char>|
                                #[trigger] row_view(keep@).contains(t) <==> (row_view(
                                imports@.take(k as int + 1),
                            ).contains(t) && self.node_set().contains(t)) by {
                                lemma_seq_contains_after_push(pre, x, t);
                                lemma_seq_contains_after_push(keep0, x, t);
                                assert(row_view(keep@).contains(t) <==> keep0.push(x).contains(
                                    t,
                                ));
                                assert(row_view(imports@.take(k as int + 1)).contains(t)
                                    <==> pre.push(x).contains(t));
                            };
                        }
                    } else {
                        proof {
                            assert forall|t: Seq<char>|
                                #[trigger] row_view(keep@).contains(t) <==> (row_view(
                                imports@.take(k as int + 1),
                            ).contains(t) && self.node_set().contains(t)) by {
                                lemma_seq_contains_after_push(pre, x, t);
                                assert(row_view(imports@.take(k as int + 1)).contains(t)
                                    <==> pre.push(x).contains(t));
                            };
                        }
                    }
                    k += 1;
                }
                proof {
                    assert(imports@.take(imports@.len() as int) =~= imports@);
                }
                self.rows.set(i, keep);
                proof {
                    assert(self.node_set() == g0.node_set());
                    assert(self.wf()) by {
                        assert forall|j: int|
                            alive_at(self.nodes@, self.alive@, j) implies self.row_ok(j) by {
                            if j != i as int {
                                assert(g0.row_ok(j));
                                assert(self.rows@[j] == g0.rows@[j]);
                            } else {
                                assert(forall|t: Seq<char>|
                                    #[trigger] row_view(self.rows@[j]@).contains(t)
                                        ==> self.node_set().contains(t));
                                assert(forall|kk: int|
                                    0 <= kk < self.rows@[j]@.len() ==> row_view(
                                        self.rows@[j]@,
                                    ).contains(#[trigger] row_view(self.rows@[j]@)[kk]));
                            }
                        };
                    }
                    assert(self.succ(from@) =~= row_view(imports@).to_set().intersect(
                        g0.node_set(),
                    )) by {
                        assert(self.has_node(from@));
                        assert(self.slot_of(from@) == i as int);
                        assert(forall|t: Seq<char>|
                            #[trigger] row_view(self.rows@[i as int]@).contains(t) <==> (row_view(
                                imports@,
                            ).contains(t) && g0.node_set().contains(t)));
                    }
                    assert forall|q: Seq<char>| q != from@ implies self.succ(q) == g0.succ(
                        q,
                    ) by {
                        lemma_succ_one_unchanged(g0, *self, q, i as int);
                    };
                }
            },
        }
    }

    /// All files that directly import `path`: the in-neighbors of `path`.
    pub fn get_dependents(&self, path: &String) -> (r: Vec<String>)
        requires
            self.wf(),
        ensures
            row_view(r@).to_set() == self.dependents_of(path@),
            row_view(r@).no_duplicates(),
    {
        let mut out: Vec<String> = Vec::new();
        let mut i: usize = 0;
        while i < self.nodes.len()
            invariant
                self.wf(),
                i <= self.nodes@.len(),
                row_view(out@).no_duplicates(),
                forall|t: Seq<char>|
                    #[trigger] row_view(out@).contains(t) <==> exists|j: int|
                        0 <= j < i && alive_at(self.nodes@, self.alive@, j) && node_path(
                            #[trigger] self.nodes@[j],
                        ) == t && row_view(self.rows@[j]@).contains(path@),
            decreases self.nodes@.len() - i,
        {
            if self.alive[i] {
                if vec_str_contains(&self.rows[i], path) {
                    let p = match &self.nodes[i] {
                        GraphNode::Module(p) => p.clone(),
                    };
                    let ghost out0 = row_view(out@);
                    proof {
                        assert(!out0.contains(p@)) by {
                            if out0.contains(p@) {
                                let j = choose|j: int|
                                    0 <= j < i && alive_at(self.nodes@, self.alive@, j)
                                        && node_path(#[trigger] self.nodes@[j]) == p@ && row_view(
                                        self.rows@[j]@,
                                    ).contains(path@);
                                assert(node_path(self.nodes@[j]) == node_path(
                                    self.nodes@[i as int],
                                ));
                            }
                        }
                    }
                    out.push(p);
                    proof {
                        let x = node_path(self.nodes@[i as int]);
                        assert(row_view(out@) =~= out0.push(x));
                        assert(row_view(out@).no_duplicates()) by {
                            assert forall|a: int, b: int|
                                0 <= a < row_view(out@).len() && 0 <= b < row_view(out@).len()
                                    && a != b implies row_view(out@)[a] != row_view(out@)[b] by {
                                if a == out0.len() && row_view(out@)[b] == x {
                                    assert(out0[b] == x);
                                    assert(out0.contains(x));
                                }
                                if b == out0.len() && row_view(out@)[a] == x {
                                    assert(out0[a] == x);
                                    assert(out0.contains(x));
                                }
                            };
                        }
                        assert forall|t: Seq<char>|
                            #[trigger] row_view(out@).contains(t) implies exists|j: int|
                            0 <= j < i + 1 && alive_at(self.nodes@, self.alive@, j) && node_path(
                                #[trigger] self.nodes@[j],
                            ) == t && row_view(self.rows@[j]@).contains(path@) by {
                            lemma_seq_contains_after_push(out0, x, t);
                            if t == x {
                                assert(alive_at(self.nodes@, self.alive@, i as int) && node_path(
                                    self.nodes@[i as int],
                                ) == t && row_view(self.rows@[i as int]@).contains(path@));
                            } else {
                                assert(out0.contains(t));
                            }
                        };
                        assert forall|j: int|
                            0 <= j < i + 1 && alive_at(self.nodes@, self.alive@, j) && row_view(
                                self.rows@[j]@,
                            ).contains(path@) implies row_view(out@).contains(node_path(
                            #[trigger] self.nodes@[j],
                        )) by {
                            let t = node_path(self.nodes@[j]);
                            lemma_seq_contains_after_push(out0, x, t);
                            if j != i as int {
                                assert(out0.contains(t));
                            }
                        };
                    }
                }
            }
            i += 1;
        }
        proof {
            assert(row_view(out@).to_set() =~= self.dependents_of(path@)) by {
                assert forall|t: Seq<char>| #[trigger] row_view(out@).contains(t) implies self.dependents_of(
                    path@,
                ).contains(t) by {
                    let j = choose|j: int|
                        0 <= j < self.nodes@.len() && alive_at(self.nodes@, self.alive@, j)
                            && node_path(#[trigger] self.nodes@[j]) == t && row_view(
                            self.rows@[j]@,
                        ).contains(path@);
                    assert(self.node_set().contains(t));
                    assert(self.slot_of(t) == j);
                    assert(self.succ(t).contains(path@));
                };
                assert forall|t: Seq<char>| self.dependents_of(path@).contains(t) implies row_view(
                    out@,
                ).contains(t) by {
                    let j = self.slot_of(t);
                    assert(alive_at(self.nodes@, self.alive@, j) && node_path(self.nodes@[j])
                        == t);
                    assert(row_view(self.rows@[j]@).contains(path@));
                };
            }
        }
        out
    }

    /// Remove a file and every edge into or out of it.
    pub fn remove_file(&mut self, path: &String)
        requires
            old(self).wf(),
        ensures
            final(self).wf(),
            final(self).overflow_latched() == old(self).overflow_latched(),
            !old(self).has_node(path@) ==> *final(self) == *old(self),
            old(self).has_node(path@) ==> {
                &&& final(self).node_set() == old(self).node_set().remove(path@)
                &&& final(self).succ(path@) == Set::<Seq<char>>::empty()
                &&& forall|q: Seq<char>|
                    q != path@ ==> final(self).succ(q) == old(self).succ(q).remove(path@)
            },
    {
        let idx = self.find_idx(path);
        match idx {
            None => {},
            Some(i) => {
                let ghost g0 = *self;
                proof {
                    lemma_count_alive_update(self.alive@, i as int, false);
                    lemma_count_alive_pos(self.alive@, i as int);
                }
                self.alive.set(i, false);
                self.rows.set(i, Vec::new());
                self.n_alive = self.n_alive - 1;
                let ghost gm = *self;
                proof {
                    assert(gm.node_set() =~= g0.node_set().remove(path@)) by {
                        assert forall|q: Seq<char>| #[trigger] gm.node_set().contains(q) implies g0.node_set().remove(
                            path@,
                        ).contains(q) by {
                            let j = choose|j: int|
                                alive_at(gm.nodes@, gm.alive@, j) && node_path(
                                    #[trigger] gm.nodes@[j],
                                ) == q;
                            assert(j != i as int);
                            assert(alive_at(g0.nodes@, g0.alive@, j));
                            assert(q != path@) by {
                                if q == path@ {
                                    assert(node_path(g0.nodes@[j]) == node_path(
                                        g0.nodes@[i as int],
                                    ));
                                }
                            }
                        };
                        assert forall|q: Seq<char>| g0.node_set().remove(path@).contains(
                            q,
                        ) implies #[trigger] gm.node_set().contains(q) by {
                            let j = choose|j: int|
                                alive_at(g0.nodes@, g0.alive@, j) && node_path(
                                    #[trigger] g0.nodes@[j],
                                ) == q;
                            assert(j != i as int);
                            assert(alive_at(gm.nodes@, gm.alive@, j));
                        };
                    }
                }
                let mut j: usize = 0;
                while j < self.rows.len()
                    invariant
                        0 <= i < gm.nodes@.len(),
                        j <= self.rows@.len(),
                        self.nodes@ == gm.nodes@,
                        self.alive@ == gm.alive@,
                        self.n_alive == gm.n_alive,
                        self.overflow == gm.overflow,
                        self.rows@.len() == gm.rows@.len(),
                        gm.wf_except_rows(),
                        gm.rows@[i as int]@.len() == 0,
                        forall|k: int|
                            0 <= k < gm.nodes@.len() && k != i as int ==> gm.rows@[k]
                                == g0.rows@[k],
                        forall|k: int| j <= k < self.rows@.len() ==> self.rows@[k] == gm.rows@[k],
                        forall|k: int|
                            0 <= k < j ==> (row_view(gm.rows@[k]@).no_duplicates() ==> row_view(
                                #[trigger] self.rows@[k]@,
                            ).no_duplicates()),
                        forall|k: int, t: Seq<char>|
                            #![trigger row_view(self.rows@[k]@).contains(t)]
                            #![trigger row_view(gm.rows@[k]@).contains(t)]
                            0 <= k < j ==> (row_view(self.rows@[k]@).contains(t) <==> (row_view(
                                gm.rows@[k]@,
                            ).contains(t) && t != path@)),
                    decreases self.rows@.len() - j,
                {
                    let newrow = vec_str_remove(&self.rows[j], path);
                    self.rows.set(j, newrow);
                    j += 1;
                }
                proof {
                    assert(self.wf()) by {
                        assert forall|k: int|
                            alive_at(self.nodes@, self.alive@, k) implies self.row_ok(k) by {
                            assert(k != i as int);
                            assert(g0.row_ok(k));
                            assert(row_view(gm.rows@[k]@).no_duplicates());
                            assert(row_view(self.rows@[k]@).no_duplicates());
                            assert forall|kk: int|
                                0 <= kk < self.rows@[k]@.len() implies self.node_set().contains(
                                #[trigger] row_view(self.rows@[k]@)[kk],
                            ) by {
                                let t = row_view(self.rows@[k]@)[kk];
                                assert(row_view(self.rows@[k]@).contains(t));
                                assert(row_view(gm.rows@[k]@).contains(t) && t != path@);
                                let u = choose|u: int|
                                    0 <= u < row_view(gm.rows@[k]@).len() && row_view(
                                        gm.rows@[k]@,
                                    )[u] == t;
                                assert(g0.node_set().contains(t));
                                assert(self.node_set().contains(t)) by {
                                    assert(self.node_set() == gm.node_set());
                                }
                            };
                        };
                        assert(forall|k: int|
                            0 <= k < self.nodes@.len() && !self.alive@[k] ==> (
                            #[trigger] self.rows@[k]@).len() == 0) by {
                            assert forall|k: int|
                                0 <= k < self.nodes@.len() && !self.alive@[k] implies (
                            #[trigger] self.rows@[k]@).len() == 0 by {
                                assert(row_view(gm.rows@[k]@).len() == 0);
                                if self.rows@[k]@.len() > 0 {
                                    let t = row_view(self.rows@[k]@)[0];
                                    assert(row_view(self.rows@[k]@).contains(t));
                                    assert(row_view(gm.rows@[k]@).contains(t));
                                }
                            };
                        }
                    }
                    assert(!self.has_node(path@));
                    assert(self.succ(path@) =~= Set::<Seq<char>>::empty());
                    assert forall|q: Seq<char>| q != path@ implies self.succ(q) == g0.succ(
                        q,
                    ).remove(path@) by {
                        if self.has_node(q) {
                            let jj = self.slot_of(q);
                            assert(alive_at(self.nodes@, self.alive@, jj) && node_path(
                                self.nodes@[jj],
                            ) == q);
                            assert(jj != i as int);
                            assert(alive_at(g0.nodes@, g0.alive@, jj));
                            assert(g0.node_set().contains(q));
                            assert(g0.slot_of(q) == jj);
                            assert(self.succ(q) =~= g0.succ(q).remove(path@)) by {
                                assert(gm.rows@[jj] == g0.rows@[jj]);
                                assert(forall|t: Seq<char>|
                                    #[trigger] row_view(self.rows@[jj]@).contains(t) <==> (
                                    row_view(g0.rows@[jj]@).contains(t) && t != path@));
                            }
                        } else {
                            assert(!g0.node_set().contains(q)) by {
                                if g0.node_set().contains(q) {
                                    let jj = choose|jj: int|
                                        alive_at(g0.nodes@, g0.alive@, jj) && node_path(
                                            #[trigger] g0.nodes@[jj],
                                        ) == q;
                                    assert(jj != i as int);
                                    assert(alive_at(self.nodes@, self.alive@, jj));
                                    assert(self.node_set().contains(q));
                                }
                            }
                            assert(self.succ(q) =~= Set::<Seq<char>>::empty());
                            assert(g0.succ(q).remove(path@) =~= Set::<Seq<char>>::empty());
                        }
                    };
                }
            },
        }
    }

    /// Get the current edge count.
    pub fn edge_count(&self) -> (r: usize)
        requires
            self.wf(),
        ensures
            r == self.edge_total(),
    {
        let mut total: usize = 0;
        let mut i: usize = 0;
        while i < self.rows.len()
            invariant
                self.wf(),
                i <= self.rows@.len(),
                total == row_len_sum(self.rows@, i as int),
                total <= MAX_GRAPH_NODES * count_alive(self.alive@.take(i as int)),
            decreases self.rows@.len() - i,
        {
            proof {
                lemma_count_alive_take(self.alive@, i as int);
                lemma_count_alive_take_le(self.alive@, i + 1);
                if alive_at(self.nodes@, self.alive@, i as int) {
                    self.lemma_row_bounded(i as int);
                } else {
                    assert(self.rows@[i as int]@.len() == 0);
                }
            }
            total = total + self.rows[i].len();
            i += 1;
        }
        proof {
            assert(self.alive@.take(self.rows@.len() as int) =~= self.alive@);
        }
        total
    }

    /// A path without a node has no dependents.
    pub proof fn lemma_dependents_absent(self, p: Seq<char>)
        requires
            self.wf(),
            !self.has_node(p),
        ensures
            self.dependents_of(p) == Set::<Seq<char>>::empty(),
    {
        assert forall|q: Seq<char>| !(#[trigger] self.dependents_of(p).contains(q)) by {
            if self.node_set().contains(q) && self.succ(q).contains(p) {
                let j = self.slot_of(q);
                assert(alive_at(self.nodes@, self.alive@, j) && node_path(self.nodes@[j]) == q);
                assert(self.row_ok(j));
                let k = choose|k: int|
                    0 <= k < row_view(self.rows@[j]@).len() && #[trigger] row_view(
                        self.rows@[j]@,
                    )[k] == p;
                assert(self.node_set().contains(row_view(self.rows@[j]@)[k]));
            }
        };
        assert(self.dependents_of(p) =~= Set::<Seq<char>>::empty());
    }

    /// A path without a node has no outgoing edges.
    pub proof fn lemma_succ_absent(self, p: Seq<char>)
        requires
            !self.has_node(p),
        ensures
            self.succ(p) == Set::<Seq<char>>::empty(),
    {
    }

    /// The node set is finite; its size never passes the node bound.
    pub proof fn lemma_node_set_finite(self)
        requires
            self.wf(),
        ensures
            self.node_set().finite(),
            self.node_set().len() <= MAX_GRAPH_NODES,
    {
        lemma_node_set_card(self.nodes@, self.alive@, self.nodes@.len() as int);
        assert(node_set_upto(self.nodes@, self.alive@, self.nodes@.len() as int)
            =~= self.node_set());
        assert(self.alive@.take(self.alive@.len() as int) =~= self.alive@);
    }

    proof fn lemma_row_bounded(self, i: int)
        requires
            self.wf(),
            alive_at(self.nodes@, self.alive@, i),
        ensures
            self.rows@[i]@.len() <= MAX_GRAPH_NODES,
    {
        let row = row_view(self.rows@[i]@);
        assert(self.row_ok(i));
        row.unique_seq_to_set();
        lemma_node_set_card(self.nodes@, self.alive@, self.nodes@.len() as int);
        assert(node_set_upto(self.nodes@, self.alive@, self.nodes@.len() as int)
            =~= self.node_set());
        assert(self.alive@.take(self.alive@.len() as int) =~= self.alive@);
        assert(row.to_set().subset_of(self.node_set())) by {
            assert forall|t: Seq<char>| row.to_set().contains(t) implies self.node_set().contains(
                t,
            ) by {
                let k = choose|k: int| 0 <= k < row.len() && row[k] == t;
                assert(self.node_set().contains(row_view(self.rows@[i]@)[k]));
            };
        }
        lemma_len_subset(row.to_set(), self.node_set());
    }

    /// Well-formedness of everything except the edge rows' contents.
    closed spec fn wf_except_rows(self) -> bool {
        &&& self.alive@.len() == self.nodes@.len()
        &&& self.rows@.len() == self.nodes@.len()
        &&& self.n_alive == count_alive(self.alive@)
        &&& self.n_alive <= MAX_GRAPH_NODES
        &&& forall|i: int, j: int|
            alive_at(self.nodes@, self.alive@, i) && alive_at(self.nodes@, self.alive@, j) && i
                != j ==> node_path(#[trigger] self.nodes@[i]) != node_path(
                #[trigger] self.nodes@[j],
            )
    }
}

pub(crate) fn vec_str_contains(v: &Vec<String>, s: &String) -> (r: bool)
    ensures
        r == row_view(v@).contains(s@),
{
    let mut j: usize = 0;
    while j < v.len()
        invariant
            j <= v@.len(),
            forall|t: int| 0 <= t < j ==> (#[trigger] v@[t])@ != s@,
        decreases v@.len() - j,
    {
        if v[j].eq(s) {
            proof {
                assert(row_view(v@)[j as int] == s@);
            }
            return true;
        }
        j += 1;
    }
    proof {
        assert(forall|t: int| 0 <= t < row_view(v@).len() ==> row_view(v@)[t] != s@);
    }
    false
}

fn vec_str_remove(v: &Vec<String>, s: &String) -> (r: Vec<String>)
    ensures
        forall|t: Seq<char>|
            #[trigger] row_view(r@).contains(t) <==> (row_view(v@).contains(t) && t != s@),
        row_view(v@).no_duplicates() ==> row_view(r@).no_duplicates(),
{
    let mut out: Vec<String> = Vec::new();
    let mut j: usize = 0;
    while j < v.len()
        invariant
            j <= v@.len(),
            forall|t: Seq<char>|
                #[trigger] row_view(out@).contains(t) <==> (row_view(v@.take(j as int)).contains(
                    t,
                ) && t != s@),
            row_view(v@).no_duplicates() ==> row_view(out@).no_duplicates(),
            forall|u: int|
                0 <= u < out@.len() ==> exists|w: int|
                    0 <= w < j && (#[trigger] out@[u])@ == v@[w]@,
        decreases v@.len() - j,
    {
        let ghost pre = row_view(v@.take(j as int));
        let ghost x = v@[j as int]@;
        proof {
            v@.lemma_take_succ_push(j as int);
            assert(row_view(v@.take(j as int + 1)) =~= pre.push(x));
        }
        let ghost out0 = row_view(out@);
        if !v[j].eq(s) {
            proof {
                if row_view(v@).no_duplicates() {
                    assert(!out0.contains(x)) by {
                        if out0.contains(x) {
                            let u = choose|u: int| 0 <= u < out0.len() && out0[u] == x;
                            assert(out@[u]@ == x);
                            let w = choose|w: int| 0 <= w < j && out@[u]@ == v@[w]@;
                            assert(row_view(v@)[w] == row_view(v@)[j as int]);
                        }
                    }
                }
            }
            out.push(v[j].clone());
            proof {
                assert(row_view(out@) =~= out0.push(x));
                if row_view(v@).no_duplicates() {
                    assert(row_view(out@).no_duplicates()) by {
                        assert forall|a: int, b: int|
                            0 <= a < row_view(out@).len() && 0 <= b < row_view(out@).len() && a
                                != b implies row_view(out@)[a] != row_view(out@)[b] by {
                            if a == out0.len() && row_view(out@)[b] == x {
                                assert(out0[b] == x);
                                assert(out0.contains(x));
                            }
                            if b == out0.len() && row_view(out@)[a] == x {
                                assert(out0[a] == x);
                                assert(out0.contains(x));
                            }
                        };
                    }
                }
                assert forall|t: Seq<char>|
                    #[trigger] row_view(out@).contains(t) <==> (row_view(
                    v@.take(j as int + 1),
                ).contains(t) && t != s@) by {
                    lemma_seq_contains_after_push(pre, x, t);
                    lemma_seq_contains_after_push(out0, x, t);
                    assert(row_view(out@).contains(t) <==> out0.push(x).contains(t));
                    assert(row_view(v@.take(j as int + 1)).contains(t) <==> pre.push(x).contains(
                        t,
                    ));
                };
                assert forall|u: int| 0 <= u < out@.len() implies exists|w: int|
                    0 <= w < j + 1 && (#[trigger] out@[u])@ == v@[w]@ by {
                    if u < out0.len() {
                        let w = choose|w: int| 0 <= w < j && out@.drop_last()[u]@ == v@[w]@;
                        assert(out@[u]@ == v@[w]@);
                    } else {
                        assert(out@[u]@ == v@[j as int]@);
                    }
                };
            }
        } else {
            proof {
                assert(x == s@);
                assert forall|t: Seq<char>|
                    #[trigger] row_view(out@).contains(t) <==> (row_view(
                    v@.take(j as int + 1),
                ).contains(t) && t != s@) by {
                    lemma_seq_contains_after_push(pre, x, t);
                    assert(row_view(v@.take(j as int + 1)).contains(t) <==> pre.push(x).contains(
                        t,
                    ));
                };
            }
        }
        j += 1;
    }
    proof {
        assert(v@.take(v@.len() as int) =~= v@);
    }
    out
}

proof fn lemma_count_alive_update(s: Seq<bool>, i: int, b: bool)
    requires
        0 <= i < s.len(),
    ensures
        count_alive(s.update(i, b)) == count_alive(s) - (if s[i] {
            1int
        } else {
            0int
        }) + (if b {
            1int
        } else {
            0int
        }),
    decreases s.len(),
{
    if i == s.len() - 1 {
        assert(s.update(i, b).drop_last() =~= s.drop_last());
        assert(s.update(i, b).last() == b);
    } else {
        assert(s.update(i, b).drop_last() =~= s.drop_last().update(i, b));
        lemma_count_alive_update(s.drop_last(), i, b);
    }
}

proof fn lemma_count_alive_pos(s: Seq<bool>, i: int)
    requires
        0 <= i < s.len(),
        s[i],
    ensures
        count_alive(s) >= 1,
    decreases s.len(),
{
    if i == s.len() - 1 {
    } else {
        lemma_count_alive_pos(s.drop_last(), i);
    }
}

proof fn lemma_count_alive_take_le(s: Seq<bool>, k: int)
    requires
        0 <= k <= s.len(),
    ensures
        count_alive(s.take(k)) <= count_alive(s),
    decreases s.len() - k,
{
    if k == s.len() {
        assert(s.take(k) =~= s);
    } else {
        lemma_count_alive_take(s, k);
        lemma_count_alive_take_le(s, k + 1);
    }
}

/// The set of live node paths among the first `k` slots.
pub open spec fn node_set_upto(nodes: Seq<GraphNode>, alive: Seq<bool>, k: int) -> Set<Seq<char>> {
    Set::new(
        |p: Seq<char>|
            exists|i: int|
                0 <= i < k && alive_at(nodes, alive, i) && node_path(#[trigger] nodes[i]) == p,
    )
}

/// Sum of the lengths of the first `k` edge rows.
pub open spec fn row_len_sum(rows: Seq<Vec<String>>, k: int) -> int
    decreases k,
{
    if k <= 0 {
        0
    } else {
        row_len_sum(rows, k - 1) + rows[k - 1]@.len()
    }
}

proof fn lemma_count_alive_take(alive: Seq<bool>, k: int)
    requires
        0 <= k < alive.len(),
    ensures
        count_alive(alive.take(k + 1)) == count_alive(alive.take(k)) + if alive[k] {
            1int
        } else {
            0int
        },
{
    assert(alive.take(k + 1).drop_last() =~= alive.take(k));
    assert(alive.take(k + 1).last() == alive[k]);
}

/// The set of live paths is finite and as large as the live count,
/// provided live paths are distinct.
proof fn lemma_node_set_card(nodes: Seq<GraphNode>, alive: Seq<bool>, k: int)
    requires
        alive.len() == nodes.len(),
        0 <= k <= nodes.len(),
        forall|i: int, j: int|
            alive_at(nodes, alive, i) && alive_at(nodes, alive, j) && i != j ==> node_path(
                #[trigger] nodes[i],
            ) != node_path(#[trigger] nodes[j]),
    ensures
        node_set_upto(nodes, alive, k).finite(),
        node_set_upto(nodes, alive, k).len() == count_alive(alive.take(k)),
    decreases k,
{
    if k == 0 {
        assert(node_set_upto(nodes, alive, 0) =~= Set::<Seq<char>>::empty());
        assert(alive.take(0) =~= Seq::<bool>::empty());
    } else {
        lemma_node_set_card(nodes, alive, k - 1);
        lemma_count_alive_take(alive, k - 1);
        if alive[k - 1] {
            let p = node_path(nodes[k - 1]);
            assert(node_set_upto(nodes, alive, k) =~= node_set_upto(nodes, alive, k - 1).insert(
                p,
            )) by {
                assert(alive_at(nodes, alive, k - 1));
            }
            assert(!node_set_upto(nodes, alive, k - 1).contains(p));
        } else {
            assert(node_set_upto(nodes, alive, k) =~= node_set_upto(nodes, alive, k - 1));
        }
    }
}

proof fn lemma_row_len_sum_push_empty(old_rows: Seq<Vec<String>>, new_rows: Seq<Vec<String>>)
    requires
        new_rows.len() == old_rows.len() + 1,
        forall|i: int| 0 <= i < old_rows.len() ==> new_rows[i] == old_rows[i],
        new_rows.last()@.len() == 0,
    ensures
        row_len_sum(new_rows, new_rows.len() as int) == row_len_sum(old_rows, old_rows.len() as int),
{
    lemma_row_len_sum_agree(old_rows, new_rows, old_rows.len() as int);
}

proof fn lemma_row_len_sum_agree(a: Seq<Vec<String>>, b: Seq<Vec<String>>, k: int)
    requires
        k <= a.len(),
        k <= b.len(),
        forall|i: int| 0 <= i < k ==> a[i] == b[i],
    ensures
        row_len_sum(a, k) == row_len_sum(b, k),
    decreases k,
{
    if k > 0 {
        lemma_row_len_sum_agree(a, b, k - 1);
    }
}

proof fn lemma_succ_one_unchanged(g1: DepGraph, g2: DepGraph, q: Seq<char>, skip: int)
    requires
        g1.node_set().contains(q) ==> g2.node_set().contains(q),
        g2.node_set().contains(q) ==> q != g2.path_of_slot(skip),
        forall|j: int|
            alive_at(g1.nodes_seq(), g1.alive_seq(), j) ==> j < g2.nodes_seq().len() && j
                < g2.alive_seq().len(),
        forall|j: int|
            alive_at(g2.nodes_seq(), g2.alive_seq(), j) && j != skip ==> alive_at(
                g1.nodes_seq(),
                g1.alive_seq(),
                j,
            ) && g1.nodes_seq()[j] == g2.nodes_seq()[j] && g1.rows_seq()[j] == g2.rows_seq()[j],
        forall|j: int|
            alive_at(g1.nodes_seq(), g1.alive_seq(), j) ==> alive_at(
                g2.nodes_seq(),
                g2.alive_seq(),
                j,
            ) && g1.nodes_seq()[j] == g2.nodes_seq()[j],
        forall|i: int, j: int|
            alive_at(g2.nodes_seq(), g2.alive_seq(), i) && alive_at(
                g2.nodes_seq(),
                g2.alive_seq(),
                j,
            ) && i != j ==> node_path(g2.nodes_seq()[i]) != node_path(g2.nodes_seq()[j]),
        !g1.node_set().contains(q) ==> !g2.node_set().contains(q),
    ensures
        g1.succ(q) == g2.succ(q),
{
    if g2.node_set().contains(q) {
        let j2 = g2.slot_of(q);
        assert(alive_at(g2.nodes_seq(), g2.alive_seq(), j2) && node_path(g2.nodes_seq()[j2]) == q);
        assert(j2 != skip);
        assert(alive_at(g1.nodes_seq(), g1.alive_seq(), j2));
        assert(g1.node_set().contains(q)) by {
            assert(node_path(g1.nodes_seq()[j2]) == q);
        }
        let j1 = g1.slot_of(q);
        assert(alive_at(g1.nodes_seq(), g1.alive_seq(), j1) && node_path(g1.nodes_seq()[j1]) == q);
        assert(alive_at(g2.nodes_seq(), g2.alive_seq(), j1));
        assert(node_path(g2.nodes_seq()[j1]) == q);
        assert(j1 == j2);
        assert(g1.rows_seq()[j1] == g2.rows_seq()[j2]);
    } else {
        assert(!g1.node_set().contains(q));
        assert(g1.succ(q) =~= Set::<Seq<char>>::empty());
        assert(g2.succ(q) =~= Set::<Seq<char>>::empty());
    }
}

impl DepGraph {
    /// The node table, for stating lemmas.
    pub closed spec fn nodes_seq(self) -> Seq<GraphNode> {
        self.nodes@
    }

    /// The liveness table, for stating lemmas.
    pub closed spec fn alive_seq(self) -> Seq<bool> {
        self.alive@
    }

    /// The edge rows, for stating lemmas.
    pub closed spec fn rows_seq(self) -> Seq<Vec<String>> {
        self.rows@
    }

    /// The path held in one slot.
    pub closed spec fn path_of_slot(self, i: int) -> Seq<char> {
        node_path(self.nodes@[i])
    }
}

} // verus!
