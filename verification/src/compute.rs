//! Affected-file computation: reverse BFS over the dependency graph.
//!
//! A file is affected when it can reach a dirty file along import edges.
//! The breadth-first search seeds with the dirty files that are graph
//! nodes and expands along reverse edges; the result is exactly the set of
//! files from which some dirty file is reachable, and the visited-set
//! discipline makes the walk terminate even on cyclic graphs.

use vstd::prelude::*;

use crate::graph::row_view;
use crate::graph::vec_str_contains;
use crate::graph::DepGraph;
use vstd::seq_lib::lemma_seq_contains_after_push;

verus! {

/// A walk through the graph: every element is a node and consecutive
/// elements are linked by import edges.
pub open spec fn is_graph_path(g: DepGraph, p: Seq<Seq<char>>) -> bool {
    &&& p.len() >= 1
    &&& forall|i: int| 0 <= i < p.len() ==> g.node_set().contains(#[trigger] p[i])
    &&& forall|i: int| 0 <= i < p.len() - 1 ==> g.succ(#[trigger] p[i]).contains(p[i + 1])
}

/// `v` is affected: some import path leads from `v` to a dirty node.
pub open spec fn in_closure(g: DepGraph, dirty: Set<Seq<char>>, v: Seq<char>) -> bool {
    exists|p: Seq<Seq<char>>|
        #[trigger] is_graph_path(g, p) && p.first() == v && dirty.contains(p.last())
}

/// A dirty node is affected, by the one-element path.
proof fn lemma_closure_base(g: DepGraph, dirty: Set<Seq<char>>, v: Seq<char>)
    requires
        g.node_set().contains(v),
        dirty.contains(v),
    ensures
        in_closure(g, dirty, v),
{
    let p = seq![v];
    assert(is_graph_path(g, p));
    assert(p.first() == v && dirty.contains(p.last()));
}

/// An importer of an affected node is affected: prepend it to the path.
proof fn lemma_closure_step(g: DepGraph, dirty: Set<Seq<char>>, d: Seq<char>, v: Seq<char>)
    requires
        g.node_set().contains(d),
        g.succ(d).contains(v),
        in_closure(g, dirty, v),
    ensures
        in_closure(g, dirty, d),
{
    let p = choose|p: Seq<Seq<char>>|
        #[trigger] is_graph_path(g, p) && p.first() == v && dirty.contains(p.last());
    let q = seq![d] + p;
    assert(is_graph_path(g, q)) by {
        assert(forall|i: int| 0 <= i < p.len() ==> q[i + 1] == p[i]);
        assert(q[0] == d && q[1] == v);
        assert(forall|i: int| 0 <= i < q.len() ==> g.node_set().contains(#[trigger] q[i]));
        assert forall|i: int| 0 <= i < q.len() - 1 implies g.succ(#[trigger] q[i]).contains(
            q[i + 1],
        ) by {
            if i > 0 {
                assert(q[i] == p[i - 1]);
                assert(g.succ(p[i - 1]).contains(p[i]));
            }
        };
    }
    assert(q.first() == d && dirty.contains(q.last()));
}

/// Any set that holds the dirty nodes and is closed under taking importers
/// holds the whole closure.
proof fn lemma_closure_complete(
    g: DepGraph,
    dirty: Set<Seq<char>>,
    r: Set<Seq<char>>,
    p: Seq<Seq<char>>,
)
    requires
        forall|u: Seq<char>|
            dirty.contains(u) && g.node_set().contains(u) ==> #[trigger] r.contains(u),
        forall|d: Seq<char>, v: Seq<char>|
            g.node_set().contains(d) && #[trigger] g.succ(d).contains(v) && r.contains(v)
                ==> r.contains(d),
        is_graph_path(g, p),
        dirty.contains(p.last()),
    ensures
        r.contains(p.first()),
    decreases p.len(),
{
    if p.len() == 1 {
        assert(p.first() == p.last());
    } else {
        let rest = p.drop_first();
        assert(is_graph_path(g, rest)) by {
            assert(forall|i: int| 0 <= i < rest.len() ==> rest[i] == p[i + 1]);
            assert forall|i: int| 0 <= i < rest.len() - 1 implies g.succ(
                #[trigger] rest[i],
            ).contains(rest[i + 1]) by {
                assert(rest[i] == p[i + 1]);
                assert(g.succ(p[i + 1]).contains(p[i + 2]));
            };
        }
        assert(rest.last() == p.last());
        lemma_closure_complete(g, dirty, r, rest);
        assert(r.contains(p[1]));
        assert(g.succ(p[0]).contains(p[1]));
    }
}

/// Compute all files affected by the dirty set: the dirty files that are
/// in the graph, plus every file that transitively imports one of them.
///
/// The result holds exactly the nodes from which some dirty node is
/// reachable along import edges, once each.
pub fn compute_affected(dirty: &Vec<String>, graph: &DepGraph) -> (r: Vec<String>)
    requires
        graph.wf(),
    ensures
        forall|v: Seq<char>|
            #[trigger] row_view(r@).contains(v) <==> in_closure(
                *graph,
                row_view(dirty@).to_set(),
                v,
            ),
        row_view(r@).no_duplicates(),
{
    let ghost dset = row_view(dirty@).to_set();
    let mut result: Vec<String> = Vec::new();

    let mut k: usize = 0;
    while k < dirty.len()
        invariant
            graph.wf(),
            k <= dirty@.len(),
            row_view(result@).no_duplicates(),
            dset == row_view(dirty@).to_set(),
            forall|v: Seq<char>|
                #[trigger] row_view(result@).contains(v) ==> in_closure(*graph, dset, v)
                    && graph.node_set().contains(v),
            forall|j: int|
                0 <= j < k && graph.node_set().contains(#[trigger] row_view(dirty@)[j])
                    ==> row_view(result@).contains(row_view(dirty@)[j]),
        decreases dirty@.len() - k,
    {
        let d = &dirty[k];
        let ghost r0 = row_view(result@);
        let ghost x = dirty@[k as int]@;
        if graph.contains(d) && !vec_str_contains(&result, d) {
            result.push(d.clone());
            proof {
                assert(row_view(result@) =~= r0.push(x));
                assert(dset.contains(x)) by {
                    assert(row_view(dirty@)[k as int] == x);
                }
                lemma_closure_base(*graph, dset, x);
                assert(row_view(result@).no_duplicates()) by {
                    assert forall|a: int, b: int|
                        0 <= a < row_view(result@).len() && 0 <= b < row_view(result@).len() && a
                            != b implies row_view(result@)[a] != row_view(result@)[b] by {
                        if a == r0.len() && row_view(result@)[b] == x {
                            assert(r0[b] == x);
                            assert(r0.contains(x));
                        }
                        if b == r0.len() && row_view(result@)[a] == x {
                            assert(r0[a] == x);
                            assert(r0.contains(x));
                        }
                    };
                }
                assert forall|v: Seq<char>| #[trigger] row_view(result@).contains(v) implies in_closure(
                    *graph,
                    dset,
                    v,
                ) && graph.node_set().contains(v) by {
                    lemma_seq_contains_after_push(r0, x, v);
                };
                assert forall|j: int|
                    0 <= j < k + 1 && graph.node_set().contains(
                        #[trigger] row_view(dirty@)[j],
                    ) implies row_view(result@).contains(row_view(dirty@)[j]) by {
                    lemma_seq_contains_after_push(r0, x, row_view(dirty@)[j]);
                };
            }
        } else {
            proof {
                assert forall|j: int|
                    0 <= j < k + 1 && graph.node_set().contains(
                        #[trigger] row_view(dirty@)[j],
                    ) implies row_view(result@).contains(row_view(dirty@)[j]) by {
                    if j == k as int {
                        assert(row_view(dirty@)[j] == x);
                    }
                };
            }
        }
        k += 1;
    }
    proof {
        assert forall|u: Seq<char>|
            dset.contains(u) && graph.node_set().contains(u) implies row_view(result@).contains(
            u,
        ) by {
            assert(row_view(dirty@).contains(u));
            let j = choose|j: int|
                0 <= j < row_view(dirty@).len() && #[trigger] row_view(dirty@)[j] == u;
        };
        graph.lemma_node_set_finite();
        row_view(result@).unique_seq_to_set();
        assert(row_view(result@).to_set().subset_of(graph.node_set())) by {
            assert forall|v: Seq<char>|
                row_view(result@).to_set().contains(v) implies graph.node_set().contains(v) by {
                assert(row_view(result@).contains(v));
            };
        }
        vstd::set_lib::lemma_len_subset(row_view(result@).to_set(), graph.node_set());
    }

    let mut i: usize = 0;
    while i < result.len()
        invariant
            graph.wf(),
            i <= result@.len(),
            row_view(result@).no_duplicates(),
            result@.len() <= graph.node_set().len(),
            graph.node_set().finite(),
            dset == row_view(dirty@).to_set(),
            forall|v: Seq<char>|
                #[trigger] row_view(result@).contains(v) ==> in_closure(*graph, dset, v)
                    && graph.node_set().contains(v),
            forall|u: Seq<char>|
                dset.contains(u) && graph.node_set().contains(u) ==> #[trigger] row_view(
                    result@,
                ).contains(u),
            forall|j: int, d: Seq<char>|
                #![trigger graph.succ(d).contains(row_view(result@)[j])]
                0 <= j < i && graph.node_set().contains(d) && graph.succ(d).contains(
                    row_view(result@)[j],
                ) ==> row_view(result@).contains(d),
        decreases graph.node_set().len() - i,
    {
        let current = result[i].clone();
        let deps = graph.get_dependents(&current);
        let ghost snapshot = row_view(result@);
        let mut m: usize = 0;
        while m < deps.len()
            invariant
                graph.wf(),
                m <= deps@.len(),
                i < result@.len(),
                row_view(result@).no_duplicates(),
                result@.len() <= graph.node_set().len(),
                graph.node_set().finite(),
                dset == row_view(dirty@).to_set(),
                current@ == row_view(result@)[i as int],
                row_view(deps@).to_set() == graph.dependents_of(current@),
                forall|v: Seq<char>|
                    #[trigger] snapshot.contains(v) ==> row_view(result@).contains(v),
                forall|v: Seq<char>|
                    #[trigger] row_view(result@).contains(v) ==> in_closure(*graph, dset, v)
                        && graph.node_set().contains(v),
                forall|u: Seq<char>|
                    dset.contains(u) && graph.node_set().contains(u) ==> #[trigger] row_view(
                        result@,
                    ).contains(u),
                forall|j: int, d: Seq<char>|
                    #![trigger graph.succ(d).contains(row_view(result@)[j])]
                    0 <= j < i && graph.node_set().contains(d) && graph.succ(d).contains(
                        row_view(result@)[j],
                    ) ==> row_view(result@).contains(d),
                forall|n: int|
                    0 <= n < m ==> row_view(result@).contains(#[trigger] row_view(deps@)[n]),
            decreases deps@.len() - m,
        {
            let dep = &deps[m];
            let ghost r0 = row_view(result@);
            let ghost x = deps@[m as int]@;
            proof {
                assert(row_view(deps@)[m as int] == x);
                assert(row_view(deps@).contains(x));
                assert(row_view(deps@).to_set().contains(x));
                assert(graph.dependents_of(current@).contains(x));
                assert(row_view(result@).contains(current@)) by {
                    assert(row_view(result@)[i as int] == current@);
                }
                lemma_closure_step(*graph, dset, x, current@);
            }
            let already = vec_str_contains(&result, dep);
            if !already {
                result.push(dep.clone());
                proof {
                    assert(row_view(result@) =~= r0.push(x));
                    assert(row_view(result@).no_duplicates()) by {
                        assert forall|a: int, b: int|
                            0 <= a < row_view(result@).len() && 0 <= b < row_view(result@).len()
                                && a != b implies row_view(result@)[a] != row_view(result@)[b] by {
                            if a == r0.len() && row_view(result@)[b] == x {
                                assert(r0[b] == x);
                                assert(r0.contains(x));
                            }
                            if b == r0.len() && row_view(result@)[a] == x {
                                assert(r0[a] == x);
                                assert(r0.contains(x));
                            }
                        };
                    }
                    assert forall|v: Seq<char>| #[trigger] row_view(result@).contains(
                        v,
                    ) implies in_closure(*graph, dset, v) && graph.node_set().contains(v) by {
                        lemma_seq_contains_after_push(r0, x, v);
                    };
                    assert forall|v: Seq<char>| #[trigger] r0.contains(v) implies row_view(
                        result@,
                    ).contains(v) by {
                        lemma_seq_contains_after_push(r0, x, v);
                    };
                    assert forall|u: Seq<char>|
                        dset.contains(u) && graph.node_set().contains(u) implies #[trigger] row_view(
                        result@,
                    ).contains(u) by {
                        assert(r0.contains(u));
                        lemma_seq_contains_after_push(r0, x, u);
                    };
                    assert forall|n: int| 0 <= n < m + 1 implies row_view(result@).contains(
                        #[trigger] row_view(deps@)[n],
                    ) by {
                        if n < m {
                            assert(r0.contains(row_view(deps@)[n]));
                            lemma_seq_contains_after_push(r0, x, row_view(deps@)[n]);
                        } else {
                            assert(row_view(result@).last() == x);
                        }
                    };
                    assert forall|j: int, d: Seq<char>|
                        #![trigger graph.succ(d).contains(row_view(result@)[j])]
                        0 <= j < i && graph.node_set().contains(d) && graph.succ(d).contains(
                            row_view(result@)[j],
                        ) implies row_view(result@).contains(d) by {
                        assert(row_view(result@)[j] == r0[j]);
                        assert(graph.succ(d).contains(r0[j]));
                        lemma_seq_contains_after_push(r0, x, d);
                    };
                    row_view(result@).unique_seq_to_set();
                    assert(row_view(result@).to_set().subset_of(graph.node_set())) by {
                        assert forall|v: Seq<char>|
                            row_view(result@).to_set().contains(v) implies graph.node_set().contains(
                            v,
                        ) by {
                            assert(row_view(result@).contains(v));
                        };
                    }
                    vstd::set_lib::lemma_len_subset(
                        row_view(result@).to_set(),
                        graph.node_set(),
                    );
                }
            } else {
                proof {
                    assert forall|n: int| 0 <= n < m + 1 implies row_view(result@).contains(
                        #[trigger] row_view(deps@)[n],
                    ) by {
                        if n == m as int {
                            assert(row_view(deps@)[n] == x);
                        }
                    };
                }
            }
            m += 1;
        }
        proof {
            assert forall|j: int, d: Seq<char>|
                #![trigger graph.succ(d).contains(row_view(result@)[j])]
                0 <= j < i + 1 && graph.node_set().contains(d) && graph.succ(d).contains(
                    row_view(result@)[j],
                ) implies row_view(result@).contains(d) by {
                if j == i as int {
                    assert(graph.dependents_of(current@).contains(d));
                    assert(row_view(deps@).to_set().contains(d));
                    assert(row_view(deps@).contains(d));
                    let n = choose|n: int|
                        0 <= n < row_view(deps@).len() && #[trigger] row_view(deps@)[n] == d;
                }
            };
        }
        i += 1;
    }
    proof {
        assert forall|v: Seq<char>| in_closure(*graph, dset, v) implies row_view(
            result@,
        ).contains(v) by {
            let p = choose|p: Seq<Seq<char>>|
                #[trigger] is_graph_path(*graph, p) && p.first() == v && dset.contains(p.last());
            lemma_closure_complete(*graph, dset, row_view(result@).to_set(), p);
            assert(row_view(result@).to_set().contains(v));
        };
    }
    result
}

} // verus!
