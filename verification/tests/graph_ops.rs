use zax_workspace_service::compute_affected;
use zax_workspace_service::DepGraph;

fn s(v: &str) -> String {
    v.to_string()
}

#[test]
fn add_file_creates_node() {
    let mut graph = DepGraph::new();
    let path = s("/src/foo.ts");
    let idx = graph.add_file(path.clone());
    assert!(idx.is_some());
    assert!(graph.contains(&path));
    assert_eq!(graph.node_count(), 1);
}

#[test]
fn add_file_idempotent() {
    let mut graph = DepGraph::new();
    let path = s("/src/foo.ts");
    let idx1 = graph.add_file(path.clone());
    let idx2 = graph.add_file(path.clone());
    assert_eq!(idx1, idx2);
    assert_eq!(graph.node_count(), 1);
}

#[test]
fn update_edges_creates_edges() {
    let mut graph = DepGraph::new();
    let a = s("/src/a.ts");
    let b = s("/src/b.ts");
    let c = s("/src/c.ts");

    graph.add_file(a.clone());
    graph.add_file(b.clone());
    graph.add_file(c.clone());

    graph.update_edges(&a, &vec![b.clone(), c.clone()]);

    assert_eq!(graph.edge_count(), 2);
    assert_eq!(graph.get_dependents(&b), vec![a.clone()]);
    assert_eq!(graph.get_dependents(&c), vec![a.clone()]);
}

#[test]
fn update_edges_removes_old_edges() {
    let mut graph = DepGraph::new();
    let a = s("/src/a.ts");
    let b = s("/src/b.ts");
    let c = s("/src/c.ts");

    graph.add_file(a.clone());
    graph.add_file(b.clone());
    graph.add_file(c.clone());

    graph.update_edges(&a, &vec![b.clone()]);
    assert_eq!(graph.edge_count(), 1);
    assert_eq!(graph.get_dependents(&b), vec![a.clone()]);

    graph.update_edges(&a, &vec![c.clone()]);
    assert_eq!(graph.edge_count(), 1);
    assert!(graph.get_dependents(&b).is_empty());
    assert_eq!(graph.get_dependents(&c), vec![a.clone()]);
}

#[test]
fn remove_file_removes_node_and_edges() {
    let mut graph = DepGraph::new();
    let a = s("/src/a.ts");
    let b = s("/src/b.ts");

    graph.add_file(a.clone());
    graph.add_file(b.clone());
    graph.update_edges(&a, &vec![b.clone()]);

    assert_eq!(graph.node_count(), 2);
    assert_eq!(graph.edge_count(), 1);

    graph.remove_file(&b);

    assert_eq!(graph.node_count(), 1);
    assert_eq!(graph.edge_count(), 0);
    assert!(!graph.contains(&b));
}

#[test]
fn get_dependents_returns_importers() {
    let mut graph = DepGraph::new();
    let a = s("/src/a.ts");
    let b = s("/src/b.ts");
    let c = s("/src/c.ts");
    let util = s("/src/util.ts");

    graph.add_file(a.clone());
    graph.add_file(b.clone());
    graph.add_file(c.clone());
    graph.add_file(util.clone());

    graph.update_edges(&a, &vec![util.clone()]);
    graph.update_edges(&b, &vec![util.clone()]);
    graph.update_edges(&c, &vec![util.clone()]);

    let dependents = graph.get_dependents(&util);
    assert_eq!(dependents.len(), 3);
    assert!(dependents.contains(&a));
    assert!(dependents.contains(&b));
    assert!(dependents.contains(&c));
}

#[test]
fn overflow_at_max_nodes() {
    let mut graph = DepGraph::new();

    for i in 0..10000 {
        let path = format!("/src/file{i}.ts");
        assert!(graph.add_file(path).is_some());
    }

    assert!(!graph.is_overflow());
    assert_eq!(graph.node_count(), 10000);

    let extra = s("/src/extra.ts");
    assert!(graph.add_file(extra).is_none());
    assert!(graph.is_overflow());

    // The latch holds: further new files are refused, known ones answer.
    assert!(graph.add_file(s("/src/another.ts")).is_none());
    assert!(graph.is_overflow());
    assert!(graph.add_file(s("/src/file0.ts")).is_some());
}

#[test]
fn empty_dirty_set_returns_empty() {
    let graph = DepGraph::new();
    let dirty: Vec<String> = Vec::new();
    let affected = compute_affected(&dirty, &graph);
    assert!(affected.is_empty());
}

#[test]
fn dirty_file_included_in_affected() {
    let mut graph = DepGraph::new();
    let a = s("/src/a.ts");
    graph.add_file(a.clone());

    let dirty = vec![a.clone()];
    let affected = compute_affected(&dirty, &graph);
    assert!(affected.contains(&a));
}

#[test]
fn direct_dependent_included() {
    let mut graph = DepGraph::new();
    let a = s("/src/a.ts");
    let b = s("/src/b.ts");

    graph.add_file(a.clone());
    graph.add_file(b.clone());
    graph.update_edges(&a, &vec![b.clone()]);

    let dirty = vec![b.clone()];
    let affected = compute_affected(&dirty, &graph);
    assert!(affected.contains(&a));
    assert!(affected.contains(&b));
}

#[test]
fn transitive_4_hop_chain() {
    let mut graph = DepGraph::new();
    let a = s("/src/a.ts");
    let b = s("/src/b.ts");
    let c = s("/src/c.ts");
    let d = s("/src/d.ts");

    graph.add_file(a.clone());
    graph.add_file(b.clone());
    graph.add_file(c.clone());
    graph.add_file(d.clone());

    graph.update_edges(&a, &vec![b.clone()]);
    graph.update_edges(&b, &vec![c.clone()]);
    graph.update_edges(&c, &vec![d.clone()]);

    let dirty = vec![d.clone()];
    let affected = compute_affected(&dirty, &graph);
    assert_eq!(affected.len(), 4);
    assert!(affected.contains(&a));
    assert!(affected.contains(&b));
    assert!(affected.contains(&c));
    assert!(affected.contains(&d));
}

#[test]
fn circular_dependency_terminates() {
    let mut graph = DepGraph::new();
    let a = s("/src/a.ts");
    let b = s("/src/b.ts");
    let c = s("/src/c.ts");

    graph.add_file(a.clone());
    graph.add_file(b.clone());
    graph.add_file(c.clone());

    graph.update_edges(&a, &vec![b.clone()]);
    graph.update_edges(&b, &vec![c.clone()]);
    graph.update_edges(&c, &vec![a.clone()]);

    let dirty = vec![a.clone()];
    let affected = compute_affected(&dirty, &graph);
    assert_eq!(affected.len(), 3);
    assert!(affected.contains(&a));
    assert!(affected.contains(&b));
    assert!(affected.contains(&c));
}

#[test]
fn diamond_dependency() {
    let mut graph = DepGraph::new();
    let a = s("/src/a.ts");
    let b = s("/src/b.ts");
    let c = s("/src/c.ts");
    let d = s("/src/d.ts");

    graph.add_file(a.clone());
    graph.add_file(b.clone());
    graph.add_file(c.clone());
    graph.add_file(d.clone());

    graph.update_edges(&a, &vec![b.clone(), c.clone()]);
    graph.update_edges(&b, &vec![d.clone()]);
    graph.update_edges(&c, &vec![d.clone()]);

    let dirty = vec![d.clone()];
    let affected = compute_affected(&dirty, &graph);
    assert_eq!(affected.len(), 4);
}

#[test]
fn dirty_file_not_in_graph_ignored() {
    let graph = DepGraph::new();
    let dirty = vec![s("/src/nonexistent.ts")];
    let affected = compute_affected(&dirty, &graph);
    assert!(affected.is_empty());
}
