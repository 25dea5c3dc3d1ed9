//! End-to-end scenario: detaching every node of a small cyclic graph while
//! the tracking layer watches each narrowing. Every requested field is used
//! as requested, so no warning is emitted.

use borrow::capability::Capability;
use borrow::refstruct::{
    as_refs_mut, borrow_field_mut, drop_struct, partial_borrow, release_field,
};
use borrow::tracking::TrackingCtx;
use borrow::warnings::WarningSink;

struct Node {
    outputs: Vec<usize>,
    inputs: Vec<usize>,
}

struct Edge {
    from: Option<usize>,
    to: Option<usize>,
}

struct Group {
    nodes: Vec<usize>,
}

struct Graph {
    nodes: Vec<Node>,
    edges: Vec<Edge>,
    groups: Vec<Group>,
}

fn cyclic_graph() -> Graph {
    // Three nodes in a cycle 0 -> 1 -> 2 -> 0, edge i leading from node i
    // to node (i + 1) % 3.
    let nodes = (0..3)
        .map(|i| Node {
            outputs: vec![i],
            inputs: vec![(i + 2) % 3],
        })
        .collect();
    let edges = (0..3)
        .map(|i| Edge {
            from: Some(i),
            to: Some((i + 1) % 3),
        })
        .collect();
    let groups = vec![Group {
        nodes: vec![0, 1, 2],
    }];
    Graph {
        nodes,
        edges,
        groups,
    }
}

#[test]
fn detach_all_nodes_clears_the_graph_without_warnings() {
    let mut graph = cyclic_graph();
    let mut ctx = TrackingCtx::new();
    let mut sink = WarningSink::new();

    let labels = vec![
        "nodes".to_string(),
        "edges".to_string(),
        "groups".to_string(),
    ];
    let g = as_refs_mut(&mut ctx, labels, "main.rs:5".to_string());

    // The detach entry point takes every field mutably.
    let all_mut = vec![Capability::Mut, Capability::Mut, Capability::Mut];
    let d = partial_borrow(&mut ctx, &g, &all_mut, true, "main.rs:6".to_string(), &mut sink);

    // Extract the nodes mutably; the rest keeps edges and groups.
    let (nodes_slot, d2) = borrow_field_mut(&mut ctx, &d, 0, true, "detach.rs:10".to_string());
    nodes_slot.use_as_mut(&mut ctx);
    for i in 0..graph.nodes.len() {
        // The per-node helper narrows to the edges alone.
        let only_edges = vec![Capability::Hidden, Capability::Mut, Capability::Hidden];
        let e = partial_borrow(
            &mut ctx,
            &d2,
            &only_edges,
            true,
            "detach.rs:20".to_string(),
            &mut sink,
        );
        e.fields[1].use_as_mut(&mut ctx);
        let outputs = std::mem::take(&mut graph.nodes[i].outputs);
        for edge in outputs {
            graph.edges[edge].from = None;
        }
        let inputs = std::mem::take(&mut graph.nodes[i].inputs);
        for edge in inputs {
            graph.edges[edge].to = None;
        }
        drop_struct(&mut ctx, e, &mut sink);
    }

    // Detached nodes leave their groups as well.
    let only_groups = vec![Capability::Hidden, Capability::Hidden, Capability::Mut];
    let gr = partial_borrow(
        &mut ctx,
        &d2,
        &only_groups,
        true,
        "detach.rs:30".to_string(),
        &mut sink,
    );
    gr.fields[2].use_as_mut(&mut ctx);
    for group in &mut graph.groups {
        group.nodes.clear();
    }
    drop_struct(&mut ctx, gr, &mut sink);

    release_field(&mut ctx, nodes_slot, &mut sink);
    drop_struct(&mut ctx, d2, &mut sink);
    drop_struct(&mut ctx, d, &mut sink);
    drop_struct(&mut ctx, g, &mut sink);

    for node in &graph.nodes {
        assert!(node.outputs.is_empty());
        assert!(node.inputs.is_empty());
    }
    for edge in &graph.edges {
        assert_eq!(edge.from, None);
        assert_eq!(edge.to, None);
    }
    for group in &graph.groups {
        assert!(group.nodes.is_empty());
    }
    // Every requested field was used as requested: no warning anywhere.
    assert!(sink.lines.is_empty());
}
