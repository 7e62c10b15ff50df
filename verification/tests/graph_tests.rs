//! The constant graph.

use cice_core::graph::ConstGraph;

#[test]
fn test_graph() {
    let mut graph = ConstGraph::new();
    let begin = graph.push_node(1);
    let end = graph.push_node(3);
    graph.insert_edge(begin, end, 2);
    assert_eq!(*graph.get_edge(graph.get_out_edges(begin)[0]).data(), 2)
}

#[test]
fn out_edges_and_subnodes_follow_the_matrix() {
    let mut graph: ConstGraph<&str, u32> = ConstGraph::new();
    let a = graph.push_node(10);
    let b = graph.push_node(20);
    let c = graph.push_node(30);
    graph.insert_edge(a, c, "ac");
    graph.insert_edge(a, b, "ab");
    let out = graph.get_out_edges(a);
    // Column order: the edge to b (column 1) before the edge to c (column 2).
    assert_eq!(out.len(), 2);
    assert_eq!(*graph.get_edge(out[0]).data(), "ab");
    assert_eq!(*graph.get_edge(out[1]).data(), "ac");
    assert_eq!(graph.get_subnodes(a), vec![b, c]);
    assert_eq!(graph.get_out_edges(b).len(), 0);
    assert_eq!(*graph.get_node(c).data(), 30);
}
