use cauldron::graph::{cycle_nodes, topological_order, DependencyGraph};

#[test]
fn independent_nodes_keep_their_order() {
    let graph = DependencyGraph { after: vec![vec![], vec![], vec![]] };
    assert_eq!(topological_order(&graph), Ok(vec![0, 1, 2]));
}

#[test]
fn empty_graph_has_empty_order() {
    let graph = DependencyGraph { after: vec![] };
    assert_eq!(topological_order(&graph), Ok(vec![]));
}

#[test]
fn chain_is_reversed() {
    // 0 after 1, 1 after 2
    let graph = DependencyGraph { after: vec![vec![1], vec![2], vec![]] };
    assert_eq!(topological_order(&graph), Ok(vec![2, 1, 0]));
}

#[test]
fn lowest_ready_node_goes_first() {
    // 0 after 3; 1 and 2 free; 3 free
    let graph = DependencyGraph { after: vec![vec![3], vec![], vec![], vec![]] };
    assert_eq!(topological_order(&graph), Ok(vec![1, 2, 3, 0]));
}

#[test]
fn diamond_is_ordered() {
    // 0 after 1 and 2; 1 after 3; 2 after 3
    let graph = DependencyGraph { after: vec![vec![1, 2], vec![3], vec![3], vec![]] };
    assert_eq!(topological_order(&graph), Ok(vec![3, 1, 2, 0]));
}

#[test]
fn cycle_error_holds_the_cycle_and_not_what_waits_for_it() {
    // 0 free; 1 after 2; 2 after 1; 3 after 1; 4 after 0
    let graph = DependencyGraph { after: vec![vec![], vec![2], vec![1], vec![1], vec![0]] };
    assert_eq!(topological_order(&graph), Err(vec![1, 2]));
    assert_eq!(cycle_nodes(&graph), vec![1, 2]);
}

#[test]
fn nodes_between_two_cycles_lie_on_none() {
    // 0 <-> 1; 2 after 1; 3 after 2; 3 <-> 4; 5 after 5
    let graph = DependencyGraph {
        after: vec![vec![1], vec![0], vec![1], vec![2, 4], vec![3], vec![5]],
    };
    assert_eq!(topological_order(&graph), Err(vec![0, 1, 3, 4, 5]));
}

#[test]
fn long_cycle_is_found_whole() {
    // 0 after 1 after 2 after 3 after 4 after 0; 5 free
    let graph = DependencyGraph {
        after: vec![vec![1], vec![2], vec![3], vec![4], vec![0], vec![]],
    };
    assert_eq!(topological_order(&graph), Err(vec![0, 1, 2, 3, 4]));
}

#[test]
fn acyclic_graph_has_no_cycle_nodes() {
    let graph = DependencyGraph { after: vec![vec![1, 2], vec![3], vec![3], vec![]] };
    assert_eq!(cycle_nodes(&graph), vec![]);
    assert_eq!(cycle_nodes(&DependencyGraph { after: vec![] }), vec![]);
}

#[test]
fn self_requirement_is_a_cycle() {
    let graph = DependencyGraph { after: vec![vec![0], vec![]] };
    assert_eq!(topological_order(&graph), Err(vec![0]));
}
