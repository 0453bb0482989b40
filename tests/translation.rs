use blackjack_ui::graph_error::GraphError;
use blackjack_ui::interop::ui_graph_to_blackjack_graph;
use blackjack_ui::ui_graph::{DataType, UiGraph, UiInput, UiNode, UiOutput};

fn input(id: u64, name: &str, typ: DataType, value: f32) -> UiInput<f32> {
    UiInput { id, name: name.to_string(), typ, value }
}

fn output(id: u64, name: &str, typ: DataType) -> UiOutput {
    UiOutput { id, name: name.to_string(), typ }
}

fn node(id: u64, op: &str, inputs: Vec<UiInput<f32>>, outputs: Vec<UiOutput>) -> UiNode<f32> {
    UiNode { id, op_name: op.to_string(), return_type: Some("out_mesh".to_string()), inputs, outputs }
}

fn two_node_graph() -> UiGraph<f32> {
    let cube = node(
        10,
        "cube",
        vec![input(100, "size", DataType::Scalar, 1.0)],
        vec![output(200, "out_mesh", DataType::Mesh)],
    );
    let bevel = node(
        20,
        "bevel",
        vec![input(101, "in_mesh", DataType::Mesh, 0.0), input(102, "amount", DataType::Scalar, 0.5)],
        vec![output(201, "out_mesh", DataType::Mesh)],
    );
    UiGraph { nodes: vec![cube, bevel], connections: vec![(101, 200)] }
}

#[test]
fn translation_keeps_node_and_connection_counts() {
    let g = two_node_graph();
    let (bjk, m) = ui_graph_to_blackjack_graph(&g).unwrap();
    assert_eq!(bjk.nodes.len(), 2);
    assert_eq!(bjk.connections.len(), 1);
    assert_eq!(bjk.inputs.len(), 3);
    assert_eq!(bjk.outputs.len(), 2);
    assert_eq!(m.to_ui.len(), 2);
    assert_eq!(bjk.nodes[1].op_name, "bevel");
    let c = &bjk.connections[0];
    assert_eq!(c.src_node, 0);
    assert_eq!(c.src_param, "out_mesh");
    assert_eq!(c.dst_node, 1);
    assert_eq!(c.dst_param, "in_mesh");
}

#[test]
fn mapping_round_trips_both_ways() {
    let g = two_node_graph();
    let (_, m) = ui_graph_to_blackjack_graph(&g).unwrap();
    for u in [10u64, 20u64] {
        let b = m.bjk_id(u).unwrap();
        assert_eq!(m.ui_id(b), Some(u));
    }
    for b in [0usize, 1usize] {
        let u = m.ui_id(b).unwrap();
        assert_eq!(m.bjk_id(u), Some(b));
    }
    assert_eq!(m.bjk_id(99), None);
    assert_eq!(m.ui_id(2), None);
}

#[test]
fn single_cube_translates_to_one_node() {
    let g = UiGraph {
        nodes: vec![node(7, "cube", vec![input(1, "size", DataType::Scalar, 1.0)], vec![output(2, "out_mesh", DataType::Mesh)])],
        connections: vec![],
    };
    let (bjk, m) = ui_graph_to_blackjack_graph(&g).unwrap();
    assert_eq!(bjk.nodes.len(), 1);
    assert_eq!(bjk.nodes[0].op_name, "cube");
    assert_eq!(bjk.connections.len(), 0);
    assert_eq!(m.bjk_id(7), Some(0));
}

#[test]
fn connection_to_unregistered_input_fails() {
    let mut g = two_node_graph();
    g.connections.push((555, 200));
    assert!(matches!(ui_graph_to_blackjack_graph(&g), Err(GraphError::UnknownPort)));
}

#[test]
fn connection_from_unregistered_output_fails() {
    let mut g = two_node_graph();
    g.connections = vec![(101, 999)];
    assert!(matches!(ui_graph_to_blackjack_graph(&g), Err(GraphError::UnknownPort)));
}

#[test]
fn duplicate_port_name_fails() {
    let g = UiGraph {
        nodes: vec![node(
            1,
            "cube",
            vec![input(1, "size", DataType::Scalar, 1.0), input(2, "size", DataType::Scalar, 2.0)],
            vec![],
        )],
        connections: vec![],
    };
    assert!(matches!(ui_graph_to_blackjack_graph(&g), Err(GraphError::DuplicatePort)));
}

#[test]
fn duplicate_port_wins_over_bad_connection() {
    let g = UiGraph {
        nodes: vec![node(
            1,
            "cube",
            vec![],
            vec![output(2, "out_mesh", DataType::Mesh), output(3, "out_mesh", DataType::Mesh)],
        )],
        connections: vec![(77, 78)],
    };
    assert!(matches!(ui_graph_to_blackjack_graph(&g), Err(GraphError::DuplicatePort)));
}

#[test]
fn mismatched_types_fail() {
    let mut g = two_node_graph();
    g.connections = vec![(102, 200)];
    assert!(matches!(ui_graph_to_blackjack_graph(&g), Err(GraphError::TypeMismatch)));
}

#[test]
fn empty_graph_translates_to_empty_graph() {
    let g: UiGraph<f32> = UiGraph { nodes: vec![], connections: vec![] };
    let (bjk, m) = ui_graph_to_blackjack_graph(&g).unwrap();
    assert_eq!(bjk.nodes.len(), 0);
    assert_eq!(bjk.connections.len(), 0);
    assert_eq!(m.to_ui.len(), 0);
}

#[test]
fn well_formed_graph_is_accepted() {
    assert!(two_node_graph().is_well_formed());
}

#[test]
fn repeated_node_identity_is_not_well_formed() {
    let mut g = two_node_graph();
    g.nodes[1].id = 10;
    assert!(!g.is_well_formed());
}

#[test]
fn repeated_input_identity_is_not_well_formed() {
    let mut g = two_node_graph();
    g.nodes[1].inputs[1].id = 100;
    assert!(!g.is_well_formed());
}

#[test]
fn repeated_output_identity_is_not_well_formed() {
    let mut g = two_node_graph();
    g.nodes[1].outputs[0].id = 200;
    assert!(!g.is_well_formed());
}

#[test]
fn input_and_output_may_share_an_identity() {
    let mut g = two_node_graph();
    g.nodes[0].outputs[0].id = 100;
    g.connections = vec![(101, 100)];
    assert!(g.is_well_formed());
    let (bjk, _) = ui_graph_to_blackjack_graph(&g).unwrap();
    assert_eq!(bjk.connections.len(), 1);
}
