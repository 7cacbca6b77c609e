use chronos_core::ir::graph::{
    opcode_index, Edge, EdgeKind, GraphIR, NodeId, Operation, FEATURE_DIM, ONE_F32_BITS,
    ONE_F64_BITS,
};

#[test]
fn new_graph_has_entry_and_exit() {
    let ir = GraphIR::new();
    assert_eq!(ir.node_count(), 2);
    assert_eq!(ir.entry, NodeId(0));
    assert_eq!(ir.exit, NodeId(1));
    assert_eq!(ir.next_id, 2);
    assert!(ir.edges.is_empty());
    assert!(matches!(ir.nodes[&0].op, Operation::Jump { target: NodeId(0) }));
    assert!(matches!(ir.nodes[&1].op, Operation::Return));
}

#[test]
fn add_node_returns_fresh_ids_and_data_flow_edges() {
    let mut ir = GraphIR::new();
    let a = ir.add_node(Operation::ConstInt(4), vec![]);
    let b = ir.add_node(Operation::ConstInt(5), vec![]);
    let sum = ir.add_node(Operation::Add, vec![a, b]);
    assert_eq!(a, NodeId(2));
    assert_eq!(b, NodeId(3));
    assert_eq!(sum, NodeId(4));
    assert_eq!(ir.node_count(), 5);
    assert_eq!(ir.next_id, 5);
    assert_eq!(
        ir.edges,
        vec![
            Edge { from: a, to: sum, kind: EdgeKind::DataFlow },
            Edge { from: b, to: sum, kind: EdgeKind::DataFlow },
        ]
    );
    let node = &ir.nodes[&4];
    assert_eq!(node.id, sum);
    assert_eq!(node.inputs, vec![a, b]);
    assert!(node.outputs.is_empty());
    assert_eq!(node.metadata.estimated_cost_bits, ONE_F64_BITS);
    assert_eq!(node.metadata.llm_confidence_bits, ONE_F32_BITS);
    assert_eq!(f64::from_bits(node.metadata.estimated_cost_bits), 1.0);
    assert_eq!(f32::from_bits(node.metadata.llm_confidence_bits), 1.0);
    assert!(!node.metadata.is_hot);
    assert!(!node.metadata.verified);
}

#[test]
fn add_edge_appends_one_edge() {
    let mut ir = GraphIR::new();
    ir.add_edge(NodeId(0), NodeId(1), EdgeKind::ControlFlow);
    assert_eq!(ir.edges, vec![Edge { from: NodeId(0), to: NodeId(1), kind: EdgeKind::ControlFlow }]);
    assert_eq!(ir.node_count(), 2);
}

#[test]
fn adjacency_cells_follow_edges() {
    let mut ir = GraphIR::new();
    let c = ir.add_node(Operation::ConstInt(1), vec![]);
    ir.add_node(Operation::Not, vec![c]);
    ir.add_edge(NodeId(0), NodeId(1), EdgeKind::ControlFlow);
    ir.add_edge(NodeId(0), NodeId(9), EdgeKind::SideEffect);
    let m = ir.adjacency_cells();
    assert_eq!(m.len(), 4);
    for row in &m {
        assert_eq!(row.len(), 4);
    }
    let mut set = vec![];
    for i in 0..4 {
        for j in 0..4 {
            if m[i][j] {
                set.push((i, j));
            }
        }
    }
    assert_eq!(set, vec![(0, 1), (2, 3)]);
}

#[test]
fn opcode_indices() {
    assert_eq!(opcode_index(&Operation::Add), 0);
    assert_eq!(opcode_index(&Operation::Sub), 1);
    assert_eq!(opcode_index(&Operation::Mul), 2);
    assert_eq!(opcode_index(&Operation::Div), 3);
    assert_eq!(opcode_index(&Operation::Branch { condition: NodeId(0) }), 4);
    assert_eq!(opcode_index(&Operation::Call { func: "f".to_string(), args: vec![] }), 5);
    assert_eq!(opcode_index(&Operation::Load { addr: NodeId(0) }), 6);
    assert_eq!(opcode_index(&Operation::Store { addr: NodeId(0), value: NodeId(1) }), 7);
    assert_eq!(
        opcode_index(&Operation::LlmGenerated { prompt: String::new(), code: String::new() }),
        8
    );
    assert_eq!(opcode_index(&Operation::Mod), 9);
    assert_eq!(opcode_index(&Operation::ConstFloat(0)), 9);
    assert_eq!(FEATURE_DIM, 16);
}

#[test]
fn features_of_a_node() {
    let mut ir = GraphIR::new();
    let a = ir.add_node(Operation::ConstInt(1), vec![]);
    let m = ir.add_node(Operation::Mul, vec![a, a]);
    let f = ir.node_features(&ir.nodes[&m.0]);
    assert_eq!(f.opcode_index, 2);
    assert_eq!(f.input_count, 2);
    assert_eq!(f.output_count, 0);
    assert_eq!(f.estimated_cost_bits, ONE_F64_BITS);
    assert_eq!(f.llm_confidence_bits, ONE_F32_BITS);
    assert!(!f.is_hot);
    assert!(!f.verified);
}

#[test]
fn walk_order_lists_every_node_once() {
    let mut ir = GraphIR::new();
    for _ in 0..10 {
        ir.add_node(Operation::Return, vec![]);
    }
    let mut order = ir.node_walk_order();
    assert_eq!(order.len(), 12);
    let rows = ir.feature_rows(&order);
    assert_eq!(rows.len(), 12);
    for (k, row) in order.iter().zip(rows.iter()) {
        assert_eq!(*row, ir.node_features(&ir.nodes[k]));
    }
    order.sort();
    assert_eq!(order, (0..12).collect::<Vec<u64>>());
    let rows = ir.to_feature_rows();
    assert_eq!(rows.len(), 12);
    for (i, row) in rows.iter().enumerate() {
        assert_eq!(*row, ir.node_features(&ir.nodes[&(i as u64)]));
    }
}

#[test]
fn clone_keeps_the_graph() {
    let mut ir = GraphIR::new();
    ir.add_node(Operation::Alloca { size: 8 }, vec![NodeId(0)]);
    let copy = ir.clone();
    assert_eq!(copy.node_count(), 3);
    assert_eq!(copy.edges, ir.edges);
    assert_eq!(copy.next_id, 3);
    assert!(matches!(copy.nodes[&2].op, Operation::Alloca { size: 8 }));
}

#[test]
fn feature_rows_follow_node_ids() {
    let mut ir = GraphIR::new();
    let a = ir.add_node(Operation::ConstInt(1), vec![]);
    ir.add_node(Operation::Add, vec![a, a]);
    ir.add_node(Operation::Load { addr: a }, vec![a]);
    let rows = ir.to_feature_rows();
    let ops: Vec<usize> = rows.iter().map(|r| r.opcode_index).collect();
    assert_eq!(ops, vec![9, 9, 9, 0, 6]);
    assert_eq!(rows[3].input_count, 2);
}
