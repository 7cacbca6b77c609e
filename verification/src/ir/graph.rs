//! Graph-based intermediate representation.
//!
//! Unlike an SSA form, the program is a graph of operation nodes joined by
//! data-flow, control-flow and side-effect edges, so that it can be handed
//! to a graph neural network.

use std::collections::HashMap;
use vstd::prelude::*;
use vstd::std_specs::iter::IteratorSpec;

verus! {

broadcast use vstd::std_specs::hash::group_hash_axioms;

/// Identifier of a node; ids are handed out in increasing order from 0.
#[derive(Clone, Copy, Debug, PartialEq, Eq, Hash, Structural)]
pub struct NodeId(pub u64);

/// Operations a node can perform.
///
/// A floating-point constant is held by its IEEE-754 bit pattern
/// (`f64::to_bits`).
#[derive(Clone, Debug)]
pub enum Operation {
    Add,
    Sub,
    Mul,
    Div,
    Mod,
    Eq,
    Ne,
    Lt,
    Le,
    Gt,
    Ge,
    And,
    Or,
    Not,
    Branch { condition: NodeId },
    Jump { target: NodeId },
    Return,
    Load { addr: NodeId },
    Store { addr: NodeId, value: NodeId },
    Alloca { size: u64 },
    Call { func: String, args: Vec<NodeId> },
    ConstInt(i64),
    ConstFloat(u64),
    LlmGenerated { prompt: String, code: String },
}

/// Per-node metadata. The estimated cost is the bit pattern of an `f64`
/// and the model confidence the bit pattern of an `f32`.
#[derive(Clone, Copy, Debug, PartialEq, Eq, Structural)]
pub struct NodeMetadata {
    pub estimated_cost_bits: u64,
    pub is_hot: bool,
    pub llm_confidence_bits: u32,
    pub verified: bool,
}

/// A node of the graph.
#[derive(Clone, Debug)]
pub struct Node {
    pub id: NodeId,
    pub op: Operation,
    pub inputs: Vec<NodeId>,
    pub outputs: Vec<NodeId>,
    pub metadata: NodeMetadata,
}

/// What an edge stands for.
#[derive(Clone, Copy, Debug, PartialEq, Eq, Structural)]
pub enum EdgeKind {
    DataFlow,
    ControlFlow,
    SideEffect,
}

/// A directed edge between two nodes.
#[derive(Clone, Copy, Debug, PartialEq, Eq, Structural)]
pub struct Edge {
    pub from: NodeId,
    pub to: NodeId,
    pub kind: EdgeKind,
}

/// The graph: nodes keyed by the number of their id, and a list of edges.
#[derive(Debug)]
pub struct GraphIR {
    pub nodes: HashMap<u64, Node>,
    pub edges: Vec<Edge>,
    pub entry: NodeId,
    pub exit: NodeId,
    pub next_id: u64,
}

/// The numeric parts of a node's feature vector, before they are turned
/// into floating-point values: the one-hot opcode position, the metadata,
/// and the node's degrees.
#[derive(Clone, Copy, Debug, PartialEq, Eq, Structural)]
pub struct NodeFeatures {
    pub opcode_index: usize,
    pub estimated_cost_bits: u64,
    pub is_hot: bool,
    pub llm_confidence_bits: u32,
    pub verified: bool,
    pub input_count: usize,
    pub output_count: usize,
}

/// Bit pattern of the `f64` value 1.0.
pub const ONE_F64_BITS: u64 = 0x3ff0_0000_0000_0000u64;

/// Bit pattern of the `f32` value 1.0.
pub const ONE_F32_BITS: u32 = 0x3f80_0000u32;

/// Number of columns of the feature matrix.
pub const FEATURE_DIM: usize = 16usize;

/// Metadata a node starts with: cost 1.0, not hot, confidence 1.0, not verified.
pub open spec fn initial_metadata() -> NodeMetadata {
    NodeMetadata {
        estimated_cost_bits: ONE_F64_BITS,
        is_hot: false,
        llm_confidence_bits: ONE_F32_BITS,
        verified: false,
    }
}

/// `n` is the node that `add_node` makes for `id`, `op` and `inputs`.
pub open spec fn is_new_node(n: Node, id: NodeId, op: Operation, inputs: Seq<NodeId>) -> bool {
    &&& n.id == id
    &&& n.op == op
    &&& n.inputs@ == inputs
    &&& n.outputs@ == Seq::<NodeId>::empty()
    &&& n.metadata == initial_metadata()
}

/// The data-flow edges from each input to `to`, in the order of the inputs.
pub open spec fn data_flow_edges(inputs: Seq<NodeId>, to: NodeId) -> Seq<Edge> {
    inputs.map_values(|i: NodeId| Edge { from: i, to: to, kind: EdgeKind::DataFlow })
}

/// Position of the opcode in the one-hot part of a feature vector.
pub open spec fn spec_opcode_index(op: Operation) -> usize {
    match op {
        Operation::Add => 0,
        Operation::Sub => 1,
        Operation::Mul => 2,
        Operation::Div => 3,
        Operation::Branch { .. } => 4,
        Operation::Call { .. } => 5,
        Operation::Load { .. } => 6,
        Operation::Store { .. } => 7,
        Operation::LlmGenerated { .. } => 8,
        _ => 9,
    }
}

/// `slot` is the one-hot position of `op`: additions, subtractions,
/// multiplications, divisions, branches, calls, loads, stores and generated
/// code each have their own slot (0 to 8, in that order), and every other
/// operation shares slot 9.
pub open spec fn opcode_slots(op: Operation, slot: usize) -> bool {
    &&& (slot == 0 <==> op is Add)
    &&& (slot == 1 <==> op is Sub)
    &&& (slot == 2 <==> op is Mul)
    &&& (slot == 3 <==> op is Div)
    &&& (slot == 4 <==> op is Branch)
    &&& (slot == 5 <==> op is Call)
    &&& (slot == 6 <==> op is Load)
    &&& (slot == 7 <==> op is Store)
    &&& (slot == 8 <==> op is LlmGenerated)
    &&& (slot == 9 <==> !(op is Add || op is Sub || op is Mul || op is Div || op is Branch
        || op is Call || op is Load || op is Store || op is LlmGenerated))
}

/// Each distinguished operation has a one-hot slot of its own, and every
/// other operation falls in slot 9.
pub proof fn lemma_opcode_slots(op: Operation)
    ensures
        opcode_slots(op, spec_opcode_index(op)),
{
}

/// The feature parts of a node.
pub open spec fn spec_node_features(n: Node) -> NodeFeatures {
    NodeFeatures {
        opcode_index: spec_opcode_index(n.op),
        estimated_cost_bits: n.metadata.estimated_cost_bits,
        is_hot: n.metadata.is_hot,
        llm_confidence_bits: n.metadata.llm_confidence_bits,
        verified: n.metadata.verified,
        input_count: n.inputs@.len() as usize,
        output_count: n.outputs@.len() as usize,
    }
}

/// `order` lists every key of `m` exactly once.
pub open spec fn is_walk_order<V>(order: Seq<u64>, m: Map<u64, V>) -> bool {
    &&& order.no_duplicates()
    &&& order.to_set() == m.dom()
    &&& order.len() == m.dom().len()
}

/// The numbers below `n`.
pub open spec fn u64s_below(n: u64) -> Set<u64> {
    Set::new(|k: u64| k < n)
}

/// The ids below `n`, in increasing order.
pub open spec fn ids_below(n: u64) -> Seq<u64> {
    Seq::new(n as nat, |k: int| k as u64)
}

/// The numbers below `n` form a finite set of `n` elements.
pub proof fn lemma_u64s_below_len(n: u64)
    ensures
        u64s_below(n).finite(),
        u64s_below(n).len() == n,
    decreases n,
{
    if n == 0 {
        assert(u64s_below(0) =~= Set::<u64>::empty());
    } else {
        let m = (n - 1) as u64;
        lemma_u64s_below_len(m);
        assert(u64s_below(n) =~= u64s_below(m).insert(m));
    }
}

/// In a well-formed graph the number of nodes equals the next id to be
/// handed out.
pub proof fn lemma_wf_node_count(ir: &GraphIR)
    requires
        ir.wf(),
    ensures
        ir.nodes@.len() == ir.next_id,
{
    assert(ir.nodes@.dom() =~= u64s_below(ir.next_id));
    lemma_u64s_below_len(ir.next_id);
}

impl GraphIR {
    /// Well-formedness: the nodes are keyed by exactly the ids below
    /// `next_id`, and each node carries the id it is stored under.
    pub open spec fn wf(&self) -> bool {
        &&& forall|k: u64| #[trigger] self.nodes@.contains_key(k) <==> k < self.next_id
        &&& forall|k: u64| #[trigger]
            self.nodes@.contains_key(k) ==> self.nodes@[k].id == NodeId(k)
    }

    /// An empty graph holding only the entry node (a jump, id 0) and the
    /// exit node (a return, id 1).
    pub fn new() -> (ir: Self)
        ensures
            ir.wf(),
            ir.next_id == 2,
            ir.entry == NodeId(0),
            ir.exit == NodeId(1),
            ir.edges@ == Seq::<Edge>::empty(),
            ir.nodes@.dom() == set![0u64, 1u64],
            ir.nodes@.len() == 2,
            is_new_node(ir.nodes@[0], NodeId(0), Operation::Jump { target: NodeId(0) }, seq![]),
            is_new_node(ir.nodes@[1], NodeId(1), Operation::Return, seq![]),
    {
        let mut ir = GraphIR {
            nodes: HashMap::new(),
            edges: Vec::new(),
            entry: NodeId(0),
            exit: NodeId(0),
            next_id: 0,
        };
        let entry = ir.add_node(Operation::Jump { target: NodeId(0) }, Vec::new());
        ir.entry = entry;
        let exit = ir.add_node(Operation::Return, Vec::new());
        ir.exit = exit;
        assert(ir.nodes@.dom() =~= set![0u64, 1u64]);
        proof {
            lemma_wf_node_count(&ir);
        }
        ir
    }

    /// Adds a node for `op` whose operands are `inputs`, together with a
    /// data-flow edge from each input to it, and returns its id.
    pub fn add_node(&mut self, op: Operation, inputs: Vec<NodeId>) -> (id: NodeId)
        requires
            old(self).next_id < u64::MAX,
        ensures
            id == NodeId(old(self).next_id),
            final(self).next_id == old(self).next_id + 1,
            final(self).entry == old(self).entry,
            final(self).exit == old(self).exit,
            final(self).edges@ == old(self).edges@ + data_flow_edges(inputs@, id),
            final(self).nodes@ == old(self).nodes@.insert(id.0, final(self).nodes@[id.0]),
            is_new_node(final(self).nodes@[id.0], id, op, inputs@),
            old(self).wf() ==> {
                &&& final(self).wf()
                &&& !old(self).nodes@.contains_key(id.0)
                &&& final(self).nodes@.len() == old(self).nodes@.len() + 1
            },
    {
        let id = NodeId(self.next_id);
        self.next_id = self.next_id + 1;
        let ghost start_edges = self.edges@;
        let n = inputs.len();
        let mut i: usize = 0;
        while i < n
            invariant
                n == inputs@.len(),
                i <= n,
                id.0 == old(self).next_id,
                self.next_id == old(self).next_id + 1,
                self.entry == old(self).entry,
                self.exit == old(self).exit,
                self.nodes@ == old(self).nodes@,
                self.edges@ == start_edges + data_flow_edges(inputs@.take(i as int), id),
            decreases n - i,
        {
            self.edges.push(Edge { from: inputs[i], to: id, kind: EdgeKind::DataFlow });
            assert(inputs@.take(i + 1) =~= inputs@.take(i as int).push(inputs@[i as int]));
            assert(data_flow_edges(inputs@.take(i + 1), id) =~= data_flow_edges(
                inputs@.take(i as int),
                id,
            ).push(Edge { from: inputs@[i as int], to: id, kind: EdgeKind::DataFlow }));
            i = i + 1;
        }
        assert(inputs@.take(n as int) =~= inputs@);
        let node = Node {
            id: id,
            op: op,
            inputs: inputs.clone(),
            outputs: Vec::new(),
            metadata: NodeMetadata {
                estimated_cost_bits: ONE_F64_BITS,
                is_hot: false,
                llm_confidence_bits: ONE_F32_BITS,
                verified: false,
            },
        };
        proof {
            assert(node.inputs@ =~= inputs@);
        }
        self.nodes.insert(id.0, node);
        id
    }

    /// Appends the edge `from -> to` of the given kind.
    pub fn add_edge(&mut self, from: NodeId, to: NodeId, kind: EdgeKind)
        ensures
            final(self).edges@ == old(self).edges@.push(Edge { from: from, to: to, kind: kind }),
            final(self).nodes@ == old(self).nodes@,
            final(self).entry == old(self).entry,
            final(self).exit == old(self).exit,
            final(self).next_id == old(self).next_id,
    {
        self.edges.push(Edge { from, to, kind });
    }

    /// Number of nodes in the graph.
    pub fn node_count(&self) -> (n: usize)
        ensures
            n == self.nodes@.len(),
    {
        self.nodes.len()
    }
}


/// Some edge goes from the node at index `i` to the node at index `j`,
/// each endpoint taken as a `usize` index.
pub open spec fn spec_adjacent(edges: Seq<Edge>, i: int, j: int) -> bool {
    exists|k: int|
        0 <= k < edges.len() && (#[trigger] edges[k]).from.0 as usize == i && edges[k].to.0 as usize
            == j
}

/// Position of the opcode of `op` in the one-hot part of a feature vector.
pub fn opcode_index(op: &Operation) -> (r: usize)
    ensures
        r == spec_opcode_index(*op),
        opcode_slots(*op, r),
{
    proof {
        lemma_opcode_slots(*op);
    }
    match op {
        Operation::Add => 0,
        Operation::Sub => 1,
        Operation::Mul => 2,
        Operation::Div => 3,
        Operation::Branch { .. } => 4,
        Operation::Call { .. } => 5,
        Operation::Load { .. } => 6,
        Operation::Store { .. } => 7,
        Operation::LlmGenerated { .. } => 8,
        _ => 9,
    }
}

impl GraphIR {
    /// The adjacency matrix as booleans: cell `(i, j)` is set when some edge
    /// leads from index `i` to index `j`, both below the node count; edges
    /// whose ends fall outside are left out.
    pub fn adjacency_cells(&self) -> (m: Vec<Vec<bool>>)
        ensures
            m@.len() == self.nodes@.len(),
            forall|i: int| 0 <= i < m@.len() ==> (#[trigger] m@[i])@.len() == self.nodes@.len(),
            forall|i: int, j: int|
                0 <= i < m@.len() && 0 <= j < m@.len() ==> (#[trigger] m@[i]@[j] <==> spec_adjacent(
                    self.edges@,
                    i,
                    j,
                )),
            forall|k: int|
                0 <= k < self.edges@.len() && ((#[trigger] self.edges@[k]).from.0 as usize)
                    < self.nodes@.len() && (self.edges@[k].to.0 as usize) < self.nodes@.len()
                    ==> m@[self.edges@[k].from.0 as usize as int]@[self.edges@[k].to.0 as usize as int],
    {
        let n = self.nodes.len();
        let mut m: Vec<Vec<bool>> = Vec::new();
        let mut i: usize = 0;
        while i < n
            invariant
                i <= n,
                m@.len() == i,
                forall|a: int| 0 <= a < i ==> (#[trigger] m@[a])@.len() == n,
                forall|a: int, b: int| 0 <= a < i && 0 <= b < n ==> !(#[trigger] m@[a]@[b]),
            decreases n - i,
        {
            let mut row: Vec<bool> = Vec::new();
            let mut j: usize = 0;
            while j < n
                invariant
                    j <= n,
                    row@.len() == j,
                    forall|b: int| 0 <= b < j ==> !(#[trigger] row@[b]),
                decreases n - j,
            {
                row.push(false);
                j = j + 1;
            }
            m.push(row);
            i = i + 1;
        }
        let e = self.edges.len();
        let mut k: usize = 0;
        while k < e
            invariant
                n == self.nodes@.len(),
                e == self.edges@.len(),
                k <= e,
                m@.len() == n,
                forall|a: int| 0 <= a < n ==> (#[trigger] m@[a])@.len() == n,
                forall|a: int, b: int|
                    0 <= a < n && 0 <= b < n ==> (#[trigger] m@[a]@[b] <==> spec_adjacent(
                        self.edges@.take(k as int),
                        a,
                        b,
                    )),
            decreases e - k,
        {
            let from = self.edges[k].from.0 as usize;
            let to = self.edges[k].to.0 as usize;
            let ghost before = m@;
            if from < n && to < n {
                m[from].set(to, true);
            }
            assert forall|a: int, b: int| 0 <= a < n && 0 <= b < n implies (#[trigger] m@[a]@[b]
                <==> spec_adjacent(self.edges@.take(k + 1), a, b)) by {
                let prefix = self.edges@.take(k as int);
                let next = self.edges@.take(k + 1);
                assert(next[k as int] == self.edges@[k as int]);
                if spec_adjacent(prefix, a, b) {
                    let w = choose|w: int|
                        0 <= w < prefix.len() && (#[trigger] prefix[w]).from.0 as usize == a
                            && prefix[w].to.0 as usize == b;
                    assert(next[w] == prefix[w]);
                }
                if spec_adjacent(next, a, b) {
                    let w = choose|w: int|
                        0 <= w < next.len() && (#[trigger] next[w]).from.0 as usize == a
                            && next[w].to.0 as usize == b;
                    if w < k {
                        assert(prefix[w] == next[w]);
                    }
                }
            }
            k = k + 1;
        }
        assert(self.edges@.take(e as int) =~= self.edges@);
        assert forall|k: int|
            0 <= k < self.edges@.len() && ((#[trigger] self.edges@[k]).from.0 as usize)
                < self.nodes@.len() && (self.edges@[k].to.0 as usize) < self.nodes@.len() implies m@[self.edges@[k].from.0 as usize as int]@[self.edges@[k].to.0 as usize as int] by {
            let a = self.edges@[k].from.0 as usize as int;
            let b = self.edges@[k].to.0 as usize as int;
            assert(spec_adjacent(self.edges@, a, b));
        }
        m
    }

    /// The numeric feature parts of `node`.
    pub fn node_features(&self, node: &Node) -> (f: NodeFeatures)
        ensures
            f == spec_node_features(*node),
    {
        NodeFeatures {
            opcode_index: opcode_index(&node.op),
            estimated_cost_bits: node.metadata.estimated_cost_bits,
            is_hot: node.metadata.is_hot,
            llm_confidence_bits: node.metadata.llm_confidence_bits,
            verified: node.metadata.verified,
            input_count: node.inputs.len(),
            output_count: node.outputs.len(),
        }
    }

    /// The keys of the node map in the order in which the map is walked.
    /// The order is the hash map's own: every key comes exactly once.
    pub fn node_walk_order(&self) -> (order: Vec<u64>)
        ensures
            is_walk_order(order@, self.nodes@),
    {
        let ghost all = vstd::std_specs::hash::spec_keys_iter(&self.nodes).remaining();
        let mut order: Vec<u64> = Vec::new();
        for k in it: self.nodes.keys()
            invariant
                it.seq() == all,
                order@ == all.take(it.index() as int).map_values(|r: &u64| *r),
        {
            order.push(*k);
        }
        proof {
            assert(all.take(all.len() as int) =~= all);
            assert(order@ =~= all.unref());
        }
        order
    }
}


/// The feature parts of the nodes stored under the keys in `order`, in that order.
pub open spec fn spec_feature_rows(nodes: Map<u64, Node>, order: Seq<u64>) -> Seq<NodeFeatures> {
    order.map_values(|k: u64| spec_node_features(nodes[k]))
}

impl GraphIR {
    /// The feature parts of the nodes stored under the keys in `order`, one
    /// row per key, in that order.
    pub fn feature_rows(&self, order: &Vec<u64>) -> (rows: Vec<NodeFeatures>)
        requires
            forall|i: int| 0 <= i < order@.len() ==> self.nodes@.contains_key(#[trigger] order@[i]),
        ensures
            rows@ == spec_feature_rows(self.nodes@, order@),
    {
        let mut rows: Vec<NodeFeatures> = Vec::new();
        let n = order.len();
        let mut i: usize = 0;
        while i < n
            invariant
                n == order@.len(),
                i <= n,
                forall|a: int| 0 <= a < order@.len() ==> self.nodes@.contains_key(#[trigger] order@[a]),
                rows@ == spec_feature_rows(self.nodes@, order@.take(i as int)),
            decreases n - i,
        {
            let key = order[i];
            match self.nodes.get(&key) {
                Some(node) => {
                    let f = self.node_features(node);
                    rows.push(f);
                },
                None => {
                    assert(self.nodes@.contains_key(order@[i as int]));
                },
            }
            assert(order@.take(i + 1) =~= order@.take(i as int).push(key));
            assert(spec_feature_rows(self.nodes@, order@.take(i + 1)) =~= spec_feature_rows(
                self.nodes@,
                order@.take(i as int),
            ).push(spec_node_features(self.nodes@[key])));
            i = i + 1;
        }
        assert(order@.take(n as int) =~= order@);
        rows
    }

    /// One feature row per node. When the ids are exactly the numbers below
    /// the node count (as in a well-formed graph), row `i` describes the node
    /// with id `i`, so that the rows line up with the rows and columns of the
    /// adjacency matrix; otherwise the rows follow the walk of the node map.
    pub fn to_feature_rows(&self) -> (rows: Vec<NodeFeatures>)
        ensures
            exists|order: Seq<u64>|
                is_walk_order(order, self.nodes@) && rows@ == spec_feature_rows(self.nodes@, order),
            self.wf() ==> rows@ == spec_feature_rows(self.nodes@, ids_below(self.next_id)),
    {
        let n = self.nodes.len();
        let mut order: Vec<u64> = Vec::new();
        let mut dense = true;
        let mut i: usize = 0;
        while i < n
            invariant
                n == self.nodes@.len(),
                i <= n,
                order@ == ids_below(i as u64),
                dense ==> forall|k: u64| k < i ==> self.nodes@.contains_key(k),
                !dense ==> exists|k: u64| k < n && !self.nodes@.contains_key(k),
            decreases n - i,
        {
            let key = i as u64;
            if !self.nodes.contains_key(&key) {
                dense = false;
            }
            order.push(key);
            assert(order@ =~= ids_below((i + 1) as u64));
            i = i + 1;
        }
        if dense {
            proof {
                assert forall|x: u64| u64s_below(n as u64).contains(x) implies order@.to_set().contains(x) by {
                    assert(order@[x as int] == x);
                }
                assert(order@.to_set() =~= u64s_below(n as u64));
                lemma_u64s_below_len(n as u64);
                if self.wf() {
                    lemma_wf_node_count(self);
                }
                assert(u64s_below(n as u64).subset_of(self.nodes@.dom()));
                vstd::set_lib::lemma_subset_equality(u64s_below(n as u64), self.nodes@.dom());
                assert forall|a: int, b: int| 0 <= a < order@.len() && 0 <= b < order@.len() && a != b implies
                    order@[a] != order@[b] by {}
                assert(order@.no_duplicates());
                assert forall|k: int| 0 <= k < order@.len() implies self.nodes@.contains_key(#[trigger] order@[k]) by {
                    assert(order@[k] < n);
                }
            }
            self.feature_rows(&order)
        } else {
            proof {
                if self.wf() {
                    lemma_wf_node_count(self);
                    let k = choose|k: u64| k < n && !self.nodes@.contains_key(k);
                    assert(self.nodes@.contains_key(k));
                }
            }
            let walk = self.node_walk_order();
            assert forall|k: int| 0 <= k < walk@.len() implies self.nodes@.contains_key(
                #[trigger] walk@[k],
            ) by {
                assert(walk@.to_set().contains(walk@[k]));
            }
            self.feature_rows(&walk)
        }
    }
}


/// The mathematical content of a graph.
pub struct IrView {
    pub nodes: Map<u64, Node>,
    pub edges: Seq<Edge>,
    pub entry: NodeId,
    pub exit: NodeId,
    pub next_id: u64,
}

impl View for GraphIR {
    type V = IrView;

    open spec fn view(&self) -> IrView {
        IrView {
            nodes: self.nodes@,
            edges: self.edges@,
            entry: self.entry,
            exit: self.exit,
            next_id: self.next_id,
        }
    }
}

impl Clone for GraphIR {
    /// A copy holding the same nodes and edges.
    fn clone(&self) -> (r: Self)
        ensures
            r@ == self@,
    {
        let edges = self.edges.clone();
        proof {
            assert forall|i: int| 0 <= i < edges@.len() implies edges@[i] == self.edges@[i] by {
                assert(cloned::<Edge>(self.edges@[i], edges@[i]));
            }
            assert(edges@ =~= self.edges@);
        }
        GraphIR {
            nodes: self.nodes.clone(),
            edges: edges,
            entry: self.entry,
            exit: self.exit,
            next_id: self.next_id,
        }
    }
}

} // verus!
