//! The graph of a layout request and the steps that build it in the engine.
use std::collections::{HashMap, HashSet};

use vstd::prelude::*;

use crate::options::PyLayoutOptions;
use crate::wire::{MAX_EDGE_COUNT, MAX_NODE_COUNT};

verus! {

broadcast use vstd::std_specs::hash::group_hash_axioms;

/// A node to lay out. The size is given by binary64 bit patterns.
#[derive(Clone, Copy, Debug, PartialEq, Eq, Structural)]
pub struct NodeSpec {
    pub id: u32,
    pub width: u64,
    pub height: u64,
}

impl NodeSpec {
    pub fn new(id: u32, width: u64, height: u64) -> (n: Self)
        ensures
            n == (NodeSpec { id, width, height }),
    {
        NodeSpec { id, width, height }
    }
}

/// A directed edge between two nodes, named by their ids.
#[derive(Clone, Copy, Debug, PartialEq, Eq, Structural)]
pub struct EdgeSpec {
    pub id: u32,
    pub source: u32,
    pub target: u32,
}

impl EdgeSpec {
    pub fn new(id: u32, source: u32, target: u32) -> (e: Self)
        ensures
            e == (EdgeSpec { id, source, target }),
    {
        EdgeSpec { id, source, target }
    }
}

/// The side of a node on which a port sits.
#[derive(Clone, Copy, Debug, PartialEq, Eq, Structural)]
pub enum PortSide {
    West,
    East,
}

/// One step in building a graph. Nodes and ports are named by the order in
/// which they were added, each counted from zero.
#[derive(Clone, Copy, Debug, PartialEq, Eq, Structural)]
pub enum GraphOp {
    AddNode { width: u64, height: u64 },
    AddPort { node: usize, side: PortSide },
    AddEdge { source: usize, target: usize },
}

/// Why a set of nodes and edges is not a graph.
#[derive(Clone, Copy, Debug, PartialEq, Eq, Structural)]
pub enum GraphFault {
    DuplicateNode { id: u32 },
    DuplicateEdge { id: u32 },
    UnknownNode { edge: u32, node: u32 },
}

/// The first of two faults, if there is one.
pub open spec fn or_else<E>(first: Option<E>, second: Option<E>) -> Option<E> {
    match first {
        Some(e) => Some(e),
        None => second,
    }
}

/// Some node has this id.
pub open spec fn has_node(nodes: Seq<NodeSpec>, id: u32) -> bool {
    exists|i: int| 0 <= i < nodes.len() && (#[trigger] nodes[i]).id == id
}

/// Some edge has this id.
pub open spec fn has_edge(edges: Seq<EdgeSpec>, id: u32) -> bool {
    exists|k: int| 0 <= k < edges.len() && (#[trigger] edges[k]).id == id
}

/// Where the node with this id stands.
pub open spec fn position(nodes: Seq<NodeSpec>, id: u32) -> int {
    choose|i: int| 0 <= i < nodes.len() && (#[trigger] nodes[i]).id == id
}

/// What is wrong with adding a node behind those already there.
pub open spec fn node_fault(before: Seq<NodeSpec>, n: NodeSpec) -> Option<GraphFault> {
    if has_node(before, n.id) {
        Some(GraphFault::DuplicateNode { id: n.id })
    } else {
        None
    }
}

/// What is wrong with adding an edge behind those already there.
pub open spec fn edge_fault(
    nodes: Seq<NodeSpec>,
    before: Seq<EdgeSpec>,
    e: EdgeSpec,
) -> Option<GraphFault> {
    if has_edge(before, e.id) {
        Some(GraphFault::DuplicateEdge { id: e.id })
    } else if !has_node(nodes, e.source) {
        Some(GraphFault::UnknownNode { edge: e.id, node: e.source })
    } else if !has_node(nodes, e.target) {
        Some(GraphFault::UnknownNode { edge: e.id, node: e.target })
    } else {
        None
    }
}

/// The fault of the first node that has one.
pub open spec fn first_node_fault(nodes: Seq<NodeSpec>) -> Option<GraphFault>
    decreases nodes.len(),
{
    if nodes.len() == 0 {
        None
    } else {
        or_else(first_node_fault(nodes.drop_last()), node_fault(nodes.drop_last(), nodes.last()))
    }
}

/// The fault of the first edge that has one.
pub open spec fn first_edge_fault(nodes: Seq<NodeSpec>, edges: Seq<EdgeSpec>) -> Option<GraphFault>
    decreases edges.len(),
{
    if edges.len() == 0 {
        None
    } else {
        or_else(
            first_edge_fault(nodes, edges.drop_last()),
            edge_fault(nodes, edges.drop_last(), edges.last()),
        )
    }
}

/// The first fault of a set of nodes and edges, nodes before edges.
pub open spec fn graph_fault(nodes: Seq<NodeSpec>, edges: Seq<EdgeSpec>) -> Option<GraphFault> {
    or_else(first_node_fault(nodes), first_edge_fault(nodes, edges))
}

/// Node ids are distinct, edge ids are distinct, and every edge joins two nodes
/// that are there.
pub open spec fn is_graph(nodes: Seq<NodeSpec>, edges: Seq<EdgeSpec>) -> bool {
    &&& forall|i: int, j: int| 0 <= i < j < nodes.len() ==> nodes[i].id != nodes[j].id
    &&& forall|i: int, j: int| 0 <= i < j < edges.len() ==> edges[i].id != edges[j].id
    &&& forall|k: int|
        0 <= k < edges.len() ==> has_node(nodes, (#[trigger] edges[k]).source) && has_node(
            nodes,
            edges[k].target,
        )
}

/// The port of node `i` at which edges arrive.
pub open spec fn west_port(i: int) -> int {
    2 * i
}

/// The port of node `i` from which edges leave.
pub open spec fn east_port(i: int) -> int {
    2 * i + 1
}

/// The steps that add nodes: each node is followed by its two ports.
pub open spec fn node_ops(nodes: Seq<NodeSpec>) -> Seq<GraphOp>
    decreases nodes.len(),
{
    if nodes.len() == 0 {
        Seq::empty()
    } else {
        let i = (nodes.len() - 1) as usize;
        let n = nodes.last();
        node_ops(nodes.drop_last()) + seq![
            GraphOp::AddNode { width: n.width, height: n.height },
            GraphOp::AddPort { node: i, side: PortSide::West },
            GraphOp::AddPort { node: i, side: PortSide::East },
        ]
    }
}

/// The step that adds an edge: from the east port of its source to the west
/// port of its target.
pub open spec fn edge_op(nodes: Seq<NodeSpec>, e: EdgeSpec) -> GraphOp {
    GraphOp::AddEdge {
        source: east_port(position(nodes, e.source)) as usize,
        target: west_port(position(nodes, e.target)) as usize,
    }
}

/// The steps that build a graph in the engine, in order.
pub open spec fn graph_ops(nodes: Seq<NodeSpec>, edges: Seq<EdgeSpec>) -> Seq<GraphOp> {
    node_ops(nodes) + edges.map_values(|e: EdgeSpec| edge_op(nodes, e))
}

/// The fault-free prefix property: without a fault no id repeats.
proof fn lemma_distinct_nodes(nodes: Seq<NodeSpec>)
    ensures
        first_node_fault(nodes) is None <==> (forall|i: int, j: int|
            0 <= i < j < nodes.len() ==> nodes[i].id != nodes[j].id),
    decreases nodes.len(),
{
    if nodes.len() > 0 {
        let rest = nodes.drop_last();
        let last = nodes.len() - 1;
        lemma_distinct_nodes(rest);
        if first_node_fault(nodes) is None {
            assert forall|i: int, j: int| 0 <= i < j < nodes.len() implies nodes[i].id
                != nodes[j].id by {
                assert(rest[i] == nodes[i]);
                if j < last {
                    assert(rest[j] == nodes[j]);
                } else {
                    assert(!has_node(rest, nodes[last].id));
                }
            }
        } else if forall|i: int, j: int|
            0 <= i < j < nodes.len() ==> nodes[i].id != nodes[j].id {
            assert forall|i: int, j: int| 0 <= i < j < rest.len() implies rest[i].id
                != rest[j].id by {
                assert(nodes[i].id != nodes[j].id);
            }
            let i = choose|i: int| 0 <= i < rest.len() && (#[trigger] rest[i]).id == nodes.last().id;
            assert(nodes[i].id != nodes[last].id);
            assert(false);
        }
    }
}

proof fn lemma_valid_edges(nodes: Seq<NodeSpec>, edges: Seq<EdgeSpec>)
    ensures
        first_edge_fault(nodes, edges) is None <==> {
            &&& forall|i: int, j: int| 0 <= i < j < edges.len() ==> edges[i].id != edges[j].id
            &&& forall|k: int|
                0 <= k < edges.len() ==> has_node(nodes, (#[trigger] edges[k]).source) && has_node(
                    nodes,
                    edges[k].target,
                )
        },
    decreases edges.len(),
{
    if edges.len() > 0 {
        let rest = edges.drop_last();
        let last = edges.len() - 1;
        lemma_valid_edges(nodes, rest);
        if first_edge_fault(nodes, edges) is None {
            assert forall|i: int, j: int| 0 <= i < j < edges.len() implies edges[i].id
                != edges[j].id by {
                assert(rest[i] == edges[i]);
                if j < last {
                    assert(rest[j] == edges[j]);
                } else {
                    assert(!has_edge(rest, edges[last].id));
                }
            }
            assert forall|k: int| 0 <= k < edges.len() implies has_node(
                nodes,
                (#[trigger] edges[k]).source,
            ) && has_node(nodes, edges[k].target) by {
                if k < last {
                    assert(rest[k] == edges[k]);
                }
            }
        } else if {
            &&& forall|i: int, j: int| 0 <= i < j < edges.len() ==> edges[i].id != edges[j].id
            &&& forall|k: int|
                0 <= k < edges.len() ==> has_node(nodes, (#[trigger] edges[k]).source) && has_node(
                    nodes,
                    edges[k].target,
                )
        } {
            assert forall|i: int, j: int| 0 <= i < j < rest.len() implies rest[i].id
                != rest[j].id by {
                assert(edges[i].id != edges[j].id);
            }
            assert forall|k: int| 0 <= k < rest.len() implies has_node(
                nodes,
                (#[trigger] rest[k]).source,
            ) && has_node(nodes, rest[k].target) by {
                assert(rest[k] == edges[k]);
            }
            assert(has_node(nodes, edges[last].source) && has_node(nodes, edges[last].target));
            let i = choose|i: int| 0 <= i < rest.len() && (#[trigger] rest[i]).id == edges.last().id;
            assert(edges[i].id != edges[last].id);
            assert(false);
        }
    }
}

/// Nodes and edges are accepted exactly when they form a graph: ids are
/// distinct and every edge joins nodes that are there.
pub proof fn law_accepted_iff_graph(nodes: Seq<NodeSpec>, edges: Seq<EdgeSpec>)
    ensures
        graph_fault(nodes, edges) is None <==> is_graph(nodes, edges),
{
    lemma_distinct_nodes(nodes);
    lemma_valid_edges(nodes, edges);
}

/// With distinct ids, a node stands at its own position.
pub proof fn lemma_position(nodes: Seq<NodeSpec>, i: int)
    requires
        first_node_fault(nodes) is None,
        0 <= i < nodes.len(),
    ensures
        position(nodes, nodes[i].id) == i,
{
    lemma_distinct_nodes(nodes);
    let p = position(nodes, nodes[i].id);
    assert(0 <= p < nodes.len() && nodes[p].id == nodes[i].id);
    if p < i {
        assert(nodes[p].id != nodes[i].id);
    } else if i < p {
        assert(nodes[i].id != nodes[p].id);
    }
}

/// Adding an edge to nodes that stay the same leaves the steps for the earlier
/// edges as they were.
proof fn lemma_ops_push_edge(nodes: Seq<NodeSpec>, edges: Seq<EdgeSpec>, e: EdgeSpec)
    ensures
        graph_ops(nodes, edges.push(e)) == graph_ops(nodes, edges).push(edge_op(nodes, e)),
{
    assert(graph_ops(nodes, edges.push(e)) =~= graph_ops(nodes, edges).push(edge_op(nodes, e)));
}

/// What a layout request asks for.
pub struct Request {
    pub nodes: Seq<NodeSpec>,
    pub edges: Seq<EdgeSpec>,
    pub options: Option<PyLayoutOptions>,
}

/// An accepted layout request, together with the steps that build its graph.
#[derive(Debug)]
pub struct LayoutContext {
    nodes: Vec<NodeSpec>,
    edges: Vec<EdgeSpec>,
    ops: Vec<GraphOp>,
    options: Option<PyLayoutOptions>,
}

impl View for LayoutContext {
    type V = Request;

    closed spec fn view(&self) -> Request {
        Request { nodes: self.nodes@, edges: self.edges@, options: self.options }
    }
}

impl LayoutContext {
    #[verifier::type_invariant]
    spec fn inv(self) -> bool {
        &&& self.nodes@.len() <= MAX_NODE_COUNT
        &&& self.edges@.len() <= MAX_EDGE_COUNT
        &&& graph_fault(self.nodes@, self.edges@) is None
        &&& self.ops@ == graph_ops(self.nodes@, self.edges@)
    }

    /// The nodes to lay out.
    pub fn nodes(&self) -> (nodes: &Vec<NodeSpec>)
        ensures
            nodes@ == self@.nodes,
            nodes@.len() <= MAX_NODE_COUNT,
            graph_fault(self@.nodes, self@.edges) is None,
    {
        proof {
            use_type_invariant(self);
        }
        &self.nodes
    }

    /// The edges to route.
    pub fn edges(&self) -> (edges: &Vec<EdgeSpec>)
        ensures
            edges@ == self@.edges,
            edges@.len() <= MAX_EDGE_COUNT,
            graph_fault(self@.nodes, self@.edges) is None,
    {
        proof {
            use_type_invariant(self);
        }
        &self.edges
    }

    /// The steps that build the graph in the engine.
    pub fn ops(&self) -> (ops: &Vec<GraphOp>)
        ensures
            ops@ == graph_ops(self@.nodes, self@.edges),
            self@.nodes.len() <= MAX_NODE_COUNT,
            graph_fault(self@.nodes, self@.edges) is None,
    {
        proof {
            use_type_invariant(self);
        }
        &self.ops
    }

    /// The options that the engine is to run with, if any were given.
    pub fn options(&self) -> (options: Option<PyLayoutOptions>)
        ensures
            options == self@.options,
    {
        self.options
    }
}

/// A graph under construction: nodes first, then edges.
pub(crate) struct GraphBuilder {
    nodes: Vec<NodeSpec>,
    edges: Vec<EdgeSpec>,
    ops: Vec<GraphOp>,
    index: HashMap<u32, usize>,
    edge_ids: HashSet<u32>,
}

impl GraphBuilder {
    /// The nodes added so far.
    pub(crate) closed spec fn nodes(self) -> Seq<NodeSpec> {
        self.nodes@
    }

    /// The edges added so far.
    pub(crate) closed spec fn edges(self) -> Seq<EdgeSpec> {
        self.edges@
    }

    /// What was added forms a graph, and the lookup tables and steps match it.
    pub(crate) closed spec fn wf(self) -> bool {
        &&& self.nodes@.len() <= MAX_NODE_COUNT
        &&& self.edges@.len() <= MAX_EDGE_COUNT
        &&& first_node_fault(self.nodes@) is None
        &&& first_edge_fault(self.nodes@, self.edges@) is None
        &&& forall|id: u32| #[trigger] self.index@.contains_key(id) <==> has_node(self.nodes@, id)
        &&& forall|id: u32| #[trigger]
            self.index@.contains_key(id) ==> self.index@[id] == position(self.nodes@, id)
        &&& forall|id: u32| #[trigger] self.edge_ids@.contains(id) <==> has_edge(self.edges@, id)
        &&& self.ops@ == graph_ops(self.nodes@, self.edges@)
    }

    pub(crate) fn new() -> (b: GraphBuilder)
        ensures
            b.wf(),
            b.nodes().len() == 0,
            b.edges().len() == 0,
    {
        let b = GraphBuilder {
            nodes: Vec::new(),
            edges: Vec::new(),
            ops: Vec::new(),
            index: HashMap::new(),
            edge_ids: HashSet::new(),
        };
        assert(b.ops@ =~= graph_ops(b.nodes@, b.edges@));
        b
    }

    /// Adds a node with a west and an east port.
    pub(crate) fn add_node(&mut self, n: NodeSpec) -> (res: Result<(), GraphFault>)
        requires
            old(self).wf(),
            old(self).nodes().len() < MAX_NODE_COUNT,
            old(self).edges().len() == 0,
        ensures
            match res {
                Ok(_) => {
                    &&& node_fault(old(self).nodes(), n) is None
                    &&& final(self).wf()
                    &&& final(self).nodes() == old(self).nodes().push(n)
                    &&& final(self).edges().len() == 0
                },
                Err(f) => node_fault(old(self).nodes(), n) == Some(f),
            },
    {
        let i: usize = self.nodes.len();
        let ghost before = self.nodes@;
        if self.index.insert(n.id, i).is_some() {
            return Err(GraphFault::DuplicateNode { id: n.id });
        }
        self.ops.push(GraphOp::AddNode { width: n.width, height: n.height });
        self.ops.push(GraphOp::AddPort { node: i, side: PortSide::West });
        self.ops.push(GraphOp::AddPort { node: i, side: PortSide::East });
        self.nodes.push(n);
        proof {
            let nodes = self.nodes@;
            assert(nodes.drop_last() =~= before);
            assert(self.ops@ =~= graph_ops(nodes, self.edges@));
            assert forall|id: u32| #[trigger]
                self.index@.contains_key(id) <==> has_node(nodes, id) by {
                if has_node(before, id) {
                    let j = choose|j: int|
                        0 <= j < before.len() && (#[trigger] before[j]).id == id;
                    assert(nodes[j].id == id);
                }
                if id == n.id {
                    assert(nodes[i as int].id == id);
                }
                if has_node(nodes, id) && id != n.id {
                    let j = choose|j: int| 0 <= j < nodes.len() && (#[trigger] nodes[j]).id == id;
                    assert(before[j].id == id);
                }
            }
            assert forall|id: u32| #[trigger]
                self.index@.contains_key(id) implies self.index@[id] == position(nodes, id) by {
                if id == n.id {
                    lemma_position(nodes, i as int);
                } else {
                    let j = position(before, id);
                    assert(has_node(before, id));
                    assert(nodes[j].id == id);
                    lemma_position(nodes, j);
                }
            }
        }
        Ok(())
    }

    /// Adds an edge from the east port of its source to the west port of its
    /// target.
    pub(crate) fn add_edge(&mut self, e: EdgeSpec) -> (res: Result<(), GraphFault>)
        requires
            old(self).wf(),
            old(self).edges().len() < MAX_EDGE_COUNT,
        ensures
            match res {
                Ok(_) => {
                    &&& edge_fault(old(self).nodes(), old(self).edges(), e) is None
                    &&& final(self).wf()
                    &&& final(self).nodes() == old(self).nodes()
                    &&& final(self).edges() == old(self).edges().push(e)
                },
                Err(f) => edge_fault(old(self).nodes(), old(self).edges(), e) == Some(f),
            },
    {
        let ghost before = self.edges@;
        if !self.edge_ids.insert(e.id) {
            return Err(GraphFault::DuplicateEdge { id: e.id });
        }
        let source: usize = match self.index.get(&e.source) {
            Some(i) => *i,
            None => {
                return Err(GraphFault::UnknownNode { edge: e.id, node: e.source });
            },
        };
        let target: usize = match self.index.get(&e.target) {
            Some(i) => *i,
            None => {
                return Err(GraphFault::UnknownNode { edge: e.id, node: e.target });
            },
        };
        self.ops.push(GraphOp::AddEdge { source: 2 * source + 1, target: 2 * target });
        self.edges.push(e);
        proof {
            let edges = self.edges@;
            assert(edges.drop_last() =~= before);
            lemma_ops_push_edge(self.nodes@, before, e);
            assert forall|id: u32| #[trigger]
                self.edge_ids@.contains(id) <==> has_edge(edges, id) by {
                if has_edge(before, id) {
                    let j = choose|j: int|
                        0 <= j < before.len() && (#[trigger] before[j]).id == id;
                    assert(edges[j].id == id);
                }
                if id == e.id {
                    assert(edges[before.len() as int].id == id);
                }
                if has_edge(edges, id) && id != e.id {
                    let j = choose|j: int| 0 <= j < edges.len() && (#[trigger] edges[j]).id == id;
                    assert(before[j].id == id);
                }
            }
        }
        Ok(())
    }

    /// Closes construction.
    pub(crate) fn finish(self, options: Option<PyLayoutOptions>) -> (ctx: LayoutContext)
        requires
            self.wf(),
        ensures
            ctx@ == (Request { nodes: self.nodes(), edges: self.edges(), options }),
    {
        LayoutContext { nodes: self.nodes, edges: self.edges, ops: self.ops, options }
    }
}

/// The sizes of the nodes that these steps add, in order.
pub open spec fn nodes_added(ops: Seq<GraphOp>) -> Seq<(u64, u64)>
    decreases ops.len(),
{
    if ops.len() == 0 {
        Seq::empty()
    } else {
        let rest = nodes_added(ops.drop_last());
        match ops.last() {
            GraphOp::AddNode { width, height } => rest.push((width, height)),
            _ => rest,
        }
    }
}

/// The node and the side of each port that these steps add, in order.
pub open spec fn ports_added(ops: Seq<GraphOp>) -> Seq<(usize, PortSide)>
    decreases ops.len(),
{
    if ops.len() == 0 {
        Seq::empty()
    } else {
        let rest = ports_added(ops.drop_last());
        match ops.last() {
            GraphOp::AddPort { node, side } => rest.push((node, side)),
            _ => rest,
        }
    }
}

/// The two ports of each edge that these steps add, in order.
pub open spec fn edges_added(ops: Seq<GraphOp>) -> Seq<(usize, usize)>
    decreases ops.len(),
{
    if ops.len() == 0 {
        Seq::empty()
    } else {
        let rest = edges_added(ops.drop_last());
        match ops.last() {
            GraphOp::AddEdge { source, target } => rest.push((source, target)),
            _ => rest,
        }
    }
}

/// What a step adds is attached to what the steps before it added.
pub open spec fn attached(before: Seq<GraphOp>, op: GraphOp) -> bool {
    match op {
        GraphOp::AddNode { .. } => true,
        GraphOp::AddPort { node, .. } => node < nodes_added(before).len(),
        GraphOp::AddEdge { source, target } => source < ports_added(before).len() && target
            < ports_added(before).len(),
    }
}

proof fn lemma_node_steps(nodes: Seq<NodeSpec>)
    requires
        nodes.len() <= MAX_NODE_COUNT,
    ensures
        ({
            let ops = node_ops(nodes);
            &&& nodes_added(ops) == nodes.map_values(|n: NodeSpec| (n.width, n.height))
            &&& ports_added(ops).len() == 2 * nodes.len()
            &&& forall|i: int|
                0 <= i < nodes.len() ==> #[trigger] ports_added(ops)[west_port(i)] == (
                    i as usize,
                    PortSide::West,
                )
            &&& forall|i: int|
                0 <= i < nodes.len() ==> #[trigger] ports_added(ops)[east_port(i)] == (
                    i as usize,
                    PortSide::East,
                )
            &&& edges_added(ops).len() == 0
            &&& forall|t: int|
                0 <= t < ops.len() ==> attached(#[trigger] ops.take(t), ops[t])
        }),
    decreases nodes.len(),
{
    let ops = node_ops(nodes);
    if nodes.len() > 0 {
        let front = nodes.drop_last();
        let n = nodes.last();
        let i = (nodes.len() - 1) as usize;
        let rest = node_ops(front);
        lemma_node_steps(front);
        let one = rest.push(GraphOp::AddNode { width: n.width, height: n.height });
        let two = one.push(GraphOp::AddPort { node: i, side: PortSide::West });
        let three = two.push(GraphOp::AddPort { node: i, side: PortSide::East });
        assert(ops =~= three);
        assert(three.drop_last() =~= two);
        assert(two.drop_last() =~= one);
        assert(one.drop_last() =~= rest);
        assert(nodes_added(three) == nodes_added(two));
        assert(nodes_added(two) == nodes_added(one));
        assert(nodes_added(ops) =~= nodes.map_values(|n: NodeSpec| (n.width, n.height)));
        assert(ports_added(one) == ports_added(rest));
        assert(ports_added(two) == ports_added(rest).push((i, PortSide::West)));
        assert(ports_added(three) == ports_added(two).push((i, PortSide::East)));
        assert(edges_added(three) == edges_added(two));
        assert(edges_added(two) == edges_added(one));
        assert(edges_added(one) == edges_added(rest));
        assert forall|j: int| 0 <= j < nodes.len() implies #[trigger] ports_added(
            ops,
        )[west_port(j)] == (j as usize, PortSide::West) by {
            if j < i {
                assert(ports_added(rest)[west_port(j)] == (j as usize, PortSide::West));
            }
        }
        assert forall|j: int| 0 <= j < nodes.len() implies #[trigger] ports_added(
            ops,
        )[east_port(j)] == (j as usize, PortSide::East) by {
            if j < i {
                assert(ports_added(rest)[east_port(j)] == (j as usize, PortSide::East));
            }
        }
        assert forall|t: int| 0 <= t < ops.len() implies attached(
            #[trigger] ops.take(t),
            ops[t],
        ) by {
            if t < rest.len() {
                assert(ops.take(t) =~= rest.take(t));
                assert(ops[t] == rest[t]);
            } else if t == rest.len() + 1 {
                assert(ops.take(t) =~= one);
            } else if t == rest.len() + 2 {
                assert(ops.take(t) =~= two);
            }
        }
    }
}

/// Replaying the steps gives the graph that was asked for. Nodes come in order
/// with their sizes. Each has a west and an east port. Each edge leaves the east
/// port of its source and enters the west port of its target. No step speaks of
/// a node or a port that an earlier step has not added.
pub proof fn law_steps_build_the_graph(nodes: Seq<NodeSpec>, edges: Seq<EdgeSpec>)
    requires
        nodes.len() <= MAX_NODE_COUNT,
        graph_fault(nodes, edges) is None,
    ensures
        ({
            let ops = graph_ops(nodes, edges);
            &&& nodes_added(ops) == nodes.map_values(|n: NodeSpec| (n.width, n.height))
            &&& ports_added(ops).len() == 2 * nodes.len()
            &&& forall|i: int|
                0 <= i < nodes.len() ==> #[trigger] ports_added(ops)[west_port(i)] == (
                    i as usize,
                    PortSide::West,
                )
            &&& forall|i: int|
                0 <= i < nodes.len() ==> #[trigger] ports_added(ops)[east_port(i)] == (
                    i as usize,
                    PortSide::East,
                )
            &&& edges_added(ops).len() == edges.len()
            &&& forall|k: int|
                0 <= k < edges.len() ==> {
                    let (source, target) = #[trigger] edges_added(ops)[k];
                    let (from, out_side) = ports_added(ops)[source as int];
                    let (to, in_side) = ports_added(ops)[target as int];
                    &&& source < ports_added(ops).len() && out_side == PortSide::East
                    &&& target < ports_added(ops).len() && in_side == PortSide::West
                    &&& from < nodes.len() && nodes[from as int].id == edges[k].source
                    &&& to < nodes.len() && nodes[to as int].id == edges[k].target
                }
            &&& forall|t: int|
                0 <= t < ops.len() ==> attached(#[trigger] ops.take(t), ops[t])
        }),
    decreases edges.len(),
{
    let ops = graph_ops(nodes, edges);
    lemma_node_steps(nodes);
    if edges.len() == 0 {
        assert(ops =~= node_ops(nodes));
    } else {
        let front = edges.drop_last();
        let e = edges.last();
        let rest = graph_ops(nodes, front);
        law_steps_build_the_graph(nodes, front);
        lemma_ops_push_edge(nodes, front, e);
        assert(front.push(e) =~= edges);
        assert(ops.drop_last() =~= rest);
        let i = position(nodes, e.source);
        let j = position(nodes, e.target);
        law_accepted_iff_graph(nodes, edges);
        assert(edges[edges.len() - 1] == e);
        assert(has_node(nodes, e.source) && has_node(nodes, e.target));
        assert(ops.last() == edge_op(nodes, e));
        assert(nodes_added(ops) == nodes_added(rest));
        assert(ports_added(ops) == ports_added(rest));
        assert(edges_added(ops) == edges_added(rest).push(
            (east_port(i) as usize, west_port(j) as usize),
        ));
        assert(ports_added(ops)[east_port(i)] == (i as usize, PortSide::East));
        assert(ports_added(ops)[west_port(j)] == (j as usize, PortSide::West));
        assert forall|k: int| 0 <= k < edges.len() implies {
            let (source, target) = #[trigger] edges_added(ops)[k];
            let (from, out_side) = ports_added(ops)[source as int];
            let (to, in_side) = ports_added(ops)[target as int];
            &&& source < ports_added(ops).len() && out_side == PortSide::East
            &&& target < ports_added(ops).len() && in_side == PortSide::West
            &&& from < nodes.len() && nodes[from as int].id == edges[k].source
            &&& to < nodes.len() && nodes[to as int].id == edges[k].target
        } by {
            if k < front.len() {
                assert(edges_added(ops)[k] == edges_added(rest)[k]);
                assert(front[k] == edges[k]);
            }
        }
        assert forall|t: int| 0 <= t < ops.len() implies attached(
            #[trigger] ops.take(t),
            ops[t],
        ) by {
            if t < rest.len() {
                assert(ops.take(t) =~= rest.take(t));
                assert(ops[t] == rest[t]);
            } else {
                assert(ops.take(t) =~= rest);
            }
        }
    }
}

} // verus!
