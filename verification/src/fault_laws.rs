//! Which requests and buffers are accepted, and what is reported of the others.
use vstd::prelude::*;

use crate::decode::{
    all_described, decode_fault, declared_edges, declared_nodes, declared_records,
    finite_geometry, first_node_record_fault, node_at,
};
use crate::error::{wire_fault, FfiError, LayoutError, RecordKind, RequestError};
use crate::float_bits::{finite, positive, zero};
use crate::graph::{
    first_edge_fault, first_node_fault, graph_fault, graph_ops, has_edge, has_node,
    law_accepted_iff_graph, node_ops, position, EdgeSpec, GraphFault, GraphOp, NodeSpec, PortSide,
};
use crate::laws::{law_numbers_in_buffers, number32, number64};
use crate::layout::declared_request;
use crate::layout_ext::{direct_fault, flat_fault};
use crate::request::{build_fault, first_size_fault, law_accepted_sizes, request_fault};
use crate::wire::{magic, u32_at, NodeRecord};

verus! {

/// The exponent bits are all set: an infinity or a NaN.
pub open spec fn unbounded(bits: u64) -> bool {
    bits & 0x7ff0_0000_0000_0000 == 0x7ff0_0000_0000_0000
}

/// The sign bit is clear, some other bit is set, and the exponent bits are not
/// all set.
pub open spec fn above_zero(bits: u64) -> bool {
    bits & 0x8000_0000_0000_0000 == 0 && bits != 0 && !unbounded(bits)
}

/// Numbers are told apart by their sign, exponent and fraction bits.
pub proof fn law_number_bits(bits: u64)
    ensures
        finite(bits) <==> !unbounded(bits),
        positive(bits) <==> above_zero(bits),
        zero(bits) <==> bits & 0x7fff_ffff_ffff_ffff == 0,
{
    assert(bits < 0x8000_0000_0000_0000u64 ==> (bits < 0x7ff0_0000_0000_0000u64 <==> bits
        & 0x7ff0_0000_0000_0000u64 != 0x7ff0_0000_0000_0000u64)) by (bit_vector);
    assert(bits >= 0x8000_0000_0000_0000u64 ==> (bits - 0x8000_0000_0000_0000u64
        < 0x7ff0_0000_0000_0000u64 <==> bits & 0x7ff0_0000_0000_0000u64
        != 0x7ff0_0000_0000_0000u64)) by (bit_vector);
    assert(bits < 0x8000_0000_0000_0000u64 <==> bits & 0x8000_0000_0000_0000u64 == 0)
        by (bit_vector);
    assert((bits == 0 || bits == 0x8000_0000_0000_0000u64) <==> bits & 0x7fff_ffff_ffff_ffffu64
        == 0) by (bit_vector);
}

/// A node has this id among the first `upto`.
pub open spec fn node_among(nodes: Seq<NodeSpec>, upto: int, id: u32) -> bool {
    exists|j: int| 0 <= j < upto && (#[trigger] nodes[j]).id == id
}

/// An edge has this id among the first `upto`.
pub open spec fn edge_among(edges: Seq<EdgeSpec>, upto: int, id: u32) -> bool {
    exists|j: int| 0 <= j < upto && (#[trigger] edges[j]).id == id
}

/// The first `upto` nodes have ids of their own.
pub open spec fn ids_differ(nodes: Seq<NodeSpec>, upto: int) -> bool {
    forall|i: int, j: int| 0 <= i < j < upto ==> nodes[i].id != nodes[j].id
}

/// The first `upto` edges have ids of their own and join nodes that are there.
pub open spec fn edges_hold(nodes: Seq<NodeSpec>, edges: Seq<EdgeSpec>, upto: int) -> bool {
    &&& forall|i: int, j: int| 0 <= i < j < upto ==> edges[i].id != edges[j].id
    &&& forall|k: int|
        0 <= k < upto ==> node_among(nodes, nodes.len() as int, (#[trigger] edges[k]).source)
            && node_among(nodes, nodes.len() as int, edges[k].target)
}

/// What is wrong with edge `k`, the ones before it being in order: its id first,
/// then its source, then its target.
pub open spec fn reported_of_edge(
    fault: Option<GraphFault>,
    nodes: Seq<NodeSpec>,
    edges: Seq<EdgeSpec>,
    k: int,
) -> bool {
    let e = edges[k];
    let n = nodes.len() as int;
    if edge_among(edges, k, e.id) {
        fault == Some(GraphFault::DuplicateEdge { id: e.id })
    } else if !node_among(nodes, n, e.source) {
        fault == Some(GraphFault::UnknownNode { edge: e.id, node: e.source })
    } else {
        fault == Some(GraphFault::UnknownNode { edge: e.id, node: e.target })
    }
}

proof fn lemma_among(nodes: Seq<NodeSpec>, edges: Seq<EdgeSpec>, id: u32)
    ensures
        has_node(nodes, id) <==> node_among(nodes, nodes.len() as int, id),
        has_edge(edges, id) <==> edge_among(edges, edges.len() as int, id),
{
}

/// Nodes whose ids differ, with edges that hold, have no fault, and no others.
pub proof fn law_graphs_are_accepted(nodes: Seq<NodeSpec>, edges: Seq<EdgeSpec>)
    ensures
        graph_fault(nodes, edges) is None <==> ids_differ(nodes, nodes.len() as int) && edges_hold(
            nodes,
            edges,
            edges.len() as int,
        ),
{
    law_accepted_iff_graph(nodes, edges);
    assert(forall|id: u32| has_node(nodes, id) <==> node_among(nodes, nodes.len() as int, id));
}

proof fn lemma_first_bad_node(nodes: Seq<NodeSpec>, i: int)
    requires
        0 <= i < nodes.len(),
        ids_differ(nodes, i),
        node_among(nodes, i, nodes[i].id),
    ensures
        first_node_fault(nodes) == Some(GraphFault::DuplicateNode { id: nodes[i].id }),
    decreases nodes.len(),
{
    let before = nodes.drop_last();
    if i == nodes.len() - 1 {
        law_graphs_are_accepted(before, Seq::empty());
        let j = choose|j: int| 0 <= j < i && (#[trigger] nodes[j]).id == nodes[i].id;
        assert(before[j].id == nodes[i].id);
        assert(has_node(before, nodes[i].id));
    } else {
        let j = choose|j: int| 0 <= j < i && (#[trigger] nodes[j]).id == nodes[i].id;
        assert(before[j].id == before[i].id);
        lemma_first_bad_node(before, i);
    }
}

/// Of nodes that share an id, the first that repeats one is reported.
pub proof fn law_repeated_node(nodes: Seq<NodeSpec>, edges: Seq<EdgeSpec>, i: int)
    requires
        0 <= i < nodes.len(),
        ids_differ(nodes, i),
        node_among(nodes, i, nodes[i].id),
    ensures
        graph_fault(nodes, edges) == Some(GraphFault::DuplicateNode { id: nodes[i].id }),
{
    lemma_first_bad_node(nodes, i);
}

proof fn lemma_first_bad_edge(nodes: Seq<NodeSpec>, edges: Seq<EdgeSpec>, k: int)
    requires
        0 <= k < edges.len(),
        edges_hold(nodes, edges, k),
        edge_among(edges, k, edges[k].id) || !node_among(
            nodes,
            nodes.len() as int,
            edges[k].source,
        ) || !node_among(nodes, nodes.len() as int, edges[k].target),
    ensures
        reported_of_edge(first_edge_fault(nodes, edges), nodes, edges, k),
    decreases edges.len(),
{
    let before = edges.drop_last();
    if k == edges.len() - 1 {
        assert forall|c: int| 0 <= c < before.len() implies has_node(
            nodes,
            (#[trigger] before[c]).source,
        ) && has_node(nodes, before[c].target) by {
            assert(before[c] == edges[c]);
        }
        lemma_no_edge_fault(nodes, before);
        lemma_among(nodes, before, edges[k].source);
        lemma_among(nodes, before, edges[k].target);
        lemma_among(nodes, before, edges[k].id);
        if edge_among(edges, k, edges[k].id) {
            let j = choose|j: int| 0 <= j < k && (#[trigger] edges[j]).id == edges[k].id;
            assert(before[j].id == edges[k].id);
        } else if has_edge(before, edges[k].id) {
            let j = choose|j: int|
                0 <= j < before.len() && (#[trigger] before[j]).id == edges[k].id;
            assert(edges[j].id == edges[k].id);
        }
    } else {
        assert(before[k] == edges[k]);
        assert forall|c: int| 0 <= c < k implies node_among(
            nodes,
            nodes.len() as int,
            (#[trigger] before[c]).source,
        ) && node_among(nodes, nodes.len() as int, before[c].target) by {
            assert(before[c] == edges[c]);
        }
        assert(edge_among(edges, k, edges[k].id) <==> edge_among(before, k, edges[k].id)) by {
            if edge_among(edges, k, edges[k].id) {
                let j = choose|j: int| 0 <= j < k && (#[trigger] edges[j]).id == edges[k].id;
                assert(before[j].id == edges[k].id);
            }
            if edge_among(before, k, edges[k].id) {
                let j = choose|j: int| 0 <= j < k && (#[trigger] before[j]).id == edges[k].id;
                assert(edges[j].id == edges[k].id);
            }
        }
        lemma_first_bad_edge(nodes, before, k);
    }
}

proof fn lemma_no_edge_fault(nodes: Seq<NodeSpec>, edges: Seq<EdgeSpec>)
    requires
        forall|i: int, j: int| 0 <= i < j < edges.len() ==> edges[i].id != edges[j].id,
        forall|k: int|
            0 <= k < edges.len() ==> has_node(nodes, (#[trigger] edges[k]).source) && has_node(
                nodes,
                edges[k].target,
            ),
    ensures
        first_edge_fault(nodes, edges) is None,
    decreases edges.len(),
{
    if edges.len() > 0 {
        let before = edges.drop_last();
        let last = edges.len() - 1;
        assert forall|k: int| 0 <= k < before.len() implies has_node(
            nodes,
            (#[trigger] before[k]).source,
        ) && has_node(nodes, before[k].target) by {
            assert(before[k] == edges[k]);
        }
        lemma_no_edge_fault(nodes, before);
        assert(edges[last] == edges.last());
        if has_edge(before, edges.last().id) {
            let j = choose|j: int|
                0 <= j < before.len() && (#[trigger] before[j]).id == edges.last().id;
            assert(edges[j].id != edges[last].id);
        }
    }
}

/// Of edges that are out of order, the first is reported: a repeated id, else an
/// unknown source, else an unknown target.
pub proof fn law_bad_edge(nodes: Seq<NodeSpec>, edges: Seq<EdgeSpec>, k: int)
    requires
        ids_differ(nodes, nodes.len() as int),
        0 <= k < edges.len(),
        edges_hold(nodes, edges, k),
        edge_among(edges, k, edges[k].id) || !node_among(
            nodes,
            nodes.len() as int,
            edges[k].source,
        ) || !node_among(nodes, nodes.len() as int, edges[k].target),
    ensures
        reported_of_edge(graph_fault(nodes, edges), nodes, edges, k),
{
    law_graphs_are_accepted(nodes, Seq::empty());
    lemma_first_bad_edge(nodes, edges, k);
}

/// Too many nodes are reported before all else, then too many edges, each with
/// how many there are.
pub proof fn law_too_many(nodes: Seq<NodeSpec>, edges: Seq<EdgeSpec>)
    requires
        nodes.len() <= usize::MAX,
        edges.len() <= usize::MAX,
    ensures
        nodes.len() > 1_000_000 ==> (request_fault(nodes, edges) matches Some(
            RequestError::TooManyNodes { count },
        ) && count == nodes.len()),
        nodes.len() <= 1_000_000 && edges.len() > 2_000_000 ==> (request_fault(
            nodes,
            edges,
        ) matches Some(RequestError::TooManyEdges { count }) && count == edges.len()),
{
}

/// The first `upto` nodes have sizes above zero.
pub open spec fn sizes_hold(nodes: Seq<NodeSpec>, upto: int) -> bool {
    forall|i: int|
        0 <= i < upto ==> above_zero((#[trigger] nodes[i]).width) && above_zero(nodes[i].height)
}

/// Requests within the limits are checked for sizes: all above zero pass.
pub proof fn law_sizes_are_accepted(nodes: Seq<NodeSpec>, edges: Seq<EdgeSpec>)
    requires
        nodes.len() <= 1_000_000,
        edges.len() <= 2_000_000,
    ensures
        request_fault(nodes, edges) is None <==> sizes_hold(nodes, nodes.len() as int),
{
    law_accepted_sizes(nodes);
    assert forall|i: int| 0 <= i < nodes.len() implies (positive((#[trigger] nodes[i]).width)
        <==> above_zero(nodes[i].width)) && (positive(nodes[i].height) <==> above_zero(
        nodes[i].height,
    )) by {
        law_number_bits(nodes[i].width);
        law_number_bits(nodes[i].height);
    }
}

proof fn lemma_first_bad_size(nodes: Seq<NodeSpec>, i: int)
    requires
        0 <= i < nodes.len(),
        sizes_hold(nodes, i),
        !above_zero(nodes[i].width) || !above_zero(nodes[i].height),
    ensures
        first_size_fault(nodes) == if unbounded(nodes[i].width) || unbounded(nodes[i].height) {
            Some(RequestError::NonFiniteSize { id: nodes[i].id })
        } else {
            Some(
                RequestError::NonPositiveSize {
                    id: nodes[i].id,
                    width: nodes[i].width,
                    height: nodes[i].height,
                },
            )
        },
    decreases nodes.len(),
{
    let before = nodes.drop_last();
    law_number_bits(nodes[i].width);
    law_number_bits(nodes[i].height);
    assert forall|j: int| 0 <= j < i implies above_zero((#[trigger] before[j]).width) && above_zero(
        before[j].height,
    ) by {
        assert(before[j] == nodes[j]);
    }
    if i == nodes.len() - 1 {
        law_accepted_sizes(before);
        assert forall|j: int| 0 <= j < before.len() implies positive((#[trigger] before[j]).width)
            && positive(before[j].height) by {
            law_number_bits(before[j].width);
            law_number_bits(before[j].height);
        }
        assert(nodes.last() == nodes[i]);
    } else {
        assert(before[i] == nodes[i]);
        lemma_first_bad_size(before, i);
    }
}

/// Of sizes that are not above zero, the first is reported: as not finite where
/// it is an infinity or a NaN, else as not positive, with the size as given.
pub proof fn law_bad_size(nodes: Seq<NodeSpec>, edges: Seq<EdgeSpec>, i: int)
    requires
        nodes.len() <= 1_000_000,
        edges.len() <= 2_000_000,
        0 <= i < nodes.len(),
        sizes_hold(nodes, i),
        !above_zero(nodes[i].width) || !above_zero(nodes[i].height),
    ensures
        request_fault(nodes, edges) == if unbounded(nodes[i].width) || unbounded(nodes[i].height) {
            Some(RequestError::NonFiniteSize { id: nodes[i].id })
        } else {
            Some(
                RequestError::NonPositiveSize {
                    id: nodes[i].id,
                    width: nodes[i].width,
                    height: nodes[i].height,
                },
            )
        },
{
    lemma_first_bad_size(nodes, i);
}

/// What is wrong with the sizes or counts of a request is reported before what is
/// wrong with its ids, whichever way the request goes.
pub proof fn law_faults_of_requests(nodes: Seq<NodeSpec>, edges: Seq<EdgeSpec>)
    ensures
        request_fault(nodes, edges) matches Some(e) ==> {
            &&& build_fault(nodes, edges) == Some(e)
            &&& direct_fault(nodes, edges) == Some(LayoutError::Request(e))
            &&& flat_fault(nodes, edges) == Some(LayoutError::Request(e))
        },
        request_fault(nodes, edges) is None ==> match graph_fault(nodes, edges) {
            None => {
                &&& build_fault(nodes, edges) is None
                &&& direct_fault(nodes, edges) is None
                &&& flat_fault(nodes, edges) is None
            },
            Some(f) => {
                &&& build_fault(nodes, edges) == Some(RequestError::Graph(f))
                &&& direct_fault(nodes, edges) == Some(LayoutError::Request(RequestError::Graph(f)))
                &&& flat_fault(nodes, edges) == Some(
                    LayoutError::Wire(
                        match f {
                            GraphFault::DuplicateNode { id } => FfiError::DuplicateId {
                                kind: RecordKind::Node,
                                id,
                            },
                            GraphFault::DuplicateEdge { id } => FfiError::DuplicateId {
                                kind: RecordKind::Edge,
                                id,
                            },
                            GraphFault::UnknownNode { edge, node } => {
                                FfiError::InvalidNodeReference { edge_id: edge, node_id: node }
                            },
                        },
                    ),
                )
            },
        },
{
}

/// The wire reports a graph fault with the ids that it is about.
pub proof fn law_wire_faults(id: u32, edge: u32, node: u32)
    ensures
        wire_fault(GraphFault::DuplicateNode { id }) == (FfiError::DuplicateId {
            kind: RecordKind::Node,
            id,
        }),
        wire_fault(GraphFault::DuplicateEdge { id }) == (FfiError::DuplicateId {
            kind: RecordKind::Edge,
            id,
        }),
        wire_fault(GraphFault::UnknownNode { edge, node }) == (FfiError::InvalidNodeReference {
            edge_id: edge,
            node_id: node,
        }),
{
}

proof fn lemma_node_ops(nodes: Seq<NodeSpec>, i: int)
    requires
        nodes.len() <= 1_000_000,
        0 <= i < nodes.len(),
    ensures
        node_ops(nodes).len() == 3 * nodes.len(),
        node_ops(nodes)[3 * i] == (GraphOp::AddNode {
            width: nodes[i].width,
            height: nodes[i].height,
        }),
        node_ops(nodes)[3 * i + 1] == (GraphOp::AddPort { node: i as usize, side: PortSide::West }),
        node_ops(nodes)[3 * i + 2] == (GraphOp::AddPort { node: i as usize, side: PortSide::East }),
    decreases nodes.len(),
{
    let before = nodes.drop_last();
    if before.len() == 0 {
        assert(node_ops(before).len() == 0);
    } else if i < before.len() {
        lemma_node_ops(before, i);
    } else {
        lemma_node_ops(before, 0);
    }
}

/// Three steps for each node and one for each edge build a graph, no more.
pub proof fn law_step_count(nodes: Seq<NodeSpec>, edges: Seq<EdgeSpec>)
    requires
        nodes.len() <= 1_000_000,
    ensures
        graph_ops(nodes, edges).len() == 3 * nodes.len() + edges.len(),
{
    if nodes.len() > 0 {
        lemma_node_ops(nodes, 0);
    }
}

/// The graph is built node by node, each with its size and followed by its west
/// and its east port.
pub proof fn law_node_steps(nodes: Seq<NodeSpec>, edges: Seq<EdgeSpec>, i: int)
    requires
        nodes.len() <= 1_000_000,
        0 <= i < nodes.len(),
    ensures
        ({
            let ops = graph_ops(nodes, edges);
            &&& ops.len() == 3 * nodes.len() + edges.len()
            &&& ops[3 * i] == (GraphOp::AddNode { width: nodes[i].width, height: nodes[i].height })
            &&& ops[3 * i + 1] == (GraphOp::AddPort { node: i as usize, side: PortSide::West })
            &&& ops[3 * i + 2] == (GraphOp::AddPort { node: i as usize, side: PortSide::East })
        }),
{
    lemma_node_ops(nodes, i);
}

/// Then every edge is added, from the east port of its source to the west port of
/// its target: ports are counted through, west before east.
pub proof fn law_edge_steps(nodes: Seq<NodeSpec>, edges: Seq<EdgeSpec>, k: int)
    requires
        nodes.len() <= 1_000_000,
        graph_fault(nodes, edges) is None,
        0 <= k < edges.len(),
    ensures
        ({
            let ops = graph_ops(nodes, edges);
            let n = nodes.len();
            &&& ops.len() == 3 * n + edges.len()
            &&& ops[3 * n + k] matches GraphOp::AddEdge { source, target } && {
                &&& source % 2 == 1 && source / 2 < n
                &&& nodes[source as int / 2].id == edges[k].source
                &&& target % 2 == 0 && target / 2 < n
                &&& nodes[target as int / 2].id == edges[k].target
            }
        }),
{
    law_graphs_are_accepted(nodes, edges);
    let e = edges[k];
    lemma_among(nodes, edges, e.source);
    lemma_among(nodes, edges, e.target);
    assert(has_node(nodes, e.source) && has_node(nodes, e.target));
    let i = position(nodes, e.source);
    let j = position(nodes, e.target);
    assert(0 <= i < nodes.len() && nodes[i].id == e.source);
    assert(0 <= j < nodes.len() && nodes[j].id == e.target);
    lemma_node_ops(nodes, i);
}

/// How many nodes a buffer says it has.
pub open spec fn nodes_said(s: Seq<u8>) -> int {
    number32(s, 12)
}

/// How many edges a buffer says it has.
pub open spec fn edges_said(s: Seq<u8>) -> int {
    number32(s, 16)
}

/// A header is in order: the magic, the version, counts within the limits, and as
/// many bytes as the counts ask for.
pub open spec fn header_holds(s: Seq<u8>) -> bool {
    &&& s.len() >= 40
    &&& s[0] == 0x4C && s[1] == 0x52 && s[2] == 0x44 && s[3] == 0x31
    &&& number32(s, 4) == 1
    &&& nodes_said(s) <= 1_000_000
    &&& edges_said(s) <= 2_000_000
    &&& number32(s, 20) <= 10_000_000
    &&& s.len() >= 40 + 40 * nodes_said(s) + 24 * edges_said(s)
}

/// A header that is not in order is reported by the first thing that is wrong
/// with it: too few bytes, the magic, the version, a count of nodes, of edges or
/// of bend points, or fewer bytes than the counts ask for.
pub proof fn law_bad_header(s: Seq<u8>)
    requires
        s.len() <= usize::MAX,
        !header_holds(s),
    ensures
        ({
            let n = nodes_said(s);
            let m = edges_said(s);
            let fault = decode_fault(s);
            if s.len() < 40 {
                fault matches Some(FfiError::BufferTooShort { expected, actual }) && expected == 40
                    && actual == s.len()
            } else if s[0] != 0x4C || s[1] != 0x52 || s[2] != 0x44 || s[3] != 0x31 {
                fault == Some(FfiError::InvalidMagic)
            } else if number32(s, 4) != 1 {
                fault matches Some(FfiError::UnsupportedVersion(v)) && v == number32(s, 4)
            } else if n > 1_000_000 {
                fault matches Some(FfiError::TooLarge { kind, count }) && kind == RecordKind::Node
                    && count == n
            } else if m > 2_000_000 {
                fault matches Some(FfiError::TooLarge { kind, count }) && kind == RecordKind::Edge
                    && count == m
            } else if number32(s, 20) > 10_000_000 {
                fault matches Some(FfiError::TooLarge { kind, count }) && kind == RecordKind::Bend
                    && count == number32(s, 20)
            } else {
                fault matches Some(FfiError::BufferTooShort { expected, actual }) && expected == 40
                    + 40 * n + 24 * m && actual == s.len()
            }
        }),
{
    lemma_header_words(s);
}

proof fn lemma_header_words(s: Seq<u8>)
    ensures
        s.len() >= 40 ==> (s.take(4) == magic() <==> s[0] == 0x4C && s[1] == 0x52 && s[2] == 0x44
            && s[3] == 0x31),
        u32_at(s, 4) == number32(s, 4),
        u32_at(s, 12) == number32(s, 12),
        u32_at(s, 16) == number32(s, 16),
        u32_at(s, 20) == number32(s, 20),
{
    law_numbers_in_buffers(s, 4, 0, 0);
    law_numbers_in_buffers(s, 12, 0, 0);
    law_numbers_in_buffers(s, 16, 0, 0);
    law_numbers_in_buffers(s, 20, 0, 0);
    if s.len() >= 40 {
        if s[0] == 0x4C && s[1] == 0x52 && s[2] == 0x44 && s[3] == 0x31 {
            assert(s.take(4) =~= magic());
        } else {
            assert(s.take(4)[0] == s[0] && s.take(4)[1] == s[1] && s.take(4)[2] == s[2] && s.take(
                4,
            )[3] == s[3]);
        }
    }
}

/// A buffer describes the nodes and edges that its records spell.
pub proof fn law_what_buffers_describe(s: Seq<u8>)
    ensures
        declared_request(s).nodes == declared_nodes(s),
        declared_request(s).edges == declared_edges(s),
        declared_request(s).options is None,
        declared_nodes(s).len() == nodes_said(s),
        forall|i: int|
            0 <= i < nodes_said(s) ==> {
                &&& (#[trigger] declared_nodes(s)[i]).id == number32(s, 40 + 40 * i)
                &&& declared_nodes(s)[i].width == number64(s, 40 + 40 * i + 8)
                &&& declared_nodes(s)[i].height == number64(s, 40 + 40 * i + 16)
            },
        declared_edges(s).len() == edges_said(s),
        forall|k: int|
            0 <= k < edges_said(s) ==> {
                let at = 40 + 40 * nodes_said(s) + 24 * k;
                &&& (#[trigger] declared_edges(s)[k]).id == number32(s, at)
                &&& declared_edges(s)[k].source == number32(s, at + 4)
                &&& declared_edges(s)[k].target == number32(s, at + 8)
            },
{
    lemma_header_words(s);
    assert forall|i: int| 0 <= i < nodes_said(s) implies {
        &&& (#[trigger] declared_nodes(s)[i]).id == number32(s, 40 + 40 * i)
        &&& declared_nodes(s)[i].width == number64(s, 40 + 40 * i + 8)
        &&& declared_nodes(s)[i].height == number64(s, 40 + 40 * i + 16)
    } by {
        lemma_node_words(s, i);
    }
    assert forall|k: int| 0 <= k < edges_said(s) implies {
        let at = 40 + 40 * nodes_said(s) + 24 * k;
        &&& (#[trigger] declared_edges(s)[k]).id == number32(s, at)
        &&& declared_edges(s)[k].source == number32(s, at + 4)
        &&& declared_edges(s)[k].target == number32(s, at + 8)
    } by {
        let at = 40 + 40 * nodes_said(s) + 24 * k;
        law_numbers_in_buffers(s, at, 0, 0);
        law_numbers_in_buffers(s, at + 4, 0, 0);
        law_numbers_in_buffers(s, at + 8, 0, 0);
    }
}

proof fn lemma_node_words(s: Seq<u8>, i: int)
    ensures
        node_at(s, i).id == number32(s, 40 + 40 * i),
        node_at(s, i).width == number64(s, 40 + 40 * i + 8),
        node_at(s, i).height == number64(s, 40 + 40 * i + 16),
        node_at(s, i).x == number64(s, 40 + 40 * i + 24),
        node_at(s, i).y == number64(s, 40 + 40 * i + 32),
{
    let at = 40 + 40 * i;
    law_numbers_in_buffers(s, at, 0, 0);
    law_numbers_in_buffers(s, at + 8, 0, 0);
    law_numbers_in_buffers(s, at + 16, 0, 0);
    law_numbers_in_buffers(s, at + 24, 0, 0);
    law_numbers_in_buffers(s, at + 32, 0, 0);
}

/// The number spelled at a place in a buffer is an infinity or a NaN.
pub open spec fn unbounded_at(s: Seq<u8>, at: int) -> bool {
    unbounded(number64(s, at) as u64)
}

/// Size or place of node record `i` is an infinity or a NaN.
pub open spec fn record_unbounded(s: Seq<u8>, i: int) -> bool {
    let at = 40 + 40 * i;
    unbounded_at(s, at + 8) || unbounded_at(s, at + 16) || unbounded_at(s, at + 24)
        || unbounded_at(s, at + 32)
}

/// The first `upto` node records have finite numbers and ids of their own.
pub open spec fn records_hold(s: Seq<u8>, upto: int) -> bool {
    &&& forall|i: int| 0 <= i < upto ==> !#[trigger] record_unbounded(s, i)
    &&& ids_differ(declared_nodes(s), upto)
}

proof fn lemma_unbounded(s: Seq<u8>, i: int)
    ensures
        finite_geometry(node_at(s, i)) <==> !record_unbounded(s, i),
{
    let r = node_at(s, i);
    lemma_node_words(s, i);
    law_number_bits(r.width);
    law_number_bits(r.height);
    law_number_bits(r.x);
    law_number_bits(r.y);
}

/// The fault of the first records, up to the one that has it.
proof fn lemma_record_faults(records: Seq<NodeRecord>, i: int)
    requires
        0 <= i < records.len(),
        forall|j: int| 0 <= j < i ==> finite_geometry(#[trigger] records[j]),
        ids_differ(all_described(records), i),
    ensures
        !finite_geometry(records[i]) ==> first_node_record_fault(records) == Some(
            FfiError::InvalidGeometry { node_id: records[i].id },
        ),
        finite_geometry(records[i]) && node_among(all_described(records), i, records[i].id)
            ==> first_node_record_fault(records) == Some(
            FfiError::DuplicateId { kind: RecordKind::Node, id: records[i].id },
        ),
    decreases records.len(),
{
    let before = records.drop_last();
    let nodes = all_described(records);
    assert(all_described(before) =~= nodes.drop_last());
    assert forall|j: int| 0 <= j < i implies finite_geometry(#[trigger] before[j]) by {
        assert(before[j] == records[j]);
    }
    if i == records.len() - 1 {
        lemma_no_record_fault(before);
        if node_among(nodes, i, records[i].id) {
            let j = choose|j: int| 0 <= j < i && (#[trigger] nodes[j]).id == records[i].id;
            assert(all_described(before)[j].id == records[i].id);
            assert(has_node(all_described(before), records[i].id));
        }
    } else {
        if node_among(nodes, i, records[i].id) {
            let j = choose|j: int| 0 <= j < i && (#[trigger] nodes[j]).id == records[i].id;
            assert(all_described(before)[j].id == records[i].id);
        }
        assert(before[i] == records[i]);
        lemma_record_faults(before, i);
    }
}

proof fn lemma_no_record_fault(records: Seq<NodeRecord>)
    requires
        forall|j: int| 0 <= j < records.len() ==> finite_geometry(#[trigger] records[j]),
        ids_differ(all_described(records), records.len() as int),
    ensures
        first_node_record_fault(records) is None,
    decreases records.len(),
{
    if records.len() > 0 {
        let before = records.drop_last();
        let nodes = all_described(records);
        let last = records.len() - 1;
        assert(all_described(before) =~= nodes.drop_last());
        assert forall|j: int| 0 <= j < before.len() implies finite_geometry(
            #[trigger] before[j],
        ) by {
            assert(before[j] == records[j]);
        }
        lemma_no_record_fault(before);
        assert(records[last] == records.last());
        if has_node(all_described(before), records.last().id) {
            let j = choose|j: int|
                0 <= j < before.len() && (#[trigger] all_described(before)[j]).id
                    == records.last().id;
            assert(nodes[j].id != nodes[last].id);
        }
    }
}

/// Of node records that are out of order, the first is reported: numbers that are
/// not finite before an id that repeats.
pub proof fn law_bad_record(s: Seq<u8>, i: int)
    requires
        header_holds(s),
        0 <= i < nodes_said(s),
        records_hold(s, i),
        record_unbounded(s, i) || node_among(declared_nodes(s), i, declared_nodes(s)[i].id),
    ensures
        decode_fault(s) == if record_unbounded(s, i) {
            Some(FfiError::InvalidGeometry { node_id: number32(s, 40 + 40 * i) as u32 })
        } else {
            Some(
                FfiError::DuplicateId {
                    kind: RecordKind::Node,
                    id: number32(s, 40 + 40 * i) as u32,
                },
            )
        },
{
    let records = declared_records(s);
    lemma_header_words(s);
    lemma_node_words(s, i);
    lemma_unbounded(s, i);
    assert forall|j: int| 0 <= j < i implies finite_geometry(#[trigger] records[j]) by {
        assert(!record_unbounded(s, j));
        lemma_unbounded(s, j);
    }
    lemma_record_faults(records, i);
}

/// Of edge records that are out of order behind nodes that are in order, the
/// first is reported.
pub proof fn law_bad_edge_record(s: Seq<u8>, k: int)
    requires
        header_holds(s),
        records_hold(s, nodes_said(s)),
        0 <= k < edges_said(s),
        edges_hold(declared_nodes(s), declared_edges(s), k),
        ({
            let nodes = declared_nodes(s);
            let edges = declared_edges(s);
            edge_among(edges, k, edges[k].id) || !node_among(
                nodes,
                nodes.len() as int,
                edges[k].source,
            ) || !node_among(nodes, nodes.len() as int, edges[k].target)
        }),
    ensures
        ({
            let nodes = declared_nodes(s);
            let edges = declared_edges(s);
            let e = edges[k];
            if edge_among(edges, k, e.id) {
                decode_fault(s) == Some(
                    FfiError::DuplicateId { kind: RecordKind::Edge, id: e.id },
                )
            } else if !node_among(nodes, nodes.len() as int, e.source) {
                decode_fault(s) == Some(
                    FfiError::InvalidNodeReference { edge_id: e.id, node_id: e.source },
                )
            } else {
                decode_fault(s) == Some(
                    FfiError::InvalidNodeReference { edge_id: e.id, node_id: e.target },
                )
            }
        }),
{
    lemma_header_words(s);
    lemma_good_records(s);
    lemma_first_bad_edge(declared_nodes(s), declared_edges(s), k);
}

proof fn lemma_good_records(s: Seq<u8>)
    requires
        records_hold(s, nodes_said(s)),
    ensures
        first_node_record_fault(declared_records(s)) is None,
{
    let records = declared_records(s);
    lemma_header_words(s);
    assert forall|j: int| 0 <= j < records.len() implies finite_geometry(#[trigger] records[j]) by {
        assert(!record_unbounded(s, j));
        lemma_unbounded(s, j);
    }
    lemma_no_record_fault(records);
}

/// A buffer is accepted when its header, its node records and its edge records
/// are in order.
pub proof fn law_good_buffer(s: Seq<u8>)
    requires
        header_holds(s),
        records_hold(s, nodes_said(s)),
        edges_hold(declared_nodes(s), declared_edges(s), edges_said(s)),
    ensures
        decode_fault(s) is None,
{
    let nodes = declared_nodes(s);
    let edges = declared_edges(s);
    lemma_header_words(s);
    lemma_good_records(s);
    assert forall|k: int| 0 <= k < edges.len() implies has_node(nodes, (#[trigger] edges[k]).source)
        && has_node(nodes, edges[k].target) by {
        lemma_among(nodes, edges, edges[k].source);
        lemma_among(nodes, edges, edges[k].target);
    }
    lemma_no_edge_fault(nodes, edges);
}

} // verus!
