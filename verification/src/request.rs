//! Checking layout requests, writing them to the wire and building their
//! graphs.
use vstd::prelude::*;

use crate::decode::{
    all_described, decode_fault, declared_edges, declared_nodes, declared_records, edge_at,
    finite_geometry, header_fault, lemma_edge_fault_stays, lemma_finite_records, node_at,
    wire_faults,
};
use crate::error::RequestError;
use crate::float_bits::{finite, is_finite, is_positive, positive, ZERO};
use crate::graph::{
    first_edge_fault, first_node_fault, graph_fault, or_else, EdgeSpec, GraphBuilder, GraphFault,
    LayoutContext, NodeSpec, Request,
};
use crate::options::PyLayoutOptions;
use crate::wire::{
    edge_bytes, edge_section, header_bytes, joined, lemma_edge_section, lemma_header_fields,
    lemma_node_section, lemma_section_lengths, node_bytes, node_section, write_edge, write_header,
    write_node, EdgeRecord, Header, NodeRecord, EDGE_RECORD_SIZE, HEADER_SIZE, MAX_EDGE_COUNT,
    MAX_NODE_COUNT, NODE_RECORD_SIZE,
};

verus! {

/// What is wrong with a node's size.
pub open spec fn size_fault(n: NodeSpec) -> Option<RequestError> {
    if !finite(n.width) || !finite(n.height) {
        Some(RequestError::NonFiniteSize { id: n.id })
    } else if !positive(n.width) || !positive(n.height) {
        Some(RequestError::NonPositiveSize { id: n.id, width: n.width, height: n.height })
    } else {
        None
    }
}

/// The size fault of the first node that has one.
pub open spec fn first_size_fault(nodes: Seq<NodeSpec>) -> Option<RequestError>
    decreases nodes.len(),
{
    if nodes.len() == 0 {
        None
    } else {
        or_else(first_size_fault(nodes.drop_last()), size_fault(nodes.last()))
    }
}

/// What is wrong with a request before its ids are looked at: too many nodes,
/// too many edges, or a node whose size is not a positive number.
pub open spec fn request_fault(nodes: Seq<NodeSpec>, edges: Seq<EdgeSpec>) -> Option<RequestError> {
    if nodes.len() > MAX_NODE_COUNT {
        Some(RequestError::TooManyNodes { count: nodes.len() as usize })
    } else if edges.len() > MAX_EDGE_COUNT {
        Some(RequestError::TooManyEdges { count: edges.len() as usize })
    } else {
        first_size_fault(nodes)
    }
}

/// A graph fault, if there is one, as a request error.
pub open spec fn request_faults(f: Option<GraphFault>) -> Option<RequestError> {
    match f {
        Some(f) => Some(RequestError::Graph(f)),
        None => None,
    }
}

/// The first fault of a request, its ids included.
pub open spec fn build_fault(nodes: Seq<NodeSpec>, edges: Seq<EdgeSpec>) -> Option<RequestError> {
    or_else(request_fault(nodes, edges), request_faults(graph_fault(nodes, edges)))
}

/// The record that asks for a node to be laid out.
pub open spec fn node_request(n: NodeSpec) -> NodeRecord {
    NodeRecord { id: n.id, width: n.width, height: n.height, x: ZERO, y: ZERO }
}

/// The record that asks for an edge to be routed.
pub open spec fn edge_request(e: EdgeSpec) -> EdgeRecord {
    EdgeRecord { id: e.id, source: e.source, target: e.target, bend_start: 0, bend_length: 0 }
}

/// The header of a request.
pub open spec fn request_header(nodes: Seq<NodeSpec>, edges: Seq<EdgeSpec>) -> Header {
    Header {
        flags: 0,
        node_count: nodes.len() as u32,
        edge_count: edges.len() as u32,
        bend_count: 0,
        width: ZERO,
        height: ZERO,
    }
}

/// The node records of a request.
pub open spec fn node_requests(nodes: Seq<NodeSpec>) -> Seq<NodeRecord> {
    nodes.map_values(|n: NodeSpec| node_request(n))
}

/// The edge records of a request.
pub open spec fn edge_requests(edges: Seq<EdgeSpec>) -> Seq<EdgeRecord> {
    edges.map_values(|e: EdgeSpec| edge_request(e))
}

/// A request as an LRD1 buffer.
pub open spec fn request_bytes(nodes: Seq<NodeSpec>, edges: Seq<EdgeSpec>) -> Seq<u8> {
    header_bytes(request_header(nodes, edges)) + node_section(node_requests(nodes))
        + edge_section(edge_requests(edges))
}

proof fn lemma_size_fault_stays(nodes: Seq<NodeSpec>, i: int)
    requires
        0 <= i <= nodes.len(),
        first_size_fault(nodes.take(i)) is Some,
    ensures
        first_size_fault(nodes) == first_size_fault(nodes.take(i)),
    decreases nodes.len(),
{
    if i == nodes.len() {
        assert(nodes.take(i) =~= nodes);
    } else {
        assert(nodes.drop_last().take(i) =~= nodes.take(i));
        lemma_size_fault_stays(nodes.drop_last(), i);
    }
}

proof fn lemma_id_fault_stays(nodes: Seq<NodeSpec>, i: int)
    requires
        0 <= i <= nodes.len(),
        first_node_fault(nodes.take(i)) is Some,
    ensures
        first_node_fault(nodes) == first_node_fault(nodes.take(i)),
    decreases nodes.len(),
{
    if i == nodes.len() {
        assert(nodes.take(i) =~= nodes);
    } else {
        assert(nodes.drop_last().take(i) =~= nodes.take(i));
        lemma_id_fault_stays(nodes.drop_last(), i);
    }
}

/// A request without a size fault has positive finite sizes throughout.
pub proof fn law_accepted_sizes(nodes: Seq<NodeSpec>)
    ensures
        first_size_fault(nodes) is None <==> (forall|i: int|
            0 <= i < nodes.len() ==> positive((#[trigger] nodes[i]).width) && positive(
                nodes[i].height,
            )),
    decreases nodes.len(),
{
    if nodes.len() > 0 {
        let rest = nodes.drop_last();
        law_accepted_sizes(rest);
        if first_size_fault(nodes) is None {
            assert forall|i: int| 0 <= i < nodes.len() implies positive((#[trigger] nodes[i]).width)
                && positive(nodes[i].height) by {
                if i < rest.len() {
                    assert(rest[i] == nodes[i]);
                }
            }
        } else if forall|i: int|
            0 <= i < nodes.len() ==> positive((#[trigger] nodes[i]).width) && positive(
                nodes[i].height,
            ) {
            assert forall|i: int| 0 <= i < rest.len() implies positive((#[trigger] rest[i]).width)
                && positive(rest[i].height) by {
                assert(rest[i] == nodes[i]);
            }
            assert(nodes.last() == nodes[nodes.len() - 1]);
            assert(false);
        }
    }
}

/// Checks the counts and the node sizes of a request.
pub fn check_request(nodes: &[NodeSpec], edges: &[EdgeSpec]) -> (res: Result<(), RequestError>)
    ensures
        match res {
            Ok(_) => request_fault(nodes@, edges@) is None,
            Err(e) => request_fault(nodes@, edges@) == Some(e),
        },
{
    let n: usize = nodes.len();
    let m: usize = edges.len();
    if n > MAX_NODE_COUNT as usize {
        return Err(RequestError::TooManyNodes { count: n });
    }
    if m > MAX_EDGE_COUNT as usize {
        return Err(RequestError::TooManyEdges { count: m });
    }
    let mut i: usize = 0;
    while i < n
        invariant
            i <= n,
            n == nodes@.len(),
            n <= MAX_NODE_COUNT,
            edges@.len() <= MAX_EDGE_COUNT,
            first_size_fault(nodes@.take(i as int)) is None,
        decreases n - i,
    {
        let node: NodeSpec = nodes[i];
        proof {
            let taken = nodes@.take(i + 1);
            assert(taken.drop_last() =~= nodes@.take(i as int));
            assert(taken.last() == node);
            if first_size_fault(taken) is Some {
                lemma_size_fault_stays(nodes@, i + 1);
            }
        }
        if !is_finite(node.width) || !is_finite(node.height) {
            return Err(RequestError::NonFiniteSize { id: node.id });
        }
        if !is_positive(node.width) || !is_positive(node.height) {
            return Err(
                RequestError::NonPositiveSize {
                    id: node.id,
                    width: node.width,
                    height: node.height,
                },
            );
        }
        i = i + 1;
    }
    assert(nodes@.take(n as int) =~= nodes@);
    Ok(())
}

/// Writes a request as an LRD1 buffer.
pub fn build_lrd1(nodes: &[NodeSpec], edges: &[EdgeSpec]) -> (res: Result<Vec<u8>, RequestError>)
    ensures
        match res {
            Ok(buf) => request_fault(nodes@, edges@) is None && buf@ == request_bytes(
                nodes@,
                edges@,
            ),
            Err(e) => request_fault(nodes@, edges@) == Some(e),
        },
{
    match check_request(nodes, edges) {
        Ok(_) => {},
        Err(e) => {
            return Err(e);
        },
    }
    let n: usize = nodes.len();
    let m: usize = edges.len();
    let mut buf: Vec<u8> = Vec::with_capacity(
        HEADER_SIZE + n * NODE_RECORD_SIZE + m * EDGE_RECORD_SIZE,
    );
    write_header(
        &mut buf,
        &Header {
            flags: 0,
            node_count: n as u32,
            edge_count: m as u32,
            bend_count: 0,
            width: ZERO,
            height: ZERO,
        },
    );
    let ghost header = header_bytes(request_header(nodes@, edges@));
    let ghost node_parts = node_requests(nodes@).map_values(|n: NodeRecord| node_bytes(n));
    let ghost edge_parts = edge_requests(edges@).map_values(|e: EdgeRecord| edge_bytes(e));
    let mut i: usize = 0;
    assert(buf@ =~= header + joined(node_parts.take(0)));
    while i < n
        invariant
            i <= n,
            n == nodes@.len(),
            node_parts == node_requests(nodes@).map_values(|n: NodeRecord| node_bytes(n)),
            buf@ == header + joined(node_parts.take(i as int)),
        decreases n - i,
    {
        let node: NodeSpec = nodes[i];
        write_node(
            &mut buf,
            &NodeRecord { id: node.id, width: node.width, height: node.height, x: ZERO, y: ZERO },
        );
        proof {
            let taken = node_parts.take(i + 1);
            assert(taken.drop_last() =~= node_parts.take(i as int));
            assert(buf@ =~= header + joined(taken));
        }
        i = i + 1;
    }
    assert(node_parts.take(n as int) =~= node_parts);
    let ghost front = buf@;
    let mut k: usize = 0;
    assert(buf@ =~= front + joined(edge_parts.take(0)));
    while k < m
        invariant
            k <= m,
            m == edges@.len(),
            edge_parts == edge_requests(edges@).map_values(|e: EdgeRecord| edge_bytes(e)),
            buf@ == front + joined(edge_parts.take(k as int)),
        decreases m - k,
    {
        let edge: EdgeSpec = edges[k];
        write_edge(
            &mut buf,
            &EdgeRecord {
                id: edge.id,
                source: edge.source,
                target: edge.target,
                bend_start: 0,
                bend_length: 0,
            },
        );
        proof {
            let taken = edge_parts.take(k + 1);
            assert(taken.drop_last() =~= edge_parts.take(k as int));
            assert(buf@ =~= front + joined(taken));
        }
        k = k + 1;
    }
    assert(edge_parts.take(m as int) =~= edge_parts);
    Ok(buf)
}

/// Checks a request and prepares the steps that build its graph.
pub fn build_graph(
    nodes: &[NodeSpec],
    edges: &[EdgeSpec],
    options: Option<PyLayoutOptions>,
) -> (res: Result<LayoutContext, RequestError>)
    ensures
        match res {
            Ok(ctx) => {
                &&& build_fault(nodes@, edges@) is None
                &&& ctx@ == (Request { nodes: nodes@, edges: edges@, options })
            },
            Err(e) => build_fault(nodes@, edges@) == Some(e),
        },
{
    match check_request(nodes, edges) {
        Ok(_) => {},
        Err(e) => {
            return Err(e);
        },
    }
    let n: usize = nodes.len();
    let m: usize = edges.len();
    let mut builder: GraphBuilder = GraphBuilder::new();
    let mut i: usize = 0;
    assert(builder.nodes() =~= nodes@.take(0));
    while i < n
        invariant
            i <= n,
            n == nodes@.len(),
            n <= MAX_NODE_COUNT,
            request_fault(nodes@, edges@) is None,
            builder.wf(),
            builder.nodes() == nodes@.take(i as int),
            builder.edges().len() == 0,
            first_node_fault(nodes@.take(i as int)) is None,
        decreases n - i,
    {
        let node: NodeSpec = nodes[i];
        proof {
            let taken = nodes@.take(i + 1);
            assert(taken.drop_last() =~= nodes@.take(i as int));
            assert(taken.last() == node);
            assert(taken =~= nodes@.take(i as int).push(node));
            if first_node_fault(taken) is Some {
                lemma_id_fault_stays(nodes@, i + 1);
            }
        }
        match builder.add_node(node) {
            Ok(_) => {},
            Err(f) => {
                return Err(RequestError::Graph(f));
            },
        }
        i = i + 1;
    }
    assert(nodes@.take(n as int) =~= nodes@);
    let mut k: usize = 0;
    assert(builder.edges() =~= edges@.take(0));
    while k < m
        invariant
            k <= m,
            m == edges@.len(),
            m <= MAX_EDGE_COUNT,
            request_fault(nodes@, edges@) is None,
            first_node_fault(nodes@) is None,
            builder.wf(),
            builder.nodes() == nodes@,
            builder.edges() == edges@.take(k as int),
            first_edge_fault(nodes@, edges@.take(k as int)) is None,
        decreases m - k,
    {
        let edge: EdgeSpec = edges[k];
        proof {
            let taken = edges@.take(k + 1);
            assert(taken.drop_last() =~= edges@.take(k as int));
            assert(taken.last() == edge);
            assert(taken =~= edges@.take(k as int).push(edge));
            if first_edge_fault(nodes@, taken) is Some {
                lemma_edge_fault_stays(nodes@, edges@, k + 1);
            }
        }
        match builder.add_edge(edge) {
            Ok(_) => {},
            Err(f) => {
                return Err(RequestError::Graph(f));
            },
        }
        k = k + 1;
    }
    assert(edges@.take(m as int) =~= edges@);
    Ok(builder.finish(options))
}

/// What was written to the wire is what is read from it: a request buffer has
/// no header fault and describes exactly the nodes and edges that went in.
#[verifier::rlimit(40)]
pub proof fn law_request_round_trip(nodes: Seq<NodeSpec>, edges: Seq<EdgeSpec>)
    requires
        nodes.len() <= MAX_NODE_COUNT,
        edges.len() <= MAX_EDGE_COUNT,
    ensures
        header_fault(request_bytes(nodes, edges)) is None,
        declared_records(request_bytes(nodes, edges)) == node_requests(nodes),
        declared_nodes(request_bytes(nodes, edges)) == nodes,
        declared_edges(request_bytes(nodes, edges)) == edges,
{
    let s = request_bytes(nodes, edges);
    let head = request_header(nodes, edges);
    let node_part = node_section(node_requests(nodes));
    let edge_part = edge_section(edge_requests(edges));
    let n = nodes.len() as int;
    lemma_section_lengths(node_requests(nodes), edge_requests(edges), Seq::empty());
    assert(header_bytes(head).len() == HEADER_SIZE);
    assert(s.take(HEADER_SIZE as int) =~= header_bytes(head));
    lemma_header_fields(s, head);
    assert(s.subrange(40, 40int + node_part.len()) =~= node_part);
    assert(s.subrange(40 + 40 * n, 40 + 40 * n + edge_part.len()) =~= edge_part);
    assert forall|i: int| 0 <= i < n implies node_at(s, i) == node_requests(nodes)[i] by {
        lemma_node_section(s, 40, node_requests(nodes), i);
    }
    assert(declared_records(s) =~= node_requests(nodes));
    assert(declared_nodes(s) =~= nodes);
    assert forall|k: int| 0 <= k < edges.len() implies edge_at(s, k) == edges[k] by {
        lemma_edge_section(s, 40 + 40 * n, edge_requests(edges), k);
    }
    assert(declared_edges(s) =~= edges);
}

/// A request that passes its checks meets the same fate over the wire as in
/// memory: decoding its buffer fails exactly when building its graph does, and
/// for the same fault.
#[verifier::rlimit(40)]
pub proof fn law_wire_and_memory_agree(nodes: Seq<NodeSpec>, edges: Seq<EdgeSpec>)
    requires
        request_fault(nodes, edges) is None,
    ensures
        decode_fault(request_bytes(nodes, edges)) == wire_faults(graph_fault(nodes, edges)),
        declared_nodes(request_bytes(nodes, edges)) == nodes,
        declared_edges(request_bytes(nodes, edges)) == edges,
{
    law_request_round_trip(nodes, edges);
    law_accepted_sizes(nodes);
    let records = node_requests(nodes);
    assert forall|i: int| 0 <= i < records.len() implies finite_geometry(#[trigger] records[i]) by {
        assert(positive(nodes[i].width) && positive(nodes[i].height));
    }
    lemma_finite_records(records);
    assert(all_described(records) =~= nodes);
}

} // verus!
