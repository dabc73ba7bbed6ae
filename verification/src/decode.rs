//! Reading layout requests from LRD1 buffers.
use vstd::prelude::*;

use crate::error::{to_wire_fault, wire_fault, FfiError, RecordKind};
use crate::float_bits::{finite, is_finite};
use crate::graph::{
    first_edge_fault, first_node_fault, node_fault, or_else, EdgeSpec, GraphBuilder, GraphFault,
    LayoutContext, NodeSpec, Request,
};
use crate::wire::{
    magic, read_u32, read_u64, u32_at, u64_at, NodeRecord, EDGE_RECORD_SIZE, HEADER_SIZE,
    MAX_BEND_COUNT, MAX_EDGE_COUNT, MAX_NODE_COUNT, NODE_RECORD_SIZE, VERSION,
};

verus! {

/// How many nodes the header declares.
pub open spec fn node_count(s: Seq<u8>) -> int {
    u32_at(s, 12) as int
}

/// How many edges the header declares.
pub open spec fn edge_count(s: Seq<u8>) -> int {
    u32_at(s, 16) as int
}

/// How many bend points the header declares.
pub open spec fn bend_count(s: Seq<u8>) -> int {
    u32_at(s, 20) as int
}

/// Where node record `i` starts.
pub open spec fn node_offset(i: int) -> int {
    HEADER_SIZE + NODE_RECORD_SIZE * i
}

/// Where edge record `k` starts, behind `n` node records.
pub open spec fn edge_offset(n: int, k: int) -> int {
    node_offset(n) + EDGE_RECORD_SIZE * k
}

/// Node record `i`.
pub open spec fn node_at(s: Seq<u8>, i: int) -> NodeRecord {
    let at = node_offset(i);
    NodeRecord {
        id: u32_at(s, at),
        width: u64_at(s, at + 8),
        height: u64_at(s, at + 16),
        x: u64_at(s, at + 24),
        y: u64_at(s, at + 32),
    }
}

/// The node that a record describes.
pub open spec fn described(r: NodeRecord) -> NodeSpec {
    NodeSpec { id: r.id, width: r.width, height: r.height }
}

/// The nodes that records describe.
pub open spec fn all_described(records: Seq<NodeRecord>) -> Seq<NodeSpec> {
    records.map_values(|r: NodeRecord| described(r))
}

/// The edge that record `k` describes.
pub open spec fn edge_at(s: Seq<u8>, k: int) -> EdgeSpec {
    let at = edge_offset(node_count(s), k);
    EdgeSpec { id: u32_at(s, at), source: u32_at(s, at + 4), target: u32_at(s, at + 8) }
}

/// The node records of a buffer.
pub open spec fn declared_records(s: Seq<u8>) -> Seq<NodeRecord> {
    Seq::new(node_count(s) as nat, |i: int| node_at(s, i))
}

/// The nodes that a buffer describes.
pub open spec fn declared_nodes(s: Seq<u8>) -> Seq<NodeSpec> {
    all_described(declared_records(s))
}

/// The edges that a buffer describes.
pub open spec fn declared_edges(s: Seq<u8>) -> Seq<EdgeSpec> {
    Seq::new(edge_count(s) as nat, |k: int| edge_at(s, k))
}

/// What is wrong with the header or with the length that it declares.
pub open spec fn header_fault(s: Seq<u8>) -> Option<FfiError> {
    let expected = edge_offset(node_count(s), edge_count(s));
    if s.len() < HEADER_SIZE {
        Some(FfiError::BufferTooShort { expected: HEADER_SIZE, actual: s.len() as usize })
    } else if s.take(4) != magic() {
        Some(FfiError::InvalidMagic)
    } else if u32_at(s, 4) != VERSION {
        Some(FfiError::UnsupportedVersion(u32_at(s, 4)))
    } else if node_count(s) > MAX_NODE_COUNT {
        Some(FfiError::TooLarge { kind: RecordKind::Node, count: node_count(s) as u32 })
    } else if edge_count(s) > MAX_EDGE_COUNT {
        Some(FfiError::TooLarge { kind: RecordKind::Edge, count: edge_count(s) as u32 })
    } else if bend_count(s) > MAX_BEND_COUNT {
        Some(FfiError::TooLarge { kind: RecordKind::Bend, count: bend_count(s) as u32 })
    } else if s.len() < expected {
        Some(FfiError::BufferTooShort { expected: expected as usize, actual: s.len() as usize })
    } else {
        None
    }
}

/// A graph fault, if there is one, as the wire reports it.
pub open spec fn wire_faults(f: Option<GraphFault>) -> Option<FfiError> {
    match f {
        Some(f) => Some(wire_fault(f)),
        None => None,
    }
}

/// Size and place of a node record are finite numbers.
pub open spec fn finite_geometry(r: NodeRecord) -> bool {
    finite(r.width) && finite(r.height) && finite(r.x) && finite(r.y)
}

/// What is wrong with a node record behind those already read: numbers that are
/// not finite come before an id that repeats.
pub open spec fn node_record_fault(before: Seq<NodeSpec>, r: NodeRecord) -> Option<FfiError> {
    if !finite_geometry(r) {
        Some(FfiError::InvalidGeometry { node_id: r.id })
    } else {
        wire_faults(node_fault(before, described(r)))
    }
}

/// The fault of the first node record that has one.
pub open spec fn first_node_record_fault(records: Seq<NodeRecord>) -> Option<FfiError>
    decreases records.len(),
{
    if records.len() == 0 {
        None
    } else {
        let before = records.drop_last();
        or_else(
            first_node_record_fault(before),
            node_record_fault(all_described(before), records.last()),
        )
    }
}

/// The first fault of a buffer: in its header, its nodes, then its edges.
pub open spec fn decode_fault(s: Seq<u8>) -> Option<FfiError> {
    or_else(
        header_fault(s),
        or_else(
            first_node_record_fault(declared_records(s)),
            wire_faults(first_edge_fault(declared_nodes(s), declared_edges(s))),
        ),
    )
}

/// A fault in the first records is the fault of them all.
proof fn lemma_node_fault_stays(records: Seq<NodeRecord>, i: int)
    requires
        0 <= i <= records.len(),
        first_node_record_fault(records.take(i)) is Some,
    ensures
        first_node_record_fault(records) == first_node_record_fault(records.take(i)),
    decreases records.len(),
{
    if i == records.len() {
        assert(records.take(i) =~= records);
    } else {
        assert(records.drop_last().take(i) =~= records.take(i));
        lemma_node_fault_stays(records.drop_last(), i);
    }
}

/// Node records with finite numbers fail exactly when their ids do.
pub(crate) proof fn lemma_finite_records(records: Seq<NodeRecord>)
    requires
        forall|i: int| 0 <= i < records.len() ==> finite_geometry(#[trigger] records[i]),
    ensures
        first_node_record_fault(records) == wire_faults(first_node_fault(all_described(records))),
    decreases records.len(),
{
    if records.len() > 0 {
        let before = records.drop_last();
        assert forall|i: int| 0 <= i < before.len() implies finite_geometry(
            #[trigger] before[i],
        ) by {
            assert(before[i] == records[i]);
        }
        lemma_finite_records(before);
        assert(all_described(records).drop_last() =~= all_described(before));
        assert(records.last() == records[records.len() - 1]);
    }
}

/// A fault in the first edges is the fault of them all.
pub(crate) proof fn lemma_edge_fault_stays(nodes: Seq<NodeSpec>, edges: Seq<EdgeSpec>, k: int)
    requires
        0 <= k <= edges.len(),
        first_edge_fault(nodes, edges.take(k)) is Some,
    ensures
        first_edge_fault(nodes, edges) == first_edge_fault(nodes, edges.take(k)),
    decreases edges.len(),
{
    if k == edges.len() {
        assert(edges.take(k) =~= edges);
    } else {
        assert(edges.drop_last().take(k) =~= edges.take(k));
        lemma_edge_fault_stays(nodes, edges.drop_last(), k);
    }
}

/// Checks the header; on success hands back the node and edge counts.
fn decode_header(input: &[u8]) -> (res: Result<(usize, usize), FfiError>)
    ensures
        match res {
            Ok((n, m)) => header_fault(input@) is None && n == node_count(input@) && m
                == edge_count(input@),
            Err(e) => header_fault(input@) == Some(e),
        },
{
    let len: usize = input.len();
    if len < HEADER_SIZE {
        return Err(FfiError::BufferTooShort { expected: HEADER_SIZE, actual: len });
    }
    if input[0] != 0x4C || input[1] != 0x52 || input[2] != 0x44 || input[3] != 0x31 {
        assert(input@.take(4) != magic()) by {
            assert(input@.take(4)[0] == input@[0]);
            assert(input@.take(4)[1] == input@[1]);
            assert(input@.take(4)[2] == input@[2]);
            assert(input@.take(4)[3] == input@[3]);
        }
        return Err(FfiError::InvalidMagic);
    }
    assert(input@.take(4) =~= magic());
    let version: u32 = read_u32(input, 4);
    if version != VERSION {
        return Err(FfiError::UnsupportedVersion(version));
    }
    let nodes: u32 = read_u32(input, 12);
    let edges: u32 = read_u32(input, 16);
    let bends: u32 = read_u32(input, 20);
    if nodes > MAX_NODE_COUNT {
        return Err(FfiError::TooLarge { kind: RecordKind::Node, count: nodes });
    }
    if edges > MAX_EDGE_COUNT {
        return Err(FfiError::TooLarge { kind: RecordKind::Edge, count: edges });
    }
    if bends > MAX_BEND_COUNT {
        return Err(FfiError::TooLarge { kind: RecordKind::Bend, count: bends });
    }
    let n: usize = nodes as usize;
    let m: usize = edges as usize;
    let expected: usize = HEADER_SIZE + NODE_RECORD_SIZE * n + EDGE_RECORD_SIZE * m;
    if len < expected {
        return Err(FfiError::BufferTooShort { expected, actual: len });
    }
    Ok((n, m))
}

/// Reads a layout request from an LRD1 buffer.
///
/// Flags, reserved bytes, bend records and whatever lies behind the declared
/// records are not looked at.
pub fn decode(input: &[u8]) -> (res: Result<LayoutContext, FfiError>)
    ensures
        match res {
            Ok(ctx) => {
                &&& decode_fault(input@) is None
                &&& ctx@ == (Request {
                    nodes: declared_nodes(input@),
                    edges: declared_edges(input@),
                    options: None,
                })
            },
            Err(e) => decode_fault(input@) == Some(e),
        },
{
    let (n, m): (usize, usize) = match decode_header(input) {
        Ok(counts) => counts,
        Err(e) => {
            return Err(e);
        },
    };
    let ghost records = declared_records(input@);
    let ghost nodes = declared_nodes(input@);
    let ghost edges = declared_edges(input@);
    let mut builder: GraphBuilder = GraphBuilder::new();
    let mut i: usize = 0;
    assert(builder.nodes() =~= nodes.take(0));
    while i < n
        invariant
            i <= n,
            n == node_count(input@) == nodes.len(),
            n <= MAX_NODE_COUNT,
            m == edge_count(input@),
            records == declared_records(input@),
            nodes == declared_nodes(input@),
            header_fault(input@) is None,
            builder.wf(),
            builder.nodes() == nodes.take(i as int),
            builder.edges().len() == 0,
            first_node_record_fault(records.take(i as int)) is None,
        decreases n - i,
    {
        let at: usize = HEADER_SIZE + NODE_RECORD_SIZE * i;
        let width: u64 = read_u64(input, at + 8);
        let height: u64 = read_u64(input, at + 16);
        let x: u64 = read_u64(input, at + 24);
        let y: u64 = read_u64(input, at + 32);
        let node: NodeSpec = NodeSpec::new(read_u32(input, at), width, height);
        proof {
            let taken = records.take(i + 1);
            assert(records[i as int] == NodeRecord { id: node.id, width, height, x, y });
            assert(node == nodes[i as int]);
            assert(taken.drop_last() =~= records.take(i as int));
            assert(taken.last() == records[i as int]);
            assert(all_described(records.take(i as int)) =~= nodes.take(i as int));
            assert(nodes.take(i + 1) =~= nodes.take(i as int).push(node));
            if first_node_record_fault(taken) is Some {
                lemma_node_fault_stays(records, i + 1);
            }
        }
        if !is_finite(width) || !is_finite(height) || !is_finite(x) || !is_finite(y) {
            return Err(FfiError::InvalidGeometry { node_id: node.id });
        }
        match builder.add_node(node) {
            Ok(_) => {},
            Err(f) => {
                return Err(to_wire_fault(f));
            },
        }
        i = i + 1;
    }
    assert(nodes.take(n as int) =~= nodes);
    assert(records.take(n as int) =~= records);
    let mut k: usize = 0;
    assert(builder.edges() =~= edges.take(0));
    while k < m
        invariant
            k <= m,
            n == node_count(input@),
            n <= MAX_NODE_COUNT,
            m == edge_count(input@) == edges.len(),
            m <= MAX_EDGE_COUNT,
            nodes == declared_nodes(input@),
            edges == declared_edges(input@),
            header_fault(input@) is None,
            first_node_record_fault(declared_records(input@)) is None,
            builder.wf(),
            builder.nodes() == nodes,
            builder.edges() == edges.take(k as int),
            first_edge_fault(nodes, edges.take(k as int)) is None,
        decreases m - k,
    {
        let at: usize = HEADER_SIZE + NODE_RECORD_SIZE * n + EDGE_RECORD_SIZE * k;
        let edge: EdgeSpec = EdgeSpec::new(
            read_u32(input, at),
            read_u32(input, at + 4),
            read_u32(input, at + 8),
        );
        proof {
            assert(edge == edges[k as int]);
            assert(edges.take(k + 1).drop_last() =~= edges.take(k as int));
            assert(edges.take(k + 1).last() == edge);
            assert(edges.take(k + 1) =~= edges.take(k as int).push(edge));
            if first_edge_fault(nodes, edges.take(k + 1)) is Some {
                lemma_edge_fault_stays(nodes, edges, k + 1);
            }
        }
        match builder.add_edge(edge) {
            Ok(_) => {},
            Err(f) => {
                return Err(to_wire_fault(f));
            },
        }
        k = k + 1;
    }
    assert(edges.take(m as int) =~= edges);
    Ok(builder.finish(None))
}

/// What lies behind the declared records changes nothing: a buffer whose header
/// is in order means the same with anything appended to it.
pub proof fn law_trailing_bytes_are_ignored(s: Seq<u8>, tail: Seq<u8>)
    requires
        header_fault(s) is None,
    ensures
        decode_fault(s + tail) == decode_fault(s),
        declared_nodes(s + tail) == declared_nodes(s),
        declared_edges(s + tail) == declared_edges(s),
{
    let t = s + tail;
    assert(t.take(4) =~= s.take(4));
    assert(node_count(t) == node_count(s));
    assert(edge_count(t) == edge_count(s));
    assert(bend_count(t) == bend_count(s));
    assert forall|i: int| 0 <= i < node_count(s) implies node_at(t, i) == node_at(s, i) by {
        assert(node_offset(i) + NODE_RECORD_SIZE <= s.len());
    }
    assert(declared_records(t) =~= declared_records(s));
    assert forall|k: int| 0 <= k < edge_count(s) implies edge_at(t, k) == edge_at(s, k) by {
        assert(edge_offset(node_count(s), k) + EDGE_RECORD_SIZE <= s.len());
    }
    assert(declared_edges(t) =~= declared_edges(s));
}

} // verus!
