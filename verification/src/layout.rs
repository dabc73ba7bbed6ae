//! From what the layout engine placed to flat arrays and LRD1 buffers.
use vstd::prelude::*;

use crate::decode::{
    all_described, decode, decode_fault, declared_edges, declared_nodes, declared_records,
    edge_at, edge_offset, finite_geometry, header_fault, lemma_finite_records, node_at, node_offset,
};
use crate::error::{FfiError, RecordKind};
use crate::float_bits::ZERO;
use crate::graph::{
    graph_fault, has_node, law_accepted_iff_graph, position, EdgeSpec, LayoutContext,
    NodeSpec, Request,
};
use crate::wire::{
    bend_bytes, bend_section, edge_bytes, edge_section, header_bytes, joined, lemma_bend_section,
    lemma_edge_section, lemma_header_fields, lemma_node_section, lemma_section_lengths, magic,
    node_bytes, node_section, u32_at, u64_at, write_bend, write_edge, write_header, write_node,
    BendPoint, EdgeRecord, Header, NodeRecord, BEND_RECORD_SIZE, FLAG_IS_OUTPUT, HEADER_SIZE,
    MAX_BEND_COUNT, MAX_EDGE_COUNT, MAX_NODE_COUNT, VERSION,
};

verus! {

/// Where the engine put a node, and how large it made it.
#[derive(Clone, Copy, Debug, PartialEq, Eq, Structural)]
pub struct NodePlacement {
    pub x: u64,
    pub y: u64,
    pub width: u64,
    pub height: u64,
}

/// Where a node stands.
#[derive(Clone, Copy, Debug, PartialEq, Eq, Structural)]
pub struct NodePosition {
    pub x: u64,
    pub y: u64,
}

/// What the engine made of a graph. A node or an edge that the engine no longer
/// knows under the handle that it gave out is `None`.
#[derive(Clone, Debug)]
pub struct Placement {
    pub width: u64,
    pub height: u64,
    pub nodes: Vec<Option<NodePlacement>>,
    pub edges: Vec<Option<Vec<BendPoint>>>,
}

/// How a run of the engine ended.
#[derive(Clone, Debug)]
pub enum EngineReport {
    Finished(Placement),
    Panicked,
}

/// A layout as flat arrays. Edge `k` owns the `edge_bend_length[k]` bend points
/// from `edge_bend_start[k]` on.
#[derive(Clone, Debug)]
pub struct FlatLayoutOutput {
    pub width: u64,
    pub height: u64,
    pub node_wire_ids: Vec<u32>,
    pub node_width: Vec<u64>,
    pub node_height: Vec<u64>,
    pub node_x: Vec<u64>,
    pub node_y: Vec<u64>,
    pub edge_wire_ids: Vec<u32>,
    pub edge_source_wire_ids: Vec<u32>,
    pub edge_target_wire_ids: Vec<u32>,
    pub edge_bend_start: Vec<u32>,
    pub edge_bend_length: Vec<u32>,
    pub bend_x: Vec<u64>,
    pub bend_y: Vec<u64>,
}

/// The contents of a layout.
#[verifier::ext_equal]
pub struct Layout {
    pub width: u64,
    pub height: u64,
    pub node_ids: Seq<u32>,
    pub node_x: Seq<u64>,
    pub node_y: Seq<u64>,
    pub node_width: Seq<u64>,
    pub node_height: Seq<u64>,
    pub edge_ids: Seq<u32>,
    pub edge_source: Seq<u32>,
    pub edge_target: Seq<u32>,
    pub edge_bend_start: Seq<u32>,
    pub edge_bend_length: Seq<u32>,
    pub bend_x: Seq<u64>,
    pub bend_y: Seq<u64>,
}

impl View for FlatLayoutOutput {
    type V = Layout;

    open spec fn view(&self) -> Layout {
        Layout {
            width: self.width,
            height: self.height,
            node_ids: self.node_wire_ids@,
            node_x: self.node_x@,
            node_y: self.node_y@,
            node_width: self.node_width@,
            node_height: self.node_height@,
            edge_ids: self.edge_wire_ids@,
            edge_source: self.edge_source_wire_ids@,
            edge_target: self.edge_target_wire_ids@,
            edge_bend_start: self.edge_bend_start@,
            edge_bend_length: self.edge_bend_length@,
            bend_x: self.bend_x@,
            bend_y: self.bend_y@,
        }
    }
}

/// The bend points of an edge.
pub open spec fn bends_of(edge: Option<Vec<BendPoint>>) -> Seq<BendPoint> {
    match edge {
        Some(bends) => bends@,
        None => Seq::empty(),
    }
}

/// The bend points of all edges, one edge after the other.
pub open spec fn all_bends(edges: Seq<Option<Vec<BendPoint>>>) -> Seq<BendPoint>
    decreases edges.len(),
{
    if edges.len() == 0 {
        Seq::empty()
    } else {
        all_bends(edges.drop_last()) + bends_of(edges.last())
    }
}

/// Where the bend points of edge `k` start.
pub open spec fn bend_start(edges: Seq<Option<Vec<BendPoint>>>, k: int) -> nat {
    all_bends(edges.take(k)).len()
}

/// The low 32 bits of a count.
pub open spec fn low32(n: nat) -> u32 {
    (n % 0x1_0000_0000) as u32
}

/// A layout with the given node placements and bend points.
pub open spec fn layout_of(
    req: Request,
    width: u64,
    height: u64,
    nodes: Seq<NodePlacement>,
    edges: Seq<Option<Vec<BendPoint>>>,
) -> Layout {
    Layout {
        width,
        height,
        node_ids: req.nodes.map_values(|n: NodeSpec| n.id),
        node_x: nodes.map_values(|p: NodePlacement| p.x),
        node_y: nodes.map_values(|p: NodePlacement| p.y),
        node_width: nodes.map_values(|p: NodePlacement| p.width),
        node_height: nodes.map_values(|p: NodePlacement| p.height),
        edge_ids: req.edges.map_values(|e: EdgeSpec| e.id),
        edge_source: req.edges.map_values(|e: EdgeSpec| e.source),
        edge_target: req.edges.map_values(|e: EdgeSpec| e.target),
        edge_bend_start: Seq::new(edges.len(), |k: int| low32(bend_start(edges, k))),
        edge_bend_length: Seq::new(edges.len(), |k: int| low32(bends_of(edges[k]).len())),
        bend_x: all_bends(edges).map_values(|b: BendPoint| b.x),
        bend_y: all_bends(edges).map_values(|b: BendPoint| b.y),
    }
}

/// A node that the engine lost keeps the size that was asked for, at the origin.
pub open spec fn kept_node(n: NodeSpec, placed: Option<NodePlacement>) -> NodePlacement {
    match placed {
        Some(p) => p,
        None => NodePlacement { x: ZERO, y: ZERO, width: n.width, height: n.height },
    }
}

/// The node placements of a flat layout.
pub open spec fn kept_nodes(req: Request, p: Placement) -> Seq<NodePlacement> {
    Seq::new(req.nodes.len(), |i: int| kept_node(req.nodes[i], p.nodes@[i]))
}

/// The flat layout of a placement.
pub open spec fn flat_layout(req: Request, p: Placement) -> Layout {
    layout_of(req, p.width, p.height, kept_nodes(req, p), p.edges@)
}

/// The engine placed as many nodes and edges as the request has.
pub open spec fn fits(req: Request, p: Placement) -> bool {
    p.nodes@.len() == req.nodes.len() && p.edges@.len() == req.edges.len()
}

/// The engine made more bend points than a layout may hold.
pub open spec fn too_many_bends(p: Placement) -> bool {
    all_bends(p.edges@).len() > MAX_BEND_COUNT
}

/// The error that reports too many bend points.
pub open spec fn bend_error() -> FfiError {
    FfiError::TooLarge { kind: RecordKind::Bend, count: MAX_BEND_COUNT }
}

/// The layout of a graph without nodes or edges.
pub open spec fn empty_layout() -> Layout {
    Layout {
        width: ZERO,
        height: ZERO,
        node_ids: Seq::empty(),
        node_x: Seq::empty(),
        node_y: Seq::empty(),
        node_width: Seq::empty(),
        node_height: Seq::empty(),
        edge_ids: Seq::empty(),
        edge_source: Seq::empty(),
        edge_target: Seq::empty(),
        edge_bend_start: Seq::empty(),
        edge_bend_length: Seq::empty(),
        bend_x: Seq::empty(),
        bend_y: Seq::empty(),
    }
}

/// Bend points of all edges with each edge's share of them.
pub(crate) struct BendTable {
    pub(crate) start: Vec<u32>,
    pub(crate) length: Vec<u32>,
    pub(crate) points: Vec<BendPoint>,
}

impl BendTable {
    /// The table holds the bend points of these edges.
    pub(crate) open spec fn describes(self, edges: Seq<Option<Vec<BendPoint>>>) -> bool {
        &&& self.start@.len() == edges.len()
        &&& self.length@.len() == edges.len()
        &&& forall|k: int|
            0 <= k < edges.len() ==> #[trigger] self.start@[k] == low32(bend_start(edges, k))
        &&& forall|k: int|
            0 <= k < edges.len() ==> #[trigger] self.length@[k] == low32(bends_of(edges[k]).len())
        &&& self.points@ == all_bends(edges)
    }
}

/// Reduces a count to its low 32 bits.
fn truncate32(n: usize) -> (v: u32)
    ensures
        v == low32(n as nat),
{
    let wide: u64 = n as u64;
    (wide % 0x1_0000_0000) as u32
}

/// Fewer edges have no more bend points.
proof fn lemma_fewer_bends(edges: Seq<Option<Vec<BendPoint>>>, k: int)
    requires
        0 <= k <= edges.len(),
    ensures
        all_bends(edges.take(k)).len() <= all_bends(edges).len(),
    decreases edges.len(),
{
    if k == edges.len() {
        assert(edges.take(k) =~= edges);
    } else {
        assert(edges.drop_last().take(k) =~= edges.take(k));
        lemma_fewer_bends(edges.drop_last(), k);
    }
}

/// Collects the bend points of all edges; `None` when there are more than the
/// limit allows.
pub(crate) fn gather_bends(edges: &Vec<Option<Vec<BendPoint>>>, limit: Option<u32>) -> (res: Option<
    BendTable,
>)
    ensures
        match res {
            Some(table) => table.describes(edges@) && (limit matches Some(max) ==> all_bends(
                edges@,
            ).len() <= max),
            None => limit matches Some(max) && all_bends(edges@).len() > max,
        },
{
    let m: usize = edges.len();
    let mut start: Vec<u32> = Vec::with_capacity(m);
    let mut length: Vec<u32> = Vec::with_capacity(m);
    let mut points: Vec<BendPoint> = Vec::new();
    let mut k: usize = 0;
    assert(points@ =~= all_bends(edges@.take(0)));
    while k < m
        invariant
            k <= m,
            m == edges@.len(),
            start@.len() == k,
            length@.len() == k,
            forall|j: int| 0 <= j < k ==> #[trigger] start@[j] == low32(bend_start(edges@, j)),
            forall|j: int|
                0 <= j < k ==> #[trigger] length@[j] == low32(bends_of(edges@[j]).len()),
            points@ == all_bends(edges@.take(k as int)),
            limit matches Some(max) ==> points@.len() <= max,
        decreases m - k,
    {
        let first: usize = points.len();
        let ghost before = points@;
        let ghost taken = edges@.take(k + 1);
        proof {
            assert(taken.drop_last() =~= edges@.take(k as int));
            assert(taken.last() == edges@[k as int]);
            lemma_fewer_bends(edges@, k + 1);
        }
        match &edges[k] {
            Some(bends) => {
                let count: usize = bends.len();
                let mut b: usize = 0;
                assert(points@ =~= before + bends@.take(0));
                while b < count
                    invariant
                        b <= count,
                        count == bends@.len(),
                        points@ == before + bends@.take(b as int),
                        all_bends(taken) == before + bends@,
                        all_bends(taken).len() <= all_bends(edges@).len(),
                        limit matches Some(max) ==> points@.len() <= max,
                    decreases count - b,
                {
                    match limit {
                        Some(max) => {
                            if points.len() >= max as usize {
                                return None;
                            }
                        },
                        None => {},
                    }
                    points.push(bends[b]);
                    assert(bends@.take(b + 1) =~= bends@.take(b as int).push(bends@[b as int]));
                    assert(points@ =~= before + bends@.take(b + 1));
                    b = b + 1;
                }
                assert(bends@.take(count as int) =~= bends@);
            },
            None => {
                assert(all_bends(taken) =~= before);
            },
        }
        start.push(truncate32(first));
        length.push(truncate32(points.len() - first));
        k = k + 1;
    }
    assert(edges@.take(m as int) =~= edges@);
    Some(BendTable { start, length, points })
}

/// Arranges node placements and bend points as flat arrays.
pub(crate) fn assemble(
    ctx: &LayoutContext,
    width: u64,
    height: u64,
    placed: &Vec<NodePlacement>,
    table: BendTable,
    Ghost(bends): Ghost<Seq<Option<Vec<BendPoint>>>>,
) -> (out: FlatLayoutOutput)
    requires
        placed@.len() == ctx@.nodes.len(),
        table.describes(bends),
    ensures
        out@ == layout_of(ctx@, width, height, placed@, bends),
{
    let nodes: &Vec<NodeSpec> = ctx.nodes();
    let edges: &Vec<EdgeSpec> = ctx.edges();
    let n: usize = nodes.len();
    let m: usize = edges.len();
    let mut node_wire_ids: Vec<u32> = Vec::with_capacity(n);
    let mut node_x: Vec<u64> = Vec::with_capacity(n);
    let mut node_y: Vec<u64> = Vec::with_capacity(n);
    let mut node_width: Vec<u64> = Vec::with_capacity(n);
    let mut node_height: Vec<u64> = Vec::with_capacity(n);
    let mut i: usize = 0;
    while i < n
        invariant
            i <= n,
            n == nodes@.len() == placed@.len(),
            node_wire_ids@ =~= nodes@.take(i as int).map_values(|n: NodeSpec| n.id),
            node_x@ =~= placed@.take(i as int).map_values(|p: NodePlacement| p.x),
            node_y@ =~= placed@.take(i as int).map_values(|p: NodePlacement| p.y),
            node_width@ =~= placed@.take(i as int).map_values(|p: NodePlacement| p.width),
            node_height@ =~= placed@.take(i as int).map_values(|p: NodePlacement| p.height),
        decreases n - i,
    {
        let p: NodePlacement = placed[i];
        node_wire_ids.push(nodes[i].id);
        node_x.push(p.x);
        node_y.push(p.y);
        node_width.push(p.width);
        node_height.push(p.height);
        i = i + 1;
    }
    assert(nodes@.take(n as int) =~= nodes@);
    assert(placed@.take(n as int) =~= placed@);
    let mut edge_wire_ids: Vec<u32> = Vec::with_capacity(m);
    let mut edge_source_wire_ids: Vec<u32> = Vec::with_capacity(m);
    let mut edge_target_wire_ids: Vec<u32> = Vec::with_capacity(m);
    let mut k: usize = 0;
    while k < m
        invariant
            k <= m,
            m == edges@.len(),
            edge_wire_ids@ =~= edges@.take(k as int).map_values(|e: EdgeSpec| e.id),
            edge_source_wire_ids@ =~= edges@.take(k as int).map_values(|e: EdgeSpec| e.source),
            edge_target_wire_ids@ =~= edges@.take(k as int).map_values(|e: EdgeSpec| e.target),
        decreases m - k,
    {
        let e: EdgeSpec = edges[k];
        edge_wire_ids.push(e.id);
        edge_source_wire_ids.push(e.source);
        edge_target_wire_ids.push(e.target);
        k = k + 1;
    }
    assert(edges@.take(m as int) =~= edges@);
    let points: &Vec<BendPoint> = &table.points;
    let count: usize = points.len();
    let mut bend_x: Vec<u64> = Vec::with_capacity(count);
    let mut bend_y: Vec<u64> = Vec::with_capacity(count);
    let mut b: usize = 0;
    while b < count
        invariant
            b <= count,
            count == points@.len(),
            bend_x@ =~= points@.take(b as int).map_values(|p: BendPoint| p.x),
            bend_y@ =~= points@.take(b as int).map_values(|p: BendPoint| p.y),
        decreases count - b,
    {
        bend_x.push(points[b].x);
        bend_y.push(points[b].y);
        b = b + 1;
    }
    assert(points@.take(count as int) =~= points@);
    let out = FlatLayoutOutput {
        width,
        height,
        node_wire_ids,
        node_width,
        node_height,
        node_x,
        node_y,
        edge_wire_ids,
        edge_source_wire_ids,
        edge_target_wire_ids,
        edge_bend_start: table.start,
        edge_bend_length: table.length,
        bend_x,
        bend_y,
    };
    assert(out@ =~= layout_of(ctx@, width, height, placed@, bends));
    out
}

/// The node placements of a flat layout.
fn settle_nodes(ctx: &LayoutContext, p: &Placement) -> (placed: Vec<NodePlacement>)
    requires
        fits(ctx@, *p),
    ensures
        placed@ == kept_nodes(ctx@, *p),
{
    let nodes: &Vec<NodeSpec> = ctx.nodes();
    let n: usize = nodes.len();
    let mut placed: Vec<NodePlacement> = Vec::with_capacity(n);
    let mut i: usize = 0;
    while i < n
        invariant
            i <= n,
            n == nodes@.len() == p.nodes@.len(),
            nodes@ == ctx@.nodes,
            placed@ =~= kept_nodes(ctx@, *p).take(i as int),
        decreases n - i,
    {
        match p.nodes[i] {
            Some(at) => placed.push(at),
            None => placed.push(
                NodePlacement {
                    x: ZERO,
                    y: ZERO,
                    width: nodes[i].width,
                    height: nodes[i].height,
                },
            ),
        }
        i = i + 1;
    }
    assert(kept_nodes(ctx@, *p).take(n as int) =~= kept_nodes(ctx@, *p));
    placed
}

/// Arranges a placement as flat arrays.
pub fn flatten_layout(ctx: &LayoutContext, p: &Placement) -> (res: Result<
    FlatLayoutOutput,
    FfiError,
>)
    requires
        fits(ctx@, *p),
    ensures
        match res {
            Ok(out) => !too_many_bends(*p) && out@ == flat_layout(ctx@, *p),
            Err(e) => too_many_bends(*p) && e == bend_error(),
        },
{
    let placed: Vec<NodePlacement> = settle_nodes(ctx, p);
    match gather_bends(&p.edges, Some(MAX_BEND_COUNT)) {
        Some(table) => Ok(assemble(ctx, p.width, p.height, &placed, table, Ghost(p.edges@))),
        None => Err(FfiError::TooLarge { kind: RecordKind::Bend, count: MAX_BEND_COUNT }),
    }
}

/// The header of a finished layout.
pub open spec fn output_header(req: Request, p: Placement) -> Header {
    Header {
        flags: FLAG_IS_OUTPUT,
        node_count: req.nodes.len() as u32,
        edge_count: req.edges.len() as u32,
        bend_count: all_bends(p.edges@).len() as u32,
        width: p.width,
        height: p.height,
    }
}

/// The record of a placed node.
pub open spec fn placed_record(n: NodeSpec, at: NodePlacement) -> NodeRecord {
    NodeRecord { id: n.id, width: at.width, height: at.height, x: at.x, y: at.y }
}

/// The node records of a finished layout.
pub open spec fn output_nodes(req: Request, p: Placement) -> Seq<NodeRecord> {
    Seq::new(req.nodes.len(), |i: int| placed_record(req.nodes[i], kept_nodes(req, p)[i]))
}

/// The record of a routed edge.
pub open spec fn routed_record(e: EdgeSpec, start: u32, length: u32) -> EdgeRecord {
    EdgeRecord {
        id: e.id,
        source: e.source,
        target: e.target,
        bend_start: start,
        bend_length: length,
    }
}

/// The edge records of a finished layout.
pub open spec fn output_edges(req: Request, p: Placement) -> Seq<EdgeRecord> {
    Seq::new(
        req.edges.len(),
        |k: int|
            routed_record(
                req.edges[k],
                low32(bend_start(p.edges@, k)),
                low32(bends_of(p.edges@[k]).len()),
            ),
    )
}

/// A finished layout as an LRD1 buffer.
pub open spec fn output_bytes(req: Request, p: Placement) -> Seq<u8> {
    header_bytes(output_header(req, p)) + node_section(output_nodes(req, p)) + edge_section(
        output_edges(req, p),
    ) + bend_section(all_bends(p.edges@))
}

/// Writes a finished layout as an LRD1 buffer.
pub fn encode(ctx: &LayoutContext, p: &Placement) -> (res: Result<Vec<u8>, FfiError>)
    requires
        fits(ctx@, *p),
    ensures
        match res {
            Ok(buf) => !too_many_bends(*p) && buf@ == output_bytes(ctx@, *p),
            Err(e) => too_many_bends(*p) && e == bend_error(),
        },
{
    let table: BendTable = match gather_bends(&p.edges, Some(MAX_BEND_COUNT)) {
        Some(table) => table,
        None => {
            return Err(FfiError::TooLarge { kind: RecordKind::Bend, count: MAX_BEND_COUNT });
        },
    };
    let placed: Vec<NodePlacement> = settle_nodes(ctx, p);
    let nodes: &Vec<NodeSpec> = ctx.nodes();
    let edges: &Vec<EdgeSpec> = ctx.edges();
    let points: &Vec<BendPoint> = &table.points;
    let n: usize = nodes.len();
    let m: usize = edges.len();
    let count: usize = points.len();
    let mut buf: Vec<u8> = Vec::new();
    write_header(
        &mut buf,
        &Header {
            flags: FLAG_IS_OUTPUT,
            node_count: n as u32,
            edge_count: m as u32,
            bend_count: count as u32,
            width: p.width,
            height: p.height,
        },
    );
    let ghost header = buf@;
    assert(header =~= header_bytes(output_header(ctx@, *p)));
    let ghost node_parts = output_nodes(ctx@, *p).map_values(|n: NodeRecord| node_bytes(n));
    let ghost edge_parts = output_edges(ctx@, *p).map_values(|e: EdgeRecord| edge_bytes(e));
    let ghost bend_parts = all_bends(p.edges@).map_values(|b: BendPoint| bend_bytes(b));
    let mut i: usize = 0;
    assert(buf@ =~= header + joined(node_parts.take(0)));
    while i < n
        invariant
            i <= n,
            n == nodes@.len() == placed@.len(),
            nodes@ == ctx@.nodes,
            placed@ == kept_nodes(ctx@, *p),
            node_parts == output_nodes(ctx@, *p).map_values(|n: NodeRecord| node_bytes(n)),
            buf@ == header + joined(node_parts.take(i as int)),
        decreases n - i,
    {
        let at: NodePlacement = placed[i];
        write_node(
            &mut buf,
            &NodeRecord {
                id: nodes[i].id,
                width: at.width,
                height: at.height,
                x: at.x,
                y: at.y,
            },
        );
        proof {
            let taken = node_parts.take(i + 1);
            assert(taken.drop_last() =~= node_parts.take(i as int));
            assert(buf@ =~= header + joined(taken));
        }
        i = i + 1;
    }
    assert(node_parts.take(n as int) =~= node_parts);
    let ghost front = buf@;
    let mut k: usize = 0;
    assert(buf@ =~= front + joined(edge_parts.take(0)));
    while k < m
        invariant
            k <= m,
            m == edges@.len() == p.edges@.len(),
            edges@ == ctx@.edges,
            table.describes(p.edges@),
            edge_parts == output_edges(ctx@, *p).map_values(|e: EdgeRecord| edge_bytes(e)),
            buf@ == front + joined(edge_parts.take(k as int)),
        decreases m - k,
    {
        let e: EdgeSpec = edges[k];
        write_edge(
            &mut buf,
            &EdgeRecord {
                id: e.id,
                source: e.source,
                target: e.target,
                bend_start: table.start[k],
                bend_length: table.length[k],
            },
        );
        proof {
            let taken = edge_parts.take(k + 1);
            assert(taken.drop_last() =~= edge_parts.take(k as int));
            assert(buf@ =~= front + joined(taken));
        }
        k = k + 1;
    }
    assert(edge_parts.take(m as int) =~= edge_parts);
    let ghost front = buf@;
    let mut b: usize = 0;
    assert(buf@ =~= front + joined(bend_parts.take(0)));
    while b < count
        invariant
            b <= count,
            count == points@.len(),
            points@ == all_bends(p.edges@),
            bend_parts == all_bends(p.edges@).map_values(|b: BendPoint| bend_bytes(b)),
            buf@ == front + joined(bend_parts.take(b as int)),
        decreases count - b,
    {
        write_bend(&mut buf, &points[b]);
        proof {
            let taken = bend_parts.take(b + 1);
            assert(taken.drop_last() =~= bend_parts.take(b as int));
            assert(buf@ =~= front + joined(taken));
        }
        b = b + 1;
    }
    assert(bend_parts.take(count as int) =~= bend_parts);
    Ok(buf)
}

/// What is left to do for a layout: run the engine, or nothing.
#[derive(Debug)]
pub enum Step<T> {
    Run(LayoutContext),
    Done(T),
}

/// The request that a buffer describes.
pub open spec fn declared_request(s: Seq<u8>) -> Request {
    Request { nodes: declared_nodes(s), edges: declared_edges(s), options: None }
}

/// The report of a run fits the request.
pub open spec fn report_fits(req: Request, report: EngineReport) -> bool {
    report matches EngineReport::Finished(p) ==> fits(req, p)
}

/// The header of a layout without nodes.
pub open spec fn empty_header() -> Header {
    Header {
        flags: FLAG_IS_OUTPUT,
        node_count: 0,
        edge_count: 0,
        bend_count: 0,
        width: ZERO,
        height: ZERO,
    }
}

/// The placement of a graph without nodes.
fn empty_placement() -> (p: Placement)
    ensures
        p.width == ZERO,
        p.height == ZERO,
        p.nodes@.len() == 0,
        p.edges@.len() == 0,
{
    Placement { width: ZERO, height: ZERO, nodes: Vec::new(), edges: Vec::new() }
}

/// Without nodes there can be no edges.
pub proof fn law_no_nodes_no_edges(nodes: Seq<NodeSpec>, edges: Seq<EdgeSpec>)
    requires
        graph_fault(nodes, edges) is None,
        nodes.len() == 0,
    ensures
        edges.len() == 0,
{
    law_accepted_iff_graph(nodes, edges);
    if edges.len() > 0 {
        assert(has_node(nodes, edges[0].source));
    }
}

/// The layout of nothing is empty.
pub(crate) proof fn lemma_empty_layout(
    req: Request,
    nodes: Seq<NodePlacement>,
    edges: Seq<Option<Vec<BendPoint>>>,
)
    requires
        req.nodes.len() == 0,
        req.edges.len() == 0,
        nodes.len() == 0,
        edges.len() == 0,
    ensures
        layout_of(req, ZERO, ZERO, nodes, edges) == empty_layout(),
{
    assert(layout_of(req, ZERO, ZERO, nodes, edges) =~= empty_layout());
}

/// The flat arrays of a request without nodes.
fn flatten_nothing(ctx: &LayoutContext) -> (res: Result<FlatLayoutOutput, FfiError>)
    requires
        ctx@.nodes.len() == 0,
        ctx@.edges.len() == 0,
    ensures
        res matches Ok(out) && out@ == empty_layout(),
{
    let p: Placement = empty_placement();
    proof {
        lemma_empty_layout(ctx@, kept_nodes(ctx@, p), p.edges@);
    }
    flatten_layout(ctx, &p)
}

/// The LRD1 buffer of a request without nodes.
fn encode_nothing(ctx: &LayoutContext) -> (res: Result<Vec<u8>, FfiError>)
    requires
        ctx@.nodes.len() == 0,
        ctx@.edges.len() == 0,
    ensures
        res matches Ok(out) && out@ == header_bytes(empty_header()),
{
    let p: Placement = empty_placement();
    proof {
        assert(output_header(ctx@, p) == empty_header());
        assert(output_bytes(ctx@, p) =~= header_bytes(empty_header()));
    }
    encode(ctx, &p)
}

/// Starts a layout of an LRD1 buffer that is to end in flat arrays. A graph
/// without nodes is done at once.
pub fn layout_flat_begin(input: &[u8]) -> (res: Result<Step<FlatLayoutOutput>, FfiError>)
    ensures
        match res {
            Ok(Step::Run(ctx)) => {
                &&& decode_fault(input@) is None
                &&& declared_nodes(input@).len() > 0
                &&& ctx@ == declared_request(input@)
            },
            Ok(Step::Done(out)) => {
                &&& decode_fault(input@) is None
                &&& declared_nodes(input@).len() == 0
                &&& out@ == empty_layout()
            },
            Err(e) => decode_fault(input@) == Some(e),
        },
{
    let ctx: LayoutContext = match decode(input) {
        Ok(ctx) => ctx,
        Err(e) => {
            return Err(e);
        },
    };
    if ctx.nodes().is_empty() {
        proof {
            law_no_nodes_no_edges(ctx@.nodes, ctx@.edges);
        }
        return match flatten_nothing(&ctx) {
            Ok(out) => Ok(Step::Done(out)),
            Err(e) => Err(e),
        };
    }
    Ok(Step::Run(ctx))
}

/// Ends a layout in flat arrays. A graph without nodes has the empty layout,
/// whatever is reported.
pub fn layout_flat_end(ctx: &LayoutContext, report: &EngineReport) -> (res: Result<
    FlatLayoutOutput,
    FfiError,
>)
    requires
        report_fits(ctx@, *report),
    ensures
        if ctx@.nodes.len() == 0 {
            res matches Ok(out) && out@ == empty_layout()
        } else {
            match (*report, res) {
                (EngineReport::Panicked, res) => res == Err::<FlatLayoutOutput, FfiError>(
                    FfiError::LayoutPanic,
                ),
                (EngineReport::Finished(p), Ok(out)) => !too_many_bends(p) && out@ == flat_layout(
                    ctx@,
                    p,
                ),
                (EngineReport::Finished(p), Err(e)) => too_many_bends(p) && e == bend_error(),
            }
        },
{
    if ctx.nodes().is_empty() {
        proof {
            law_no_nodes_no_edges(ctx@.nodes, ctx@.edges);
        }
        return flatten_nothing(ctx);
    }
    match report {
        EngineReport::Finished(p) => flatten_layout(ctx, p),
        EngineReport::Panicked => Err(FfiError::LayoutPanic),
    }
}

/// Starts a layout of an LRD1 buffer that is to end in an LRD1 buffer. A graph
/// without nodes is done at once.
pub fn layout_bytes_begin(input: &[u8]) -> (res: Result<Step<Vec<u8>>, FfiError>)
    ensures
        match res {
            Ok(Step::Run(ctx)) => {
                &&& decode_fault(input@) is None
                &&& declared_nodes(input@).len() > 0
                &&& ctx@ == declared_request(input@)
            },
            Ok(Step::Done(out)) => {
                &&& decode_fault(input@) is None
                &&& declared_nodes(input@).len() == 0
                &&& out@ == header_bytes(empty_header())
            },
            Err(e) => decode_fault(input@) == Some(e),
        },
{
    let ctx: LayoutContext = match decode(input) {
        Ok(ctx) => ctx,
        Err(e) => {
            return Err(e);
        },
    };
    if ctx.nodes().is_empty() {
        proof {
            law_no_nodes_no_edges(ctx@.nodes, ctx@.edges);
        }
        return match encode_nothing(&ctx) {
            Ok(out) => Ok(Step::Done(out)),
            Err(e) => Err(e),
        };
    }
    Ok(Step::Run(ctx))
}

/// Ends a layout in an LRD1 buffer. That of a graph without nodes is a header
/// alone, whatever is reported.
pub fn layout_bytes_end(ctx: &LayoutContext, report: &EngineReport) -> (res: Result<
    Vec<u8>,
    FfiError,
>)
    requires
        report_fits(ctx@, *report),
    ensures
        if ctx@.nodes.len() == 0 {
            res matches Ok(out) && out@ == header_bytes(empty_header())
        } else {
            match (*report, res) {
                (EngineReport::Panicked, res) => res == Err::<Vec<u8>, FfiError>(
                    FfiError::LayoutPanic,
                ),
                (EngineReport::Finished(p), Ok(out)) => !too_many_bends(p) && out@ == output_bytes(
                    ctx@,
                    p,
                ),
                (EngineReport::Finished(p), Err(e)) => too_many_bends(p) && e == bend_error(),
            }
        },
{
    if ctx.nodes().is_empty() {
        proof {
            law_no_nodes_no_edges(ctx@.nodes, ctx@.edges);
        }
        return encode_nothing(ctx);
    }
    match report {
        EngineReport::Finished(p) => encode(ctx, p),
        EngineReport::Panicked => Err(FfiError::LayoutPanic),
    }
}

/// Each edge's bend points stand together in the flat list, from its start on
/// and as many as its length says.
pub proof fn law_edge_owns_its_bends(edges: Seq<Option<Vec<BendPoint>>>, k: int)
    requires
        0 <= k < edges.len(),
    ensures
        bend_start(edges, k) + bends_of(edges[k]).len() == bend_start(edges, k + 1),
        bend_start(edges, k + 1) <= all_bends(edges).len(),
        all_bends(edges).subrange(
            bend_start(edges, k) as int,
            bend_start(edges, k + 1) as int,
        ) == bends_of(edges[k]),
        k == 0 ==> bend_start(edges, k) == 0,
        k + 1 == edges.len() ==> bend_start(edges, k + 1) == all_bends(edges).len(),
    decreases edges.len(),
{
    let upto = edges.take(k + 1);
    assert(upto.drop_last() =~= edges.take(k));
    assert(upto.last() == edges[k]);
    if k + 1 == edges.len() {
        assert(upto =~= edges);
        assert(all_bends(edges).subrange(
            bend_start(edges, k) as int,
            bend_start(edges, k + 1) as int,
        ) =~= bends_of(edges[k]));
    } else {
        let rest = edges.drop_last();
        law_edge_owns_its_bends(rest, k);
        assert(rest.take(k) =~= edges.take(k));
        assert(rest.take(k + 1) =~= upto);
        assert(all_bends(edges).subrange(
            bend_start(edges, k) as int,
            bend_start(edges, k + 1) as int,
        ) =~= all_bends(rest).subrange(
            bend_start(edges, k) as int,
            bend_start(edges, k + 1) as int,
        ));
    }
}

/// The flat arrays hold each edge's bend points where its start and length say.
pub proof fn law_flat_bends(req: Request, p: Placement, k: int)
    requires
        fits(req, p),
        !too_many_bends(p),
        0 <= k < req.edges.len(),
    ensures
        ({
            let flat = flat_layout(req, p);
            let start = flat.edge_bend_start[k] as int;
            let end = start + flat.edge_bend_length[k];
            let bends = bends_of(p.edges@[k]);
            &&& 0 <= start <= end <= flat.bend_x.len()
            &&& flat.bend_x.len() == flat.bend_y.len()
            &&& flat.bend_x.subrange(start, end) == bends.map_values(|b: BendPoint| b.x)
            &&& flat.bend_y.subrange(start, end) == bends.map_values(|b: BendPoint| b.y)
        }),
{
    let flat = flat_layout(req, p);
    let start = bend_start(p.edges@, k) as int;
    let end = bend_start(p.edges@, k + 1) as int;
    let bends = bends_of(p.edges@[k]);
    law_edge_owns_its_bends(p.edges@, k);
    assert(all_bends(p.edges@).subrange(start, end) == bends);
    assert(flat.bend_x.subrange(start, end) =~= all_bends(p.edges@).subrange(
        start,
        end,
    ).map_values(|b: BendPoint| b.x));
    assert(flat.bend_y.subrange(start, end) =~= all_bends(p.edges@).subrange(
        start,
        end,
    ).map_values(|b: BendPoint| b.y));
}

/// The buffer of a finished layout opens with the counts and the size of the
/// graph, and its sections follow one another without gaps.
pub proof fn law_bytes_header(req: Request, p: Placement)
    requires
        fits(req, p),
        req.nodes.len() <= MAX_NODE_COUNT,
        req.edges.len() <= MAX_EDGE_COUNT,
        !too_many_bends(p),
    ensures
        ({
            let out = output_bytes(req, p);
            &&& out.len() == bend_offset(req, all_bends(p.edges@).len() as int)
            &&& out.take(4) == magic()
            &&& u32_at(out, 4) == VERSION
            &&& u32_at(out, 8) == FLAG_IS_OUTPUT
            &&& u32_at(out, 12) == req.nodes.len()
            &&& u32_at(out, 16) == req.edges.len()
            &&& u32_at(out, 20) == all_bends(p.edges@).len()
            &&& u64_at(out, 24) == flat_layout(req, p).width
            &&& u64_at(out, 32) == flat_layout(req, p).height
        }),
{
    let out = output_bytes(req, p);
    let h = output_header(req, p);
    lemma_section_lengths(output_nodes(req, p), output_edges(req, p), all_bends(p.edges@));
    assert(header_bytes(h).len() == HEADER_SIZE);
    assert(out.take(HEADER_SIZE as int) =~= header_bytes(h));
    lemma_header_fields(out, h);
}

/// Where bend record `b` of a layout buffer starts.
pub open spec fn bend_offset(req: Request, b: int) -> int {
    edge_offset(req.nodes.len() as int, req.edges.len() as int) + BEND_RECORD_SIZE * b
}

/// The sections of a layout buffer.
proof fn lemma_output_sections(req: Request, p: Placement)
    ensures
        ({
            let out = output_bytes(req, p);
            let nodes = node_section(output_nodes(req, p));
            let edges = edge_section(output_edges(req, p));
            let bends = bend_section(all_bends(p.edges@));
            let e = node_offset(req.nodes.len() as int);
            let b = bend_offset(req, 0);
            &&& 40 + nodes.len() == e
            &&& e + edges.len() == b
            &&& b + bends.len() == out.len()
            &&& out.subrange(40, 40int + nodes.len()) == nodes
            &&& out.subrange(e, e + edges.len()) == edges
            &&& out.subrange(b, b + bends.len()) == bends
        }),
{
    let out = output_bytes(req, p);
    let nodes = node_section(output_nodes(req, p));
    let edges = edge_section(output_edges(req, p));
    let bends = bend_section(all_bends(p.edges@));
    let e = node_offset(req.nodes.len() as int);
    let b = bend_offset(req, 0);
    lemma_section_lengths(output_nodes(req, p), output_edges(req, p), all_bends(p.edges@));
    assert(header_bytes(output_header(req, p)).len() == HEADER_SIZE);
    assert(out.subrange(40, 40int + nodes.len()) =~= nodes);
    assert(out.subrange(e, e + edges.len()) =~= edges);
    assert(out.subrange(b, b + bends.len()) =~= bends);
}

/// Flat arrays and buffer agree on every node.
pub proof fn law_bytes_node(req: Request, p: Placement, i: int)
    requires
        fits(req, p),
        0 <= i < req.nodes.len(),
    ensures
        ({
            let out = output_bytes(req, p);
            let flat = flat_layout(req, p);
            &&& u32_at(out, node_offset(i)) == flat.node_ids[i]
            &&& u64_at(out, node_offset(i) + 8) == flat.node_width[i]
            &&& u64_at(out, node_offset(i) + 16) == flat.node_height[i]
            &&& u64_at(out, node_offset(i) + 24) == flat.node_x[i]
            &&& u64_at(out, node_offset(i) + 32) == flat.node_y[i]
        }),
{
    lemma_output_sections(req, p);
    lemma_node_section(output_bytes(req, p), 40, output_nodes(req, p), i);
}

/// Flat arrays and buffer agree on every edge.
pub proof fn law_bytes_edge(req: Request, p: Placement, k: int)
    requires
        fits(req, p),
        0 <= k < req.edges.len(),
    ensures
        ({
            let out = output_bytes(req, p);
            let flat = flat_layout(req, p);
            let at = edge_offset(req.nodes.len() as int, k);
            &&& u32_at(out, at) == flat.edge_ids[k]
            &&& u32_at(out, at + 4) == flat.edge_source[k]
            &&& u32_at(out, at + 8) == flat.edge_target[k]
            &&& u32_at(out, at + 12) == flat.edge_bend_start[k]
            &&& u32_at(out, at + 16) == flat.edge_bend_length[k]
        }),
{
    lemma_output_sections(req, p);
    lemma_edge_section(
        output_bytes(req, p),
        node_offset(req.nodes.len() as int),
        output_edges(req, p),
        k,
    );
}

/// Flat arrays and buffer agree on every bend point.
pub proof fn law_bytes_bend(req: Request, p: Placement, b: int)
    requires
        fits(req, p),
        0 <= b < all_bends(p.edges@).len(),
    ensures
        ({
            let out = output_bytes(req, p);
            let flat = flat_layout(req, p);
            &&& u64_at(out, bend_offset(req, b)) == flat.bend_x[b]
            &&& u64_at(out, bend_offset(req, b) + 8) == flat.bend_y[b]
        }),
{
    lemma_output_sections(req, p);
    lemma_bend_section(output_bytes(req, p), bend_offset(req, 0), all_bends(p.edges@), b);
}

/// The placed nodes of a layout, as nodes to lay out again.
pub open spec fn placed_specs(req: Request, p: Placement) -> Seq<NodeSpec> {
    all_described(output_nodes(req, p))
}

/// The records of a layout buffer are those that were written.
proof fn lemma_output_records(req: Request, p: Placement)
    requires
        fits(req, p),
        req.nodes.len() <= MAX_NODE_COUNT,
        req.edges.len() <= MAX_EDGE_COUNT,
        !too_many_bends(p),
    ensures
        header_fault(output_bytes(req, p)) is None,
        declared_records(output_bytes(req, p)) == output_nodes(req, p),
        declared_edges(output_bytes(req, p)) == req.edges,
{
    let out = output_bytes(req, p);
    let records = output_nodes(req, p);
    law_bytes_header(req, p);
    assert forall|i: int| 0 <= i < req.nodes.len() implies node_at(out, i) == records[i] by {
        lemma_output_sections(req, p);
        lemma_node_section(out, 40, records, i);
    }
    assert(declared_records(out) =~= records);
    assert forall|k: int| 0 <= k < req.edges.len() implies edge_at(out, k) == req.edges[k] by {
        law_bytes_edge(req, p, k);
    }
    assert(declared_edges(out) =~= req.edges);
}

/// Placing nodes keeps their ids, and so the graph.
proof fn lemma_placed_graph(req: Request, p: Placement)
    requires
        graph_fault(req.nodes, req.edges) is None,
    ensures
        graph_fault(placed_specs(req, p), req.edges) is None,
{
    let nodes = placed_specs(req, p);
    law_accepted_iff_graph(req.nodes, req.edges);
    assert forall|i: int, j: int| 0 <= i < j < nodes.len() implies nodes[i].id != nodes[j].id by {
        assert(req.nodes[i].id != req.nodes[j].id);
    }
    assert forall|k: int| 0 <= k < req.edges.len() implies has_node(
        nodes,
        (#[trigger] req.edges[k]).source,
    ) && has_node(nodes, req.edges[k].target) by {
        let i = position(req.nodes, req.edges[k].source);
        let j = position(req.nodes, req.edges[k].target);
        assert(nodes[i].id == req.nodes[i].id);
        assert(nodes[j].id == req.nodes[j].id);
    }
    law_accepted_iff_graph(nodes, req.edges);
}

/// The buffer of a finished layout is itself a request that is accepted, as long
/// as the engine placed its nodes at finite coordinates with finite sizes: it
/// asks for the same edges between the same nodes, in the sizes that the engine
/// gave them.
pub proof fn law_output_reads_back(req: Request, p: Placement)
    requires
        fits(req, p),
        req.nodes.len() <= MAX_NODE_COUNT,
        req.edges.len() <= MAX_EDGE_COUNT,
        graph_fault(req.nodes, req.edges) is None,
        !too_many_bends(p),
        forall|i: int|
            0 <= i < req.nodes.len() ==> finite_geometry(#[trigger] output_nodes(req, p)[i]),
    ensures
        decode_fault(output_bytes(req, p)) is None,
        declared_nodes(output_bytes(req, p)) == placed_specs(req, p),
        declared_edges(output_bytes(req, p)) == req.edges,
{
    let records = output_nodes(req, p);
    lemma_output_records(req, p);
    lemma_placed_graph(req, p);
    assert forall|i: int| 0 <= i < records.len() implies finite_geometry(#[trigger] records[i]) by {
    }
    lemma_finite_records(records);
}

} // verus!
