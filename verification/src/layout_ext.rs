//! The layout calls: what each does before and after the engine runs.
use vstd::prelude::*;

use crate::error::{
    law_graph_faults_read_alike, layout_message, wire_fault, FfiError, LayoutError,
};
use crate::float_bits::ZERO;
use crate::graph::{graph_fault, EdgeSpec, LayoutContext, NodeSpec, Request};
use crate::layout::{
    assemble, bend_error, empty_header, empty_layout, fits, flat_layout, gather_bends, kept_nodes,
    law_no_nodes_no_edges, layout_bytes_begin, layout_bytes_end, layout_flat_begin,
    layout_flat_end, layout_of, lemma_empty_layout, output_bytes, report_fits, too_many_bends,
    BendTable, EngineReport, FlatLayoutOutput, Layout, NodePlacement, NodePosition, Placement,
    Step,
};
use crate::options::PyLayoutOptions;
use crate::request::{
    build_fault, build_graph, build_lrd1, law_wire_and_memory_agree, request_fault,
};
use crate::wire::{header_bytes, BendPoint};

verus! {

/// A finished layout. Coordinates and sizes are binary64 bit patterns. Edge `k`
/// owns the `edge_bend_length[k]` bend points from `edge_bend_start[k]` on.
#[derive(Clone, Debug)]
pub struct LayoutResult {
    pub width: u64,
    pub height: u64,
    pub node_ids: Vec<u32>,
    pub node_x: Vec<u64>,
    pub node_y: Vec<u64>,
    pub node_width: Vec<u64>,
    pub node_height: Vec<u64>,
    pub edge_ids: Vec<u32>,
    pub edge_source: Vec<u32>,
    pub edge_target: Vec<u32>,
    pub edge_bend_start: Vec<u32>,
    pub edge_bend_length: Vec<u32>,
    pub bend_x: Vec<u64>,
    pub bend_y: Vec<u64>,
}

impl View for LayoutResult {
    type V = Layout;

    open spec fn view(&self) -> Layout {
        Layout {
            width: self.width,
            height: self.height,
            node_ids: self.node_ids@,
            node_x: self.node_x@,
            node_y: self.node_y@,
            node_width: self.node_width@,
            node_height: self.node_height@,
            edge_ids: self.edge_ids@,
            edge_source: self.edge_source@,
            edge_target: self.edge_target@,
            edge_bend_start: self.edge_bend_start@,
            edge_bend_length: self.edge_bend_length@,
            bend_x: self.bend_x@,
            bend_y: self.bend_y@,
        }
    }
}

impl LayoutResult {
    /// Takes over the arrays of a flat layout.
    pub fn from_flat(out: FlatLayoutOutput) -> (res: LayoutResult)
        ensures
            res@ == out@,
    {
        LayoutResult {
            width: out.width,
            height: out.height,
            node_ids: out.node_wire_ids,
            node_x: out.node_x,
            node_y: out.node_y,
            node_width: out.node_width,
            node_height: out.node_height,
            edge_ids: out.edge_wire_ids,
            edge_source: out.edge_source_wire_ids,
            edge_target: out.edge_target_wire_ids,
            edge_bend_start: out.edge_bend_start,
            edge_bend_length: out.edge_bend_length,
            bend_x: out.bend_x,
            bend_y: out.bend_y,
        }
    }
}

/// A node that the engine lost has no size and lies at the origin.
pub open spec fn found_node(placed: Option<NodePlacement>) -> NodePlacement {
    match placed {
        Some(p) => p,
        None => NodePlacement { x: ZERO, y: ZERO, width: ZERO, height: ZERO },
    }
}

/// The layout that is collected from the engine's own graph. Without nodes there
/// is nothing to collect, and the layout is empty.
pub open spec fn collected_layout(req: Request, p: Placement) -> Layout {
    if req.nodes.len() == 0 {
        empty_layout()
    } else {
        layout_of(
            req,
            p.width,
            p.height,
            p.nodes@.map_values(|at: Option<NodePlacement>| found_node(at)),
            p.edges@,
        )
    }
}

/// A node at a position, in the size that was asked for.
pub open spec fn standing(n: NodeSpec, at: NodePosition) -> NodePlacement {
    NodePlacement { x: at.x, y: at.y, width: n.width, height: n.height }
}

/// The nodes of a request at their positions.
pub open spec fn all_standing(req: Request, positions: Seq<NodePosition>) -> Seq<NodePlacement> {
    Seq::new(req.nodes.len(), |i: int| standing(req.nodes[i], positions[i]))
}

/// The layout that force-directed placement ends in: nodes keep the sizes that
/// were asked for, and edges are straight. Without nodes the layout is empty.
pub open spec fn force_layout_of(
    req: Request,
    width: u64,
    height: u64,
    positions: Seq<NodePosition>,
) -> Layout {
    let straight = Layout {
        edge_bend_start: Seq::new(req.edges.len(), |k: int| 0u32),
        edge_bend_length: Seq::new(req.edges.len(), |k: int| 0u32),
        ..layout_of(req, width, height, all_standing(req, positions), Seq::empty())
    };
    if req.nodes.len() == 0 {
        empty_layout()
    } else {
        straight
    }
}

/// How a request that is sent over the wire fails before the engine runs.
pub open spec fn flat_fault(nodes: Seq<NodeSpec>, edges: Seq<EdgeSpec>) -> Option<LayoutError> {
    match request_fault(nodes, edges) {
        Some(e) => Some(LayoutError::Request(e)),
        None => match graph_fault(nodes, edges) {
            Some(f) => Some(LayoutError::Wire(wire_fault(f))),
            None => None,
        },
    }
}

/// How a request with options fails before the engine runs.
pub open spec fn direct_fault(nodes: Seq<NodeSpec>, edges: Seq<EdgeSpec>) -> Option<LayoutError> {
    match build_fault(nodes, edges) {
        Some(e) => Some(LayoutError::Request(e)),
        None => None,
    }
}

/// Starts a layout with default options, to end in `layout_flat_py_end`. A
/// graph without nodes is done at once.
pub fn layout_flat_py_begin(nodes: &[NodeSpec], edges: &[EdgeSpec]) -> (res: Result<
    Step<LayoutResult>,
    LayoutError,
>)
    ensures
        match res {
            Ok(Step::Run(ctx)) => {
                &&& flat_fault(nodes@, edges@) is None
                &&& nodes@.len() > 0
                &&& ctx@ == (Request { nodes: nodes@, edges: edges@, options: None })
            },
            Ok(Step::Done(out)) => {
                &&& flat_fault(nodes@, edges@) is None
                &&& nodes@.len() == 0
                &&& out@ == empty_layout()
            },
            Err(e) => flat_fault(nodes@, edges@) == Some(e),
        },
{
    let buf: Vec<u8> = match build_lrd1(nodes, edges) {
        Ok(buf) => buf,
        Err(e) => {
            return Err(LayoutError::Request(e));
        },
    };
    proof {
        law_wire_and_memory_agree(nodes@, edges@);
    }
    match layout_flat_begin(buf.as_slice()) {
        Ok(Step::Run(ctx)) => Ok(Step::Run(ctx)),
        Ok(Step::Done(out)) => Ok(Step::Done(LayoutResult::from_flat(out))),
        Err(e) => Err(LayoutError::Wire(e)),
    }
}

/// Ends a layout with default options. A graph without nodes has the empty
/// layout, whatever is reported.
pub fn layout_flat_py_end(ctx: &LayoutContext, report: &EngineReport) -> (res: Result<
    LayoutResult,
    LayoutError,
>)
    requires
        report_fits(ctx@, *report),
    ensures
        if ctx@.nodes.len() == 0 {
            res matches Ok(out) && out@ == empty_layout()
        } else {
            match (*report, res) {
                (EngineReport::Panicked, res) => res == Err::<LayoutResult, LayoutError>(
                    LayoutError::Wire(FfiError::LayoutPanic),
                ),
                (EngineReport::Finished(p), Ok(out)) => !too_many_bends(p) && out@ == flat_layout(
                    ctx@,
                    p,
                ),
                (EngineReport::Finished(p), Err(e)) => too_many_bends(p) && e == LayoutError::Wire(
                    bend_error(),
                ),
            }
        },
{
    match layout_flat_end(ctx, report) {
        Ok(out) => Ok(LayoutResult::from_flat(out)),
        Err(e) => Err(LayoutError::Wire(e)),
    }
}

/// Starts a layout that is to end in an LRD1 buffer, by `layout_bytes_py_end`.
/// A graph without nodes is done at once.
pub fn layout_bytes_py_begin(nodes: &[NodeSpec], edges: &[EdgeSpec]) -> (res: Result<
    Step<Vec<u8>>,
    LayoutError,
>)
    ensures
        match res {
            Ok(Step::Run(ctx)) => {
                &&& flat_fault(nodes@, edges@) is None
                &&& nodes@.len() > 0
                &&& ctx@ == (Request { nodes: nodes@, edges: edges@, options: None })
            },
            Ok(Step::Done(out)) => {
                &&& flat_fault(nodes@, edges@) is None
                &&& nodes@.len() == 0
                &&& out@ == header_bytes(empty_header())
            },
            Err(e) => flat_fault(nodes@, edges@) == Some(e),
        },
{
    let buf: Vec<u8> = match build_lrd1(nodes, edges) {
        Ok(buf) => buf,
        Err(e) => {
            return Err(LayoutError::Request(e));
        },
    };
    proof {
        law_wire_and_memory_agree(nodes@, edges@);
    }
    match layout_bytes_begin(buf.as_slice()) {
        Ok(step) => Ok(step),
        Err(e) => Err(LayoutError::Wire(e)),
    }
}

/// Ends a layout in an LRD1 buffer. That of a graph without nodes is a header
/// alone, whatever is reported.
pub fn layout_bytes_py_end(ctx: &LayoutContext, report: &EngineReport) -> (res: Result<
    Vec<u8>,
    LayoutError,
>)
    requires
        report_fits(ctx@, *report),
    ensures
        if ctx@.nodes.len() == 0 {
            res matches Ok(out) && out@ == header_bytes(empty_header())
        } else {
            match (*report, res) {
                (EngineReport::Panicked, res) => res == Err::<Vec<u8>, LayoutError>(
                    LayoutError::Wire(FfiError::LayoutPanic),
                ),
                (EngineReport::Finished(p), Ok(out)) => !too_many_bends(p) && out@ == output_bytes(
                    ctx@,
                    p,
                ),
                (EngineReport::Finished(p), Err(e)) => too_many_bends(p) && e == LayoutError::Wire(
                    bend_error(),
                ),
            }
        },
{
    match layout_bytes_end(ctx, report) {
        Ok(out) => Ok(out),
        Err(e) => Err(LayoutError::Wire(e)),
    }
}

/// The empty layout of a request without nodes.
fn nothing_placed(ctx: &LayoutContext) -> (res: LayoutResult)
    requires
        ctx@.nodes.len() == 0,
        ctx@.edges.len() == 0,
    ensures
        res@ == empty_layout(),
{
    let placed: Vec<NodePlacement> = Vec::new();
    let bends: Vec<Option<Vec<BendPoint>>> = Vec::new();
    let table = BendTable { start: Vec::new(), length: Vec::new(), points: Vec::new() };
    proof {
        lemma_empty_layout(ctx@, placed@, bends@);
    }
    LayoutResult::from_flat(assemble(ctx, ZERO, ZERO, &placed, table, Ghost(bends@)))
}

/// Collects a layout from what the engine placed.
pub fn collect_layout(ctx: &LayoutContext, p: &Placement) -> (res: LayoutResult)
    requires
        fits(ctx@, *p),
    ensures
        res@ == collected_layout(ctx@, *p),
{
    if ctx.nodes().is_empty() {
        proof {
            law_no_nodes_no_edges(ctx@.nodes, ctx@.edges);
        }
        return nothing_placed(ctx);
    }
    let n: usize = p.nodes.len();
    let mut placed: Vec<NodePlacement> = Vec::with_capacity(n);
    let ghost expected = p.nodes@.map_values(|at: Option<NodePlacement>| found_node(at));
    let mut i: usize = 0;
    while i < n
        invariant
            i <= n,
            n == p.nodes@.len(),
            expected == p.nodes@.map_values(|at: Option<NodePlacement>| found_node(at)),
            placed@ =~= expected.take(i as int),
        decreases n - i,
    {
        match p.nodes[i] {
            Some(at) => placed.push(at),
            None => placed.push(NodePlacement { x: ZERO, y: ZERO, width: ZERO, height: ZERO }),
        }
        i = i + 1;
    }
    assert(expected.take(n as int) =~= expected);
    match gather_bends(&p.edges, None) {
        Some(table) => LayoutResult::from_flat(
            assemble(ctx, p.width, p.height, &placed, table, Ghost(p.edges@)),
        ),
        None => {
            assert(false);
            nothing_placed(ctx)
        },
    }
}

/// Starts a layout, to end in `layout_with_options_py_end`. With options, the
/// engine is set up with them; without, this is `layout_flat_py_begin`.
pub fn layout_with_options_py_begin(
    nodes: &[NodeSpec],
    edges: &[EdgeSpec],
    options: Option<PyLayoutOptions>,
) -> (res: Result<Step<LayoutResult>, LayoutError>)
    ensures
        ({
            let fault = if options is Some {
                direct_fault(nodes@, edges@)
            } else {
                flat_fault(nodes@, edges@)
            };
            match res {
                Ok(Step::Run(ctx)) => {
                    &&& fault is None
                    &&& nodes@.len() > 0
                    &&& ctx@ == (Request { nodes: nodes@, edges: edges@, options })
                },
                Ok(Step::Done(out)) => {
                    &&& fault is None
                    &&& nodes@.len() == 0
                    &&& out@ == empty_layout()
                },
                Err(e) => fault == Some(e),
            }
        }),
{
    if options.is_none() {
        return layout_flat_py_begin(nodes, edges);
    }
    let ctx: LayoutContext = match build_graph(nodes, edges, options) {
        Ok(ctx) => ctx,
        Err(e) => {
            return Err(LayoutError::Request(e));
        },
    };
    if ctx.nodes().is_empty() {
        proof {
            law_no_nodes_no_edges(ctx@.nodes, ctx@.edges);
        }
        return Ok(Step::Done(nothing_placed(&ctx)));
    }
    Ok(Step::Run(ctx))
}

/// Ends a layout that `layout_with_options_py_begin` started. A graph without
/// nodes has the empty layout, whatever is reported.
pub fn layout_with_options_py_end(ctx: &LayoutContext, report: &EngineReport) -> (res: Result<
    LayoutResult,
    LayoutError,
>)
    requires
        report_fits(ctx@, *report),
    ensures
        if ctx@.nodes.len() == 0 {
            res matches Ok(out) && out@ == empty_layout()
        } else {
            match (*report, res) {
                (EngineReport::Panicked, res) => res == Err::<LayoutResult, LayoutError>(
                    LayoutError::Wire(FfiError::LayoutPanic),
                ),
                (EngineReport::Finished(p), Ok(out)) => if ctx@.options is Some {
                    out@ == collected_layout(ctx@, p)
                } else {
                    !too_many_bends(p) && out@ == flat_layout(ctx@, p)
                },
                (EngineReport::Finished(p), Err(e)) => {
                    &&& ctx@.options is None
                    &&& too_many_bends(p)
                    &&& e == LayoutError::Wire(bend_error())
                },
            }
        },
{
    if ctx.options().is_none() {
        return layout_flat_py_end(ctx, report);
    }
    if ctx.nodes().is_empty() {
        proof {
            law_no_nodes_no_edges(ctx@.nodes, ctx@.edges);
        }
        return Ok(nothing_placed(ctx));
    }
    match report {
        EngineReport::Finished(p) => Ok(collect_layout(ctx, p)),
        EngineReport::Panicked => Err(LayoutError::Wire(FfiError::LayoutPanic)),
    }
}

/// Starts a force-directed layout, to end in `layout_force_py_end`.
pub fn layout_force_py_begin(nodes: &[NodeSpec], edges: &[EdgeSpec]) -> (res: Result<
    LayoutContext,
    LayoutError,
>)
    ensures
        match res {
            Ok(ctx) => {
                &&& direct_fault(nodes@, edges@) is None
                &&& ctx@ == (Request { nodes: nodes@, edges: edges@, options: None })
            },
            Err(e) => direct_fault(nodes@, edges@) == Some(e),
        },
{
    match build_graph(nodes, edges, None) {
        Ok(ctx) => Ok(ctx),
        Err(e) => Err(LayoutError::Request(e)),
    }
}

/// Ends a force-directed layout: collects it from where the nodes came to rest.
pub fn layout_force_py_end(
    ctx: &LayoutContext,
    width: u64,
    height: u64,
    positions: &Vec<NodePosition>,
) -> (res: LayoutResult)
    requires
        positions@.len() == ctx@.nodes.len(),
    ensures
        res@ == force_layout_of(ctx@, width, height, positions@),
{
    if ctx.nodes().is_empty() {
        proof {
            law_no_nodes_no_edges(ctx@.nodes, ctx@.edges);
        }
        return nothing_placed(ctx);
    }
    let nodes: &Vec<NodeSpec> = ctx.nodes();
    let n: usize = nodes.len();
    let mut placed: Vec<NodePlacement> = Vec::with_capacity(n);
    let mut i: usize = 0;
    while i < n
        invariant
            i <= n,
            n == nodes@.len() == positions@.len(),
            nodes@ == ctx@.nodes,
            placed@ =~= all_standing(ctx@, positions@).take(i as int),
        decreases n - i,
    {
        placed.push(
            NodePlacement {
                x: positions[i].x,
                y: positions[i].y,
                width: nodes[i].width,
                height: nodes[i].height,
            },
        );
        i = i + 1;
    }
    assert(placed@ =~= all_standing(ctx@, positions@));
    let m: usize = ctx.edges().len();
    let bends: Vec<Option<Vec<BendPoint>>> = Vec::new();
    let table = BendTable { start: Vec::new(), length: Vec::new(), points: Vec::new() };
    let mut res: LayoutResult = LayoutResult::from_flat(
        assemble(ctx, width, height, &placed, table, Ghost(bends@)),
    );
    res.edge_bend_start = vec![0u32; m];
    res.edge_bend_length = vec![0u32; m];
    proof {
        assert(bends@ =~= Seq::empty());
        assert(res@ =~= force_layout_of(ctx@, width, height, positions@));
    }
    res
}

/// A request is turned down with options exactly when it is turned down without,
/// and the report reads the same.
pub proof fn law_faults_agree(
    nodes: Seq<NodeSpec>,
    edges: Seq<EdgeSpec>,
    width_text: Seq<char>,
    height_text: Seq<char>,
)
    ensures
        match (flat_fault(nodes, edges), direct_fault(nodes, edges)) {
            (None, None) => true,
            (Some(a), Some(b)) => layout_message(a, width_text, height_text) == layout_message(
                b,
                width_text,
                height_text,
            ),
            _ => false,
        },
{
    if graph_fault(nodes, edges) is Some {
        law_graph_faults_read_alike(graph_fault(nodes, edges)->0);
    }
}

/// Where the engine lost no node, a layout with options is put together as one
/// without options is.
pub proof fn law_collected_is_flat(req: Request, p: Placement)
    requires
        fits(req, p),
        req.nodes.len() > 0,
        forall|i: int| 0 <= i < p.nodes@.len() ==> (#[trigger] p.nodes@[i]) is Some,
    ensures
        collected_layout(req, p) == flat_layout(req, p),
{
    assert(p.nodes@.map_values(|at: Option<NodePlacement>| found_node(at)) =~= kept_nodes(req, p));
}

/// The node arrays have one entry for each node of the request, the edge arrays
/// one for each edge, and every bend point has both coordinates.
pub open spec fn shaped_for(layout: Layout, req: Request) -> bool {
    let n = req.nodes.len();
    let m = req.edges.len();
    &&& layout.node_ids.len() == n
    &&& layout.node_x.len() == n
    &&& layout.node_y.len() == n
    &&& layout.node_width.len() == n
    &&& layout.node_height.len() == n
    &&& layout.edge_ids.len() == m
    &&& layout.edge_source.len() == m
    &&& layout.edge_target.len() == m
    &&& layout.edge_bend_start.len() == m
    &&& layout.edge_bend_length.len() == m
    &&& layout.bend_x.len() == layout.bend_y.len()
}

/// Every layout has the shape of the request that it answers.
pub proof fn law_layouts_have_shape(
    req: Request,
    p: Placement,
    width: u64,
    height: u64,
    positions: Seq<NodePosition>,
)
    requires
        graph_fault(req.nodes, req.edges) is None,
        fits(req, p),
        positions.len() == req.nodes.len(),
    ensures
        shaped_for(flat_layout(req, p), req),
        shaped_for(collected_layout(req, p), req),
        shaped_for(force_layout_of(req, width, height, positions), req),
{
    if req.nodes.len() == 0 {
        law_no_nodes_no_edges(req.nodes, req.edges);
    }
}

/// Force-directed layout moves nodes and changes no size: every node ends where
/// it came to rest, as large as was asked for.
pub proof fn law_force_keeps_sizes(
    req: Request,
    width: u64,
    height: u64,
    positions: Seq<NodePosition>,
)
    requires
        positions.len() == req.nodes.len(),
    ensures
        ({
            let layout = force_layout_of(req, width, height, positions);
            &&& layout.node_width == req.nodes.map_values(|n: NodeSpec| n.width)
            &&& layout.node_height == req.nodes.map_values(|n: NodeSpec| n.height)
            &&& layout.node_x == positions.map_values(|at: NodePosition| at.x)
            &&& layout.node_y == positions.map_values(|at: NodePosition| at.y)
        }),
{
    let layout = force_layout_of(req, width, height, positions);
    assert(layout.node_width =~= req.nodes.map_values(|n: NodeSpec| n.width));
    assert(layout.node_height =~= req.nodes.map_values(|n: NodeSpec| n.height));
    assert(layout.node_x =~= positions.map_values(|at: NodePosition| at.x));
    assert(layout.node_y =~= positions.map_values(|at: NodePosition| at.y));
}

} // verus!
