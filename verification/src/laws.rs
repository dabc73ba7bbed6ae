//! What layouts and buffers hold, said of the fields and bytes themselves.
//!
//! The laws here speak of requests, of what the engine reports and of results
//! field by field, and of buffers byte by byte.
use vstd::prelude::*;

use crate::error::{FfiError, RecordKind};
use crate::graph::{EdgeSpec, NodeSpec, Request};
use crate::layout::{
    all_bends, bend_error, bend_start, bends_of, empty_header, empty_layout, fits, flat_layout,
    law_edge_owns_its_bends, layout_of, low32, output_bytes, output_edges, output_header, output_nodes,
    report_fits, too_many_bends, EngineReport, FlatLayoutOutput, Layout, NodePosition, Placement,
};
use crate::layout_ext::{collected_layout, force_layout_of, LayoutResult};
use crate::request::{edge_requests, node_requests, request_bytes, request_header};
use crate::wire::{
    bend_bytes, bend_section, edge_bytes, edge_section, header_bytes, joined, le32, le64,
    lemma_joined, lemma_section_lengths, node_bytes, node_section, u32_at, u64_at, BendPoint,
    EdgeRecord, Header, NodeRecord, VERSION,
};

verus! {

/// How many bend points the engine reports for these edges.
pub open spec fn reported_bends(edges: Seq<Option<Vec<BendPoint>>>) -> nat
    decreases edges.len(),
{
    if edges.len() == 0 {
        0
    } else {
        reported_bends(edges.drop_last()) + match edges.last() {
            Some(bends) => bends@.len(),
            None => 0,
        }
    }
}

/// The number that four bytes from `at` on spell, least significant first.
pub open spec fn number32(s: Seq<u8>, at: int) -> int {
    s[at] + 0x100 * s[at + 1] + 0x1_0000 * s[at + 2] + 0x100_0000 * s[at + 3]
}

/// The number that eight bytes from `at` on spell, least significant first.
pub open spec fn number64(s: Seq<u8>, at: int) -> int {
    number32(s, at) + 0x1_0000_0000 * number32(s, at + 4)
}

/// The engine reports one entry for each node and each edge of a request.
pub open spec fn reported_in_full(req: Request, p: Placement) -> bool {
    p.nodes@.len() == req.nodes.len() && p.edges@.len() == req.edges.len()
}

/// A result shows its own arrays.
pub proof fn law_results_show_their_fields(res: LayoutResult, out: FlatLayoutOutput)
    ensures
        res@.width == res.width && res@.height == res.height,
        res@.node_ids == res.node_ids@,
        res@.node_x == res.node_x@ && res@.node_y == res.node_y@,
        res@.node_width == res.node_width@ && res@.node_height == res.node_height@,
        res@.edge_ids == res.edge_ids@,
        res@.edge_source == res.edge_source@ && res@.edge_target == res.edge_target@,
        res@.edge_bend_start == res.edge_bend_start@,
        res@.edge_bend_length == res.edge_bend_length@,
        res@.bend_x == res.bend_x@ && res@.bend_y == res.bend_y@,
        out@.width == out.width && out@.height == out.height,
        out@.node_ids == out.node_wire_ids@,
        out@.node_x == out.node_x@ && out@.node_y == out.node_y@,
        out@.node_width == out.node_width@ && out@.node_height == out.node_height@,
        out@.edge_ids == out.edge_wire_ids@,
        out@.edge_source == out.edge_source_wire_ids@,
        out@.edge_target == out.edge_target_wire_ids@,
        out@.edge_bend_start == out.edge_bend_start@,
        out@.edge_bend_length == out.edge_bend_length@,
        out@.bend_x == out.bend_x@ && out@.bend_y == out.bend_y@,
{
}

/// A report can be used exactly when it has an entry for each node and each edge
/// of the request; a panic always can.
pub proof fn law_reports_that_fit(req: Request, p: Placement)
    ensures
        fits(req, p) <==> reported_in_full(req, p),
        report_fits(req, EngineReport::Finished(p)) <==> reported_in_full(req, p),
        report_fits(req, EngineReport::Panicked),
{
}

/// The layout carries these ids and ends, in the order of the request.
pub open spec fn labelled(layout: Layout, req: Request) -> bool {
    &&& layout.node_ids.len() == req.nodes.len()
    &&& forall|i: int|
        0 <= i < req.nodes.len() ==> #[trigger] layout.node_ids[i] == req.nodes[i].id
    &&& layout.edge_ids.len() == req.edges.len()
    &&& forall|k: int|
        0 <= k < req.edges.len() ==> #[trigger] layout.edge_ids[k] == req.edges[k].id
    &&& layout.edge_source.len() == req.edges.len()
    &&& forall|k: int|
        0 <= k < req.edges.len() ==> #[trigger] layout.edge_source[k] == req.edges[k].source
    &&& layout.edge_target.len() == req.edges.len()
    &&& forall|k: int|
        0 <= k < req.edges.len() ==> #[trigger] layout.edge_target[k] == req.edges[k].target
}

/// Layouts are as large as the engine says and name every node and edge as the
/// request does.
pub proof fn law_layouts_are_labelled(req: Request, p: Placement)
    requires
        reported_in_full(req, p),
    ensures
        flat_layout(req, p).width == p.width && flat_layout(req, p).height == p.height,
        labelled(flat_layout(req, p), req),
        flat_layout(req, p).node_x.len() == req.nodes.len(),
        flat_layout(req, p).node_y.len() == req.nodes.len(),
        flat_layout(req, p).node_width.len() == req.nodes.len(),
        flat_layout(req, p).node_height.len() == req.nodes.len(),
        flat_layout(req, p).edge_bend_start.len() == req.edges.len(),
        flat_layout(req, p).edge_bend_length.len() == req.edges.len(),
        req.nodes.len() > 0 ==> {
            &&& collected_layout(req, p).width == p.width
            &&& collected_layout(req, p).height == p.height
            &&& labelled(collected_layout(req, p), req)
            &&& collected_layout(req, p).edge_bend_start.len() == req.edges.len()
            &&& collected_layout(req, p).edge_bend_length.len() == req.edges.len()
        },
{
}

/// A node stands where the engine placed it, in the size that the engine gave
/// it. One that the engine lost stands at the origin: without options in the
/// size that was asked for, with options without a size.
pub proof fn law_nodes_stand_where_placed(req: Request, p: Placement, i: int)
    requires
        reported_in_full(req, p),
        0 <= i < req.nodes.len(),
    ensures
        ({
            let flat = flat_layout(req, p);
            let collected = collected_layout(req, p);
            &&& flat.node_x.len() == req.nodes.len() && flat.node_y.len() == req.nodes.len()
            &&& flat.node_width.len() == req.nodes.len()
            &&& flat.node_height.len() == req.nodes.len()
            &&& collected.node_x.len() == req.nodes.len()
            &&& collected.node_y.len() == req.nodes.len()
            &&& collected.node_width.len() == req.nodes.len()
            &&& collected.node_height.len() == req.nodes.len()
            &&& p.nodes@[i] matches Some(at) ==> {
                &&& flat.node_x[i] == at.x && collected.node_x[i] == at.x
                &&& flat.node_y[i] == at.y && collected.node_y[i] == at.y
                &&& flat.node_width[i] == at.width && collected.node_width[i] == at.width
                &&& flat.node_height[i] == at.height && collected.node_height[i] == at.height
            }
            &&& p.nodes@[i] is None ==> {
                &&& flat.node_x[i] == 0 && collected.node_x[i] == 0
                &&& flat.node_y[i] == 0 && collected.node_y[i] == 0
                &&& flat.node_width[i] == req.nodes[i].width && collected.node_width[i] == 0
                &&& flat.node_height[i] == req.nodes[i].height && collected.node_height[i] == 0
            }
        }),
{
}

/// The flat list is as long as all that the engine reports.
proof fn lemma_reported_bends(edges: Seq<Option<Vec<BendPoint>>>)
    ensures
        all_bends(edges).len() == reported_bends(edges),
    decreases edges.len(),
{
    if edges.len() > 0 {
        lemma_reported_bends(edges.drop_last());
    }
}

/// Without options a layout holds ten million bend points and not one more.
pub proof fn law_bend_limit(p: Placement)
    ensures
        too_many_bends(p) <==> reported_bends(p.edges@) > 10_000_000,
        bend_error() == (FfiError::TooLarge { kind: RecordKind::Bend, count: 10_000_000 }),
{
    lemma_reported_bends(p.edges@);
}

/// The bend points of an edge are counted by its length and stand in the flat
/// list from its start on, in the order that the engine gives them. An edge that
/// the engine lost has none.
pub open spec fn holds_bends(layout: Layout, p: Placement, k: int) -> bool {
    let start = layout.edge_bend_start[k] as int;
    let length = layout.edge_bend_length[k] as int;
    &&& layout.bend_x.len() == layout.bend_y.len()
    &&& start + length <= layout.bend_x.len()
    &&& match p.edges@[k] {
        Some(bends) => {
            &&& length == bends@.len()
            &&& forall|j: int|
                0 <= j < bends@.len() ==> layout.bend_x[start + j] == (#[trigger] bends@[j]).x
                    && layout.bend_y[start + j] == bends@[j].y
        },
        None => length == 0,
    }
}

/// Edges share out the flat list in their order, without gaps.
pub open spec fn shares_out_bends(layout: Layout, p: Placement, k: int) -> bool {
    let start = layout.edge_bend_start[k] as int;
    let end = start + layout.edge_bend_length[k];
    &&& layout.edge_bend_start.len() == p.edges@.len()
    &&& layout.edge_bend_length.len() == p.edges@.len()
    &&& k == 0 ==> start == 0
    &&& k + 1 < p.edges@.len() ==> layout.edge_bend_start[k + 1] == end
    &&& k + 1 == p.edges@.len() ==> layout.bend_x.len() == end
}

proof fn lemma_bends(layout: Layout, p: Placement, k: int)
    requires
        reported_bends(p.edges@) <= 0xffff_ffff,
        0 <= k < p.edges@.len(),
        ({
            let whole = layout_of(
                Request { nodes: Seq::empty(), edges: Seq::empty(), options: None },
                0,
                0,
                Seq::empty(),
                p.edges@,
            );
            &&& layout.edge_bend_start == whole.edge_bend_start
            &&& layout.edge_bend_length == whole.edge_bend_length
            &&& layout.bend_x == whole.bend_x
            &&& layout.bend_y == whole.bend_y
        }),
    ensures
        holds_bends(layout, p, k),
        shares_out_bends(layout, p, k),
{
    let edges = p.edges@;
    let all = all_bends(edges);
    let start = bend_start(edges, k) as int;
    let end = bend_start(edges, k + 1) as int;
    lemma_reported_bends(edges);
    law_edge_owns_its_bends(edges, k);
    if let Some(bends) = edges[k] {
        assert forall|j: int| 0 <= j < bends@.len() implies layout.bend_x[start + j] == (
        #[trigger] bends@[j]).x && layout.bend_y[start + j] == bends@[j].y by {
            assert(all.subrange(start, end)[j] == bends@[j]);
            assert(all[start + j] == bends@[j]);
        }
    }
    if k + 1 < edges.len() {
        law_edge_owns_its_bends(edges, k + 1);
    }
}

/// Without options, as long as the engine keeps to the limit, every edge has the
/// bend points that the engine reports for it, in order.
pub proof fn law_flat_layouts_hold_bends(req: Request, p: Placement, k: int)
    requires
        reported_in_full(req, p),
        reported_bends(p.edges@) <= 10_000_000,
        0 <= k < req.edges.len(),
    ensures
        holds_bends(flat_layout(req, p), p, k),
        shares_out_bends(flat_layout(req, p), p, k),
{
    lemma_bends(flat_layout(req, p), p, k);
}

/// With options, every edge has the bend points that the engine reports for it,
/// in order, as long as 32 bits can count them.
pub proof fn law_collected_layouts_hold_bends(req: Request, p: Placement, k: int)
    requires
        reported_in_full(req, p),
        req.nodes.len() > 0,
        reported_bends(p.edges@) <= 0xffff_ffff,
        0 <= k < req.edges.len(),
    ensures
        holds_bends(collected_layout(req, p), p, k),
        shares_out_bends(collected_layout(req, p), p, k),
{
    lemma_bends(collected_layout(req, p), p, k);
}

/// However many bend points there are, all that the engine reports are kept, edge
/// by edge and in order; starts and lengths are counted in 32 bits.
pub open spec fn keeps_bends(layout: Layout, p: Placement, k: int) -> bool {
    let first = reported_bends(p.edges@.take(k)) as int;
    &&& layout.bend_x.len() == reported_bends(p.edges@)
    &&& layout.bend_y.len() == reported_bends(p.edges@)
    &&& layout.edge_bend_start[k] as int == first % 0x1_0000_0000
    &&& match p.edges@[k] {
        Some(bends) => {
            &&& layout.edge_bend_length[k] as int == bends@.len() as int % 0x1_0000_0000
            &&& forall|j: int|
                0 <= j < bends@.len() ==> layout.bend_x[first + j] == (#[trigger] bends@[j]).x
                    && layout.bend_y[first + j] == bends@[j].y
        },
        None => layout.edge_bend_length[k] == 0,
    }
}

proof fn lemma_keeps_bends(layout: Layout, p: Placement, k: int)
    requires
        0 <= k < p.edges@.len(),
        layout.edge_bend_start.len() == p.edges@.len(),
        layout.edge_bend_start[k] == low32(bend_start(p.edges@, k)),
        layout.edge_bend_length[k] == low32(bends_of(p.edges@[k]).len()),
        layout.bend_x == all_bends(p.edges@).map_values(|b: BendPoint| b.x),
        layout.bend_y == all_bends(p.edges@).map_values(|b: BendPoint| b.y),
    ensures
        keeps_bends(layout, p, k),
{
    let edges = p.edges@;
    let all = all_bends(edges);
    let first = bend_start(edges, k) as int;
    let end = bend_start(edges, k + 1) as int;
    lemma_reported_bends(edges);
    lemma_reported_bends(edges.take(k));
    law_edge_owns_its_bends(edges, k);
    if let Some(bends) = edges[k] {
        assert forall|j: int| 0 <= j < bends@.len() implies layout.bend_x[first + j] == (
        #[trigger] bends@[j]).x && layout.bend_y[first + j] == bends@[j].y by {
            assert(all.subrange(first, end)[j] == bends@[j]);
            assert(all[first + j] == bends@[j]);
        }
    }
}

/// No bend point that the engine reports is dropped, added or moved to another
/// edge, with or without options.
pub proof fn law_bends_are_kept(req: Request, p: Placement, k: int)
    requires
        reported_in_full(req, p),
        0 <= k < req.edges.len(),
    ensures
        keeps_bends(flat_layout(req, p), p, k),
        req.nodes.len() > 0 ==> keeps_bends(collected_layout(req, p), p, k),
{
    lemma_keeps_bends(flat_layout(req, p), p, k);
    if req.nodes.len() > 0 {
        lemma_keeps_bends(collected_layout(req, p), p, k);
    }
}

/// Without edges there are no bend points.
pub proof fn law_no_edges_no_bends(req: Request, p: Placement)
    requires
        reported_in_full(req, p),
        req.edges.len() == 0,
    ensures
        flat_layout(req, p).bend_x.len() == 0 && flat_layout(req, p).bend_y.len() == 0,
        collected_layout(req, p).bend_x.len() == 0 && collected_layout(req, p).bend_y.len() == 0,
{
}

/// A force-directed layout is as large as it is told, names every node and edge
/// as the request does, keeps sizes, places nodes where they came to rest and
/// draws edges straight.
pub proof fn law_force_layouts(
    req: Request,
    width: u64,
    height: u64,
    positions: Seq<NodePosition>,
)
    requires
        positions.len() == req.nodes.len(),
        req.nodes.len() > 0,
    ensures
        ({
            let layout = force_layout_of(req, width, height, positions);
            &&& layout.width == width && layout.height == height
            &&& labelled(layout, req)
            &&& layout.node_x.len() == req.nodes.len() && layout.node_y.len() == req.nodes.len()
            &&& layout.node_width.len() == req.nodes.len()
            &&& layout.node_height.len() == req.nodes.len()
            &&& forall|i: int|
                0 <= i < req.nodes.len() ==> {
                    &&& layout.node_x[i] == (#[trigger] positions[i]).x
                    &&& layout.node_y[i] == positions[i].y
                    &&& layout.node_width[i] == req.nodes[i].width
                    &&& layout.node_height[i] == req.nodes[i].height
                }
            &&& layout.edge_bend_start.len() == req.edges.len()
            &&& layout.edge_bend_length.len() == req.edges.len()
            &&& forall|k: int|
                0 <= k < req.edges.len() ==> #[trigger] layout.edge_bend_start[k] == 0
            &&& forall|k: int|
                0 <= k < req.edges.len() ==> #[trigger] layout.edge_bend_length[k] == 0
            &&& layout.bend_x.len() == 0 && layout.bend_y.len() == 0
        }),
{
}

/// Nothing was placed: a layout of size zero whose arrays are all empty.
pub open spec fn holds_nothing(layout: Layout) -> bool {
    &&& layout.width == 0 && layout.height == 0
    &&& layout.node_ids.len() == 0 && layout.node_x.len() == 0 && layout.node_y.len() == 0
    &&& layout.node_width.len() == 0 && layout.node_height.len() == 0
    &&& layout.edge_ids.len() == 0 && layout.edge_source.len() == 0
    &&& layout.edge_target.len() == 0 && layout.edge_bend_start.len() == 0
    &&& layout.edge_bend_length.len() == 0 && layout.bend_x.len() == 0
    &&& layout.bend_y.len() == 0
}

/// The layout of a request without nodes holds nothing, and its buffer is a
/// header that counts nothing.
pub proof fn law_without_nodes_nothing_is_placed(
    req: Request,
    p: Placement,
    width: u64,
    height: u64,
    positions: Seq<NodePosition>,
)
    requires
        req.nodes.len() == 0,
    ensures
        holds_nothing(empty_layout()),
        holds_nothing(collected_layout(req, p)),
        holds_nothing(force_layout_of(req, width, height, positions)),
{
}

/// Numbers in buffers are read and written least significant byte first.
pub proof fn law_numbers_in_buffers(s: Seq<u8>, at: int, v: u32, w: u64)
    ensures
        u32_at(s, at) == number32(s, at),
        u64_at(s, at) == number64(s, at),
        le32(v).len() == 4 && number32(le32(v), 0) == v,
        le64(w).len() == 8 && number64(le64(w), 0) == w,
{
    let low = (w % 0x1_0000_0000) as u32;
    let high = (w / 0x1_0000_0000) as u32;
    assert(number32(le32(low), 0) == low && number32(le32(high), 0) == high);
    assert(forall|k: int| 0 <= k < 4 ==> #[trigger] le64(w)[k] == le32(low)[k]);
    assert(forall|k: int| 4 <= k < 8 ==> #[trigger] le64(w)[k] == le32(high)[k - 4]);
}

/// A number stands in a part of a buffer as it stands in the whole.
proof fn lemma_part(whole: Seq<u8>, from: int, to: int, at: int)
    requires
        0 <= from <= to <= whole.len(),
        0 <= at,
    ensures
        from + at + 4 <= to ==> number32(whole.subrange(from, to), at) == number32(
            whole,
            from + at,
        ),
        from + at + 8 <= to ==> number64(whole.subrange(from, to), at) == number64(
            whole,
            from + at,
        ),
{
    let part = whole.subrange(from, to);
    if from + at + 4 <= to {
        assert(part[at] == whole[from + at]);
        assert(part[at + 1] == whole[from + at + 1]);
        assert(part[at + 2] == whole[from + at + 2]);
        assert(part[at + 3] == whole[from + at + 3]);
    }
    if from + at + 8 <= to {
        assert(part[at + 4] == whole[from + at + 4]);
        assert(part[at + 5] == whole[from + at + 5]);
        assert(part[at + 6] == whole[from + at + 6]);
        assert(part[at + 7] == whole[from + at + 7]);
    }
}

/// A number that was written into a buffer can be read there.
proof fn lemma_written32(s: Seq<u8>, at: int, v: u32)
    requires
        0 <= at,
        at + 4 <= s.len(),
        s.subrange(at, at + 4) == le32(v),
    ensures
        number32(s, at) == v,
{
    law_numbers_in_buffers(s, at, v, 0);
    lemma_part(s, at, at + 4, 0);
}

proof fn lemma_written64(s: Seq<u8>, at: int, v: u64)
    requires
        0 <= at,
        at + 8 <= s.len(),
        s.subrange(at, at + 8) == le64(v),
    ensures
        number64(s, at) == v,
{
    law_numbers_in_buffers(s, at, 0, v);
    lemma_part(s, at, at + 8, 0);
}

/// A header spells its magic, the version, the flags, three counts and the size
/// of the graph.
pub proof fn law_header_bytes(h: Header)
    ensures
        ({
            let b = header_bytes(h);
            &&& b.len() == 40
            &&& b[0] == 0x4C && b[1] == 0x52 && b[2] == 0x44 && b[3] == 0x31
            &&& number32(b, 4) == 1
            &&& number32(b, 8) == h.flags
            &&& number32(b, 12) == h.node_count
            &&& number32(b, 16) == h.edge_count
            &&& number32(b, 20) == h.bend_count
            &&& number64(b, 24) == h.width
            &&& number64(b, 32) == h.height
        }),
{
    let b = header_bytes(h);
    assert(b.subrange(4, 8) =~= le32(VERSION));
    assert(b.subrange(8, 12) =~= le32(h.flags));
    assert(b.subrange(12, 16) =~= le32(h.node_count));
    assert(b.subrange(16, 20) =~= le32(h.edge_count));
    assert(b.subrange(20, 24) =~= le32(h.bend_count));
    assert(b.subrange(24, 32) =~= le64(h.width));
    assert(b.subrange(32, 40) =~= le64(h.height));
    lemma_written32(b, 4, VERSION);
    lemma_written32(b, 8, h.flags);
    lemma_written32(b, 12, h.node_count);
    lemma_written32(b, 16, h.edge_count);
    lemma_written32(b, 20, h.bend_count);
    lemma_written64(b, 24, h.width);
    lemma_written64(b, 32, h.height);
}

/// A node record spells the id, four reserved bytes, the size and the place.
pub proof fn law_node_bytes(n: NodeRecord)
    ensures
        ({
            let b = node_bytes(n);
            &&& b.len() == 40
            &&& number32(b, 0) == n.id
            &&& number32(b, 4) == 0
            &&& number64(b, 8) == n.width
            &&& number64(b, 16) == n.height
            &&& number64(b, 24) == n.x
            &&& number64(b, 32) == n.y
        }),
{
    let b = node_bytes(n);
    assert(b.subrange(0, 4) =~= le32(n.id));
    assert(b.subrange(4, 8) =~= le32(0));
    assert(b.subrange(8, 16) =~= le64(n.width));
    assert(b.subrange(16, 24) =~= le64(n.height));
    assert(b.subrange(24, 32) =~= le64(n.x));
    assert(b.subrange(32, 40) =~= le64(n.y));
    lemma_written32(b, 0, n.id);
    lemma_written32(b, 4, 0);
    lemma_written64(b, 8, n.width);
    lemma_written64(b, 16, n.height);
    lemma_written64(b, 24, n.x);
    lemma_written64(b, 32, n.y);
}

/// An edge record spells the id, the two ends, its share of the bend points and
/// four reserved bytes.
pub proof fn law_edge_bytes(e: EdgeRecord)
    ensures
        ({
            let b = edge_bytes(e);
            &&& b.len() == 24
            &&& number32(b, 0) == e.id
            &&& number32(b, 4) == e.source
            &&& number32(b, 8) == e.target
            &&& number32(b, 12) == e.bend_start
            &&& number32(b, 16) == e.bend_length
            &&& number32(b, 20) == 0
        }),
{
    let b = edge_bytes(e);
    assert(b.subrange(0, 4) =~= le32(e.id));
    assert(b.subrange(4, 8) =~= le32(e.source));
    assert(b.subrange(8, 12) =~= le32(e.target));
    assert(b.subrange(12, 16) =~= le32(e.bend_start));
    assert(b.subrange(16, 20) =~= le32(e.bend_length));
    assert(b.subrange(20, 24) =~= le32(0));
    lemma_written32(b, 0, e.id);
    lemma_written32(b, 4, e.source);
    lemma_written32(b, 8, e.target);
    lemma_written32(b, 12, e.bend_start);
    lemma_written32(b, 16, e.bend_length);
    lemma_written32(b, 20, 0);
}

/// A bend point record spells its two coordinates.
pub proof fn law_bend_bytes(p: BendPoint)
    ensures
        bend_bytes(p).len() == 16,
        number64(bend_bytes(p), 0) == p.x,
        number64(bend_bytes(p), 8) == p.y,
{
    let b = bend_bytes(p);
    assert(b.subrange(0, 8) =~= le64(p.x));
    assert(b.subrange(8, 16) =~= le64(p.y));
    lemma_written64(b, 0, p.x);
    lemma_written64(b, 8, p.y);
}

/// A section of equally long records holds each of them in its place.
proof fn lemma_record(records: Seq<Seq<u8>>, size: int, i: int)
    requires
        forall|j: int| 0 <= j < records.len() ==> (#[trigger] records[j]).len() == size,
        0 < size,
        0 <= i < records.len(),
    ensures
        0 <= size * i,
        size * i + size <= joined(records).len(),
        joined(records).subrange(size * i, size * i + size) == records[i],
{
    let all = joined(records);
    lemma_joined(records, size, i, 0);
    lemma_joined(records, size, i, size - 1);
    assert(size * i >= 0) by (nonlinear_arith)
        requires
            size > 0,
            i >= 0,
    ;
    assert forall|k: int| 0 <= k < size implies all.subrange(size * i, size * i + size)[k]
        == records[i][k] by {
        lemma_joined(records, size, i, k);
    }
    assert(all.subrange(size * i, size * i + size) =~= records[i]);
}

/// A section between other bytes holds each of its records in its place.
proof fn lemma_record_in_place(
    buf: Seq<u8>,
    front: Seq<u8>,
    records: Seq<Seq<u8>>,
    back: Seq<u8>,
    size: int,
    i: int,
)
    requires
        buf == front + joined(records) + back,
        forall|j: int| 0 <= j < records.len() ==> (#[trigger] records[j]).len() == size,
        0 < size,
        0 <= i < records.len(),
    ensures
        0 <= size * i,
        front.len() + size * i + size <= buf.len(),
        buf.subrange(front.len() + size * i, front.len() + size * i + size) == records[i],
{
    lemma_record(records, size, i);
    assert(buf.subrange(front.len() + size * i, front.len() + size * i + size) =~= joined(
        records,
    ).subrange(size * i, size * i + size));
}

/// A node record in place spells its fields.
proof fn lemma_node_in_place(buf: Seq<u8>, at: int, n: NodeRecord)
    requires
        0 <= at,
        at + 40 <= buf.len(),
        buf.subrange(at, at + 40) == node_bytes(n),
    ensures
        number32(buf, at) == n.id,
        number32(buf, at + 4) == 0,
        number64(buf, at + 8) == n.width,
        number64(buf, at + 16) == n.height,
        number64(buf, at + 24) == n.x,
        number64(buf, at + 32) == n.y,
{
    law_node_bytes(n);
    lemma_part(buf, at, at + 40, 0);
    lemma_part(buf, at, at + 40, 4);
    lemma_part(buf, at, at + 40, 8);
    lemma_part(buf, at, at + 40, 16);
    lemma_part(buf, at, at + 40, 24);
    lemma_part(buf, at, at + 40, 32);
}

/// An edge record in place spells its fields.
proof fn lemma_edge_in_place(buf: Seq<u8>, at: int, e: EdgeRecord)
    requires
        0 <= at,
        at + 24 <= buf.len(),
        buf.subrange(at, at + 24) == edge_bytes(e),
    ensures
        number32(buf, at) == e.id,
        number32(buf, at + 4) == e.source,
        number32(buf, at + 8) == e.target,
        number32(buf, at + 12) == e.bend_start,
        number32(buf, at + 16) == e.bend_length,
        number32(buf, at + 20) == 0,
{
    law_edge_bytes(e);
    lemma_part(buf, at, at + 24, 0);
    lemma_part(buf, at, at + 24, 4);
    lemma_part(buf, at, at + 24, 8);
    lemma_part(buf, at, at + 24, 12);
    lemma_part(buf, at, at + 24, 16);
    lemma_part(buf, at, at + 24, 20);
}

/// The node section behind a header.
proof fn lemma_nodes_in_place(
    buf: Seq<u8>,
    front: Seq<u8>,
    records: Seq<NodeRecord>,
    back: Seq<u8>,
    i: int,
)
    requires
        buf == front + node_section(records) + back,
        front.len() == 40,
        0 <= i < records.len(),
    ensures
        40 + 40 * i + 40 <= buf.len(),
        buf.subrange(40 + 40 * i, 80 + 40 * i) == node_bytes(records[i]),
{
    let parts = records.map_values(|n: NodeRecord| node_bytes(n));
    assert forall|j: int| 0 <= j < parts.len() implies (#[trigger] parts[j]).len() == 40 by {
        law_node_bytes(records[j]);
    }
    lemma_record_in_place(buf, front, parts, back, 40, i);
}

/// The edge section behind the nodes.
proof fn lemma_edges_in_place(
    buf: Seq<u8>,
    front: Seq<u8>,
    records: Seq<EdgeRecord>,
    back: Seq<u8>,
    k: int,
)
    requires
        buf == front + edge_section(records) + back,
        0 <= k < records.len(),
    ensures
        front.len() + 24 * k + 24 <= buf.len(),
        buf.subrange(front.len() + 24 * k, front.len() + 24 * k + 24) == edge_bytes(records[k]),
{
    let parts = records.map_values(|e: EdgeRecord| edge_bytes(e));
    assert forall|j: int| 0 <= j < parts.len() implies (#[trigger] parts[j]).len() == 24 by {
        law_edge_bytes(records[j]);
    }
    lemma_record_in_place(buf, front, parts, back, 24, k);
}

/// The bend section at the end.
proof fn lemma_bends_in_place(buf: Seq<u8>, front: Seq<u8>, bends: Seq<BendPoint>, b: int)
    requires
        buf == front + bend_section(bends),
        0 <= b < bends.len(),
    ensures
        front.len() + 16 * b + 16 <= buf.len(),
        number64(buf, front.len() + 16 * b) == bends[b].x,
        number64(buf, front.len() + 16 * b + 8) == bends[b].y,
{
    let parts = bends.map_values(|p: BendPoint| bend_bytes(p));
    let at = front.len() + 16 * b;
    assert forall|j: int| 0 <= j < parts.len() implies (#[trigger] parts[j]).len() == 16 by {
        law_bend_bytes(bends[j]);
    }
    assert(buf =~= front + joined(parts) + Seq::empty());
    lemma_record_in_place(buf, front, parts, Seq::empty(), 16, b);
    law_bend_bytes(bends[b]);
    lemma_part(buf, at, at + 16, 0);
    lemma_part(buf, at, at + 16, 8);
}

/// The buffer of a layout opens with a header that counts what follows and gives
/// the size of the graph as the engine reports it.
pub proof fn law_output_header(req: Request, p: Placement)
    requires
        reported_in_full(req, p),
        req.nodes.len() <= 1_000_000,
        req.edges.len() <= 2_000_000,
        reported_bends(p.edges@) <= 10_000_000,
    ensures
        ({
            let out = output_bytes(req, p);
            let bends = reported_bends(p.edges@);
            &&& out.len() == 40 + 40 * req.nodes.len() + 24 * req.edges.len() + 16 * bends
            &&& out[0] == 0x4C && out[1] == 0x52 && out[2] == 0x44 && out[3] == 0x31
            &&& number32(out, 4) == 1
            &&& number32(out, 8) == 1
            &&& number32(out, 12) == req.nodes.len()
            &&& number32(out, 16) == req.edges.len()
            &&& number32(out, 20) == bends
            &&& number64(out, 24) == p.width
            &&& number64(out, 32) == p.height
        }),
{
    let out = output_bytes(req, p);
    let h = output_header(req, p);
    lemma_reported_bends(p.edges@);
    lemma_section_lengths(output_nodes(req, p), output_edges(req, p), all_bends(p.edges@));
    law_header_bytes(h);
    assert(out.subrange(0, 40) =~= header_bytes(h));
    lemma_part(out, 0, 40, 4);
    lemma_part(out, 0, 40, 8);
    lemma_part(out, 0, 40, 12);
    lemma_part(out, 0, 40, 16);
    lemma_part(out, 0, 40, 20);
    lemma_part(out, 0, 40, 24);
    lemma_part(out, 0, 40, 32);
    assert(out.subrange(0, 40)[0] == out[0]);
    assert(out.subrange(0, 40)[1] == out[1]);
    assert(out.subrange(0, 40)[2] == out[2]);
    assert(out.subrange(0, 40)[3] == out[3]);
}

/// Each node of a layout has its record in the buffer: where and how large the
/// engine placed it, or at the origin in the size that was asked for where the
/// engine lost it.
pub proof fn law_output_node(req: Request, p: Placement, i: int)
    requires
        reported_in_full(req, p),
        0 <= i < req.nodes.len(),
    ensures
        ({
            let out = output_bytes(req, p);
            let at = 40 + 40 * i;
            &&& at + 40 <= out.len()
            &&& number32(out, at) == req.nodes[i].id
            &&& number32(out, at + 4) == 0
            &&& p.nodes@[i] matches Some(placed) ==> {
                &&& number64(out, at + 8) == placed.width
                &&& number64(out, at + 16) == placed.height
                &&& number64(out, at + 24) == placed.x
                &&& number64(out, at + 32) == placed.y
            }
            &&& p.nodes@[i] is None ==> {
                &&& number64(out, at + 8) == req.nodes[i].width
                &&& number64(out, at + 16) == req.nodes[i].height
                &&& number64(out, at + 24) == 0
                &&& number64(out, at + 32) == 0
            }
        }),
{
    let out = output_bytes(req, p);
    let records = output_nodes(req, p);
    let front = header_bytes(output_header(req, p));
    let back = edge_section(output_edges(req, p)) + bend_section(all_bends(p.edges@));
    law_header_bytes(output_header(req, p));
    assert(out =~= front + node_section(records) + back);
    lemma_nodes_in_place(out, front, records, back, i);
    lemma_node_in_place(out, 40 + 40 * i, records[i]);
}

/// Each edge of a layout has its record in the buffer, with its share of the
/// bend points as in the flat arrays.
pub proof fn law_output_edge(req: Request, p: Placement, k: int)
    requires
        reported_in_full(req, p),
        0 <= k < req.edges.len(),
    ensures
        ({
            let out = output_bytes(req, p);
            let flat = flat_layout(req, p);
            let at = 40 + 40 * req.nodes.len() + 24 * k;
            &&& at + 24 <= out.len()
            &&& number32(out, at) == req.edges[k].id
            &&& number32(out, at + 4) == req.edges[k].source
            &&& number32(out, at + 8) == req.edges[k].target
            &&& number32(out, at + 12) == flat.edge_bend_start[k]
            &&& number32(out, at + 16) == flat.edge_bend_length[k]
            &&& number32(out, at + 20) == 0
        }),
{
    let out = output_bytes(req, p);
    let nodes = output_nodes(req, p);
    let records = output_edges(req, p);
    let front = header_bytes(output_header(req, p)) + node_section(nodes);
    let back = bend_section(all_bends(p.edges@));
    law_header_bytes(output_header(req, p));
    lemma_section_lengths(nodes, records, all_bends(p.edges@));
    assert(out =~= front + edge_section(records) + back);
    lemma_edges_in_place(out, front, records, back, k);
    lemma_edge_in_place(out, 40 + 40 * req.nodes.len() + 24 * k, records[k]);
}

/// Each bend point that the engine reports stands in the buffer behind the edge
/// records, where the start of its edge says.
pub proof fn law_output_bend(req: Request, p: Placement, k: int, j: int)
    requires
        reported_in_full(req, p),
        reported_bends(p.edges@) <= 10_000_000,
        0 <= k < req.edges.len(),
        p.edges@[k] matches Some(bends) && 0 <= j < bends@.len(),
    ensures
        ({
            let out = output_bytes(req, p);
            let edge = 40 + 40 * req.nodes.len() + 24 * k;
            let at = 40 + 40 * req.nodes.len() + 24 * req.edges.len() + 16 * (number32(
                out,
                edge + 12,
            ) + j);
            let bend = p.edges@[k]->0@[j];
            &&& number32(out, edge + 16) == p.edges@[k]->0@.len()
            &&& at + 16 <= out.len()
            &&& number64(out, at) == bend.x
            &&& number64(out, at + 8) == bend.y
        }),
{
    let out = output_bytes(req, p);
    let flat = flat_layout(req, p);
    let nodes = output_nodes(req, p);
    let edges = output_edges(req, p);
    let bends = all_bends(p.edges@);
    let front = header_bytes(output_header(req, p)) + node_section(nodes) + edge_section(edges);
    let b = flat.edge_bend_start[k] + j;
    law_output_edge(req, p, k);
    law_flat_layouts_hold_bends(req, p, k);
    assert(flat.bend_x[b] == p.edges@[k]->0@[j].x && flat.bend_y[b] == p.edges@[k]->0@[j].y);
    law_header_bytes(output_header(req, p));
    lemma_section_lengths(nodes, edges, bends);
    lemma_bends_in_place(out, front, bends, b);
}

/// The buffer of a layout without nodes is a header that counts nothing.
pub proof fn law_empty_output()
    ensures
        ({
            let out = header_bytes(empty_header());
            &&& out.len() == 40
            &&& out[0] == 0x4C && out[1] == 0x52 && out[2] == 0x44 && out[3] == 0x31
            &&& number32(out, 4) == 1
            &&& number32(out, 8) == 1
            &&& number32(out, 12) == 0
            &&& number32(out, 16) == 0
            &&& number32(out, 20) == 0
            &&& number64(out, 24) == 0
            &&& number64(out, 32) == 0
        }),
{
    law_header_bytes(empty_header());
}

/// The buffer of a request opens with a header that counts its nodes and edges
/// and is otherwise zero.
pub proof fn law_request_header(nodes: Seq<NodeSpec>, edges: Seq<EdgeSpec>)
    requires
        nodes.len() <= 1_000_000,
        edges.len() <= 2_000_000,
    ensures
        ({
            let buf = request_bytes(nodes, edges);
            &&& buf.len() == 40 + 40 * nodes.len() + 24 * edges.len()
            &&& buf[0] == 0x4C && buf[1] == 0x52 && buf[2] == 0x44 && buf[3] == 0x31
            &&& number32(buf, 4) == 1
            &&& number32(buf, 8) == 0
            &&& number32(buf, 12) == nodes.len()
            &&& number32(buf, 16) == edges.len()
            &&& number32(buf, 20) == 0
            &&& number64(buf, 24) == 0
            &&& number64(buf, 32) == 0
        }),
{
    let buf = request_bytes(nodes, edges);
    let h = request_header(nodes, edges);
    lemma_section_lengths(node_requests(nodes), edge_requests(edges), Seq::empty());
    law_header_bytes(h);
    assert(buf.subrange(0, 40) =~= header_bytes(h));
    lemma_part(buf, 0, 40, 4);
    lemma_part(buf, 0, 40, 8);
    lemma_part(buf, 0, 40, 12);
    lemma_part(buf, 0, 40, 16);
    lemma_part(buf, 0, 40, 20);
    lemma_part(buf, 0, 40, 24);
    lemma_part(buf, 0, 40, 32);
    assert(buf.subrange(0, 40)[0] == buf[0]);
    assert(buf.subrange(0, 40)[1] == buf[1]);
    assert(buf.subrange(0, 40)[2] == buf[2]);
    assert(buf.subrange(0, 40)[3] == buf[3]);
}

/// Each node of a request has its record in the buffer: id and size, and no place
/// yet.
pub proof fn law_request_node(nodes: Seq<NodeSpec>, edges: Seq<EdgeSpec>, i: int)
    requires
        0 <= i < nodes.len(),
    ensures
        ({
            let buf = request_bytes(nodes, edges);
            let at = 40 + 40 * i;
            &&& at + 40 <= buf.len()
            &&& number32(buf, at) == nodes[i].id
            &&& number32(buf, at + 4) == 0
            &&& number64(buf, at + 8) == nodes[i].width
            &&& number64(buf, at + 16) == nodes[i].height
            &&& number64(buf, at + 24) == 0
            &&& number64(buf, at + 32) == 0
        }),
{
    let buf = request_bytes(nodes, edges);
    let records = node_requests(nodes);
    let front = header_bytes(request_header(nodes, edges));
    let back = edge_section(edge_requests(edges));
    law_header_bytes(request_header(nodes, edges));
    lemma_nodes_in_place(buf, front, records, back, i);
    lemma_node_in_place(buf, 40 + 40 * i, records[i]);
}

/// Each edge of a request has its record in the buffer: id and ends, and no bend
/// points yet.
pub proof fn law_request_edge(nodes: Seq<NodeSpec>, edges: Seq<EdgeSpec>, k: int)
    requires
        0 <= k < edges.len(),
    ensures
        ({
            let buf = request_bytes(nodes, edges);
            let at = 40 + 40 * nodes.len() + 24 * k;
            &&& at + 24 <= buf.len()
            &&& number32(buf, at) == edges[k].id
            &&& number32(buf, at + 4) == edges[k].source
            &&& number32(buf, at + 8) == edges[k].target
            &&& number32(buf, at + 12) == 0
            &&& number32(buf, at + 16) == 0
            &&& number32(buf, at + 20) == 0
        }),
{
    let buf = request_bytes(nodes, edges);
    let records = edge_requests(edges);
    let front = header_bytes(request_header(nodes, edges)) + node_section(node_requests(nodes));
    law_header_bytes(request_header(nodes, edges));
    lemma_section_lengths(node_requests(nodes), records, Seq::empty());
    assert(buf =~= front + edge_section(records) + Seq::empty());
    lemma_edges_in_place(buf, front, records, Seq::empty(), k);
    lemma_edge_in_place(buf, 40 + 40 * nodes.len() + 24 * k, records[k]);
}

} // verus!
