//! What names mean, and what reports say, word for word.
use vstd::prelude::*;

use crate::error::{
    ffi_message, graph_fault_message, kind_name, layout_message, request_message, FfiError,
    LayoutError, RecordKind, RequestError,
};
use crate::graph::GraphFault;
use crate::options::{
    chosen_by, cycle_breaking_named, direction_named, edge_routing_named, layering_named,
    node_placement_named, options_complaint, options_read_as, reads_as, unknown_cycle_breaking,
    unknown_direction, unknown_edge_routing, unknown_layering, unknown_node_placement,
    CycleBreakingStrategy, EdgeRoutingStrategy, LayeringStrategy, LayoutDirection,
    NodePlacementStrategy, OptionNames, PyLayoutOptions,
};
use crate::text::{ascii, ascii_lowercase, decimal, lowercase};

verus! {

/// The number that a row of digits spells.
pub open spec fn spelled(digits: Seq<char>) -> int
    decreases digits.len(),
{
    if digits.len() == 0 {
        0
    } else {
        10 * spelled(digits.drop_last()) + (digits.last() as int - 48)
    }
}

/// A number in decimal is spelled by digits alone, reads as that number, and has
/// no leading zero.
pub proof fn law_decimal(n: nat)
    ensures
        spelled(decimal(n)) == n,
        decimal(n).len() > 0,
        forall|i: int| 0 <= i < decimal(n).len() ==> 48 <= (#[trigger] decimal(n)[i]) as int <= 57,
        decimal(n)[0] as int == 48 ==> n == 0 && decimal(n).len() == 1,
    decreases n,
{
    let text = decimal(n);
    if n < 10 {
        assert(text.drop_last().len() == 0);
        reveal_with_fuel(spelled, 2);
    } else {
        law_decimal(n / 10);
        assert(text.drop_last() =~= decimal(n / 10));
        assert(text[0] == decimal(n / 10)[0]);
    }
}

/// ASCII text has codes below 128; its lower case has the same length, with 32
/// added to the codes of capital letters and nothing else changed.
pub proof fn law_ascii(s: Seq<char>)
    ensures
        ascii(s) <==> forall|i: int| 0 <= i < s.len() ==> ((#[trigger] s[i]) as u32) < 128,
        ascii_lowercase(s).len() == s.len(),
        forall|i: int|
            0 <= i < s.len() ==> (#[trigger] ascii_lowercase(s)[i]) == if 65 <= s[i] as u32 <= 90 {
                (s[i] as u32 + 32) as char
            } else {
                s[i]
            },
{
}

/// A name is read as what it means, or the complaint is handed back.
pub proof fn law_reading<T>(res: Result<T, String>, meant: Option<T>, complaint: Seq<char>)
    ensures
        reads_as(res, meant, complaint) <==> {
            ||| res matches Ok(v) && meant == Some(v)
            ||| res matches Err(e) && meant is None && e@ == complaint
        },
{
}

/// The names of every direction, and of nothing else.
pub proof fn law_direction_names(name: Seq<char>)
    ensures
        direction_named(name) == Some(LayoutDirection::Right) <==> {
            ||| name == "right"@
            ||| name == "r"@
            ||| name == "east"@
        },
        direction_named(name) == Some(LayoutDirection::Left) <==> {
            ||| name == "left"@
            ||| name == "l"@
            ||| name == "west"@
        },
        direction_named(name) == Some(LayoutDirection::Down) <==> {
            ||| name == "down"@
            ||| name == "d"@
            ||| name == "south"@
        },
        direction_named(name) == Some(LayoutDirection::Up) <==> {
            ||| name == "up"@
            ||| name == "u"@
            ||| name == "north"@
        },
        direction_named(name) == Some(LayoutDirection::Undefined) <==> {
            ||| name == "undefined"@
            ||| name == "undef"@
        },
        unknown_direction(name) == "unknown direction: "@ + name + " (use RIGHT/LEFT/DOWN/UP)"@,
{
    reveal_strlit("right");
    reveal_strlit("r");
    reveal_strlit("east");
    reveal_strlit("left");
    reveal_strlit("l");
    reveal_strlit("west");
    reveal_strlit("down");
    reveal_strlit("d");
    reveal_strlit("south");
    reveal_strlit("up");
    reveal_strlit("u");
    reveal_strlit("north");
    reveal_strlit("undefined");
    reveal_strlit("undef");
    assert("r"@[0] != "l"@[0]);
    assert("east"@[0] != "left"@[0]);
    assert("east"@[0] != "west"@[0]);
    assert("right"@[0] != "south"@[0]);
    assert("r"@[0] != "d"@[0]);
    assert("east"@[0] != "down"@[0]);
    assert("right"@[0] != "north"@[0]);
    assert("r"@[0] != "u"@[0]);
    assert("right"@[0] != "undef"@[0]);
    assert("left"@[0] != "down"@[0]);
    assert("l"@[0] != "d"@[0]);
    assert("west"@[0] != "down"@[0]);
    assert("l"@[0] != "u"@[0]);
    assert("d"@[0] != "u"@[0]);
    assert("south"@[0] != "north"@[0]);
    assert("south"@[0] != "undef"@[0]);
    assert("north"@[0] != "undef"@[0]);
    assert("right"@.len() == 5);
    assert("r"@.len() == 1);
    assert("east"@.len() == 4);
    assert("left"@.len() == 4);
    assert("l"@.len() == 1);
    assert("west"@.len() == 4);
    assert("down"@.len() == 4);
    assert("d"@.len() == 1);
    assert("south"@.len() == 5);
    assert("up"@.len() == 2);
    assert("u"@.len() == 1);
    assert("north"@.len() == 5);
    assert("undefined"@.len() == 9);
    assert("undef"@.len() == 5);
}

/// The names of every layering, and of nothing else.
pub proof fn law_layering_names(name: Seq<char>)
    ensures
        layering_named(name) == Some(LayeringStrategy::NetworkSimplex) <==> {
            ||| name == "network_simplex"@
            ||| name == "networksimplex"@
            ||| name == "simplex"@
        },
        layering_named(name) == Some(LayeringStrategy::LongestPath) <==> {
            ||| name == "longest_path"@
            ||| name == "longestpath"@
        },
        layering_named(name) == Some(LayeringStrategy::LongestPathSource) <==> {
            ||| name == "longest_path_source"@
            ||| name == "longestpathsource"@
        },
        layering_named(name) == Some(LayeringStrategy::CoffmanGraham) <==> {
            ||| name == "coffman_graham"@
            ||| name == "coffmangraham"@
        },
        layering_named(name) == Some(LayeringStrategy::MinWidth) <==> {
            ||| name == "min_width"@
            ||| name == "minwidth"@
        },
        layering_named(name) == Some(LayeringStrategy::StretchWidth) <==> {
            ||| name == "stretch_width"@
            ||| name == "stretchwidth"@
        },
        unknown_layering(name) == "unknown layering: "@ + name + " (use network_simplex/longest_path/coffman_graham/min_width/stretch_width)"@,
{
    reveal_strlit("network_simplex");
    reveal_strlit("networksimplex");
    reveal_strlit("simplex");
    reveal_strlit("longest_path");
    reveal_strlit("longestpath");
    reveal_strlit("longest_path_source");
    reveal_strlit("longestpathsource");
    reveal_strlit("coffman_graham");
    reveal_strlit("coffmangraham");
    reveal_strlit("min_width");
    reveal_strlit("minwidth");
    reveal_strlit("stretch_width");
    reveal_strlit("stretchwidth");
    assert("networksimplex"@[0] != "coffman_graham"@[0]);
    assert("longest_path"@[0] != "stretchwidth"@[0]);
    assert("coffmangraham"@[0] != "stretch_width"@[0]);
    assert("network_simplex"@.len() == 15);
    assert("networksimplex"@.len() == 14);
    assert("simplex"@.len() == 7);
    assert("longest_path"@.len() == 12);
    assert("longestpath"@.len() == 11);
    assert("longest_path_source"@.len() == 19);
    assert("longestpathsource"@.len() == 17);
    assert("coffman_graham"@.len() == 14);
    assert("coffmangraham"@.len() == 13);
    assert("min_width"@.len() == 9);
    assert("minwidth"@.len() == 8);
    assert("stretch_width"@.len() == 13);
    assert("stretchwidth"@.len() == 12);
}

/// The names of every node placement, and of nothing else.
pub proof fn law_node_placement_names(name: Seq<char>)
    ensures
        node_placement_named(name) == Some(NodePlacementStrategy::BrandesKoepf) <==> {
            ||| name == "brandes_koepf"@
            ||| name == "brandeskoepf"@
            ||| name == "bk"@
        },
        node_placement_named(name) == Some(NodePlacementStrategy::Simple) <==> name == "simple"@,
        node_placement_named(name) == Some(NodePlacementStrategy::LinearSegments) <==> {
            ||| name == "linear_segments"@
            ||| name == "linearsegments"@
        },
        node_placement_named(name) == Some(NodePlacementStrategy::NetworkSimplex) <==> {
            ||| name == "network_simplex"@
            ||| name == "networksimplex"@
        },
        unknown_node_placement(name) == "unknown node_placement: "@ + name + " (use brandes_koepf/simple/linear_segments/network_simplex)"@,
{
    reveal_strlit("brandes_koepf");
    reveal_strlit("brandeskoepf");
    reveal_strlit("bk");
    reveal_strlit("simple");
    reveal_strlit("linear_segments");
    reveal_strlit("linearsegments");
    reveal_strlit("network_simplex");
    reveal_strlit("networksimplex");
    assert("linear_segments"@[0] != "network_simplex"@[0]);
    assert("linearsegments"@[0] != "networksimplex"@[0]);
    assert("brandes_koepf"@.len() == 13);
    assert("brandeskoepf"@.len() == 12);
    assert("bk"@.len() == 2);
    assert("simple"@.len() == 6);
    assert("linear_segments"@.len() == 15);
    assert("linearsegments"@.len() == 14);
    assert("network_simplex"@.len() == 15);
    assert("networksimplex"@.len() == 14);
}

/// The names of every edge routing, and of nothing else.
pub proof fn law_edge_routing_names(name: Seq<char>)
    ensures
        edge_routing_named(name) == Some(EdgeRoutingStrategy::Orthogonal) <==> {
            ||| name == "orthogonal"@
            ||| name == "orth"@
        },
        edge_routing_named(name) == Some(EdgeRoutingStrategy::Polyline) <==> {
            ||| name == "polyline"@
            ||| name == "poly"@
        },
        edge_routing_named(name) == Some(EdgeRoutingStrategy::Splines) <==> {
            ||| name == "splines"@
            ||| name == "spline"@
        },
        unknown_edge_routing(name) == "unknown edge_routing: "@ + name + " (use orthogonal/polyline/splines)"@,
{
    reveal_strlit("orthogonal");
    reveal_strlit("orth");
    reveal_strlit("polyline");
    reveal_strlit("poly");
    reveal_strlit("splines");
    reveal_strlit("spline");
    assert("orth"@[0] != "poly"@[0]);
    assert("orthogonal"@.len() == 10);
    assert("orth"@.len() == 4);
    assert("polyline"@.len() == 8);
    assert("poly"@.len() == 4);
    assert("splines"@.len() == 7);
    assert("spline"@.len() == 6);
}

/// The names of every cycle breaking, and of nothing else.
pub proof fn law_cycle_breaking_names(name: Seq<char>)
    ensures
        cycle_breaking_named(name) == Some(CycleBreakingStrategy::Greedy) <==> name == "greedy"@,
        cycle_breaking_named(name) == Some(CycleBreakingStrategy::DepthFirst) <==> {
            ||| name == "depth_first"@
            ||| name == "depthfirst"@
            ||| name == "dfs"@
        },
        cycle_breaking_named(name) == Some(CycleBreakingStrategy::GreedyModelOrder) <==> {
            ||| name == "greedy_model_order"@
            ||| name == "greedymodelorder"@
        },
        cycle_breaking_named(name) == Some(CycleBreakingStrategy::ModelOrder) <==> {
            ||| name == "model_order"@
            ||| name == "modelorder"@
        },
        unknown_cycle_breaking(name) == "unknown cycle_breaking: "@ + name + " (use greedy/depth_first/greedy_model_order/model_order)"@,
{
    reveal_strlit("greedy");
    reveal_strlit("depth_first");
    reveal_strlit("depthfirst");
    reveal_strlit("dfs");
    reveal_strlit("greedy_model_order");
    reveal_strlit("greedymodelorder");
    reveal_strlit("model_order");
    reveal_strlit("modelorder");
    assert("depth_first"@[0] != "model_order"@[0]);
    assert("depthfirst"@[0] != "modelorder"@[0]);
    assert("greedy"@.len() == 6);
    assert("depth_first"@.len() == 11);
    assert("depthfirst"@.len() == 10);
    assert("dfs"@.len() == 3);
    assert("greedy_model_order"@.len() == 18);
    assert("greedymodelorder"@.len() == 16);
    assert("model_order"@.len() == 11);
    assert("modelorder"@.len() == 10);
}

/// Five names are looked up one after the other, and the first that means nothing
/// is complained about as it was given.
pub proof fn law_first_unknown_name(given: OptionNames, names: OptionNames)
    ensures
        ({
            let complaint = options_complaint(given, names);
            if direction_named(names.direction) is None {
                complaint == Some(unknown_direction(given.direction))
            } else if layering_named(names.layering) is None {
                complaint == Some(unknown_layering(given.layering))
            } else if node_placement_named(names.node_placement) is None {
                complaint == Some(unknown_node_placement(given.node_placement))
            } else if edge_routing_named(names.edge_routing) is None {
                complaint == Some(unknown_edge_routing(given.edge_routing))
            } else if cycle_breaking_named(names.cycle_breaking) is None {
                complaint == Some(unknown_cycle_breaking(given.cycle_breaking))
            } else {
                complaint is None
            }
        }),
{
}

/// Options are what the five names mean, or else the first complaint.
pub proof fn law_chosen_options(
    res: Result<PyLayoutOptions, String>,
    given: OptionNames,
    names: OptionNames,
)
    ensures
        options_read_as(res, given, names) <==> match res {
            Ok(o) => {
                &&& direction_named(names.direction) == Some(o.direction)
                &&& layering_named(names.layering) == Some(o.layering)
                &&& node_placement_named(names.node_placement) == Some(o.node_placement)
                &&& edge_routing_named(names.edge_routing) == Some(o.edge_routing)
                &&& cycle_breaking_named(names.cycle_breaking) == Some(o.cycle_breaking)
            },
            Err(e) => options_complaint(given, names) == Some(e@),
        },
        res matches Ok(o) ==> (chosen_by(o, names) <==> options_read_as(res, given, names)),
{
}

/// Each of five names is put into lower case by itself.
pub proof fn law_names_in_lower_case(given: OptionNames)
    ensures
        given.lowercase().direction == lowercase(given.direction),
        given.lowercase().layering == lowercase(given.layering),
        given.lowercase().node_placement == lowercase(given.node_placement),
        given.lowercase().edge_routing == lowercase(given.edge_routing),
        given.lowercase().cycle_breaking == lowercase(given.cycle_breaking),
        given.ascii_lowercase().direction == ascii_lowercase(given.direction),
        given.ascii_lowercase().layering == ascii_lowercase(given.layering),
        given.ascii_lowercase().node_placement == ascii_lowercase(given.node_placement),
        given.ascii_lowercase().edge_routing == ascii_lowercase(given.edge_routing),
        given.ascii_lowercase().cycle_breaking == ascii_lowercase(given.cycle_breaking),
        given.ascii() <==> ascii(given.direction) && ascii(given.layering) && ascii(
            given.node_placement,
        ) && ascii(given.edge_routing) && ascii(given.cycle_breaking),
{
}

/// What is said of a graph fault names the ids that it is about.
pub proof fn law_graph_fault_words(id: u32, edge: u32, node: u32)
    ensures
        graph_fault_message(GraphFault::DuplicateNode { id }) == "duplicate node id: "@ + decimal(
            id as nat,
        ),
        graph_fault_message(GraphFault::DuplicateEdge { id }) == "duplicate edge id: "@ + decimal(
            id as nat,
        ),
        graph_fault_message(GraphFault::UnknownNode { edge, node }) == "edge "@ + decimal(
            edge as nat,
        ) + " references unknown node "@ + decimal(node as nat),
{
}

/// What is said of a rejected request.
pub proof fn law_request_words(
    count: usize,
    id: u32,
    width: u64,
    height: u64,
    f: GraphFault,
    w: Seq<char>,
    h: Seq<char>,
)
    ensures
        request_message(RequestError::TooManyNodes { count }, w, h) == "node count "@ + decimal(
            count as nat,
        ) + " exceeds MAX_NODE_COUNT "@ + decimal(1_000_000),
        request_message(RequestError::TooManyEdges { count }, w, h) == "edge count "@ + decimal(
            count as nat,
        ) + " exceeds MAX_EDGE_COUNT "@ + decimal(2_000_000),
        request_message(RequestError::NonFiniteSize { id }, w, h) == "node "@ + decimal(id as nat)
            + " has non-finite width/height"@,
        request_message(RequestError::NonPositiveSize { id, width, height }, w, h) == "node "@
            + decimal(id as nat) + " has non-positive size "@ + w + "x"@ + h,
        request_message(RequestError::Graph(f), w, h) == graph_fault_message(f),
        layout_message(LayoutError::Request(RequestError::Graph(f)), w, h) == graph_fault_message(f),
{
}

/// What is said of a buffer that could not be laid out.
pub proof fn law_wire_words(
    v: u32,
    kind: RecordKind,
    count: u32,
    expected: usize,
    actual: usize,
    edge_id: u32,
    node_id: u32,
)
    ensures
        kind_name(RecordKind::Node) == "node"@,
        kind_name(RecordKind::Edge) == "edge"@,
        kind_name(RecordKind::Bend) == "bend"@,
        ffi_message(FfiError::InvalidMagic) == "invalid magic bytes (expected LRD1)"@,
        ffi_message(FfiError::UnsupportedVersion(v)) == "unsupported wire version: "@ + decimal(
            v as nat,
        ),
        ffi_message(FfiError::TooLarge { kind, count }) == kind_name(kind) + " count "@ + decimal(
            count as nat,
        ) + " exceeds maximum"@,
        ffi_message(FfiError::BufferTooShort { expected, actual })
            == "buffer too short: expected "@ + decimal(expected as nat) + " bytes, got "@
            + decimal(actual as nat),
        ffi_message(FfiError::InvalidNodeReference { edge_id, node_id }) == "edge "@ + decimal(
            edge_id as nat,
        ) + " references unknown node "@ + decimal(node_id as nat),
        ffi_message(FfiError::DuplicateId { kind, id: node_id }) == "duplicate "@ + kind_name(kind)
            + " id: "@ + decimal(node_id as nat),
        ffi_message(FfiError::InvalidGeometry { node_id }) == "node "@ + decimal(node_id as nat)
            + " has non-finite width, height, x, or y"@,
        ffi_message(FfiError::LayoutPanic) == "layerd pipeline panicked"@,
{
}

/// A layout that was not produced is reported as its request or its buffer is.
pub proof fn law_layout_words(r: RequestError, f: FfiError, w: Seq<char>, h: Seq<char>)
    ensures
        layout_message(LayoutError::Request(r), w, h) == request_message(r, w, h),
        layout_message(LayoutError::Wire(f), w, h) == ffi_message(f),
{
}

} // verus!
