//! Layout options and the names by which they are chosen.
use vstd::prelude::*;
use vstd::string::StringExecFns;

use crate::graph::or_else;
use crate::text::{
    ascii, ascii_lower, ascii_lowercase, decimal, lowercase, push_decimal, same_text,
    to_lowercase,
};

verus! {

/// The way in which layers follow one another.
#[derive(Clone, Copy, Debug, PartialEq, Eq, Structural)]
pub enum LayoutDirection {
    Right,
    Left,
    Down,
    Up,
    Undefined,
}

/// How nodes are assigned to layers.
#[derive(Clone, Copy, Debug, PartialEq, Eq, Structural)]
pub enum LayeringStrategy {
    NetworkSimplex,
    LongestPath,
    LongestPathSource,
    CoffmanGraham,
    MinWidth,
    StretchWidth,
}

/// How nodes are placed within their layers.
#[derive(Clone, Copy, Debug, PartialEq, Eq, Structural)]
pub enum NodePlacementStrategy {
    BrandesKoepf,
    Simple,
    LinearSegments,
    NetworkSimplex,
}

/// How edges are drawn.
#[derive(Clone, Copy, Debug, PartialEq, Eq, Structural)]
pub enum EdgeRoutingStrategy {
    Orthogonal,
    Polyline,
    Splines,
}

/// How cycles are broken before layering.
#[derive(Clone, Copy, Debug, PartialEq, Eq, Structural)]
pub enum CycleBreakingStrategy {
    Greedy,
    DepthFirst,
    GreedyModelOrder,
    ModelOrder,
}

/// The outcome of looking a name up: what it means, or a complaint.
pub open spec fn reads_as<T>(
    res: Result<T, String>,
    meant: Option<T>,
    complaint: Seq<char>,
) -> bool {
    match res {
        Ok(v) => meant == Some(v),
        Err(e) => meant is None && e@ == complaint,
    }
}

/// Puts a complaint together.
fn complaint(before: &str, given: &str, after: &str) -> (text: String)
    ensures
        text@ == before@ + given@ + after@,
{
    let mut out: String = String::new();
    out.append(before);
    out.append(given);
    out.append(after);
    assert(out@ =~= before@ + given@ + after@);
    out
}

/// The direction that goes by a lower-case name.
pub open spec fn direction_named(name: Seq<char>) -> Option<LayoutDirection> {
    if name == "right"@ || name == "r"@ || name == "east"@ {
        Some(LayoutDirection::Right)
    } else if name == "left"@ || name == "l"@ || name == "west"@ {
        Some(LayoutDirection::Left)
    } else if name == "down"@ || name == "d"@ || name == "south"@ {
        Some(LayoutDirection::Down)
    } else if name == "up"@ || name == "u"@ || name == "north"@ {
        Some(LayoutDirection::Up)
    } else if name == "undefined"@ || name == "undef"@ {
        Some(LayoutDirection::Undefined)
    } else {
        None
    }
}

/// What is said of a name that stands for no direction.
pub open spec fn unknown_direction(name: Seq<char>) -> Seq<char> {
    "unknown direction: "@ + name + " (use RIGHT/LEFT/DOWN/UP)"@
}

/// Looks a direction up by its lower-case name; `given` is the name as it came
/// in, which an error repeats.
pub fn read_direction(given: &str, name: &String) -> (res: Result<LayoutDirection, String>)
    ensures
        reads_as(res, direction_named(name@), unknown_direction(given@)),
{
    if same_text(name, "right") || same_text(name, "r") || same_text(name, "east") {
        Ok(LayoutDirection::Right)
    } else if same_text(name, "left") || same_text(name, "l") || same_text(name, "west") {
        Ok(LayoutDirection::Left)
    } else if same_text(name, "down") || same_text(name, "d") || same_text(name, "south") {
        Ok(LayoutDirection::Down)
    } else if same_text(name, "up") || same_text(name, "u") || same_text(name, "north") {
        Ok(LayoutDirection::Up)
    } else if same_text(name, "undefined") || same_text(name, "undef") {
        Ok(LayoutDirection::Undefined)
    } else {
        Err(complaint("unknown direction: ", given, " (use RIGHT/LEFT/DOWN/UP)"))
    }
}

/// Looks a direction up by its name, whatever the case it is written in.
pub fn parse_direction(s: &str) -> (res: Result<LayoutDirection, String>)
    ensures
        reads_as(res, direction_named(lowercase(s@)), unknown_direction(s@)),
        ascii(s@) ==> reads_as(res, direction_named(ascii_lowercase(s@)), unknown_direction(s@)),
{
    let name: String = to_lowercase(s);
    read_direction(s, &name)
}

/// The layering that goes by a lower-case name.
pub open spec fn layering_named(name: Seq<char>) -> Option<LayeringStrategy> {
    if name == "network_simplex"@ || name == "networksimplex"@ || name == "simplex"@ {
        Some(LayeringStrategy::NetworkSimplex)
    } else if name == "longest_path"@ || name == "longestpath"@ {
        Some(LayeringStrategy::LongestPath)
    } else if name == "longest_path_source"@ || name == "longestpathsource"@ {
        Some(LayeringStrategy::LongestPathSource)
    } else if name == "coffman_graham"@ || name == "coffmangraham"@ {
        Some(LayeringStrategy::CoffmanGraham)
    } else if name == "min_width"@ || name == "minwidth"@ {
        Some(LayeringStrategy::MinWidth)
    } else if name == "stretch_width"@ || name == "stretchwidth"@ {
        Some(LayeringStrategy::StretchWidth)
    } else {
        None
    }
}

/// What is said of a name that stands for no layering.
pub open spec fn unknown_layering(name: Seq<char>) -> Seq<char> {
    "unknown layering: "@ + name + " (use network_simplex/longest_path/coffman_graham/min_width/stretch_width)"@
}

/// Looks a layering up by its lower-case name; `given` is the name as it came
/// in, which an error repeats.
pub fn read_layering(given: &str, name: &String) -> (res: Result<LayeringStrategy, String>)
    ensures
        reads_as(res, layering_named(name@), unknown_layering(given@)),
{
    if same_text(name, "network_simplex") || same_text(name, "networksimplex") || same_text(name, "simplex") {
        Ok(LayeringStrategy::NetworkSimplex)
    } else if same_text(name, "longest_path") || same_text(name, "longestpath") {
        Ok(LayeringStrategy::LongestPath)
    } else if same_text(name, "longest_path_source") || same_text(name, "longestpathsource") {
        Ok(LayeringStrategy::LongestPathSource)
    } else if same_text(name, "coffman_graham") || same_text(name, "coffmangraham") {
        Ok(LayeringStrategy::CoffmanGraham)
    } else if same_text(name, "min_width") || same_text(name, "minwidth") {
        Ok(LayeringStrategy::MinWidth)
    } else if same_text(name, "stretch_width") || same_text(name, "stretchwidth") {
        Ok(LayeringStrategy::StretchWidth)
    } else {
        Err(complaint("unknown layering: ", given, " (use network_simplex/longest_path/coffman_graham/min_width/stretch_width)"))
    }
}

/// Looks a layering up by its name, whatever the case it is written in.
pub fn parse_layering(s: &str) -> (res: Result<LayeringStrategy, String>)
    ensures
        reads_as(res, layering_named(lowercase(s@)), unknown_layering(s@)),
        ascii(s@) ==> reads_as(res, layering_named(ascii_lowercase(s@)), unknown_layering(s@)),
{
    let name: String = to_lowercase(s);
    read_layering(s, &name)
}

/// The node placement that goes by a lower-case name.
pub open spec fn node_placement_named(name: Seq<char>) -> Option<NodePlacementStrategy> {
    if name == "brandes_koepf"@ || name == "brandeskoepf"@ || name == "bk"@ {
        Some(NodePlacementStrategy::BrandesKoepf)
    } else if name == "simple"@ {
        Some(NodePlacementStrategy::Simple)
    } else if name == "linear_segments"@ || name == "linearsegments"@ {
        Some(NodePlacementStrategy::LinearSegments)
    } else if name == "network_simplex"@ || name == "networksimplex"@ {
        Some(NodePlacementStrategy::NetworkSimplex)
    } else {
        None
    }
}

/// What is said of a name that stands for no node placement.
pub open spec fn unknown_node_placement(name: Seq<char>) -> Seq<char> {
    "unknown node_placement: "@ + name + " (use brandes_koepf/simple/linear_segments/network_simplex)"@
}

/// Looks a node placement up by its lower-case name; `given` is the name as it came
/// in, which an error repeats.
pub fn read_node_placement(given: &str, name: &String) -> (res: Result<NodePlacementStrategy, String>)
    ensures
        reads_as(res, node_placement_named(name@), unknown_node_placement(given@)),
{
    if same_text(name, "brandes_koepf") || same_text(name, "brandeskoepf") || same_text(name, "bk") {
        Ok(NodePlacementStrategy::BrandesKoepf)
    } else if same_text(name, "simple") {
        Ok(NodePlacementStrategy::Simple)
    } else if same_text(name, "linear_segments") || same_text(name, "linearsegments") {
        Ok(NodePlacementStrategy::LinearSegments)
    } else if same_text(name, "network_simplex") || same_text(name, "networksimplex") {
        Ok(NodePlacementStrategy::NetworkSimplex)
    } else {
        Err(complaint("unknown node_placement: ", given, " (use brandes_koepf/simple/linear_segments/network_simplex)"))
    }
}

/// Looks a node placement up by its name, whatever the case it is written in.
pub fn parse_node_placement(s: &str) -> (res: Result<NodePlacementStrategy, String>)
    ensures
        reads_as(res, node_placement_named(lowercase(s@)), unknown_node_placement(s@)),
        ascii(s@) ==> reads_as(res, node_placement_named(ascii_lowercase(s@)), unknown_node_placement(s@)),
{
    let name: String = to_lowercase(s);
    read_node_placement(s, &name)
}

/// The edge routing that goes by a lower-case name.
pub open spec fn edge_routing_named(name: Seq<char>) -> Option<EdgeRoutingStrategy> {
    if name == "orthogonal"@ || name == "orth"@ {
        Some(EdgeRoutingStrategy::Orthogonal)
    } else if name == "polyline"@ || name == "poly"@ {
        Some(EdgeRoutingStrategy::Polyline)
    } else if name == "splines"@ || name == "spline"@ {
        Some(EdgeRoutingStrategy::Splines)
    } else {
        None
    }
}

/// What is said of a name that stands for no edge routing.
pub open spec fn unknown_edge_routing(name: Seq<char>) -> Seq<char> {
    "unknown edge_routing: "@ + name + " (use orthogonal/polyline/splines)"@
}

/// Looks a edge routing up by its lower-case name; `given` is the name as it came
/// in, which an error repeats.
pub fn read_edge_routing(given: &str, name: &String) -> (res: Result<EdgeRoutingStrategy, String>)
    ensures
        reads_as(res, edge_routing_named(name@), unknown_edge_routing(given@)),
{
    if same_text(name, "orthogonal") || same_text(name, "orth") {
        Ok(EdgeRoutingStrategy::Orthogonal)
    } else if same_text(name, "polyline") || same_text(name, "poly") {
        Ok(EdgeRoutingStrategy::Polyline)
    } else if same_text(name, "splines") || same_text(name, "spline") {
        Ok(EdgeRoutingStrategy::Splines)
    } else {
        Err(complaint("unknown edge_routing: ", given, " (use orthogonal/polyline/splines)"))
    }
}

/// Looks a edge routing up by its name, whatever the case it is written in.
pub fn parse_edge_routing(s: &str) -> (res: Result<EdgeRoutingStrategy, String>)
    ensures
        reads_as(res, edge_routing_named(lowercase(s@)), unknown_edge_routing(s@)),
        ascii(s@) ==> reads_as(res, edge_routing_named(ascii_lowercase(s@)), unknown_edge_routing(s@)),
{
    let name: String = to_lowercase(s);
    read_edge_routing(s, &name)
}

/// The cycle breaking that goes by a lower-case name.
pub open spec fn cycle_breaking_named(name: Seq<char>) -> Option<CycleBreakingStrategy> {
    if name == "greedy"@ {
        Some(CycleBreakingStrategy::Greedy)
    } else if name == "depth_first"@ || name == "depthfirst"@ || name == "dfs"@ {
        Some(CycleBreakingStrategy::DepthFirst)
    } else if name == "greedy_model_order"@ || name == "greedymodelorder"@ {
        Some(CycleBreakingStrategy::GreedyModelOrder)
    } else if name == "model_order"@ || name == "modelorder"@ {
        Some(CycleBreakingStrategy::ModelOrder)
    } else {
        None
    }
}

/// What is said of a name that stands for no cycle breaking.
pub open spec fn unknown_cycle_breaking(name: Seq<char>) -> Seq<char> {
    "unknown cycle_breaking: "@ + name + " (use greedy/depth_first/greedy_model_order/model_order)"@
}

/// Looks a cycle breaking up by its lower-case name; `given` is the name as it came
/// in, which an error repeats.
pub fn read_cycle_breaking(given: &str, name: &String) -> (res: Result<CycleBreakingStrategy, String>)
    ensures
        reads_as(res, cycle_breaking_named(name@), unknown_cycle_breaking(given@)),
{
    if same_text(name, "greedy") {
        Ok(CycleBreakingStrategy::Greedy)
    } else if same_text(name, "depth_first") || same_text(name, "depthfirst") || same_text(name, "dfs") {
        Ok(CycleBreakingStrategy::DepthFirst)
    } else if same_text(name, "greedy_model_order") || same_text(name, "greedymodelorder") {
        Ok(CycleBreakingStrategy::GreedyModelOrder)
    } else if same_text(name, "model_order") || same_text(name, "modelorder") {
        Ok(CycleBreakingStrategy::ModelOrder)
    } else {
        Err(complaint("unknown cycle_breaking: ", given, " (use greedy/depth_first/greedy_model_order/model_order)"))
    }
}

/// Looks a cycle breaking up by its name, whatever the case it is written in.
pub fn parse_cycle_breaking(s: &str) -> (res: Result<CycleBreakingStrategy, String>)
    ensures
        reads_as(res, cycle_breaking_named(lowercase(s@)), unknown_cycle_breaking(s@)),
        ascii(s@) ==> reads_as(res, cycle_breaking_named(ascii_lowercase(s@)), unknown_cycle_breaking(s@)),
{
    let name: String = to_lowercase(s);
    read_cycle_breaking(s, &name)
}

/// Two texts differ at most in the case of ASCII letters.
pub open spec fn same_but_for_case(a: Seq<char>, b: Seq<char>) -> bool {
    a.len() == b.len() && forall|i: int|
        0 <= i < a.len() ==> ascii_lower(#[trigger] a[i]) == ascii_lower(b[i])
}

/// What the engine is asked to do. Spacings and padding are binary64 bit
/// patterns.
#[derive(Clone, Copy, Debug, PartialEq, Eq, Structural)]
pub struct PyLayoutOptions {
    pub direction: LayoutDirection,
    pub layering: LayeringStrategy,
    pub node_placement: NodePlacementStrategy,
    pub edge_routing: EdgeRoutingStrategy,
    pub cycle_breaking: CycleBreakingStrategy,
    pub node_node: u64,
    pub node_node_between_layers: u64,
    pub edge_node: u64,
    pub edge_edge: u64,
    pub padding: u64,
    pub thoroughness: u32,
    pub random_seed: u64,
}

/// The five names that options are chosen by.
pub struct OptionNames {
    pub direction: Seq<char>,
    pub layering: Seq<char>,
    pub node_placement: Seq<char>,
    pub edge_routing: Seq<char>,
    pub cycle_breaking: Seq<char>,
}

impl OptionNames {
    /// All five names in lower case.
    pub open spec fn lowercase(self) -> OptionNames {
        OptionNames {
            direction: lowercase(self.direction),
            layering: lowercase(self.layering),
            node_placement: lowercase(self.node_placement),
            edge_routing: lowercase(self.edge_routing),
            cycle_breaking: lowercase(self.cycle_breaking),
        }
    }

    /// All five names with their ASCII letters in lower case.
    pub open spec fn ascii_lowercase(self) -> OptionNames {
        OptionNames {
            direction: ascii_lowercase(self.direction),
            layering: ascii_lowercase(self.layering),
            node_placement: ascii_lowercase(self.node_placement),
            edge_routing: ascii_lowercase(self.edge_routing),
            cycle_breaking: ascii_lowercase(self.cycle_breaking),
        }
    }

    /// All five names are plain ASCII.
    pub open spec fn ascii(self) -> bool {
        &&& ascii(self.direction)
        &&& ascii(self.layering)
        &&& ascii(self.node_placement)
        &&& ascii(self.edge_routing)
        &&& ascii(self.cycle_breaking)
    }
}

/// A complaint where a name means nothing.
pub open spec fn unless_meant<T>(meant: Option<T>, complaint: Seq<char>) -> Option<Seq<char>> {
    match meant {
        Some(_) => None,
        None => Some(complaint),
    }
}

/// The complaint about the first of five names that means nothing, where
/// `names` are those `given`, in lower case.
pub open spec fn options_complaint(given: OptionNames, names: OptionNames) -> Option<Seq<char>> {
    or_else(
        unless_meant(direction_named(names.direction), unknown_direction(given.direction)),
        or_else(
            unless_meant(layering_named(names.layering), unknown_layering(given.layering)),
            or_else(
                unless_meant(
                    node_placement_named(names.node_placement),
                    unknown_node_placement(given.node_placement),
                ),
                or_else(
                    unless_meant(
                        edge_routing_named(names.edge_routing),
                        unknown_edge_routing(given.edge_routing),
                    ),
                    unless_meant(
                        cycle_breaking_named(names.cycle_breaking),
                        unknown_cycle_breaking(given.cycle_breaking),
                    ),
                ),
            ),
        ),
    )
}

/// The options are those that five lower-case names stand for.
pub open spec fn chosen_by(o: PyLayoutOptions, names: OptionNames) -> bool {
    &&& direction_named(names.direction) == Some(o.direction)
    &&& layering_named(names.layering) == Some(o.layering)
    &&& node_placement_named(names.node_placement) == Some(o.node_placement)
    &&& edge_routing_named(names.edge_routing) == Some(o.edge_routing)
    &&& cycle_breaking_named(names.cycle_breaking) == Some(o.cycle_breaking)
}

/// The outcome of choosing options by name.
pub open spec fn options_read_as(
    res: Result<PyLayoutOptions, String>,
    given: OptionNames,
    names: OptionNames,
) -> bool {
    match res {
        Ok(o) => chosen_by(o, names),
        Err(e) => options_complaint(given, names) == Some(e@),
    }
}

impl PyLayoutOptions {
    /// Chooses options by name. Of several names that mean nothing, the first
    /// is reported.
    pub fn new(
        direction: &str,
        layering: &str,
        node_placement: &str,
        edge_routing: &str,
        cycle_breaking: &str,
        node_node: u64,
        node_node_between_layers: u64,
        edge_node: u64,
        edge_edge: u64,
        padding: u64,
        thoroughness: u32,
        random_seed: u64,
    ) -> (res: Result<PyLayoutOptions, String>)
        ensures
            ({
                let given = OptionNames {
                    direction: direction@,
                    layering: layering@,
                    node_placement: node_placement@,
                    edge_routing: edge_routing@,
                    cycle_breaking: cycle_breaking@,
                };
                &&& options_read_as(res, given, given.lowercase())
                &&& given.ascii() ==> options_read_as(res, given, given.ascii_lowercase())
            }),
            res matches Ok(o) ==> {
                &&& o.node_node == node_node
                &&& o.node_node_between_layers == node_node_between_layers
                &&& o.edge_node == edge_node
                &&& o.edge_edge == edge_edge
                &&& o.padding == padding
                &&& o.thoroughness == thoroughness
                &&& o.random_seed == random_seed
            },
    {
        let direction: LayoutDirection = parse_direction(direction)?;
        let layering: LayeringStrategy = parse_layering(layering)?;
        let node_placement: NodePlacementStrategy = parse_node_placement(node_placement)?;
        let edge_routing: EdgeRoutingStrategy = parse_edge_routing(edge_routing)?;
        let cycle_breaking: CycleBreakingStrategy = parse_cycle_breaking(cycle_breaking)?;
        Ok(
            PyLayoutOptions {
                direction,
                layering,
                node_placement,
                edge_routing,
                cycle_breaking,
                node_node,
                node_node_between_layers,
                edge_node,
                edge_edge,
                padding,
                thoroughness,
                random_seed,
            },
        )
    }

    /// Shows options by the engine's numbers for four of them.
    pub fn repr(direction: u8, layering: u8, node_placement: u8, edge_routing: u8) -> (text: String)
        ensures
            text@ == "PyLayoutOptions(direction="@ + decimal(direction as nat) + ", layering="@
                + decimal(layering as nat) + ", node_placement="@ + decimal(node_placement as nat)
                + ", edge_routing="@ + decimal(edge_routing as nat) + ")"@,
    {
        let mut out: String = String::new();
        out.append("PyLayoutOptions(direction=");
        push_decimal(&mut out, direction as u64);
        out.append(", layering=");
        push_decimal(&mut out, layering as u64);
        out.append(", node_placement=");
        push_decimal(&mut out, node_placement as u64);
        out.append(", edge_routing=");
        push_decimal(&mut out, edge_routing as u64);
        out.append(")");
        assert(out@ =~= "PyLayoutOptions(direction="@ + decimal(direction as nat) + ", layering="@
            + decimal(layering as nat) + ", node_placement="@ + decimal(node_placement as nat)
            + ", edge_routing="@ + decimal(edge_routing as nat) + ")"@);
        out
    }
}

/// A text of small letters and underscores is ASCII and its own lower case.
proof fn lemma_small_letters(s: Seq<char>)
    requires
        forall|i: int|
            0 <= i < s.len() ==> 'a' as u32 <= (#[trigger] s[i]) as u32 <= 'z' as u32 || s[i] == '_',
    ensures
        ascii(s),
        ascii_lowercase(s) == s,
{
    assert(ascii_lowercase(s) =~= s);
}

proof fn lemma_direction_names(name: Seq<char>)
    requires
        direction_named(name) is Some,
    ensures
        ascii(name),
        ascii_lowercase(name) == name,
{
    reveal_strlit("right");
    reveal_strlit("r");
    reveal_strlit("east");
    reveal_strlit("left");
    reveal_strlit("l");
    reveal_strlit("west");
    reveal_strlit("down");
    reveal_strlit("d");
    reveal_strlit("south");
    reveal_strlit("up");
    reveal_strlit("u");
    reveal_strlit("north");
    reveal_strlit("undefined");
    reveal_strlit("undef");
    lemma_small_letters(name);
}

proof fn lemma_layering_names(name: Seq<char>)
    requires
        layering_named(name) is Some,
    ensures
        ascii(name),
        ascii_lowercase(name) == name,
{
    reveal_strlit("network_simplex");
    reveal_strlit("networksimplex");
    reveal_strlit("simplex");
    reveal_strlit("longest_path");
    reveal_strlit("longestpath");
    reveal_strlit("longest_path_source");
    reveal_strlit("longestpathsource");
    reveal_strlit("coffman_graham");
    reveal_strlit("coffmangraham");
    reveal_strlit("min_width");
    reveal_strlit("minwidth");
    reveal_strlit("stretch_width");
    reveal_strlit("stretchwidth");
    lemma_small_letters(name);
}

proof fn lemma_node_placement_names(name: Seq<char>)
    requires
        node_placement_named(name) is Some,
    ensures
        ascii(name),
        ascii_lowercase(name) == name,
{
    reveal_strlit("brandes_koepf");
    reveal_strlit("brandeskoepf");
    reveal_strlit("bk");
    reveal_strlit("simple");
    reveal_strlit("linear_segments");
    reveal_strlit("linearsegments");
    reveal_strlit("network_simplex");
    reveal_strlit("networksimplex");
    lemma_small_letters(name);
}

proof fn lemma_edge_routing_names(name: Seq<char>)
    requires
        edge_routing_named(name) is Some,
    ensures
        ascii(name),
        ascii_lowercase(name) == name,
{
    reveal_strlit("orthogonal");
    reveal_strlit("orth");
    reveal_strlit("polyline");
    reveal_strlit("poly");
    reveal_strlit("splines");
    reveal_strlit("spline");
    lemma_small_letters(name);
}

proof fn lemma_cycle_breaking_names(name: Seq<char>)
    requires
        cycle_breaking_named(name) is Some,
    ensures
        ascii(name),
        ascii_lowercase(name) == name,
{
    reveal_strlit("greedy");
    reveal_strlit("depth_first");
    reveal_strlit("depthfirst");
    reveal_strlit("dfs");
    reveal_strlit("greedy_model_order");
    reveal_strlit("greedymodelorder");
    reveal_strlit("model_order");
    reveal_strlit("modelorder");
    lemma_small_letters(name);
}

/// Every name that means something is ASCII and in lower case, so that a name
/// means the same however its ASCII letters are written.
pub proof fn law_names_are_lower_case(name: Seq<char>)
    requires
        direction_named(name) is Some || layering_named(name) is Some || node_placement_named(
            name,
        ) is Some || edge_routing_named(name) is Some || cycle_breaking_named(name) is Some,
    ensures
        ascii(name),
        ascii_lowercase(name) == name,
{
    if direction_named(name) is Some {
        lemma_direction_names(name);
    } else if layering_named(name) is Some {
        lemma_layering_names(name);
    } else if node_placement_named(name) is Some {
        lemma_node_placement_names(name);
    } else if edge_routing_named(name) is Some {
        lemma_edge_routing_names(name);
    } else {
        lemma_cycle_breaking_names(name);
    }
}

/// Names that differ only in the case of ASCII letters choose the same options.
pub proof fn law_case_is_ignored(a: OptionNames, b: OptionNames, o: PyLayoutOptions)
    requires
        same_but_for_case(a.direction, b.direction),
        same_but_for_case(a.layering, b.layering),
        same_but_for_case(a.node_placement, b.node_placement),
        same_but_for_case(a.edge_routing, b.edge_routing),
        same_but_for_case(a.cycle_breaking, b.cycle_breaking),
    ensures
        chosen_by(o, a.ascii_lowercase()) <==> chosen_by(o, b.ascii_lowercase()),
{
    assert(ascii_lowercase(a.direction) =~= ascii_lowercase(b.direction));
    assert(ascii_lowercase(a.layering) =~= ascii_lowercase(b.layering));
    assert(ascii_lowercase(a.node_placement) =~= ascii_lowercase(b.node_placement));
    assert(ascii_lowercase(a.edge_routing) =~= ascii_lowercase(b.edge_routing));
    assert(ascii_lowercase(a.cycle_breaking) =~= ascii_lowercase(b.cycle_breaking));
}

} // verus!
