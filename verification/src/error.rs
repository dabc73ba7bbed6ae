//! What can go wrong with a layout request, and how it is reported.
use vstd::prelude::*;
use vstd::string::StringExecFns;

use crate::graph::GraphFault;
use crate::text::{decimal, push_decimal};
use crate::wire::{MAX_EDGE_COUNT, MAX_NODE_COUNT};

verus! {

/// Why a list of nodes and edges is rejected. Sizes are binary64 bit patterns.
#[derive(Clone, Copy, Debug, PartialEq, Eq, Structural)]
pub enum RequestError {
    TooManyNodes { count: usize },
    TooManyEdges { count: usize },
    NonFiniteSize { id: u32 },
    NonPositiveSize { id: u32, width: u64, height: u64 },
    Graph(GraphFault),
}

/// The kind of record that an error is about.
#[derive(Clone, Copy, Debug, PartialEq, Eq, Structural)]
pub enum RecordKind {
    Node,
    Edge,
    Bend,
}

/// Why an LRD1 buffer could not be laid out.
#[derive(Clone, Copy, Debug, PartialEq, Eq, Structural)]
pub enum FfiError {
    /// The buffer does not start with "LRD1".
    InvalidMagic,
    /// The buffer declares a wire version that cannot be read.
    UnsupportedVersion(u32),
    /// A count exceeds its maximum.
    TooLarge { kind: RecordKind, count: u32 },
    /// The buffer is shorter than its declared counts require.
    BufferTooShort { expected: usize, actual: usize },
    /// An edge names a node that is not in the node section.
    InvalidNodeReference { edge_id: u32, node_id: u32 },
    /// Two nodes or two edges share an id.
    DuplicateId { kind: RecordKind, id: u32 },
    /// A node's width, height, x or y is a NaN or an infinity.
    InvalidGeometry { node_id: u32 },
    /// The layout engine panicked.
    LayoutPanic,
}

/// Why a layout was not produced.
#[derive(Clone, Copy, Debug, PartialEq, Eq, Structural)]
pub enum LayoutError {
    Request(RequestError),
    Wire(FfiError),
}

/// A graph fault as the wire reports it.
pub open spec fn wire_fault(f: GraphFault) -> FfiError {
    match f {
        GraphFault::DuplicateNode { id } => FfiError::DuplicateId { kind: RecordKind::Node, id },
        GraphFault::DuplicateEdge { id } => FfiError::DuplicateId { kind: RecordKind::Edge, id },
        GraphFault::UnknownNode { edge, node } => FfiError::InvalidNodeReference {
            edge_id: edge,
            node_id: node,
        },
    }
}

pub fn to_wire_fault(f: GraphFault) -> (e: FfiError)
    ensures
        e == wire_fault(f),
{
    match f {
        GraphFault::DuplicateNode { id } => FfiError::DuplicateId { kind: RecordKind::Node, id },
        GraphFault::DuplicateEdge { id } => FfiError::DuplicateId { kind: RecordKind::Edge, id },
        GraphFault::UnknownNode { edge, node } => FfiError::InvalidNodeReference {
            edge_id: edge,
            node_id: node,
        },
    }
}

/// The name of a record kind.
pub open spec fn kind_name(kind: RecordKind) -> Seq<char> {
    match kind {
        RecordKind::Node => "node"@,
        RecordKind::Edge => "edge"@,
        RecordKind::Bend => "bend"@,
    }
}

/// The report of a graph fault.
pub open spec fn graph_fault_message(f: GraphFault) -> Seq<char> {
    match f {
        GraphFault::DuplicateNode { id } => "duplicate node id: "@ + decimal(id as nat),
        GraphFault::DuplicateEdge { id } => "duplicate edge id: "@ + decimal(id as nat),
        GraphFault::UnknownNode { edge, node } => "edge "@ + decimal(edge as nat)
            + " references unknown node "@ + decimal(node as nat),
    }
}

/// The report of a rejected request, given how the two sizes of a
/// `NonPositiveSize` are written.
pub open spec fn request_message(
    e: RequestError,
    width_text: Seq<char>,
    height_text: Seq<char>,
) -> Seq<char> {
    match e {
        RequestError::TooManyNodes { count } => "node count "@ + decimal(count as nat)
            + " exceeds MAX_NODE_COUNT "@ + decimal(MAX_NODE_COUNT as nat),
        RequestError::TooManyEdges { count } => "edge count "@ + decimal(count as nat)
            + " exceeds MAX_EDGE_COUNT "@ + decimal(MAX_EDGE_COUNT as nat),
        RequestError::NonFiniteSize { id } => "node "@ + decimal(id as nat)
            + " has non-finite width/height"@,
        RequestError::NonPositiveSize { id, .. } => "node "@ + decimal(id as nat)
            + " has non-positive size "@ + width_text + "x"@ + height_text,
        RequestError::Graph(f) => graph_fault_message(f),
    }
}

/// The report of a wire error.
pub open spec fn ffi_message(e: FfiError) -> Seq<char> {
    match e {
        FfiError::InvalidMagic => "invalid magic bytes (expected LRD1)"@,
        FfiError::UnsupportedVersion(v) => "unsupported wire version: "@ + decimal(
            v as nat,
        ),
        FfiError::TooLarge { kind, count } => kind_name(kind) + " count "@ + decimal(
            count as nat,
        ) + " exceeds maximum"@,
        FfiError::BufferTooShort { expected, actual } => "buffer too short: expected "@
            + decimal(expected as nat) + " bytes, got "@ + decimal(
            actual as nat,
        ),
        FfiError::InvalidNodeReference { edge_id, node_id } => "edge "@ + decimal(
            edge_id as nat,
        ) + " references unknown node "@ + decimal(node_id as nat),
        FfiError::DuplicateId { kind, id } => "duplicate "@ + kind_name(kind) + " id: "@
            + decimal(id as nat),
        FfiError::InvalidGeometry { node_id } => "node "@ + decimal(node_id as nat)
            + " has non-finite width, height, x, or y"@,
        FfiError::LayoutPanic => "layerd pipeline panicked"@,
    }
}

/// The report of a layout that was not produced.
pub open spec fn layout_message(
    e: LayoutError,
    width_text: Seq<char>,
    height_text: Seq<char>,
) -> Seq<char> {
    match e {
        LayoutError::Request(r) => request_message(r, width_text, height_text),
        LayoutError::Wire(w) => ffi_message(w),
    }
}

impl GraphFault {
    /// Reports the fault in words.
    pub fn message(&self) -> (text: String)
        ensures
            text@ == graph_fault_message(*self),
    {
        let mut out: String = String::new();
        match *self {
            GraphFault::DuplicateNode { id } => {
                out.append("duplicate node id: ");
                push_decimal(&mut out, id as u64);
            },
            GraphFault::DuplicateEdge { id } => {
                out.append("duplicate edge id: ");
                push_decimal(&mut out, id as u64);
            },
            GraphFault::UnknownNode { edge, node } => {
                out.append("edge ");
                push_decimal(&mut out, edge as u64);
                out.append(" references unknown node ");
                push_decimal(&mut out, node as u64);
            },
        }
        assert(out@ =~= graph_fault_message(*self));
        out
    }
}

impl RequestError {
    /// Reports the error in words. The two texts are how the width and the
    /// height of a `NonPositiveSize` are written; no other error uses them.
    pub fn message(&self, width_text: &str, height_text: &str) -> (text: String)
        ensures
            text@ == request_message(*self, width_text@, height_text@),
    {
        let mut out: String = String::new();
        match *self {
            RequestError::TooManyNodes { count } => {
                out.append("node count ");
                push_decimal(&mut out, count as u64);
                out.append(" exceeds MAX_NODE_COUNT ");
                push_decimal(&mut out, MAX_NODE_COUNT as u64);
            },
            RequestError::TooManyEdges { count } => {
                out.append("edge count ");
                push_decimal(&mut out, count as u64);
                out.append(" exceeds MAX_EDGE_COUNT ");
                push_decimal(&mut out, MAX_EDGE_COUNT as u64);
            },
            RequestError::NonFiniteSize { id } => {
                out.append("node ");
                push_decimal(&mut out, id as u64);
                out.append(" has non-finite width/height");
            },
            RequestError::NonPositiveSize { id, width, height } => {
                out.append("node ");
                push_decimal(&mut out, id as u64);
                out.append(" has non-positive size ");
                out.append(width_text);
                out.append("x");
                out.append(height_text);
            },
            RequestError::Graph(f) => {
                return f.message();
            },
        }
        assert(out@ =~= request_message(*self, width_text@, height_text@));
        out
    }
}

/// Appends the name of a record kind.
fn push_kind(out: &mut String, kind: RecordKind)
    ensures
        final(out)@ == old(out)@ + kind_name(kind),
{
    match kind {
        RecordKind::Node => out.append("node"),
        RecordKind::Edge => out.append("edge"),
        RecordKind::Bend => out.append("bend"),
    }
}

impl FfiError {
    /// Reports the error in words.
    pub fn message(&self) -> (text: String)
        ensures
            text@ == ffi_message(*self),
    {
        let mut out: String = String::new();
        match *self {
            FfiError::InvalidMagic => {
                out.append("invalid magic bytes (expected LRD1)");
            },
            FfiError::UnsupportedVersion(v) => {
                out.append("unsupported wire version: ");
                push_decimal(&mut out, v as u64);
            },
            FfiError::TooLarge { kind, count } => {
                push_kind(&mut out, kind);
                out.append(" count ");
                push_decimal(&mut out, count as u64);
                out.append(" exceeds maximum");
            },
            FfiError::BufferTooShort { expected, actual } => {
                out.append("buffer too short: expected ");
                push_decimal(&mut out, expected as u64);
                out.append(" bytes, got ");
                push_decimal(&mut out, actual as u64);
            },
            FfiError::InvalidNodeReference { edge_id, node_id } => {
                out.append("edge ");
                push_decimal(&mut out, edge_id as u64);
                out.append(" references unknown node ");
                push_decimal(&mut out, node_id as u64);
            },
            FfiError::DuplicateId { kind, id } => {
                out.append("duplicate ");
                push_kind(&mut out, kind);
                out.append(" id: ");
                push_decimal(&mut out, id as u64);
            },
            FfiError::InvalidGeometry { node_id } => {
                out.append("node ");
                push_decimal(&mut out, node_id as u64);
                out.append(" has non-finite width, height, x, or y");
            },
            FfiError::LayoutPanic => {
                out.append("layerd pipeline panicked");
            },
        }
        assert(out@ =~= ffi_message(*self));
        out
    }
}

impl LayoutError {
    /// Reports the error in words. The two texts are how the width and the
    /// height of a `NonPositiveSize` are written; no other error uses them.
    pub fn message(&self, width_text: &str, height_text: &str) -> (text: String)
        ensures
            text@ == layout_message(*self, width_text@, height_text@),
    {
        match self {
            LayoutError::Request(r) => r.message(width_text, height_text),
            LayoutError::Wire(w) => w.message(),
        }
    }
}

/// A graph fault reads the same whether the request went over the wire or not.
pub proof fn law_graph_faults_read_alike(f: GraphFault)
    ensures
        ffi_message(wire_fault(f)) == graph_fault_message(f),
{
    match f {
        GraphFault::DuplicateNode { id } => {
            reveal_strlit("duplicate node id: ");
            reveal_strlit("duplicate ");
            reveal_strlit("node");
            reveal_strlit(" id: ");
            assert("duplicate "@ + "node"@ + " id: "@ =~= "duplicate node id: "@);
        },
        GraphFault::DuplicateEdge { id } => {
            reveal_strlit("duplicate edge id: ");
            reveal_strlit("duplicate ");
            reveal_strlit("edge");
            reveal_strlit(" id: ");
            assert("duplicate "@ + "edge"@ + " id: "@ =~= "duplicate edge id: "@);
        },
        GraphFault::UnknownNode { edge, node } => {},
    }
}

} // verus!
