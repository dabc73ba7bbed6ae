//! The LRD1 wire format.
//!
//! A buffer is a 40-byte header followed by node records, edge records and,
//! on output, bend point records. All numbers are little-endian; coordinates
//! and sizes are the 8-byte patterns of binary64 values.
//!
//! | header        | offset | node record | offset | edge record   | offset | bend record | offset |
//! |---------------|--------|-------------|--------|---------------|--------|-------------|--------|
//! | magic "LRD1"  | 0      | id          | 0      | id            | 0      | x           | 0      |
//! | version       | 4      | reserved    | 4      | source node   | 4      | y           | 8      |
//! | flags         | 8      | width       | 8      | target node   | 8      |             |        |
//! | node count    | 12     | height      | 16     | bend start    | 12     |             |        |
//! | edge count    | 16     | x           | 24     | bend length   | 16     |             |        |
//! | bend count    | 20     | y           | 32     | reserved      | 20     |             |        |
//! | graph width   | 24     |             |        |               |        |             |        |
//! | graph height  | 32     |             |        |               |        |             |        |
use vstd::prelude::*;

verus! {

/// Current wire format version.
pub const VERSION: u32 = 1;

/// Flag bit that marks a buffer as holding a finished layout.
pub const FLAG_IS_OUTPUT: u32 = 1;

/// Most nodes that a graph may have.
pub const MAX_NODE_COUNT: u32 = 1_000_000;

/// Most edges that a graph may have.
pub const MAX_EDGE_COUNT: u32 = 2_000_000;

/// Most bend points that a graph may have in all.
pub const MAX_BEND_COUNT: u32 = 10_000_000;

/// Size of the header in bytes.
pub const HEADER_SIZE: usize = 40;

/// Size of a node record in bytes.
pub const NODE_RECORD_SIZE: usize = 40;

/// Size of an edge record in bytes.
pub const EDGE_RECORD_SIZE: usize = 24;

/// Size of a bend point record in bytes.
pub const BEND_RECORD_SIZE: usize = 16;

/// The counts and sizes that a header announces.
pub struct Header {
    pub flags: u32,
    pub node_count: u32,
    pub edge_count: u32,
    pub bend_count: u32,
    pub width: u64,
    pub height: u64,
}

/// A node as the wire carries it.
pub struct NodeRecord {
    pub id: u32,
    pub width: u64,
    pub height: u64,
    pub x: u64,
    pub y: u64,
}

/// An edge as the wire carries it.
pub struct EdgeRecord {
    pub id: u32,
    pub source: u32,
    pub target: u32,
    pub bend_start: u32,
    pub bend_length: u32,
}

/// A point at which a routed edge changes direction.
#[derive(Clone, Copy, Debug, PartialEq, Eq, Structural)]
pub struct BendPoint {
    pub x: u64,
    pub y: u64,
}

/// The four bytes that open every buffer: "LRD1" in ASCII.
pub open spec fn magic() -> Seq<u8> {
    seq![0x4Cu8, 0x52u8, 0x44u8, 0x31u8]
}

/// The bytes of a 32-bit number, least significant first.
pub open spec fn le32(v: u32) -> Seq<u8> {
    seq![
        (v % 256) as u8,
        ((v / 256) % 256) as u8,
        ((v / 65536) % 256) as u8,
        (v / 16777216) as u8,
    ]
}

/// The bytes of a 64-bit number, least significant first.
pub open spec fn le64(v: u64) -> Seq<u8> {
    le32((v % 0x1_0000_0000) as u32) + le32((v / 0x1_0000_0000) as u32)
}

/// The 32-bit number that four bytes from `at` on spell.
pub open spec fn u32_at(s: Seq<u8>, at: int) -> u32 {
    (s[at] + 256 * s[at + 1] + 65536 * s[at + 2] + 16777216 * s[at + 3]) as u32
}

/// The 64-bit number that eight bytes from `at` on spell.
pub open spec fn u64_at(s: Seq<u8>, at: int) -> u64 {
    (u32_at(s, at) + 0x1_0000_0000 * u32_at(s, at + 4)) as u64
}

pub open spec fn header_bytes(h: Header) -> Seq<u8> {
    magic() + le32(VERSION) + le32(h.flags) + le32(h.node_count) + le32(h.edge_count) + le32(
        h.bend_count,
    ) + le64(h.width) + le64(h.height)
}

pub open spec fn node_bytes(n: NodeRecord) -> Seq<u8> {
    le32(n.id) + le32(0) + le64(n.width) + le64(n.height) + le64(n.x) + le64(n.y)
}

pub open spec fn edge_bytes(e: EdgeRecord) -> Seq<u8> {
    le32(e.id) + le32(e.source) + le32(e.target) + le32(e.bend_start) + le32(e.bend_length) + le32(
        0,
    )
}

pub open spec fn bend_bytes(b: BendPoint) -> Seq<u8> {
    le64(b.x) + le64(b.y)
}

/// The records of a section, one behind the other.
pub open spec fn joined(records: Seq<Seq<u8>>) -> Seq<u8>
    decreases records.len(),
{
    if records.len() == 0 {
        Seq::empty()
    } else {
        joined(records.drop_last()) + records.last()
    }
}

/// A section of records of `size` bytes each holds byte `k` of record `i` at
/// `size * i + k`, and nothing behind its last record.
pub proof fn lemma_joined(records: Seq<Seq<u8>>, size: int, i: int, k: int)
    requires
        forall|j: int| 0 <= j < records.len() ==> (#[trigger] records[j]).len() == size,
        0 <= i < records.len(),
        0 <= k < size,
    ensures
        0 <= size * i + k < joined(records).len(),
        joined(records)[size * i + k] == records[i][k],
    decreases records.len(),
{
    let rest = records.drop_last();
    lemma_joined_len(rest, size);
    let n = rest.len() as int;
    if i < n {
        lemma_joined(rest, size, i, k);
    }
}

/// A section of `n` records of `size` bytes each is `size * n` bytes long.
pub proof fn lemma_joined_len(records: Seq<Seq<u8>>, size: int)
    requires
        forall|j: int| 0 <= j < records.len() ==> (#[trigger] records[j]).len() == size,
    ensures
        joined(records).len() == size * records.len(),
    decreases records.len(),
{
    let n = records.len() as int;
    if n == 0 {
        assert(size * n == 0) by (nonlinear_arith)
            requires
                n == 0,
        ;
    } else {
        lemma_joined_len(records.drop_last(), size);
        assert(size * n == size * (n - 1) + size) by (nonlinear_arith);
    }
}

/// Reading a number back from the bytes that it was written as.
pub proof fn lemma_u32_at(s: Seq<u8>, at: int, v: u32)
    requires
        forall|k: int| 0 <= k < 4 ==> s[at + k] == #[trigger] le32(v)[k],
    ensures
        u32_at(s, at) == v,
{
    assert(s[at + 0] == le32(v)[0]);
    assert(s[at + 1] == le32(v)[1]);
    assert(s[at + 2] == le32(v)[2]);
    assert(s[at + 3] == le32(v)[3]);
}

/// Reading a number back from the bytes that it was written as.
pub proof fn lemma_u64_at(s: Seq<u8>, at: int, v: u64)
    requires
        forall|k: int| 0 <= k < 8 ==> s[at + k] == #[trigger] le64(v)[k],
    ensures
        u64_at(s, at) == v,
{
    let low = (v % 0x1_0000_0000) as u32;
    let high = (v / 0x1_0000_0000) as u32;
    assert forall|k: int| 0 <= k < 4 implies s[at + k] == #[trigger] le32(low)[k] by {
        assert(le64(v)[k] == le32(low)[k]);
    }
    assert forall|k: int| 0 <= k < 4 implies s[at + 4 + k] == #[trigger] le32(high)[k] by {
        assert(le64(v)[4 + k] == le32(high)[k]);
    }
    lemma_u32_at(s, at, low);
    lemma_u32_at(s, at + 4, high);
}

/// A header's fields stand at their documented offsets.
pub proof fn lemma_header_fields(s: Seq<u8>, h: Header)
    requires
        s.len() >= HEADER_SIZE,
        s.take(HEADER_SIZE as int) == header_bytes(h),
    ensures
        s.take(4) == magic(),
        u32_at(s, 4) == VERSION,
        u32_at(s, 8) == h.flags,
        u32_at(s, 12) == h.node_count,
        u32_at(s, 16) == h.edge_count,
        u32_at(s, 20) == h.bend_count,
        u64_at(s, 24) == h.width,
        u64_at(s, 32) == h.height,
{
    let b = header_bytes(h);
    assert forall|k: int| 0 <= k < 40 implies s[k] == #[trigger] b[k] by {
        assert(s.take(40)[k] == s[k]);
    }
    assert(s.take(4) =~= magic()) by {
        assert forall|k: int| 0 <= k < 4 implies s.take(4)[k] == magic()[k] by {
            assert(b[k] == magic()[k]);
        }
    }
    assert forall|k: int| 0 <= k < 4 implies s[4 + k] == #[trigger] le32(VERSION)[k] by {
        assert(b[4 + k] == le32(VERSION)[k]);
    }
    assert forall|k: int| 0 <= k < 4 implies s[8 + k] == #[trigger] le32(h.flags)[k] by {
        assert(b[8 + k] == le32(h.flags)[k]);
    }
    assert forall|k: int| 0 <= k < 4 implies s[12 + k] == #[trigger] le32(h.node_count)[k] by {
        assert(b[12 + k] == le32(h.node_count)[k]);
    }
    assert forall|k: int| 0 <= k < 4 implies s[16 + k] == #[trigger] le32(h.edge_count)[k] by {
        assert(b[16 + k] == le32(h.edge_count)[k]);
    }
    assert forall|k: int| 0 <= k < 4 implies s[20 + k] == #[trigger] le32(h.bend_count)[k] by {
        assert(b[20 + k] == le32(h.bend_count)[k]);
    }
    assert forall|k: int| 0 <= k < 8 implies s[24 + k] == #[trigger] le64(h.width)[k] by {
        assert(b[24 + k] == le64(h.width)[k]);
    }
    assert forall|k: int| 0 <= k < 8 implies s[32 + k] == #[trigger] le64(h.height)[k] by {
        assert(b[32 + k] == le64(h.height)[k]);
    }
    lemma_u32_at(s, 4, VERSION);
    lemma_u32_at(s, 8, h.flags);
    lemma_u32_at(s, 12, h.node_count);
    lemma_u32_at(s, 16, h.edge_count);
    lemma_u32_at(s, 20, h.bend_count);
    lemma_u64_at(s, 24, h.width);
    lemma_u64_at(s, 32, h.height);
}

/// A node record's fields stand at their documented offsets.
pub proof fn lemma_node_fields(s: Seq<u8>, at: int, n: NodeRecord)
    requires
        forall|k: int| 0 <= k < NODE_RECORD_SIZE ==> s[at + k] == #[trigger] node_bytes(n)[k],
    ensures
        u32_at(s, at) == n.id,
        u64_at(s, at + 8) == n.width,
        u64_at(s, at + 16) == n.height,
        u64_at(s, at + 24) == n.x,
        u64_at(s, at + 32) == n.y,
{
    let b = node_bytes(n);
    assert forall|k: int| 0 <= k < 4 implies s[at + k] == #[trigger] le32(n.id)[k] by {
        assert(b[k] == le32(n.id)[k]);
    }
    assert forall|k: int| 0 <= k < 8 implies s[at + 8 + k] == #[trigger] le64(n.width)[k] by {
        assert(b[8 + k] == le64(n.width)[k]);
    }
    assert forall|k: int| 0 <= k < 8 implies s[at + 16 + k] == #[trigger] le64(n.height)[k] by {
        assert(b[16 + k] == le64(n.height)[k]);
    }
    assert forall|k: int| 0 <= k < 8 implies s[at + 24 + k] == #[trigger] le64(n.x)[k] by {
        assert(b[24 + k] == le64(n.x)[k]);
    }
    assert forall|k: int| 0 <= k < 8 implies s[at + 32 + k] == #[trigger] le64(n.y)[k] by {
        assert(b[32 + k] == le64(n.y)[k]);
    }
    lemma_u32_at(s, at, n.id);
    lemma_u64_at(s, at + 8, n.width);
    lemma_u64_at(s, at + 16, n.height);
    lemma_u64_at(s, at + 24, n.x);
    lemma_u64_at(s, at + 32, n.y);
}

/// An edge record's fields stand at their documented offsets.
pub proof fn lemma_edge_fields(s: Seq<u8>, at: int, e: EdgeRecord)
    requires
        forall|k: int| 0 <= k < EDGE_RECORD_SIZE ==> s[at + k] == #[trigger] edge_bytes(e)[k],
    ensures
        u32_at(s, at) == e.id,
        u32_at(s, at + 4) == e.source,
        u32_at(s, at + 8) == e.target,
        u32_at(s, at + 12) == e.bend_start,
        u32_at(s, at + 16) == e.bend_length,
{
    let b = edge_bytes(e);
    assert forall|k: int| 0 <= k < 4 implies s[at + k] == #[trigger] le32(e.id)[k] by {
        assert(b[k] == le32(e.id)[k]);
    }
    assert forall|k: int| 0 <= k < 4 implies s[at + 4 + k] == #[trigger] le32(e.source)[k] by {
        assert(b[4 + k] == le32(e.source)[k]);
    }
    assert forall|k: int| 0 <= k < 4 implies s[at + 8 + k] == #[trigger] le32(e.target)[k] by {
        assert(b[8 + k] == le32(e.target)[k]);
    }
    assert forall|k: int| 0 <= k < 4 implies s[at + 12 + k] == #[trigger] le32(e.bend_start)[k] by {
        assert(b[12 + k] == le32(e.bend_start)[k]);
    }
    assert forall|k: int| 0 <= k < 4 implies s[at + 16 + k] == #[trigger] le32(e.bend_length)[k] by {
        assert(b[16 + k] == le32(e.bend_length)[k]);
    }
    lemma_u32_at(s, at, e.id);
    lemma_u32_at(s, at + 4, e.source);
    lemma_u32_at(s, at + 8, e.target);
    lemma_u32_at(s, at + 12, e.bend_start);
    lemma_u32_at(s, at + 16, e.bend_length);
}

/// A bend record's fields stand at their documented offsets.
pub proof fn lemma_bend_fields(s: Seq<u8>, at: int, b: BendPoint)
    requires
        forall|k: int| 0 <= k < BEND_RECORD_SIZE ==> s[at + k] == #[trigger] bend_bytes(b)[k],
    ensures
        u64_at(s, at) == b.x,
        u64_at(s, at + 8) == b.y,
{
    let r = bend_bytes(b);
    assert forall|k: int| 0 <= k < 8 implies s[at + k] == #[trigger] le64(b.x)[k] by {
        assert(r[k] == le64(b.x)[k]);
    }
    assert forall|k: int| 0 <= k < 8 implies s[at + 8 + k] == #[trigger] le64(b.y)[k] by {
        assert(r[8 + k] == le64(b.y)[k]);
    }
    lemma_u64_at(s, at, b.x);
    lemma_u64_at(s, at + 8, b.y);
}

/// The node records of a buffer.
pub open spec fn node_section(nodes: Seq<NodeRecord>) -> Seq<u8> {
    joined(nodes.map_values(|n: NodeRecord| node_bytes(n)))
}

/// The edge records of a buffer.
pub open spec fn edge_section(edges: Seq<EdgeRecord>) -> Seq<u8> {
    joined(edges.map_values(|e: EdgeRecord| edge_bytes(e)))
}

/// The bend point records of a buffer.
pub open spec fn bend_section(bends: Seq<BendPoint>) -> Seq<u8> {
    joined(bends.map_values(|b: BendPoint| bend_bytes(b)))
}

/// Sections are as long as their records together.
#[verifier::rlimit(40)]
pub proof fn lemma_section_lengths(
    nodes: Seq<NodeRecord>,
    edges: Seq<EdgeRecord>,
    bends: Seq<BendPoint>,
)
    ensures
        node_section(nodes).len() == NODE_RECORD_SIZE * nodes.len(),
        edge_section(edges).len() == EDGE_RECORD_SIZE * edges.len(),
        bend_section(bends).len() == BEND_RECORD_SIZE * bends.len(),
{
    lemma_joined_len(nodes.map_values(|n: NodeRecord| node_bytes(n)), 40);
    lemma_joined_len(edges.map_values(|e: EdgeRecord| edge_bytes(e)), 24);
    lemma_joined_len(bends.map_values(|b: BendPoint| bend_bytes(b)), 16);
}

/// The fields of node `i` of a node section that starts at `start`.
pub proof fn lemma_node_section(s: Seq<u8>, start: int, nodes: Seq<NodeRecord>, i: int)
    requires
        0 <= start,
        start + node_section(nodes).len() <= s.len(),
        s.subrange(start, start + node_section(nodes).len()) == node_section(nodes),
        0 <= i < nodes.len(),
    ensures
        u32_at(s, start + NODE_RECORD_SIZE * i) == nodes[i].id,
        u64_at(s, start + NODE_RECORD_SIZE * i + 8) == nodes[i].width,
        u64_at(s, start + NODE_RECORD_SIZE * i + 16) == nodes[i].height,
        u64_at(s, start + NODE_RECORD_SIZE * i + 24) == nodes[i].x,
        u64_at(s, start + NODE_RECORD_SIZE * i + 32) == nodes[i].y,
{
    let parts = nodes.map_values(|n: NodeRecord| node_bytes(n));
    let section = node_section(nodes);
    let at = start + 40 * i;
    assert forall|k: int| 0 <= k < NODE_RECORD_SIZE implies s[at + k] == #[trigger] node_bytes(
        nodes[i],
    )[k] by {
        lemma_joined(parts, 40, i, k);
        assert(s.subrange(start, start + section.len())[40 * i + k] == section[40 * i + k]);
    }
    lemma_node_fields(s, at, nodes[i]);
}

/// The fields of edge `i` of an edge section that starts at `start`.
pub proof fn lemma_edge_section(s: Seq<u8>, start: int, edges: Seq<EdgeRecord>, i: int)
    requires
        0 <= start,
        start + edge_section(edges).len() <= s.len(),
        s.subrange(start, start + edge_section(edges).len()) == edge_section(edges),
        0 <= i < edges.len(),
    ensures
        u32_at(s, start + EDGE_RECORD_SIZE * i) == edges[i].id,
        u32_at(s, start + EDGE_RECORD_SIZE * i + 4) == edges[i].source,
        u32_at(s, start + EDGE_RECORD_SIZE * i + 8) == edges[i].target,
        u32_at(s, start + EDGE_RECORD_SIZE * i + 12) == edges[i].bend_start,
        u32_at(s, start + EDGE_RECORD_SIZE * i + 16) == edges[i].bend_length,
{
    let parts = edges.map_values(|e: EdgeRecord| edge_bytes(e));
    let section = edge_section(edges);
    let at = start + 24 * i;
    assert forall|k: int| 0 <= k < EDGE_RECORD_SIZE implies s[at + k] == #[trigger] edge_bytes(
        edges[i],
    )[k] by {
        lemma_joined(parts, 24, i, k);
        assert(s.subrange(start, start + section.len())[24 * i + k] == section[24 * i + k]);
    }
    lemma_edge_fields(s, at, edges[i]);
}

/// The fields of bend `i` of a bend section that starts at `start`.
pub proof fn lemma_bend_section(s: Seq<u8>, start: int, bends: Seq<BendPoint>, i: int)
    requires
        0 <= start,
        start + bend_section(bends).len() <= s.len(),
        s.subrange(start, start + bend_section(bends).len()) == bend_section(bends),
        0 <= i < bends.len(),
    ensures
        u64_at(s, start + BEND_RECORD_SIZE * i) == bends[i].x,
        u64_at(s, start + BEND_RECORD_SIZE * i + 8) == bends[i].y,
{
    let parts = bends.map_values(|b: BendPoint| bend_bytes(b));
    let section = bend_section(bends);
    let at = start + 16 * i;
    assert forall|k: int| 0 <= k < BEND_RECORD_SIZE implies s[at + k] == #[trigger] bend_bytes(
        bends[i],
    )[k] by {
        lemma_joined(parts, 16, i, k);
        assert(s.subrange(start, start + section.len())[16 * i + k] == section[16 * i + k]);
    }
    lemma_bend_fields(s, at, bends[i]);
}

/// Reads the 32-bit number at byte `at`.
pub fn read_u32(buf: &[u8], at: usize) -> (v: u32)
    requires
        at + 4 <= buf@.len(),
    ensures
        v == u32_at(buf@, at as int),
{
    buf[at] as u32 + 256 * (buf[at + 1] as u32) + 65536 * (buf[at + 2] as u32) + 16777216 * (
    buf[at + 3] as u32)
}

/// Reads the 64-bit number at byte `at`.
pub fn read_u64(buf: &[u8], at: usize) -> (v: u64)
    requires
        at + 8 <= buf@.len(),
    ensures
        v == u64_at(buf@, at as int),
{
    let low: u32 = read_u32(buf, at);
    assert(buf@.len() == buf.len());
    let high: u32 = read_u32(buf, at + 4);
    low as u64 + 0x1_0000_0000 * (high as u64)
}

/// Appends a 32-bit number.
pub fn write_u32(buf: &mut Vec<u8>, v: u32)
    ensures
        final(buf)@ == old(buf)@ + le32(v),
{
    buf.push((v % 256) as u8);
    buf.push(((v / 256) % 256) as u8);
    buf.push(((v / 65536) % 256) as u8);
    buf.push((v / 16777216) as u8);
    assert(buf@ =~= old(buf)@ + le32(v));
}

/// Appends a 64-bit number.
pub fn write_u64(buf: &mut Vec<u8>, v: u64)
    ensures
        final(buf)@ == old(buf)@ + le64(v),
{
    write_u32(buf, (v % 0x1_0000_0000) as u32);
    write_u32(buf, (v / 0x1_0000_0000) as u32);
    assert(buf@ =~= old(buf)@ + le64(v));
}

/// Appends a header.
pub fn write_header(buf: &mut Vec<u8>, h: &Header)
    ensures
        final(buf)@ == old(buf)@ + header_bytes(*h),
{
    buf.push(0x4C);
    buf.push(0x52);
    buf.push(0x44);
    buf.push(0x31);
    assert(buf@ =~= old(buf)@ + magic());
    write_u32(buf, VERSION);
    write_u32(buf, h.flags);
    write_u32(buf, h.node_count);
    write_u32(buf, h.edge_count);
    write_u32(buf, h.bend_count);
    write_u64(buf, h.width);
    write_u64(buf, h.height);
    assert(buf@ =~= old(buf)@ + header_bytes(*h));
}

/// Appends a node record.
pub fn write_node(buf: &mut Vec<u8>, n: &NodeRecord)
    ensures
        final(buf)@ == old(buf)@ + node_bytes(*n),
{
    write_u32(buf, n.id);
    write_u32(buf, 0);
    write_u64(buf, n.width);
    write_u64(buf, n.height);
    write_u64(buf, n.x);
    write_u64(buf, n.y);
    assert(buf@ =~= old(buf)@ + node_bytes(*n));
}

/// Appends an edge record.
pub fn write_edge(buf: &mut Vec<u8>, e: &EdgeRecord)
    ensures
        final(buf)@ == old(buf)@ + edge_bytes(*e),
{
    write_u32(buf, e.id);
    write_u32(buf, e.source);
    write_u32(buf, e.target);
    write_u32(buf, e.bend_start);
    write_u32(buf, e.bend_length);
    write_u32(buf, 0);
    assert(buf@ =~= old(buf)@ + edge_bytes(*e));
}

/// Appends a bend point record.
pub fn write_bend(buf: &mut Vec<u8>, b: &BendPoint)
    ensures
        final(buf)@ == old(buf)@ + bend_bytes(*b),
{
    write_u64(buf, b.x);
    write_u64(buf, b.y);
    assert(buf@ =~= old(buf)@ + bend_bytes(*b));
}

} // verus!
