//! Raw LRD1 buffers: what is read, and what is turned down.
use py_layerd::decode::decode;
use py_layerd::error::{FfiError, RecordKind};
use py_layerd::graph::{EdgeSpec, GraphOp, NodeSpec, PortSide};
use py_layerd::layout::{
    layout_bytes_begin, layout_bytes_end, layout_flat_begin, EngineReport, NodePlacement,
    Placement, Step,
};
use py_layerd::request::build_lrd1;
use py_layerd::wire::{
    read_u32, read_u64, BendPoint, BEND_RECORD_SIZE, EDGE_RECORD_SIZE, FLAG_IS_OUTPUT,
    HEADER_SIZE, MAX_BEND_COUNT, MAX_EDGE_COUNT, MAX_NODE_COUNT, NODE_RECORD_SIZE, VERSION,
};

const FIXTURE_NODES: &[(u32, f64, f64)] =
    &[(0, 30.0, 30.0), (1, 30.0, 30.0), (2, 50.0, 20.0), (3, 10.0, 10.0)];

const FIXTURE_EDGES: &[(u32, u32, u32)] = &[(0, 0, 1), (1, 1, 2), (2, 0, 3)];

fn make_header_only(node_count: u32, edge_count: u32) -> Vec<u8> {
    let mut buf = vec![0u8; HEADER_SIZE];
    buf[0..4].copy_from_slice(b"LRD1");
    buf[4..8].copy_from_slice(&VERSION.to_le_bytes());
    buf[12..16].copy_from_slice(&node_count.to_le_bytes());
    buf[16..20].copy_from_slice(&edge_count.to_le_bytes());
    buf
}

fn put_node(buf: &mut [u8], at: usize, id: u32, width: f64, height: f64) {
    buf[at..at + 4].copy_from_slice(&id.to_le_bytes());
    buf[at + 8..at + 16].copy_from_slice(&width.to_le_bytes());
    buf[at + 16..at + 24].copy_from_slice(&height.to_le_bytes());
}

fn put_edge(buf: &mut [u8], at: usize, id: u32, source: u32, target: u32) {
    buf[at..at + 4].copy_from_slice(&id.to_le_bytes());
    buf[at + 4..at + 8].copy_from_slice(&source.to_le_bytes());
    buf[at + 8..at + 12].copy_from_slice(&target.to_le_bytes());
}

fn encode_canonical_fixture() -> Vec<u8> {
    let n = FIXTURE_NODES.len();
    let e = FIXTURE_EDGES.len();
    let mut buf = vec![0u8; 40 + n * 40 + e * 24];
    buf[0..4].copy_from_slice(b"LRD1");
    buf[4..8].copy_from_slice(&VERSION.to_le_bytes());
    buf[12..16].copy_from_slice(&(n as u32).to_le_bytes());
    buf[16..20].copy_from_slice(&(e as u32).to_le_bytes());
    for (i, &(id, w, h)) in FIXTURE_NODES.iter().enumerate() {
        put_node(&mut buf, 40 + i * 40, id, w, h);
    }
    for (i, &(id, src, tgt)) in FIXTURE_EDGES.iter().enumerate() {
        put_edge(&mut buf, 40 + n * 40 + i * 24, id, src, tgt);
    }
    buf
}

fn fault_of(input: &[u8]) -> FfiError {
    let flat = layout_flat_begin(input).unwrap_err();
    let bytes = layout_bytes_begin(input).unwrap_err();
    assert_eq!(flat, bytes);
    assert_eq!(decode(input).unwrap_err(), bytes);
    bytes
}

/// A made-up placement of the fixture: one edge bends twice, one is lost.
fn fixture_placement() -> Placement {
    Placement {
        width: 200f64.to_bits(),
        height: 100f64.to_bits(),
        nodes: vec![
            Some(NodePlacement {
                x: 12f64.to_bits(),
                y: 14f64.to_bits(),
                width: 31f64.to_bits(),
                height: 32f64.to_bits(),
            }),
            None,
            Some(NodePlacement {
                x: 5.5f64.to_bits(),
                y: (-1f64).to_bits(),
                width: 50f64.to_bits(),
                height: 20f64.to_bits(),
            }),
            Some(NodePlacement { x: 0, y: 0, width: 10f64.to_bits(), height: 10f64.to_bits() }),
        ],
        edges: vec![
            Some(vec![
                BendPoint { x: 1f64.to_bits(), y: 2f64.to_bits() },
                BendPoint { x: 3f64.to_bits(), y: 4f64.to_bits() },
            ]),
            None,
            Some(vec![BendPoint { x: 5f64.to_bits(), y: 6f64.to_bits() }]),
        ],
    }
}

#[test]
fn wire_constants_v1() {
    assert_eq!(VERSION, 1);
    assert_eq!(HEADER_SIZE, 40);
    assert_eq!(NODE_RECORD_SIZE, 40);
    assert_eq!(EDGE_RECORD_SIZE, 24);
    assert_eq!(BEND_RECORD_SIZE, 16);
    assert_eq!(MAX_NODE_COUNT, 1_000_000);
    assert_eq!(MAX_EDGE_COUNT, 2_000_000);
    assert_eq!(MAX_BEND_COUNT, 10_000_000);
    assert_eq!(FLAG_IS_OUTPUT, 1);
    let buf = build_lrd1(&[], &[]).unwrap();
    assert_eq!(&buf[0..4], b"LRD1");
}

#[test]
fn empty_graph_roundtrip() {
    let input = make_header_only(0, 0);
    let output = match layout_bytes_begin(&input) {
        Ok(Step::Done(output)) => output,
        other => panic!("an empty graph needs no engine: {other:?}"),
    };
    assert_eq!(output.len(), HEADER_SIZE);
    assert_eq!(&output[0..4], b"LRD1");
    assert_eq!(u32::from_le_bytes([output[8], output[9], output[10], output[11]]), 1);
    assert_eq!(u32::from_le_bytes([output[12], output[13], output[14], output[15]]), 0);
    assert_eq!(u32::from_le_bytes([output[16], output[17], output[18], output[19]]), 0);
    assert_eq!(u32::from_le_bytes([output[20], output[21], output[22], output[23]]), 0);
    match layout_flat_begin(&input) {
        Ok(Step::Done(flat)) => {
            assert_eq!((flat.width, flat.height), (0, 0));
            assert!(flat.node_wire_ids.is_empty() && flat.edge_wire_ids.is_empty());
            assert!(flat.bend_x.is_empty() && flat.bend_y.is_empty());
        }
        other => panic!("an empty graph needs no engine: {other:?}"),
    }
}

#[test]
fn buffer_too_short_for_header() {
    let input = vec![0u8; 16];
    match fault_of(&input) {
        FfiError::BufferTooShort { expected, actual: 16 } if expected == HEADER_SIZE => {}
        other => panic!("expected BufferTooShort, got {other:?}"),
    }
}

#[test]
fn invalid_magic_rejected() {
    let mut input = make_header_only(0, 0);
    input[0..4].copy_from_slice(b"XXXX");
    assert_eq!(fault_of(&input), FfiError::InvalidMagic);
    for at in 0..4 {
        let mut input = make_header_only(0, 0);
        input[at] ^= 1;
        assert_eq!(fault_of(&input), FfiError::InvalidMagic);
    }
}

#[test]
fn unsupported_version_rejected() {
    let mut input = make_header_only(0, 0);
    input[4..8].copy_from_slice(&99u32.to_le_bytes());
    assert_eq!(fault_of(&input), FfiError::UnsupportedVersion(99));
}

#[test]
fn rejects_unknown_version_input() {
    let mut buf = vec![0u8; HEADER_SIZE];
    buf[0..4].copy_from_slice(b"LRD1");
    buf[4..8].copy_from_slice(&99u32.to_le_bytes());
    assert!(matches!(fault_of(&buf), FfiError::UnsupportedVersion(99)));
}

#[test]
fn too_many_nodes_rejected() {
    let input = make_header_only(MAX_NODE_COUNT + 1, 0);
    assert_eq!(
        fault_of(&input),
        FfiError::TooLarge { kind: RecordKind::Node, count: MAX_NODE_COUNT + 1 }
    );
}

#[test]
fn too_many_edges_or_bends_rejected() {
    let input = make_header_only(0, MAX_EDGE_COUNT + 1);
    assert_eq!(
        fault_of(&input),
        FfiError::TooLarge { kind: RecordKind::Edge, count: MAX_EDGE_COUNT + 1 }
    );
    let mut input = make_header_only(0, 0);
    input[20..24].copy_from_slice(&(MAX_BEND_COUNT + 1).to_le_bytes());
    assert_eq!(
        fault_of(&input),
        FfiError::TooLarge { kind: RecordKind::Bend, count: MAX_BEND_COUNT + 1 }
    );
    input[20..24].copy_from_slice(&MAX_BEND_COUNT.to_le_bytes());
    assert!(decode(&input).is_ok());
}

#[test]
fn buffer_too_short_for_declared_nodes() {
    let input = make_header_only(2, 0);
    match fault_of(&input) {
        FfiError::BufferTooShort { expected, actual } => {
            assert_eq!(expected, HEADER_SIZE + 2 * NODE_RECORD_SIZE);
            assert_eq!(actual, HEADER_SIZE);
        }
        other => panic!("expected BufferTooShort, got {other:?}"),
    }
}

#[test]
fn duplicate_node_id_rejected() {
    let mut input = make_header_only(2, 0);
    input.resize(HEADER_SIZE + 2 * NODE_RECORD_SIZE, 0);
    put_node(&mut input, HEADER_SIZE, 7, 10.0, 10.0);
    put_node(&mut input, HEADER_SIZE + NODE_RECORD_SIZE, 7, 10.0, 10.0);
    assert_eq!(fault_of(&input), FfiError::DuplicateId { kind: RecordKind::Node, id: 7 });
}

#[test]
fn duplicate_edge_id_rejected() {
    let mut input = make_header_only(1, 2);
    input.resize(HEADER_SIZE + NODE_RECORD_SIZE + 2 * EDGE_RECORD_SIZE, 0);
    put_node(&mut input, HEADER_SIZE, 1, 10.0, 10.0);
    put_edge(&mut input, HEADER_SIZE + NODE_RECORD_SIZE, 5, 1, 1);
    put_edge(&mut input, HEADER_SIZE + NODE_RECORD_SIZE + EDGE_RECORD_SIZE, 5, 1, 9);
    assert_eq!(fault_of(&input), FfiError::DuplicateId { kind: RecordKind::Edge, id: 5 });
}

#[test]
fn edge_references_unknown_node_rejected() {
    let mut input = make_header_only(1, 1);
    input.resize(HEADER_SIZE + NODE_RECORD_SIZE + EDGE_RECORD_SIZE, 0);
    put_node(&mut input, HEADER_SIZE, 10, 20.0, 20.0);
    put_edge(&mut input, HEADER_SIZE + NODE_RECORD_SIZE, 100, 10, 999);
    assert_eq!(
        fault_of(&input),
        FfiError::InvalidNodeReference { edge_id: 100, node_id: 999 }
    );
}

#[test]
fn rejects_non_finite_width() {
    let mut input = encode_canonical_fixture();
    input[48..56].copy_from_slice(&f64::NAN.to_le_bytes());
    assert!(matches!(fault_of(&input), FfiError::InvalidGeometry { node_id: 0 }));
}

#[test]
fn rejects_non_finite_height_or_place() {
    for at in [16usize, 24, 32] {
        for bad in [f64::NAN, f64::INFINITY, f64::NEG_INFINITY] {
            let mut input = encode_canonical_fixture();
            let field = HEADER_SIZE + 2 * NODE_RECORD_SIZE + at;
            input[field..field + 8].copy_from_slice(&bad.to_le_bytes());
            assert_eq!(fault_of(&input), FfiError::InvalidGeometry { node_id: 2 });
        }
    }
}

#[test]
fn sizes_on_the_wire_may_be_zero_or_negative() {
    let mut input = make_header_only(1, 0);
    input.resize(HEADER_SIZE + NODE_RECORD_SIZE, 0);
    put_node(&mut input, HEADER_SIZE, 1, -1.0, 0.0);
    let ctx = decode(&input).unwrap();
    assert_eq!(ctx.nodes()[0], NodeSpec::new(1, (-1f64).to_bits(), 0));
}

#[test]
fn canonical_fixture_byte_identical() {
    let nodes: Vec<NodeSpec> = FIXTURE_NODES
        .iter()
        .map(|&(id, w, h)| NodeSpec::new(id, w.to_bits(), h.to_bits()))
        .collect();
    let edges: Vec<EdgeSpec> =
        FIXTURE_EDGES.iter().map(|&(id, s, t)| EdgeSpec::new(id, s, t)).collect();
    assert_eq!(build_lrd1(&nodes, &edges).unwrap(), encode_canonical_fixture());
}

#[test]
fn canonical_fixture_decodes_into_steps() {
    let ctx = decode(&encode_canonical_fixture()).unwrap();
    let ops = ctx.ops();
    assert_eq!(ops.len(), 3 * 4 + 3);
    for (i, &(_, w, h)) in FIXTURE_NODES.iter().enumerate() {
        assert_eq!(ops[3 * i], GraphOp::AddNode { width: w.to_bits(), height: h.to_bits() });
        assert_eq!(ops[3 * i + 1], GraphOp::AddPort { node: i, side: PortSide::West });
        assert_eq!(ops[3 * i + 2], GraphOp::AddPort { node: i, side: PortSide::East });
    }
    assert_eq!(ops[12], GraphOp::AddEdge { source: 1, target: 2 });
    assert_eq!(ops[13], GraphOp::AddEdge { source: 3, target: 4 });
    assert_eq!(ops[14], GraphOp::AddEdge { source: 1, target: 6 });
    assert!(ctx.options().is_none());
}

#[test]
fn canonical_fixture_layouts_successfully() {
    let input = encode_canonical_fixture();
    let ctx = match layout_bytes_begin(&input) {
        Ok(Step::Run(ctx)) => ctx,
        other => panic!("expected a run of the engine, got {other:?}"),
    };
    let output = layout_bytes_end(&ctx, &EngineReport::Finished(fixture_placement())).unwrap();
    assert_eq!(output.len(), 40 + 4 * 40 + 3 * 24 + 3 * 16);
    assert_eq!(&output[0..4], b"LRD1");
    assert_eq!(read_u32(&output, 4), VERSION);
    assert_eq!(read_u32(&output, 8) & 1, 1);
    assert_eq!(read_u32(&output, 12) as usize, FIXTURE_NODES.len());
    assert_eq!(read_u32(&output, 16), 3);
    assert_eq!(read_u32(&output, 20), 3);
    assert_eq!(f64::from_bits(read_u64(&output, 24)), 200.0);
    assert_eq!(f64::from_bits(read_u64(&output, 32)), 100.0);
    let number = |at: usize| f64::from_le_bytes(output[at..at + 8].try_into().unwrap());
    assert_eq!(number(40 + 8), 31.0);
    assert_eq!(number(40 + 16), 32.0);
    assert_eq!(number(40 + 24), 12.0);
    assert_eq!(number(40 + 32), 14.0);
    assert_eq!(number(80 + 8), 30.0);
    assert_eq!(number(80 + 24), 0.0);
    assert_eq!(number(120 + 32), -1.0);
    let edges = 40 + 4 * 40;
    assert_eq!(read_u32(&output, edges + 12), 0);
    assert_eq!(read_u32(&output, edges + 16), 2);
    assert_eq!(read_u32(&output, edges + 24 + 12), 2);
    assert_eq!(read_u32(&output, edges + 24 + 16), 0);
    assert_eq!(read_u32(&output, edges + 48 + 12), 2);
    assert_eq!(read_u32(&output, edges + 48 + 16), 1);
    let bends = edges + 3 * 24;
    for b in 0..6 {
        assert_eq!(number(bends + 8 * b), (b + 1) as f64);
    }
}

#[test]
fn output_reads_back_as_a_request() {
    let input = encode_canonical_fixture();
    let ctx = decode(&input).unwrap();
    let output = layout_bytes_end(&ctx, &EngineReport::Finished(fixture_placement())).unwrap();
    let again = decode(&output).unwrap();
    assert_eq!(again.edges(), ctx.edges());
    assert_eq!(again.nodes()[0], NodeSpec::new(0, 31f64.to_bits(), 32f64.to_bits()));
    assert_eq!(again.nodes()[1], ctx.nodes()[1]);
}

#[test]
fn trailing_bytes_are_ignored() {
    let input = encode_canonical_fixture();
    let ctx = decode(&input).unwrap();
    let mut longer = input.clone();
    longer.extend_from_slice(&[1, 2, 3]);
    let same = decode(&longer).unwrap();
    assert_eq!(same.nodes(), ctx.nodes());
    assert_eq!(same.edges(), ctx.edges());
    assert!(matches!(
        decode(&input[..input.len() - 1]),
        Err(FfiError::BufferTooShort { expected: 272, actual: 271 })
    ));
}

#[test]
fn numbers_are_little_endian() {
    let buf = [0x78u8, 0x56, 0x34, 0x12, 0xF0, 0xDE, 0xBC, 0x9A];
    assert_eq!(read_u32(&buf, 0), 0x1234_5678);
    assert_eq!(read_u64(&buf, 0), 0x9ABC_DEF0_1234_5678);
}
