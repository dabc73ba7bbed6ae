//! The layout calls from request to result.
use py_layerd::error::{FfiError, LayoutError, RecordKind, RequestError};
use py_layerd::graph::{EdgeSpec, GraphFault, NodeSpec};
use py_layerd::layout::{
    flatten_layout, EngineReport, FlatLayoutOutput, NodePlacement, NodePosition, Placement, Step,
};
use py_layerd::layout_ext::{
    collect_layout, layout_bytes_py_begin, layout_bytes_py_end, layout_flat_py_begin, layout_flat_py_end,
    layout_force_py_begin, layout_force_py_end, layout_with_options_py_begin,
    layout_with_options_py_end, LayoutResult,
};
use py_layerd::options::PyLayoutOptions;
use py_layerd::request::{build_graph, build_lrd1, check_request};
use py_layerd::wire::{BendPoint, MAX_BEND_COUNT, MAX_EDGE_COUNT, MAX_NODE_COUNT};

fn node(id: u32, width: f64, height: f64) -> NodeSpec {
    NodeSpec::new(id, width.to_bits(), height.to_bits())
}

fn chain() -> (Vec<NodeSpec>, Vec<EdgeSpec>) {
    (
        vec![node(10, 100.0, 40.0), node(20, 100.0, 40.0)],
        vec![EdgeSpec::new(1, 10, 20), EdgeSpec::new(2, 20, 20)],
    )
}

fn options() -> PyLayoutOptions {
    PyLayoutOptions::new(
        "RIGHT",
        "network_simplex",
        "brandes_koepf",
        "orthogonal",
        "greedy",
        20f64.to_bits(),
        20f64.to_bits(),
        10f64.to_bits(),
        10f64.to_bits(),
        12f64.to_bits(),
        7,
        1,
    )
    .unwrap()
}

fn placement() -> Placement {
    Placement {
        width: 264f64.to_bits(),
        height: 64f64.to_bits(),
        nodes: vec![
            Some(NodePlacement {
                x: 12f64.to_bits(),
                y: 12f64.to_bits(),
                width: 100f64.to_bits(),
                height: 40f64.to_bits(),
            }),
            None,
        ],
        edges: vec![
            None,
            Some(vec![
                BendPoint { x: 1f64.to_bits(), y: 2f64.to_bits() },
                BendPoint { x: 3f64.to_bits(), y: 4f64.to_bits() },
            ]),
        ],
    }
}

fn numbers(bits: &[u64]) -> Vec<f64> {
    bits.iter().map(|&b| f64::from_bits(b)).collect()
}

fn assert_copy<T: Copy>() {}

#[test]
fn copy_candidates_are_copy() {
    assert_copy::<FfiError>();
}

#[test]
fn specs_keep_their_fields() {
    let n = NodeSpec::new(3, 4, 5);
    assert_eq!((n.id, n.width, n.height), (3, 4, 5));
    let e = EdgeSpec::new(6, 7, 8);
    assert_eq!((e.id, e.source, e.target), (6, 7, 8));
}

#[test]
fn flat_layout_of_a_chain() {
    let (nodes, edges) = chain();
    let ctx = match layout_flat_py_begin(&nodes, &edges) {
        Ok(Step::Run(ctx)) => ctx,
        other => panic!("expected a run of the engine, got {other:?}"),
    };
    assert_eq!(ctx.nodes(), &nodes);
    assert_eq!(ctx.edges(), &edges);
    let res = layout_flat_py_end(&ctx, &EngineReport::Finished(placement())).unwrap();
    assert_eq!(f64::from_bits(res.width), 264.0);
    assert_eq!(f64::from_bits(res.height), 64.0);
    assert_eq!(res.node_ids, vec![10, 20]);
    assert_eq!(numbers(&res.node_x), vec![12.0, 0.0]);
    assert_eq!(numbers(&res.node_y), vec![12.0, 0.0]);
    assert_eq!(numbers(&res.node_width), vec![100.0, 100.0]);
    assert_eq!(numbers(&res.node_height), vec![40.0, 40.0]);
    assert_eq!(res.edge_ids, vec![1, 2]);
    assert_eq!(res.edge_source, vec![10, 20]);
    assert_eq!(res.edge_target, vec![20, 20]);
    assert_eq!(res.edge_bend_start, vec![0, 0]);
    assert_eq!(res.edge_bend_length, vec![0, 2]);
    assert_eq!(numbers(&res.bend_x), vec![1.0, 3.0]);
    assert_eq!(numbers(&res.bend_y), vec![2.0, 4.0]);
}

#[test]
fn a_lost_node_loses_its_size_under_options() {
    let (nodes, edges) = chain();
    let ctx = match layout_with_options_py_begin(&nodes, &edges, Some(options())) {
        Ok(Step::Run(ctx)) => ctx,
        other => panic!("expected a run of the engine, got {other:?}"),
    };
    assert_eq!(ctx.options(), Some(options()));
    let res = layout_with_options_py_end(&ctx, &EngineReport::Finished(placement())).unwrap();
    assert_eq!(numbers(&res.node_width), vec![100.0, 0.0]);
    assert_eq!(numbers(&res.node_height), vec![40.0, 0.0]);
    assert_eq!(res.edge_bend_start, vec![0, 0]);
    assert_eq!(res.edge_bend_length, vec![0, 2]);
    assert_eq!(numbers(&res.bend_y), vec![2.0, 4.0]);
}

#[test]
fn without_options_the_flat_layout_is_made() {
    let (nodes, edges) = chain();
    let ctx = match layout_with_options_py_begin(&nodes, &edges, None) {
        Ok(Step::Run(ctx)) => ctx,
        other => panic!("expected a run of the engine, got {other:?}"),
    };
    assert!(ctx.options().is_none());
    let res = layout_with_options_py_end(&ctx, &EngineReport::Finished(placement())).unwrap();
    assert_eq!(numbers(&res.node_width), vec![100.0, 100.0]);
}

#[test]
fn with_every_node_placed_both_ways_agree() {
    let (nodes, edges) = chain();
    let mut placed = placement();
    placed.nodes[1] = Some(NodePlacement { x: 1, y: 2, width: 3, height: 4 });
    let report = EngineReport::Finished(placed);
    let plain = build_graph(&nodes, &edges, None).unwrap();
    let tuned = build_graph(&nodes, &edges, Some(options())).unwrap();
    let a = layout_with_options_py_end(&plain, &report).unwrap();
    let b = layout_with_options_py_end(&tuned, &report).unwrap();
    assert_eq!(format!("{a:?}"), format!("{b:?}"));
}

#[test]
fn a_panic_of_the_engine_is_reported() {
    let (nodes, edges) = chain();
    let panicked = LayoutError::Wire(FfiError::LayoutPanic);
    let ctx = build_graph(&nodes, &edges, None).unwrap();
    assert_eq!(layout_flat_py_end(&ctx, &EngineReport::Panicked).unwrap_err(), panicked);
    assert_eq!(layout_bytes_py_end(&ctx, &EngineReport::Panicked).unwrap_err(), panicked);
    let ctx = build_graph(&nodes, &edges, Some(options())).unwrap();
    assert_eq!(layout_with_options_py_end(&ctx, &EngineReport::Panicked).unwrap_err(), panicked);
}

#[test]
fn too_many_bends_are_an_error_only_without_options() {
    let nodes = vec![node(1, 1.0, 1.0)];
    let edges = vec![EdgeSpec::new(1, 1, 1)];
    let bend = BendPoint { x: 0, y: 0 };
    let report = EngineReport::Finished(Placement {
        width: 0,
        height: 0,
        nodes: vec![None],
        edges: vec![Some(vec![bend; MAX_BEND_COUNT as usize + 1])],
    });
    let too_large =
        LayoutError::Wire(FfiError::TooLarge { kind: RecordKind::Bend, count: MAX_BEND_COUNT });
    let plain = build_graph(&nodes, &edges, None).unwrap();
    assert_eq!(layout_flat_py_end(&plain, &report).unwrap_err(), too_large);
    assert_eq!(layout_bytes_py_end(&plain, &report).unwrap_err(), too_large);
    let tuned = build_graph(&nodes, &edges, Some(options())).unwrap();
    let res = layout_with_options_py_end(&tuned, &report).unwrap();
    assert_eq!(res.edge_bend_length, vec![MAX_BEND_COUNT + 1]);
    assert_eq!(res.bend_x.len(), MAX_BEND_COUNT as usize + 1);
}

#[test]
fn as_many_bends_as_allowed_are_kept() {
    let nodes = vec![node(1, 1.0, 1.0)];
    let edges = vec![EdgeSpec::new(1, 1, 1)];
    let bend = BendPoint { x: 7, y: 8 };
    let placed = Placement {
        width: 0,
        height: 0,
        nodes: vec![None],
        edges: vec![Some(vec![bend; MAX_BEND_COUNT as usize])],
    };
    let ctx = build_graph(&nodes, &edges, None).unwrap();
    let out: FlatLayoutOutput = flatten_layout(&ctx, &placed).unwrap();
    assert_eq!(out.edge_bend_length, vec![MAX_BEND_COUNT]);
    let res = LayoutResult::from_flat(out);
    assert_eq!(res.bend_y[MAX_BEND_COUNT as usize - 1], 8);
}

#[test]
fn an_empty_request_is_done_at_once() {
    let empty = |res: &LayoutResult| {
        res.width == 0
            && res.height == 0
            && res.node_ids.is_empty()
            && res.node_x.is_empty()
            && res.edge_ids.is_empty()
            && res.edge_bend_start.is_empty()
            && res.bend_x.is_empty()
    };
    match layout_flat_py_begin(&[], &[]) {
        Ok(Step::Done(res)) => assert!(empty(&res)),
        other => panic!("nothing to run, got {other:?}"),
    }
    match layout_with_options_py_begin(&[], &[], Some(options())) {
        Ok(Step::Done(res)) => assert!(empty(&res)),
        other => panic!("nothing to run, got {other:?}"),
    }
    match layout_bytes_py_begin(&[], &[]) {
        Ok(Step::Done(buf)) => assert_eq!(buf.len(), 40),
        other => panic!("nothing to run, got {other:?}"),
    }
    let ctx = layout_force_py_begin(&[], &[]).unwrap();
    let res = layout_force_py_end(&ctx, 12f64.to_bits(), 12f64.to_bits(), &Vec::new());
    assert!(empty(&res));
}

#[test]
fn without_nodes_the_report_does_not_matter() {
    let sized = Placement { width: 5, height: 7, nodes: vec![], edges: vec![] };
    let tuned = build_graph(&[], &[], Some(options())).unwrap();
    let plain = build_graph(&[], &[], None).unwrap();
    let res = collect_layout(&tuned, &sized);
    assert_eq!((res.width, res.height), (0, 0));
    for report in [EngineReport::Finished(sized), EngineReport::Panicked] {
        let res = layout_with_options_py_end(&tuned, &report).unwrap();
        assert_eq!((res.width, res.height), (0, 0));
        assert!(res.node_ids.is_empty() && res.edge_ids.is_empty());
        let res = layout_with_options_py_end(&plain, &report).unwrap();
        assert_eq!((res.width, res.height), (0, 0));
        let res = layout_flat_py_end(&plain, &report).unwrap();
        assert_eq!((res.width, res.height), (0, 0));
        let buf = layout_bytes_py_end(&plain, &report).unwrap();
        assert_eq!(buf.len(), 40);
        assert!(buf[24..40].iter().all(|&b| b == 0));
    }
}

#[test]
fn force_layouts_have_straight_edges() {
    let (nodes, edges) = chain();
    let ctx = layout_force_py_begin(&nodes, &edges).unwrap();
    assert!(ctx.options().is_none());
    let positions = vec![NodePosition { x: 1, y: 2 }, NodePosition { x: 5, y: 6 }];
    let res = layout_force_py_end(&ctx, 90f64.to_bits(), 80f64.to_bits(), &positions);
    assert_eq!(f64::from_bits(res.width), 90.0);
    assert_eq!(f64::from_bits(res.height), 80.0);
    assert_eq!(res.node_ids, vec![10, 20]);
    assert_eq!(res.node_x, vec![1, 5]);
    assert_eq!(res.node_y, vec![2, 6]);
    assert_eq!(numbers(&res.node_width), vec![100.0, 100.0]);
    assert_eq!(numbers(&res.node_height), vec![40.0, 40.0]);
    assert_eq!(res.edge_ids, vec![1, 2]);
    assert_eq!(res.edge_source, vec![10, 20]);
    assert_eq!(res.edge_target, vec![20, 20]);
    assert_eq!(res.edge_bend_start, vec![0, 0]);
    assert_eq!(res.edge_bend_length, vec![0, 0]);
    assert!(res.bend_x.is_empty() && res.bend_y.is_empty());
}

#[test]
fn faults_are_found_in_order() {
    let bad = |nodes: &[NodeSpec], edges: &[EdgeSpec]| build_graph(nodes, edges, None).unwrap_err();
    let nan = node(1, f64::NAN, 1.0);
    let flat = node(2, 1.0, 0.0);
    assert_eq!(bad(&[nan, flat], &[]), RequestError::NonFiniteSize { id: 1 });
    assert_eq!(
        bad(&[flat, nan], &[]),
        RequestError::NonPositiveSize { id: 2, width: 1f64.to_bits(), height: 0f64.to_bits() }
    );
    assert_eq!(bad(&[node(3, 1.0, f64::INFINITY)], &[]), RequestError::NonFiniteSize { id: 3 });
    assert_eq!(
        bad(&[node(4, -1.0, f64::NEG_INFINITY)], &[]),
        RequestError::NonFiniteSize { id: 4 }
    );
    assert_eq!(
        bad(&[node(5, -0.0, 1.0)], &[]),
        RequestError::NonPositiveSize { id: 5, width: (-0f64).to_bits(), height: 1f64.to_bits() }
    );
    let twice = [node(6, 1.0, 1.0), node(6, 1.0, 1.0)];
    assert_eq!(
        bad(&twice, &[EdgeSpec::new(1, 9, 9)]),
        RequestError::Graph(GraphFault::DuplicateNode { id: 6 })
    );
    let one = [node(7, 1.0, 1.0)];
    assert_eq!(
        bad(&one, &[EdgeSpec::new(1, 8, 9)]),
        RequestError::Graph(GraphFault::UnknownNode { edge: 1, node: 8 })
    );
    assert_eq!(
        bad(&one, &[EdgeSpec::new(1, 7, 9)]),
        RequestError::Graph(GraphFault::UnknownNode { edge: 1, node: 9 })
    );
    assert_eq!(
        bad(&one, &[EdgeSpec::new(2, 7, 7), EdgeSpec::new(2, 8, 9)]),
        RequestError::Graph(GraphFault::DuplicateEdge { id: 2 })
    );
}

#[test]
fn the_smallest_positive_size_is_accepted() {
    assert!(check_request(&[NodeSpec::new(1, 1, 1)], &[]).is_ok());
    assert!(check_request(&[node(1, f64::MAX, f64::MIN_POSITIVE)], &[]).is_ok());
}

#[test]
fn counts_are_checked_first() {
    let many = vec![node(1, f64::NAN, 1.0); MAX_NODE_COUNT as usize + 1];
    let links = vec![EdgeSpec::new(1, 1, 1); MAX_EDGE_COUNT as usize + 1];
    assert_eq!(
        check_request(&many, &links).unwrap_err(),
        RequestError::TooManyNodes { count: MAX_NODE_COUNT as usize + 1 }
    );
    assert_eq!(
        build_lrd1(&many[..1], &links).unwrap_err(),
        RequestError::TooManyEdges { count: MAX_EDGE_COUNT as usize + 1 }
    );
}

#[test]
fn faults_read_alike_with_and_without_options() {
    let one = vec![node(7, 1.0, 1.0)];
    let cases: Vec<(Vec<NodeSpec>, Vec<EdgeSpec>, &str)> = vec![
        (vec![node(6, 1.0, 1.0), node(6, 1.0, 1.0)], vec![], "duplicate node id: 6"),
        (
            one.clone(),
            vec![EdgeSpec::new(2, 7, 7), EdgeSpec::new(2, 7, 7)],
            "duplicate edge id: 2",
        ),
        (one.clone(), vec![EdgeSpec::new(3, 7, 8)], "edge 3 references unknown node 8"),
        (vec![node(9, f64::NAN, 1.0)], vec![], "node 9 has non-finite width/height"),
        (vec![node(9, -1.0, 2.5)], vec![], "node 9 has non-positive size -1x2.5"),
    ];
    for (nodes, edges, text) in cases {
        let flat = layout_flat_py_begin(&nodes, &edges).unwrap_err();
        let bytes = layout_bytes_py_begin(&nodes, &edges).unwrap_err();
        let tuned = layout_with_options_py_begin(&nodes, &edges, Some(options())).unwrap_err();
        let force = layout_force_py_begin(&nodes, &edges).unwrap_err();
        assert_eq!(flat.message("-1", "2.5"), text);
        assert_eq!(bytes.message("-1", "2.5"), text);
        assert_eq!(tuned.message("-1", "2.5"), text);
        assert_eq!(force.message("-1", "2.5"), text);
    }
}

#[test]
fn every_error_has_its_words() {
    assert_eq!(
        RequestError::TooManyNodes { count: 1_000_001 }.message("", ""),
        "node count 1000001 exceeds MAX_NODE_COUNT 1000000"
    );
    assert_eq!(
        RequestError::TooManyEdges { count: 2_000_001 }.message("", ""),
        "edge count 2000001 exceeds MAX_EDGE_COUNT 2000000"
    );
    assert_eq!(FfiError::InvalidMagic.message(), "invalid magic bytes (expected LRD1)");
    assert_eq!(FfiError::UnsupportedVersion(0).message(), "unsupported wire version: 0");
    assert_eq!(
        FfiError::TooLarge { kind: RecordKind::Bend, count: 10_000_000 }.message(),
        "bend count 10000000 exceeds maximum"
    );
    assert_eq!(
        FfiError::BufferTooShort { expected: 120, actual: 40 }.message(),
        "buffer too short: expected 120 bytes, got 40"
    );
    assert_eq!(
        FfiError::InvalidNodeReference { edge_id: 100, node_id: 999 }.message(),
        "edge 100 references unknown node 999"
    );
    assert_eq!(
        FfiError::DuplicateId { kind: RecordKind::Edge, id: u32::MAX }.message(),
        "duplicate edge id: 4294967295"
    );
    assert_eq!(
        FfiError::InvalidGeometry { node_id: 5 }.message(),
        "node 5 has non-finite width, height, x, or y"
    );
    assert_eq!(FfiError::LayoutPanic.message(), "layerd pipeline panicked");
}
