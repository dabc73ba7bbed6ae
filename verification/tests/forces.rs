//! The exact parts of force-directed layout.
use py_layerd::force::{
    needs_scatter, next_seed, pulled_pairs, scatter_seeds, ForcePlan, ForceStep, FIRST_SEED,
};
use py_layerd::graph::{EdgeSpec, NodeSpec};
use py_layerd::layout::NodePosition;
use py_layerd::request::build_graph;

fn at(x: f64, y: f64) -> NodePosition {
    NodePosition { x: x.to_bits(), y: y.to_bits() }
}

#[test]
fn seeds_follow_one_another() {
    assert_eq!(FIRST_SEED, 0x9E3779B97F4A7C15);
    assert_eq!(next_seed(0), 1442695040888963407);
    assert_eq!(next_seed(1), 7806831264735756412);
    assert_eq!(
        next_seed(u64::MAX),
        0u64.wrapping_sub(6364136223846793005).wrapping_add(1442695040888963407)
    );
    let seeds = scatter_seeds(4);
    assert_eq!(seeds.len(), 4);
    assert_eq!(seeds[0], FIRST_SEED);
    for i in 1..4 {
        let expected =
            seeds[i - 1].wrapping_mul(6364136223846793005).wrapping_add(1442695040888963407);
        assert_eq!(seeds[i], expected);
    }
    assert!(scatter_seeds(0).is_empty());
}

#[test]
fn only_nodes_at_the_origin_are_scattered() {
    assert!(needs_scatter(&vec![]));
    assert!(needs_scatter(&vec![at(0.0, 0.0), at(-0.0, 0.0)]));
    assert!(!needs_scatter(&vec![at(0.0, 0.0), at(0.0, 1e-300)]));
    assert!(!needs_scatter(&vec![at(f64::NAN, 0.0)]));
}

#[test]
fn edges_pull_their_ends() {
    let one = 1f64.to_bits();
    let nodes = [NodeSpec::new(5, one, one), NodeSpec::new(3, one, one), NodeSpec::new(9, one, one)];
    let edges =
        [EdgeSpec::new(1, 9, 5), EdgeSpec::new(2, 3, 3), EdgeSpec::new(3, 5, 3)];
    let ctx = build_graph(&nodes, &edges, None).unwrap();
    assert_eq!(pulled_pairs(&ctx), vec![(2, 0), (1, 1), (0, 1)]);
}

fn all_steps(nodes: &[NodeSpec], edges: &[EdgeSpec], iters: usize) -> Vec<ForceStep> {
    let ctx = build_graph(nodes, edges, None).unwrap();
    let mut plan = ForcePlan::new(&ctx, iters);
    let mut steps = Vec::new();
    while let Some(step) = plan.next() {
        steps.push(step);
    }
    assert!(plan.next().is_none());
    steps
}

#[test]
fn a_plan_runs_through_every_sweep() {
    let one = 1f64.to_bits();
    let nodes = [NodeSpec::new(5, one, one), NodeSpec::new(3, one, one), NodeSpec::new(9, one, one)];
    let edges = [EdgeSpec::new(1, 9, 5), EdgeSpec::new(2, 3, 3)];
    let steps = all_steps(&nodes, &edges, 2);
    let sweep = |s: usize| {
        vec![
            ForceStep::Cool { sweep: s },
            ForceStep::Repel { i: 0, j: 1 },
            ForceStep::Repel { i: 0, j: 2 },
            ForceStep::Repel { i: 1, j: 2 },
            ForceStep::Attract { i: 2, j: 0 },
            ForceStep::Attract { i: 1, j: 1 },
            ForceStep::Move { i: 0 },
            ForceStep::Move { i: 1 },
            ForceStep::Move { i: 2 },
        ]
    };
    let mut expected = sweep(0);
    expected.extend(sweep(1));
    assert_eq!(steps, expected);
    assert!(all_steps(&nodes, &edges, 0).is_empty());
    assert!(all_steps(&[], &[], 5).is_empty());
}

#[test]
fn a_lone_node_only_moves() {
    let one = 1f64.to_bits();
    let steps = all_steps(&[NodeSpec::new(1, one, one)], &[], 1);
    assert_eq!(steps, vec![ForceStep::Cool { sweep: 0 }, ForceStep::Move { i: 0 }]);
    let steps = all_steps(&[NodeSpec::new(1, one, one)], &[EdgeSpec::new(1, 1, 1)], 1);
    assert_eq!(steps[1], ForceStep::Attract { i: 0, j: 0 });
}

#[test]
fn every_pair_repels_once_in_a_sweep() {
    let one = 1f64.to_bits();
    let nodes: Vec<NodeSpec> = (0..10).map(|id| NodeSpec::new(id, one, one)).collect();
    let steps = all_steps(&nodes, &[], 1);
    for i in 0..10 {
        for j in (i + 1)..10 {
            let hits = steps.iter().filter(|&&s| s == ForceStep::Repel { i, j }).count();
            assert_eq!(hits, 1);
        }
    }
    assert_eq!(steps.len(), 1 + 45 + 10);
}
