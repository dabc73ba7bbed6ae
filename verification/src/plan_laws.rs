//! What a force-directed plan does, step by step.
use vstd::prelude::*;

use crate::force::{
    all_at_origin, all_ends, attractions, following_seed, force_steps, joins, moves,
    repulsion_row, repulsions, seed_at, sweeps, ForceStep,
};
use crate::graph::{position, EdgeSpec, Request};
use crate::layout::NodePosition;

verus! {

/// The nodes and edges of a request are few enough to be counted by any machine,
/// and the two ends of every edge are among the nodes.
pub open spec fn plannable(req: Request) -> bool {
    &&& 0 < req.nodes.len() <= 1_000_000
    &&& forall|k: int|
        0 <= k < req.edges.len() ==> {
            &&& exists|i: int|
                0 <= i < req.nodes.len() && (#[trigger] req.nodes[i]).id == (
                #[trigger] req.edges[k]).source
            &&& exists|i: int|
                0 <= i < req.nodes.len() && (#[trigger] req.nodes[i]).id == req.edges[k].target
        }
}

/// How many pairs `n` nodes form.
pub open spec fn pair_count(n: int) -> int {
    n * (n - 1) / 2
}

/// How many steps a sweep has: one to cool down, one for each pair of nodes, one
/// for each edge, one for each node.
pub open spec fn sweep_length(req: Request) -> int {
    1 + pair_count(req.nodes.len() as int) + req.edges.len() + req.nodes.len()
}

/// The seeds start from a fixed number, and each follows from the one before it.
pub proof fn law_seeds(i: nat, seed: u64)
    ensures
        seed_at(0) == 0x9E37_79B9_7F4A_7C15,
        seed_at(i + 1) as int == (seed_at(i) * 6364136223846793005 + 1442695040888963407)
            % 0x1_0000_0000_0000_0000,
        following_seed(seed) as int == (seed * 6364136223846793005 + 1442695040888963407)
            % 0x1_0000_0000_0000_0000,
{
}

/// Nodes lie at the origin when each coordinate is a zero of either sign.
pub proof fn law_origin(positions: Seq<NodePosition>)
    ensures
        all_at_origin(positions) <==> forall|i: int|
            0 <= i < positions.len() ==> {
                &&& (#[trigger] positions[i]).x == 0 || positions[i].x == 0x8000_0000_0000_0000
                &&& positions[i].y == 0 || positions[i].y == 0x8000_0000_0000_0000
            },
{
    if all_at_origin(positions) {
        assert forall|i: int| 0 <= i < positions.len() implies {
            &&& (#[trigger] positions[i]).x == 0 || positions[i].x == 0x8000_0000_0000_0000
            &&& positions[i].y == 0 || positions[i].y == 0x8000_0000_0000_0000
        } by {}
    }
}

/// An edge pulls its own two ends, its source first.
pub proof fn law_edges_pull_their_ends(req: Request, k: int)
    requires
        plannable(req),
        0 <= k < req.edges.len(),
    ensures
        all_ends(req).len() == req.edges.len(),
        ({
            let (i, j) = all_ends(req)[k];
            &&& i < req.nodes.len() && req.nodes[i as int].id == req.edges[k].source
            &&& j < req.nodes.len() && req.nodes[j as int].id == req.edges[k].target
        }),
{
    let e = req.edges[k];
    let i = position(req.nodes, e.source);
    let j = position(req.nodes, e.target);
    assert(0 <= i < req.nodes.len() && req.nodes[i].id == e.source);
    assert(0 <= j < req.nodes.len() && req.nodes[j].id == e.target);
}

/// To join an edge is to stand at its source and at its target.
pub proof fn law_joins(pair: (usize, usize), req: Request, e: EdgeSpec)
    ensures
        joins(pair, req, e) <==> {
            &&& pair.0 < req.nodes.len() && req.nodes[pair.0 as int].id == e.source
            &&& pair.1 < req.nodes.len() && req.nodes[pair.1 as int].id == e.target
        },
{
}

/// Where the pair `i`, `j` stands among all pairs.
pub open spec fn pair_index(n: int, i: int, j: int) -> int {
    pair_count(n) - pair_count(n - i) + (j - i - 1)
}

/// Doubling a pair count gives a product.
proof fn lemma_pair_count(n: int)
    requires
        n >= 0,
    ensures
        2 * pair_count(n) == n * (n - 1),
        pair_count(n) >= 0,
        n == 0 ==> pair_count(n) == 0,
        n > 0 ==> pair_count(n) == pair_count(n - 1) + (n - 1),
    decreases n,
{
    if n > 0 {
        lemma_pair_count(n - 1);
        assert(n * (n - 1) == (n - 1) * (n - 2) + 2 * (n - 1)) by (nonlinear_arith);
    } else {
        assert(n * (n - 1) == 0) by (nonlinear_arith)
            requires
                n == 0,
        ;
    }
}

/// The repulsions from node `first` on, counted and in their order.
proof fn lemma_repulsion_order(first: int, n: int)
    requires
        0 <= first <= n <= usize::MAX,
    ensures
        repulsions(first, n).len() == pair_count(n - first),
        forall|i: int, j: int|
            first <= i < j < n ==> 0 <= pair_count(n - first) - pair_count(n - i) + (j - i - 1)
                < repulsions(first, n).len() && #[trigger] at_pair(repulsions(first, n), first, n, i, j)
                == (ForceStep::Repel { i: i as usize, j: j as usize }),
        forall|t: int|
            0 <= t < repulsions(first, n).len() ==> (#[trigger] repulsions(first, n)[t] matches
                ForceStep::Repel { i, j } && first <= i < j < n),
    decreases n - first,
{
    let all = repulsions(first, n);
    lemma_pair_count(n - first);
    if first < n {
        let row = repulsion_row(first, n);
        let rest = repulsions(first + 1, n);
        lemma_repulsion_order(first + 1, n);
        lemma_pair_count(n - first - 1);
        assert(all == row + rest);
        assert forall|i: int, j: int| first <= i < j < n implies 0 <= pair_count(n - first)
            - pair_count(n - i) + (j - i - 1) < all.len() && #[trigger] at_pair(
            all,
            first,
            n,
            i,
            j,
        ) == (ForceStep::Repel { i: i as usize, j: j as usize }) by {
            if i > first {
                assert(at_pair(rest, first + 1, n, i, j) == (ForceStep::Repel {
                    i: i as usize,
                    j: j as usize,
                }));
            }
        }
        assert forall|t: int| 0 <= t < all.len() implies (#[trigger] all[t] matches
            ForceStep::Repel { i, j } && first <= i < j < n) by {
            if t >= row.len() {
                assert(all[t] == rest[t - row.len()]);
            }
        }
    }
}

/// The step at which a pair of nodes repels, among those from `first` on.
spec fn at_pair(steps: Seq<ForceStep>, first: int, n: int, i: int, j: int) -> ForceStep {
    steps[pair_count(n - first) - pair_count(n - i) + (j - i - 1)]
}

/// One sweep.
spec fn one_sweep(s: int, n: int, pairs: Seq<(usize, usize)>) -> Seq<ForceStep> {
    seq![ForceStep::Cool { sweep: s as usize }] + (repulsions(0, n) + (attractions(pairs)
        + moves(n)))
}

/// Sweeps follow one another, each as long as the next.
proof fn lemma_sweep_order(
    first: int,
    iters: int,
    n: int,
    pairs: Seq<(usize, usize)>,
    length: int,
    s: int,
    o: int,
)
    requires
        0 <= first <= iters,
        0 <= n <= usize::MAX,
        length == 1 + pair_count(n) + pairs.len() + n,
    ensures
        sweeps(first, iters, n, pairs).len() == (iters - first) * length,
        first <= s < iters && 0 <= o < length ==> {
            &&& 0 <= (s - first) * length + o < sweeps(first, iters, n, pairs).len()
            &&& sweeps(first, iters, n, pairs)[(s - first) * length + o] == one_sweep(s, n, pairs)[o]
        },
    decreases iters - first,
{
    lemma_repulsion_order(0, n);
    let all = sweeps(first, iters, n, pairs);
    if first < iters {
        let head = one_sweep(first, n, pairs);
        let rest = sweeps(first + 1, iters, n, pairs);
        lemma_sweep_order(first + 1, iters, n, pairs, length, s, o);
        assert(head.len() == length);
        assert(all =~= head + rest);
        assert((iters - first) * length == (iters - first - 1) * length + length)
            by (nonlinear_arith);
        if s == first {
            assert((s - first) * length == 0) by (nonlinear_arith)
                requires
                    s == first,
            ;
            assert((iters - first - 1) * length >= 0) by (nonlinear_arith)
                requires
                    iters > first,
                    length > 0,
            ;
        } else {
            assert((s - first) * length == (s - first - 1) * length + length)
                by (nonlinear_arith);
        }
    } else {
        assert((iters - first) * length == 0) by (nonlinear_arith)
            requires
                first == iters,
        ;
    }
}

/// A plan runs through as many full sweeps as it was asked for, and no further.
pub proof fn law_plan_length(req: Request, iters: int)
    requires
        plannable(req),
        0 <= iters,
    ensures
        force_steps(req, iters).len() == iters * sweep_length(req),
{
    lemma_sweep_order(
        0,
        iters,
        req.nodes.len() as int,
        all_ends(req),
        sweep_length(req),
        0,
        0,
    );
}

/// Without nodes a plan has no steps.
pub proof fn law_no_nodes_no_steps(req: Request, iters: int)
    requires
        req.nodes.len() == 0,
    ensures
        force_steps(req, iters).len() == 0,
{
}

/// Every sweep cools down by its own number, then has pairs repel, then has edges
/// pull their ends together in the order of the request, then moves the nodes in
/// order.
pub proof fn law_plan_step(req: Request, iters: int, s: int, o: int)
    requires
        plannable(req),
        0 <= s < iters <= usize::MAX,
        0 <= o < sweep_length(req),
    ensures
        ({
            let n = req.nodes.len() as int;
            let m = req.edges.len() as int;
            let pairs = pair_count(n);
            let step = force_steps(req, iters)[s * sweep_length(req) + o];
            &&& 0 <= s * sweep_length(req) + o < force_steps(req, iters).len()
            &&& o == 0 ==> step == (ForceStep::Cool { sweep: s as usize })
            &&& 1 <= o < 1 + pairs ==> (step matches ForceStep::Repel { i, j } && i < j < n)
            &&& 1 + pairs <= o < 1 + pairs + m ==> (step matches ForceStep::Attract { i, j } && {
                let e = req.edges[o - 1 - pairs];
                &&& i < n && req.nodes[i as int].id == e.source
                &&& j < n && req.nodes[j as int].id == e.target
            })
            &&& 1 + pairs + m <= o ==> step == (ForceStep::Move {
                i: (o - 1 - pairs - m) as usize,
            })
        }),
{
    let n = req.nodes.len() as int;
    let m = req.edges.len() as int;
    let ends = all_ends(req);
    lemma_sweep_order(0, iters, n, ends, sweep_length(req), s, o);
    lemma_repulsion_order(0, n);
    lemma_pair_count(n);
    let step = one_sweep(s, n, ends)[o];
    if 1 <= o < 1 + pair_count(n) {
        assert(step == repulsions(0, n)[o - 1]);
    } else if 1 + pair_count(n) <= o < 1 + pair_count(n) + m {
        law_edges_pull_their_ends(req, o - 1 - pair_count(n));
        assert(step == attractions(ends)[o - 1 - pair_count(n)]);
    }
}

/// In every sweep each pair of nodes repels: there are as many such steps as
/// pairs, and each pair has its own.
pub proof fn law_plan_repels(req: Request, iters: int, s: int, i: int, j: int)
    requires
        plannable(req),
        0 <= s < iters,
        0 <= i < j < req.nodes.len(),
    ensures
        ({
            let n = req.nodes.len() as int;
            let o = 1 + pair_index(n, i, j);
            &&& 1 <= o < 1 + pair_count(n)
            &&& force_steps(req, iters)[s * sweep_length(req) + o] == (ForceStep::Repel {
                i: i as usize,
                j: j as usize,
            })
        }),
{
    let n = req.nodes.len() as int;
    let o = 1 + pair_index(n, i, j);
    lemma_pair_count(n);
    lemma_repulsion_order(0, n);
    assert(at_pair(repulsions(0, n), 0, n, i, j) == (ForceStep::Repel {
        i: i as usize,
        j: j as usize,
    }));
    lemma_sweep_order(0, iters, n, all_ends(req), sweep_length(req), s, o);
    assert(one_sweep(s, n, all_ends(req))[o] == repulsions(0, n)[o - 1]);
}

} // verus!
