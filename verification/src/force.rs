//! What force-directed layout does besides its arithmetic: the seeds that
//! scatter nodes, the pairs that edges pull together, and the order of all steps.
use vstd::prelude::*;

use crate::float_bits::{is_zero, zero};
use crate::graph::{
    east_port, edges_added, law_steps_build_the_graph, lemma_position, ports_added, position,
    west_port, EdgeSpec, GraphOp, LayoutContext, PortSide, Request,
};
use crate::layout::NodePosition;

verus! {

/// The seed that scatters the first node.
pub const FIRST_SEED: u64 = 0x9E37_79B9_7F4A_7C15;

/// The factor from one seed to the next.
pub const SEED_FACTOR: u64 = 6364136223846793005;

/// The step from one seed to the next.
pub const SEED_STEP: u64 = 1442695040888963407;

/// The seed that follows another.
pub open spec fn following_seed(seed: u64) -> u64 {
    ((seed * SEED_FACTOR + SEED_STEP) % 0x1_0000_0000_0000_0000) as u64
}

/// The seed that scatters node `i`.
pub open spec fn seed_at(i: nat) -> u64
    decreases i,
{
    if i == 0 {
        FIRST_SEED
    } else {
        following_seed(seed_at((i - 1) as nat))
    }
}

/// Computes the seed that follows another.
pub fn next_seed(seed: u64) -> (next: u64)
    ensures
        next == following_seed(seed),
{
    seed.wrapping_mul(SEED_FACTOR).wrapping_add(SEED_STEP)
}

/// The seeds that scatter the first `n` nodes.
pub fn scatter_seeds(n: usize) -> (seeds: Vec<u64>)
    ensures
        seeds@ == Seq::new(n as nat, |i: int| seed_at(i as nat)),
{
    let mut seeds: Vec<u64> = Vec::with_capacity(n);
    let mut seed: u64 = FIRST_SEED;
    let mut i: usize = 0;
    while i < n
        invariant
            i <= n,
            seed == seed_at(i as nat),
            seeds@ =~= Seq::new(i as nat, |j: int| seed_at(j as nat)),
        decreases n - i,
    {
        seeds.push(seed);
        seed = next_seed(seed);
        i = i + 1;
    }
    seeds
}

/// No node has left the origin yet.
pub open spec fn all_at_origin(positions: Seq<NodePosition>) -> bool {
    forall|i: int|
        0 <= i < positions.len() ==> zero((#[trigger] positions[i]).x) && zero(positions[i].y)
}

/// Whether nodes have to be scattered before forces can move them: nodes that
/// all lie at the origin would never part.
pub fn needs_scatter(positions: &Vec<NodePosition>) -> (needed: bool)
    ensures
        needed == all_at_origin(positions@),
{
    let n: usize = positions.len();
    let mut i: usize = 0;
    while i < n
        invariant
            i <= n,
            n == positions@.len(),
            forall|j: int|
                0 <= j < i ==> zero((#[trigger] positions@[j]).x) && zero(positions@[j].y),
        decreases n - i,
    {
        if !is_zero(positions[i].x) || !is_zero(positions[i].y) {
            return false;
        }
        i = i + 1;
    }
    true
}

/// An edge's two nodes, by where they stand.
pub open spec fn joins(pair: (usize, usize), req: Request, e: EdgeSpec) -> bool {
    &&& pair.0 < req.nodes.len() && req.nodes[pair.0 as int].id == e.source
    &&& pair.1 < req.nodes.len() && req.nodes[pair.1 as int].id == e.target
}

/// The ends of all edges, edge by edge.
pub open spec fn all_ends(req: Request) -> Seq<(usize, usize)> {
    req.edges.map_values(
        |e: EdgeSpec|
            (position(req.nodes, e.source) as usize, position(req.nodes, e.target) as usize),
    )
}

/// The pairs of nodes that edges pull together, edge by edge: where the source
/// stands among the nodes, then where the target does.
pub fn pulled_pairs(ctx: &LayoutContext) -> (pairs: Vec<(usize, usize)>)
    ensures
        pairs@ == all_ends(ctx@),
        forall|k: int|
            0 <= k < pairs@.len() ==> joins(#[trigger] pairs@[k], ctx@, ctx@.edges[k]),
{
    let ops: &Vec<GraphOp> = ctx.ops();
    let count: usize = ops.len();
    let mut pairs: Vec<(usize, usize)> = Vec::with_capacity(ctx.edges().len());
    let mut t: usize = 0;
    while t < count
        invariant
            t <= count,
            count == ops@.len(),
            pairs@ =~= edges_added(ops@.take(t as int)).map_values(
                |ports: (usize, usize)| (ports.0 / 2, ports.1 / 2),
            ),
        decreases count - t,
    {
        proof {
            let taken = ops@.take(t + 1);
            assert(taken.drop_last() =~= ops@.take(t as int));
            assert(taken.last() == ops@[t as int]);
        }
        match ops[t] {
            GraphOp::AddEdge { source, target } => pairs.push((source / 2, target / 2)),
            _ => {},
        }
        t = t + 1;
    }
    proof {
        let nodes = ctx@.nodes;
        let ports = ports_added(ops@);
        assert(ops@.take(count as int) =~= ops@);
        law_steps_build_the_graph(nodes, ctx@.edges);
        assert forall|k: int| 0 <= k < pairs@.len() implies joins(
            #[trigger] pairs@[k],
            ctx@,
            ctx@.edges[k],
        ) by {
            let (source, target) = edges_added(ops@)[k];
            let i = pairs@[k].0 as int;
            let j = pairs@[k].1 as int;
            assert(source == west_port(i) || source == east_port(i));
            assert(target == west_port(j) || target == east_port(j));
            assert(ports[west_port(i)] == (i as usize, PortSide::West));
            assert(ports[east_port(i)] == (i as usize, PortSide::East));
            assert(ports[west_port(j)] == (j as usize, PortSide::West));
            assert(ports[east_port(j)] == (j as usize, PortSide::East));
        }
        assert forall|k: int| 0 <= k < pairs@.len() implies pairs@[k] == all_ends(ctx@)[k] by {
            assert(joins(pairs@[k], ctx@, ctx@.edges[k]));
            lemma_position(nodes, pairs@[k].0 as int);
            lemma_position(nodes, pairs@[k].1 as int);
        }
        assert(pairs@ =~= all_ends(ctx@));
    }
    pairs
}

/// One step of force-directed placement.
#[derive(Clone, Copy, Debug, PartialEq, Eq, Structural)]
pub enum ForceStep {
    /// A sweep begins, cooled down by its number.
    Cool { sweep: usize },
    /// Two nodes push each other away.
    Repel { i: usize, j: usize },
    /// An edge pulls its source and its target together.
    Attract { i: usize, j: usize },
    /// A node follows the forces that were summed up for it.
    Move { i: usize },
}

/// Node `i` repels each node behind it.
pub open spec fn repulsion_row(i: int, n: int) -> Seq<ForceStep> {
    Seq::new(
        (n - 1 - i) as nat,
        |t: int| ForceStep::Repel { i: i as usize, j: (i + 1 + t) as usize },
    )
}

/// The nodes from `i` on repel those behind them.
pub open spec fn repulsions(i: int, n: int) -> Seq<ForceStep>
    decreases n - i,
{
    if i >= n {
        Seq::empty()
    } else {
        repulsion_row(i, n) + repulsions(i + 1, n)
    }
}

/// Each edge pulls its ends together.
pub open spec fn attractions(pairs: Seq<(usize, usize)>) -> Seq<ForceStep> {
    pairs.map_values(|pair: (usize, usize)| ForceStep::Attract { i: pair.0, j: pair.1 })
}

/// Each node moves.
pub open spec fn moves(n: int) -> Seq<ForceStep> {
    Seq::new(n as nat, |i: int| ForceStep::Move { i: i as usize })
}

/// The sweeps from `sweep` on: every pair of nodes repels, every edge attracts,
/// then every node moves.
pub open spec fn sweeps(
    sweep: int,
    iters: int,
    n: int,
    pairs: Seq<(usize, usize)>,
) -> Seq<ForceStep>
    decreases iters - sweep,
{
    if sweep >= iters {
        Seq::empty()
    } else {
        seq![ForceStep::Cool { sweep: sweep as usize }] + (repulsions(0, n) + (attractions(pairs)
            + (moves(n) + sweeps(sweep + 1, iters, n, pairs))))
    }
}

/// All steps of `iters` sweeps over a request.
pub open spec fn force_steps(req: Request, iters: int) -> Seq<ForceStep> {
    if req.nodes.len() == 0 {
        Seq::empty()
    } else {
        sweeps(0, iters, req.nodes.len() as int, all_ends(req))
    }
}

/// Taking the first step off what is left of one stretch and all that follows.
proof fn lemma_take_step(stretch: Seq<ForceStep>, k: int, rest: Seq<ForceStep>)
    requires
        0 <= k < stretch.len(),
    ensures
        (stretch.skip(k) + rest).len() > 0,
        (stretch.skip(k) + rest)[0] == stretch[k],
        (stretch.skip(k) + rest).skip(1) == stretch.skip(k + 1) + rest,
{
    assert((stretch.skip(k) + rest).skip(1) =~= stretch.skip(k + 1) + rest);
}

/// Nothing is left of a stretch behind its end, and all of it before its start.
proof fn lemma_stretch_ends(stretch: Seq<ForceStep>, rest: Seq<ForceStep>)
    ensures
        stretch.skip(stretch.len() as int) + rest == rest,
        stretch.skip(0) + rest == stretch + rest,
{
    assert(stretch.skip(stretch.len() as int) + rest =~= rest);
    assert(stretch.skip(0) =~= stretch);
}

/// The repulsions from `i` on open with a row.
proof fn lemma_next_row(i: int, n: int, rest: Seq<ForceStep>)
    requires
        i < n,
    ensures
        repulsions(i, n) + rest == repulsion_row(i, n).skip(0) + (repulsions(i + 1, n) + rest),
{
    assert(repulsion_row(i, n).skip(0) =~= repulsion_row(i, n));
    assert(repulsions(i, n) + rest =~= repulsion_row(i, n) + (repulsions(i + 1, n) + rest));
}

/// The last node has no node behind it to repel.
proof fn lemma_last_row(n: int, rest: Seq<ForceStep>)
    requires
        n > 0,
    ensures
        repulsions(n - 1, n) + rest == rest,
{
    assert(repulsions(n, n) =~= Seq::empty());
    assert(repulsions(n - 1, n) + rest =~= rest);
}

/// Where a plan stands: the sweep and the next step in it.
#[derive(Clone, Copy, Debug)]
enum Cursor {
    Cool { sweep: usize },
    Repel { sweep: usize, i: usize, j: usize },
    Attract { sweep: usize, k: usize },
    Move { sweep: usize, i: usize },
}

/// The steps of a force-directed placement, handed out one by one.
#[derive(Debug)]
pub struct ForcePlan {
    n: usize,
    iters: usize,
    pairs: Vec<(usize, usize)>,
    cursor: Cursor,
}

/// The steps that are still to come.
impl View for ForcePlan {
    type V = Seq<ForceStep>;

    closed spec fn view(&self) -> Seq<ForceStep> {
        match self.cursor {
            Cursor::Cool { sweep } => self.from_cool(sweep as int),
            Cursor::Repel { sweep, i, j } => self.from_repel(sweep as int, i as int, j as int),
            Cursor::Attract { sweep, k } => self.from_attract(sweep as int, k as int),
            Cursor::Move { sweep, i } => self.from_move(sweep as int, i as int),
        }
    }
}

impl ForcePlan {
    #[verifier::type_invariant]
    spec fn inv(self) -> bool {
        &&& self.n > 0 || self.iters == 0
        &&& match self.cursor {
            Cursor::Cool { sweep } => sweep <= self.iters,
            Cursor::Repel { sweep, i, j } => sweep < self.iters && i < j < self.n,
            Cursor::Attract { sweep, k } => sweep < self.iters && k <= self.pairs@.len(),
            Cursor::Move { sweep, i } => sweep < self.iters && i < self.n,
        }
    }

    /// What is to come from the start of a sweep on.
    spec fn from_cool(self, sweep: int) -> Seq<ForceStep> {
        sweeps(sweep, self.iters as int, self.n as int, self.pairs@)
    }

    /// What is to come from the move of a node on.
    spec fn from_move(self, sweep: int, i: int) -> Seq<ForceStep> {
        moves(self.n as int).skip(i) + self.from_cool(sweep + 1)
    }

    /// What is to come from the pull of an edge on.
    spec fn from_attract(self, sweep: int, k: int) -> Seq<ForceStep> {
        attractions(self.pairs@).skip(k) + self.from_move(sweep, 0)
    }

    /// What is to come from the push between two nodes on.
    spec fn from_repel(self, sweep: int, i: int, j: int) -> Seq<ForceStep> {
        repulsion_row(i, self.n as int).skip(j - i - 1) + (repulsions(i + 1, self.n as int)
            + self.from_attract(sweep, 0))
    }

    /// Plans `iters` sweeps over the nodes and edges of a request. Without nodes
    /// there is nothing to do.
    pub fn new(ctx: &LayoutContext, iters: usize) -> (plan: ForcePlan)
        ensures
            plan@ == force_steps(ctx@, iters as int),
    {
        let n: usize = ctx.nodes().len();
        let pairs: Vec<(usize, usize)> = pulled_pairs(ctx);
        let iters: usize = if n == 0 {
            0
        } else {
            iters
        };
        ForcePlan { n, iters, pairs, cursor: Cursor::Cool { sweep: 0 } }
    }

    /// Hands out the next step; `None` once all are done.
    #[verifier::rlimit(40)]
    pub fn next(&mut self) -> (step: Option<ForceStep>)
        ensures
            match step {
                Some(step) => {
                    &&& old(self)@.len() > 0
                    &&& step == old(self)@[0]
                    &&& final(self)@ == old(self)@.skip(1)
                },
                None => old(self)@.len() == 0 && final(self)@ == old(self)@,
            },
    {
        proof {
            use_type_invariant(&*self);
        }
        let n: usize = self.n;
        let ghost size = n as int;
        let ghost plan = *self;
        let cursor: Cursor = self.cursor;
        match cursor {
            Cursor::Cool { sweep } => {
                if sweep >= self.iters {
                    return None;
                }
                self.cursor = if n >= 2 {
                    Cursor::Repel { sweep, i: 0, j: 1 }
                } else {
                    Cursor::Attract { sweep, k: 0 }
                };
                proof {
                    let tail = plan.from_attract(sweep as int, 0);
                    lemma_stretch_ends(moves(size), plan.from_cool(sweep + 1));
                    lemma_stretch_ends(attractions(plan.pairs@), plan.from_move(sweep as int, 0));
                    lemma_next_row(0, size, tail);
                    if n < 2 {
                        lemma_last_row(size, tail);
                    }
                    assert(plan@.skip(1) =~= repulsions(0, size) + tail);
                }
                Some(ForceStep::Cool { sweep })
            },
            Cursor::Repel { sweep, i, j } => {
                self.cursor = if j + 1 < n {
                    Cursor::Repel { sweep, i, j: j + 1 }
                } else if i + 2 < n {
                    Cursor::Repel { sweep, i: i + 1, j: i + 2 }
                } else {
                    Cursor::Attract { sweep, k: 0 }
                };
                proof {
                    let row = repulsion_row(i as int, size);
                    let tail = plan.from_attract(sweep as int, 0);
                    let rest = repulsions(i + 1, size) + tail;
                    lemma_take_step(row, j - i - 1, rest);
                    lemma_stretch_ends(row, rest);
                    lemma_next_row(i + 1, size, tail);
                    if j + 1 >= n && i + 2 >= n {
                        lemma_last_row(size, tail);
                    }
                }
                Some(ForceStep::Repel { i, j })
            },
            Cursor::Attract { sweep, k } => {
                let ghost rest = plan.from_move(sweep as int, 0);
                if k < self.pairs.len() {
                    let pair: (usize, usize) = self.pairs[k];
                    self.cursor = Cursor::Attract { sweep, k: k + 1 };
                    proof {
                        lemma_take_step(attractions(plan.pairs@), k as int, rest);
                    }
                    return Some(ForceStep::Attract { i: pair.0, j: pair.1 });
                }
                self.cursor = if 1 < n {
                    Cursor::Move { sweep, i: 1 }
                } else {
                    Cursor::Cool { sweep: sweep + 1 }
                };
                proof {
                    lemma_stretch_ends(attractions(plan.pairs@), rest);
                    lemma_take_step(moves(size), 0, plan.from_cool(sweep + 1));
                    lemma_stretch_ends(moves(size), plan.from_cool(sweep + 1));
                }
                Some(ForceStep::Move { i: 0 })
            },
            Cursor::Move { sweep, i } => {
                self.cursor = if i + 1 < n {
                    Cursor::Move { sweep, i: i + 1 }
                } else {
                    Cursor::Cool { sweep: sweep + 1 }
                };
                proof {
                    lemma_take_step(moves(size), i as int, plan.from_cool(sweep + 1));
                    lemma_stretch_ends(moves(size), plan.from_cool(sweep + 1));
                }
                Some(ForceStep::Move { i })
            },
        }
    }
}

/// The repulsions from node `first` on.
proof fn lemma_repulsions(first: int, n: int)
    requires
        0 <= first,
        n <= usize::MAX,
    ensures
        forall|t: int|
            0 <= t < repulsions(first, n).len() ==> (#[trigger] repulsions(first, n)[t] matches
                ForceStep::Repel { i, j } && first <= i < j < n),
        repulsions(first, n).no_duplicates(),
        forall|i: usize, j: usize|
            first <= i < j < n ==> #[trigger] repulsions(first, n).contains(
                ForceStep::Repel { i, j },
            ),
    decreases n - first,
{
    if first < n {
        let row = repulsion_row(first, n);
        let rest = repulsions(first + 1, n);
        let all = repulsions(first, n);
        lemma_repulsions(first + 1, n);
        assert(all == row + rest);
        assert forall|t: int| 0 <= t < all.len() implies (#[trigger] all[t] matches
            ForceStep::Repel { i, j } && first <= i < j < n) by {
            if t >= row.len() {
                assert(all[t] == rest[t - row.len()]);
            }
        }
        assert forall|a: int, b: int|
            0 <= a < all.len() && 0 <= b < all.len() && a != b implies all[a] != all[b] by {
            if a >= row.len() {
                assert(all[a] == rest[a - row.len()]);
            }
            if b >= row.len() {
                assert(all[b] == rest[b - row.len()]);
            }
        }
        assert forall|i: usize, j: usize| first <= i < j < n implies #[trigger] all.contains(
            ForceStep::Repel { i, j },
        ) by {
            if i == first {
                assert(all[j - i - 1] == ForceStep::Repel { i, j });
            } else {
                assert(rest.contains(ForceStep::Repel { i, j }));
                let t = choose|t: int|
                    0 <= t < rest.len() && rest[t] == ForceStep::Repel { i, j };
                assert(all[row.len() + t] == ForceStep::Repel { i, j });
            }
        }
    }
}

/// In every sweep each pair of nodes repels exactly once, and no node repels
/// itself.
pub proof fn law_every_pair_repels_once(n: int)
    requires
        0 <= n <= usize::MAX,
    ensures
        repulsions(0, n).no_duplicates(),
        forall|step: ForceStep| #[trigger]
            repulsions(0, n).contains(step) <==> (step matches ForceStep::Repel { i, j } && i < j
                < n),
{
    let all = repulsions(0, n);
    lemma_repulsions(0, n);
    assert forall|step: ForceStep| #[trigger]
        all.contains(step) <==> (step matches ForceStep::Repel { i, j } && i < j < n) by {
        if all.contains(step) {
            let t = choose|t: int| 0 <= t < all.len() && all[t] == step;
            assert(all[t] == step);
        }
        if step matches ForceStep::Repel { i, j } && i < j < n {
            assert(all.contains(ForceStep::Repel { i: step->Repel_i, j: step->Repel_j }));
        }
    }
}

} // verus!
