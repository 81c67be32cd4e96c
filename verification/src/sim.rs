//! A vehicle that drives about on a road graph.
//!
//! The vehicle follows the edges of the graph, picks a direction at every node,
//! changes its speed at intersections and takes a pause now and then. Everything
//! that is decided here is decided from a seed: the same seed gives the same
//! drive.
//!
//! The simulator leaves the arithmetic on numbers of double precision to its
//! caller. After [`Simulator::new`] and [`Simulator::advance`] it holds a question
//! ([`Simulator::ask`]); the caller answers ([`Simulator::answer`]) until nothing
//! is asked any more.
use vstd::prelude::*;

use crate::double::{Double, ZERO};

verus! {

/// The bits of the lowest speed in km/h: 30.
pub const SPEED_MIN_KMH: u64 = 0x403e_0000_0000_0000;

/// The bits of the highest speed in km/h: 70.
pub const SPEED_MAX_KMH: u64 = 0x4051_8000_0000_0000;

/// The bits of the shortest drive between two pauses in seconds: 90.
pub const DRIVE_MIN_SECS: u64 = 0x4056_8000_0000_0000;

/// The bits of the longest drive between two pauses in seconds: 600.
pub const DRIVE_MAX_SECS: u64 = 0x4082_c000_0000_0000;

/// The bits of the shortest pause in seconds: 10.
pub const PAUSE_MIN_SECS: u64 = 0x4024_0000_0000_0000;

/// The bits of the longest pause in seconds: 240.
pub const PAUSE_MAX_SECS: u64 = 0x406e_0000_0000_0000;

/// The greatest number of edges in one advance: it ends the run through a cycle
/// of edges without length.
pub const MAX_STEPS: u32 = 10_000;

/// The limits of speeds, drives and pauses are the numbers that they are said to be.
pub proof fn law_limits()
    ensures
        crate::double::dbl(SPEED_MIN_KMH).is_whole(30),
        crate::double::dbl(SPEED_MAX_KMH).is_whole(70),
        crate::double::dbl(DRIVE_MIN_SECS).is_whole(90),
        crate::double::dbl(DRIVE_MAX_SECS).is_whole(600),
        crate::double::dbl(PAUSE_MIN_SECS).is_whole(10),
        crate::double::dbl(PAUSE_MAX_SECS).is_whole(240),
{
    crate::double::lemma_pow2_near_fifty();
    crate::double::lemma_scale(crate::double::dbl(SPEED_MIN_KMH), 30, 1027, 0xe_0000_0000_0000, 48);
    crate::double::lemma_scale(crate::double::dbl(SPEED_MAX_KMH), 70, 1029, 0x1_8000_0000_0000, 46);
    crate::double::lemma_scale(crate::double::dbl(DRIVE_MIN_SECS), 90, 1029, 0x6_8000_0000_0000, 46);
    crate::double::lemma_scale(crate::double::dbl(DRIVE_MAX_SECS), 600, 1032, 0x2_c000_0000_0000, 43);
    crate::double::lemma_scale(crate::double::dbl(PAUSE_MIN_SECS), 10, 1026, 0x4_0000_0000_0000, 49);
    crate::double::lemma_scale(crate::double::dbl(PAUSE_MAX_SECS), 240, 1030, 0xe_0000_0000_0000, 45);
}

/// A road graph.
pub struct Graph {
    /// Latitude and longitude of each node.
    pub nodes: Vec<(Double, Double)>,
    /// The neighbours of each node.
    pub adj: Vec<Vec<u32>>,
}

impl Graph {
    /// Whether every node has a list of neighbours.
    pub open spec fn listed(self) -> bool {
        self.nodes@.len() <= self.adj@.len()
    }

    /// Decides whether every node has a list of neighbours.
    pub fn is_listed(&self) -> (r: bool)
        ensures
            r == self.listed(),
    {
        self.nodes.len() <= self.adj.len()
    }

    /// Whether every node has a list of neighbours, and every neighbour is a node.
    pub open spec fn wf(self) -> bool {
        &&& self.listed()
        &&& forall|i: int, k: int|
            0 <= i < self.nodes@.len() && 0 <= k < self.adj@[i]@.len() ==> (
            #[trigger] self.adj@[i]@[k]) < self.nodes@.len()
    }

    /// Whether a road leads from one node to another.
    pub open spec fn edge(self, a: int, b: int) -> bool {
        exists|k: int| 0 <= k < self.adj@[a]@.len() && #[trigger] self.adj@[a]@[k] == b
    }

    /// Whether every road leads both ways.
    pub open spec fn two_way(self) -> bool {
        forall|a: int, b: int|
            0 <= a < self.nodes@.len() && 0 <= b < self.nodes@.len() && #[trigger] self.edge(a, b)
                ==> self.edge(b, a)
    }

    /// Position of a node.
    fn coord(&self, i: usize) -> (r: (Double, Double))
        requires
            i < self.nodes@.len(),
        ensures
            r == self.nodes@[i as int],
    {
        self.nodes[i]
    }

    /// Whether a node is an intersection: any number of neighbours other than two.
    /// (A node with two neighbours only gives a road its shape.)
    pub fn is_intersection(&self, i: usize) -> (r: bool)
        requires
            i < self.adj@.len(),
        ensures
            r == (self.adj@[i as int]@.len() != 2),
    {
        self.adj[i].len() != 2
    }
}

/// A generator of pseudo-random numbers: xorshift64*.
#[derive(Debug, Clone, Copy)]
pub struct Rng {
    pub state: u64,
}

/// The state that follows a state.
pub open spec fn next_state(x: u64) -> u64 {
    let x = x ^ (x << 13);
    let x = x ^ (x >> 7);
    x ^ (x << 17)
}

/// The number drawn in a state.
pub open spec fn drawn(x: u64) -> u64 {
    ((next_state(x) * 0x2545_f491_4f6c_dd1d) % 0x1_0000_0000_0000_0000) as u64
}

/// The first state for a seed.
pub open spec fn seeded(seed: u64) -> u64 {
    (seed ^ 0x9e37_79b9_7f4a_7c15) | 1
}

/// The upper 53 bits of a number.
pub open spec fn upper53(x: u64) -> u64 {
    x >> 11
}

impl Rng {
    /// The generator for a seed.
    pub fn new(seed: u64) -> (r: Self)
        ensures
            r.state == seeded(seed),
    {
        Rng { state: (seed ^ 0x9e37_79b9_7f4a_7c15) | 1 }
    }

    /// The next number.
    pub fn next_u64(&mut self) -> (r: u64)
        ensures
            final(self).state == next_state(old(self).state),
            r == drawn(old(self).state),
    {
        let mut x: u64 = self.state;
        x = x ^ (x << 13);
        x = x ^ (x >> 7);
        x = x ^ (x << 17);
        self.state = x;
        x.wrapping_mul(0x2545_f491_4f6c_dd1d)
    }

    /// A number of 53 bits.
    pub fn unit(&mut self) -> (r: u64)
        ensures
            final(self).state == next_state(old(self).state),
            r == upper53(drawn(old(self).state)),
            r < 0x20_0000_0000_0000,
    {
        let x: u64 = self.next_u64();
        assert(x >> 11 < 0x20_0000_0000_0000) by (bit_vector);
        x >> 11
    }

    /// An index below `n`.
    pub fn below(&mut self, n: usize) -> (r: usize)
        requires
            n > 0,
        ensures
            final(self).state == next_state(old(self).state),
            r == drawn(old(self).state) as int % n as int,
            r < n,
    {
        let x: u64 = self.next_u64();
        (x % n as u64) as usize
    }
}

/// The generator never reaches the state 0, in which it would stay: no seed gives
/// it, and no other state leads to it.
pub proof fn law_rng_keeps_going(seed: u64, x: u64)
    ensures
        seeded(seed) != 0,
        x != 0 ==> next_state(x) != 0,
        next_state(0) == 0,
{
    assert((seed ^ 0x9e37_79b9_7f4a_7c15) | 1 != 0) by (bit_vector);
    assert(x != 0 ==> x ^ (x << 13) != 0) by (bit_vector);
    let a = x ^ (x << 13);
    assert(a != 0 ==> a ^ (a >> 7) != 0) by (bit_vector);
    let b = a ^ (a >> 7);
    assert(b != 0 ==> b ^ (b << 17) != 0) by (bit_vector);
    assert(0u64 ^ (0u64 << 13) == 0 && 0u64 ^ (0u64 >> 7) == 0 && 0u64 ^ (0u64 << 17) == 0)
        by (bit_vector);
}

/// What the simulator wants to know. The answer to each is one number.
#[derive(Debug, Clone, Copy)]
pub enum Ask {
    /// Nothing.
    Done,
    /// `left - by`.
    Less { left: Double, by: Double },
    /// The number between `lo` and `hi` that lies `draw / 2^53` of the way.
    Between { lo: Double, hi: Double, draw: u64 },
    /// As `Between`, for speeds in km/h; the answer is in m/s.
    Speed { lo: Double, hi: Double, draw: u64 },
    /// A speed given in m/s, in km/h.
    Kmh { mps: Double },
    /// The way at a speed in m/s for a time in seconds.
    Way { mps: Double, secs: Double },
    /// The distance in metres between two positions, less `offset`.
    Remaining { a: (Double, Double), b: (Double, Double), offset: Double },
    /// `offset + by`.
    More { offset: Double, by: Double },
    /// The latitude of the point `offset` metres along the way from one position
    /// to another.
    Latitude { a: (Double, Double), b: (Double, Double), offset: Double },
    /// The longitude of that point.
    Longitude { a: (Double, Double), b: (Double, Double), offset: Double },
}

/// How far the simulator has come with what it was last told to do.
#[derive(Debug, Clone, Copy)]
pub enum Phase {
    /// It has done it.
    Idle,
    /// Draws its first speed.
    FirstSpeed { draw: u64 },
    /// Draws the time to its first pause.
    FirstDrive { draw: u64 },
    /// Takes the time from the pause.
    Pausing { dt: Double },
    /// Draws a speed after the pause.
    Restarting { dt: Double, draw: u64 },
    /// Takes the time from the drive.
    Driving { dt: Double },
    /// Draws the length of a pause.
    NewPause { draw: u64 },
    /// Draws the length of the drive after it.
    NewDrive { draw: u64 },
    /// Shows its speed.
    Showing { dt: Double },
    /// Finds how far the time takes it.
    Budgeting { dt: Double },
    /// Finds how far the end of the edge is.
    Measuring { budget: Double, steps: u32 },
    /// Takes the rest of the edge from the way.
    Spending { budget: Double, remain: Double, steps: u32 },
    /// Draws a speed at an intersection.
    Turning { budget: Double, steps: u32, draw: u64 },
    /// Goes the last of the way.
    Arriving { budget: Double },
    /// Finds its latitude.
    Latitude,
    /// Finds its longitude.
    Longitude,
}

/// The simulator.
pub struct Simulator {
    pub graph: Graph,
    pub rng: Rng,
    /// The node that it comes from.
    pub from: usize,
    /// The node that it heads for.
    pub to: usize,
    /// How far it has come on the edge, in metres.
    pub offset_m: Double,
    /// Its speed in m/s.
    pub speed_mps: Double,
    /// The time to the next pause.
    pub drive_secs_left: Double,
    /// The rest of the pause; above 0 it stands.
    pub pause_secs_left: Double,
    /// The speed that it shows, in km/h.
    pub last_speed_kmh: Double,
    pub lat: Double,
    pub lon: Double,
    pub phase: Phase,
}

/// The condition to be another node.
pub open spec fn other_than(avoid: int) -> spec_fn(u32) -> bool {
    |x: u32| x != avoid
}

/// The neighbours of a node other than one of them.
pub open spec fn others(neighbours: Seq<u32>, avoid: int) -> Seq<u32> {
    neighbours.filter(other_than(avoid))
}

/// The node to go to from `node` when coming from `avoid`, with the generator in
/// a state: one of the other neighbours, and back only where there is none.
pub open spec fn picked(g: Graph, state: u64, node: int, avoid: int) -> int {
    let alternatives = others(g.adj@[node]@, avoid);
    if alternatives.len() == 0 {
        avoid
    } else {
        alternatives[drawn(state) as int % alternatives.len() as int] as int
    }
}

/// The state of the generator after that.
pub open spec fn picked_state(g: Graph, state: u64, node: int, avoid: int) -> u64 {
    if others(g.adj@[node]@, avoid).len() == 0 {
        state
    } else {
        next_state(state)
    }
}

/// The first node with a neighbour among the `left` nodes from `at` on, round and
/// round; the node after these if there is none.
pub open spec fn linked(g: Graph, at: int, left: nat) -> int
    decreases left,
{
    if left == 0 || g.adj@[at]@.len() > 0 {
        at
    } else {
        linked(g, (at + 1) % g.nodes@.len() as int, (left - 1) as nat)
    }
}

/// Whether any node has a neighbour.
pub open spec fn has_edges(g: Graph) -> bool {
    exists|i: int| 0 <= i < g.nodes@.len() && (#[trigger] g.adj@[i]@).len() > 0
}

impl Simulator {
    /// Whether the vehicle comes from a node, and is as far as its phase says.
    pub open spec fn wf(self) -> bool {
        &&& self.graph.listed()
        &&& self.from < self.graph.nodes@.len()
        &&& match self.phase {
            Phase::Measuring { steps, .. } => steps <= MAX_STEPS,
            Phase::Spending { steps, .. } => steps <= MAX_STEPS && self.heads_for_a_node(),
            Phase::Turning { steps, .. } => steps <= MAX_STEPS,
            Phase::Longitude => self.heads_for_a_node(),
            _ => true,
        }
    }

    /// Whether the neighbour that the vehicle heads for is a node.
    pub open spec fn heads_for_a_node(self) -> bool {
        self.to < self.graph.nodes@.len()
    }

    /// Whether the simulator can go on: where it needs the position of the node that
    /// the vehicle heads for, there is that node.
    pub open spec fn can_go_on(self) -> bool {
        self.phase is Measuring || self.phase is Latitude ==> self.heads_for_a_node()
    }

    /// Draws a number and goes on to a phase with it.
    pub open spec fn drawing(self, phase: spec_fn(u64) -> Phase) -> Simulator {
        Simulator {
            rng: Rng { state: next_state(self.rng.state) },
            phase: phase(upper53(drawn(self.rng.state))),
            ..self
        }
    }

    /// The simulator for a graph with edges and a seed.
    pub open spec fn built(graph: Graph, seed: u64) -> Simulator {
        let n = graph.nodes@.len();
        let s0 = seeded(seed);
        let from = linked(graph, drawn(s0) as int % n as int, n);
        let s1 = next_state(s0);
        let neighbours = graph.adj@[from]@;
        let to = neighbours[drawn(s1) as int % neighbours.len() as int];
        Simulator {
            graph,
            rng: Rng { state: next_state(s1) },
            from: from as usize,
            to: to as usize,
            offset_m: crate::double::dbl(ZERO),
            speed_mps: crate::double::dbl(ZERO),
            drive_secs_left: crate::double::dbl(ZERO),
            pause_secs_left: crate::double::dbl(ZERO),
            last_speed_kmh: crate::double::dbl(ZERO),
            lat: graph.nodes@[from].0,
            lon: graph.nodes@[from].1,
            phase: Phase::Idle,
        }.drawing(|draw: u64| Phase::FirstSpeed { draw })
    }

    /// The simulator when it is told to go on for a time.
    pub open spec fn begun(self, dt: Double) -> Simulator {
        if dt.at_most(crate::double::dbl(ZERO)) {
            self
        } else if crate::double::dbl(ZERO).below(self.pause_secs_left) {
            Simulator { phase: Phase::Pausing { dt }, ..self }
        } else {
            Simulator { phase: Phase::Driving { dt }, ..self }
        }
    }

    /// The simulator on the next edge, with the rest of its way.
    pub open spec fn turned(self, budget: Double, steps: u32) -> Simulator {
        let g = self.graph;
        let state = self.rng.state;
        let s = Simulator {
            rng: Rng { state: picked_state(g, state, self.to as int, self.from as int) },
            from: self.to,
            to: picked(g, state, self.to as int, self.from as int) as usize,
            offset_m: crate::double::dbl(ZERO),
            ..self
        };
        if g.adj@[self.to as int]@.len() != 2 {
            s.drawing(|draw: u64| Phase::Turning { budget, steps, draw })
        } else {
            s.stepped(budget, steps)
        }
    }

    /// The simulator before the next edge, if it may go on.
    pub open spec fn stepped(self, budget: Double, steps: u32) -> Simulator {
        if steps < MAX_STEPS {
            Simulator { phase: Phase::Measuring { budget, steps: (steps + 1) as u32 }, ..self }
        } else {
            Simulator { phase: Phase::Latitude, ..self }
        }
    }

    /// The simulator when its question is answered.
    pub open spec fn answered(self, v: Double) -> Simulator {
        let zero = crate::double::dbl(ZERO);
        match self.phase {
            Phase::Idle => self,
            Phase::FirstSpeed { .. } => Simulator { speed_mps: v, ..self }.drawing(
                |draw: u64| Phase::FirstDrive { draw },
            ),
            Phase::FirstDrive { .. } => Simulator {
                drive_secs_left: v,
                phase: Phase::Idle,
                ..self
            },
            Phase::Pausing { dt } => if zero.below(v) {
                Simulator {
                    pause_secs_left: v,
                    last_speed_kmh: zero,
                    phase: Phase::Idle,
                    ..self
                }
            } else {
                Simulator { pause_secs_left: zero, ..self }.drawing(
                    |draw: u64| Phase::Restarting { dt, draw },
                )
            },
            Phase::Restarting { dt, .. } => Simulator {
                speed_mps: v,
                phase: Phase::Driving { dt },
                ..self
            },
            Phase::Driving { dt } => if v.at_most(zero) {
                Simulator { drive_secs_left: v, ..self }.drawing(
                    |draw: u64| Phase::NewPause { draw },
                )
            } else {
                Simulator { drive_secs_left: v, phase: Phase::Showing { dt }, ..self }
            },
            Phase::NewPause { .. } => Simulator { pause_secs_left: v, ..self }.drawing(
                |draw: u64| Phase::NewDrive { draw },
            ),
            Phase::NewDrive { .. } => Simulator {
                drive_secs_left: v,
                last_speed_kmh: zero,
                phase: Phase::Idle,
                ..self
            },
            Phase::Showing { dt } => Simulator {
                last_speed_kmh: v,
                phase: Phase::Budgeting { dt },
                ..self
            },
            Phase::Budgeting { .. } => Simulator {
                phase: Phase::Measuring { budget: v, steps: 1 },
                ..self
            },
            Phase::Measuring { budget, steps } => if budget.below(v) {
                Simulator { phase: Phase::Arriving { budget }, ..self }
            } else if zero.below(v) {
                Simulator { phase: Phase::Spending { budget, remain: v, steps }, ..self }
            } else {
                self.turned(budget, steps)
            },
            Phase::Spending { steps, .. } => self.turned(v, steps),
            Phase::Turning { budget, steps, .. } => Simulator { speed_mps: v, ..self }.stepped(
                budget,
                steps,
            ),
            Phase::Arriving { .. } => Simulator { offset_m: v, phase: Phase::Latitude, ..self },
            Phase::Latitude => Simulator { lat: v, phase: Phase::Longitude, ..self },
            Phase::Longitude => Simulator { lon: v, phase: Phase::Idle, ..self },
        }
    }

    /// What the simulator wants to know.
    pub open spec fn question(self) -> Ask {
        let a = self.graph.nodes@[self.from as int];
        let b = self.graph.nodes@[self.to as int];
        match self.phase {
            Phase::Idle => Ask::Done,
            Phase::FirstSpeed { draw } => speed_question(draw),
            Phase::FirstDrive { draw } => drive_question(draw),
            Phase::Pausing { dt } => Ask::Less { left: self.pause_secs_left, by: dt },
            Phase::Restarting { draw, .. } => speed_question(draw),
            Phase::Driving { dt } => Ask::Less { left: self.drive_secs_left, by: dt },
            Phase::NewPause { draw } => Ask::Between {
                lo: crate::double::dbl(PAUSE_MIN_SECS),
                hi: crate::double::dbl(PAUSE_MAX_SECS),
                draw,
            },
            Phase::NewDrive { draw } => drive_question(draw),
            Phase::Showing { .. } => Ask::Kmh { mps: self.speed_mps },
            Phase::Budgeting { dt } => Ask::Way { mps: self.speed_mps, secs: dt },
            Phase::Measuring { .. } => Ask::Remaining { a, b, offset: self.offset_m },
            Phase::Spending { budget, remain, .. } => Ask::Less { left: budget, by: remain },
            Phase::Turning { draw, .. } => speed_question(draw),
            Phase::Arriving { budget } => Ask::More { offset: self.offset_m, by: budget },
            Phase::Latitude => Ask::Latitude { a, b, offset: self.offset_m },
            Phase::Longitude => Ask::Longitude { a, b, offset: self.offset_m },
        }
    }

    /// A vehicle on a random node with a neighbour, heading for one of its
    /// neighbours.
    pub fn new(graph: Graph, seed: u64) -> (r: Result<Simulator, &'static str>)
        requires
            graph.listed(),
        ensures
            match r {
                Ok(s) => has_edges(graph) && s == Simulator::built(graph, seed) && s.wf(),
                Err(e) => if graph.nodes@.len() == 0 {
                    e@ == "empty graph"@
                } else {
                    !has_edges(graph) && e@ == "graph without edges"@
                },
            },
    {
        let n: usize = graph.nodes.len();
        if n == 0 {
            return Err("empty graph");
        }
        let mut rng = Rng::new(seed);
        let mut from: usize = rng.below(n);
        let ghost start = from as int;
        proof {
            lemma_small(start, n as int);
        }
        let mut left: usize = n;
        while left > 0 && graph.adj[from].len() == 0
            invariant
                graph.listed(),
                n == graph.nodes@.len(),
                n > 0,
                from < n,
                0 <= start < n,
                left <= n,
                from == (start + (n - left)) % n as int,
                linked(graph, start, n as nat) == linked(graph, from as int, left as nat),
                forall|k: int|
                    0 <= k < n - left ==> (#[trigger] graph.adj@[(start + k) % n as int]@).len()
                        == 0,
            decreases left,
        {
            proof {
                lemma_round(start, n - left, n as int);
                assert(graph.adj@[(start + (n - left)) % n as int]@.len() == 0);
            }
            from = if from + 1 == n {
                0
            } else {
                from + 1
            };
            left -= 1;
        }
        if graph.adj[from].len() == 0 {
            proof {
                assert forall|i: int| 0 <= i < n implies (#[trigger] graph.adj@[i]@).len() == 0 by {
                    let k = if i >= start {
                        i - start
                    } else {
                        i - start + n
                    };
                    assert((start + k) % n as int == i) by {
                        if i < start {
                            lemma_wrap(i, n as int);
                        } else {
                            lemma_small(i, n as int);
                        }
                    }
                }
            }
            return Err("graph without edges");
        }
        let degree: usize = graph.adj[from].len();
        let k: usize = rng.below(degree);
        let to: usize = graph.adj[from][k] as usize;
        let (lat, lon) = graph.coord(from);
        let draw: u64 = rng.unit();
        let zero = Double { bits: ZERO };
        Ok(
            Simulator {
                graph,
                rng,
                from,
                to,
                offset_m: zero,
                speed_mps: zero,
                drive_secs_left: zero,
                pause_secs_left: zero,
                last_speed_kmh: zero,
                lat,
                lon,
                phase: Phase::FirstSpeed { draw },
            },
        )
    }

    /// Picks the next node from `node`, when coming from `avoid`.
    pub fn pick_next(&mut self, node: usize, avoid: usize) -> (r: usize)
        requires
            node < old(self).graph.adj@.len(),
        ensures
            r == picked(old(self).graph, old(self).rng.state, node as int, avoid as int),
            *final(self) == (Simulator {
                rng: Rng {
                    state: picked_state(
                        old(self).graph,
                        old(self).rng.state,
                        node as int,
                        avoid as int,
                    ),
                },
                ..*old(self)
            }),
    {
        let mut alternatives: Vec<u32> = Vec::new();
        let ghost neighbours = self.graph.adj@[node as int]@;
        let ghost keep = other_than(avoid as int);
        let mut i: usize = 0;
        proof {
            reveal(Seq::filter);
            assert(neighbours.take(0).filter(keep) =~= Seq::<u32>::empty());
        }
        while i < self.graph.adj[node].len()
            invariant
                *self == *old(self),
                node < self.graph.adj@.len(),
                neighbours == self.graph.adj@[node as int]@,
                keep == other_than(avoid as int),
                i <= neighbours.len(),
                alternatives@ == neighbours.take(i as int).filter(keep),
            decreases neighbours.len() - i,
        {
            let x: u32 = self.graph.adj[node][i];
            proof {
                reveal(Seq::filter);
                assert(neighbours.take(i + 1).drop_last() =~= neighbours.take(i as int));
            }
            if x as u64 != avoid as u64 {
                alternatives.push(x);
            }
            i += 1;
        }
        assert(neighbours.take(i as int) =~= neighbours);
        if alternatives.len() == 0 {
            return avoid;
        }
        let mut rng = self.rng;
        let k: usize = rng.below(alternatives.len());
        self.rng = rng;
        alternatives[k] as usize
    }

    /// Draws a number of 53 bits.
    fn draw(&mut self) -> (r: u64)
        ensures
            r == upper53(drawn(old(self).rng.state)),
            *final(self) == (Simulator {
                rng: Rng { state: next_state(old(self).rng.state) },
                ..*old(self)
            }),
    {
        let mut rng = self.rng;
        let d: u64 = rng.unit();
        self.rng = rng;
        d
    }

    /// Tells the simulator to go on for a time in seconds.
    pub fn advance(&mut self, dt: Double)
        requires
            old(self).phase is Idle,
        ensures
            *final(self) == old(self).begun(dt),
    {
        let zero = Double { bits: ZERO };
        if dt.le(zero) {
            return ;
        }
        if zero.lt(self.pause_secs_left) {
            self.phase = Phase::Pausing { dt };
        } else {
            self.phase = Phase::Driving { dt };
        }
    }

    /// Goes over to the next edge.
    fn turn(&mut self, budget: Double, steps: u32)
        requires
            old(self).to < old(self).graph.adj@.len(),
        ensures
            *final(self) == old(self).turned(budget, steps),
    {
        let arrived: usize = self.to;
        let came_from: usize = self.from;
        let next: usize = self.pick_next(arrived, came_from);
        self.from = arrived;
        self.to = next;
        self.offset_m = Double { bits: ZERO };
        if self.graph.is_intersection(arrived) {
            let draw: u64 = self.draw();
            self.phase = Phase::Turning { budget, steps, draw };
        } else {
            self.step(budget, steps);
        }
    }

    /// Goes on to the next edge, if there were not too many.
    fn step(&mut self, budget: Double, steps: u32)
        ensures
            *final(self) == old(self).stepped(budget, steps),
    {
        if steps < MAX_STEPS {
            self.phase = Phase::Measuring { budget, steps: steps + 1 };
        } else {
            self.phase = Phase::Latitude;
        }
    }

    /// Answers what the simulator asks.
    pub fn answer(&mut self, v: Double)
        requires
            old(self).wf(),
            old(self).can_go_on(),
        ensures
            *final(self) == old(self).answered(v),
            final(self).wf(),
    {
        let zero = Double { bits: ZERO };
        match self.phase {
            Phase::Idle => {},
            Phase::FirstSpeed { .. } => {
                self.speed_mps = v;
                let draw: u64 = self.draw();
                self.phase = Phase::FirstDrive { draw };
            },
            Phase::FirstDrive { .. } => {
                self.drive_secs_left = v;
                self.phase = Phase::Idle;
            },
            Phase::Pausing { dt } => {
                if zero.lt(v) {
                    self.pause_secs_left = v;
                    self.last_speed_kmh = zero;
                    self.phase = Phase::Idle;
                } else {
                    self.pause_secs_left = zero;
                    let draw: u64 = self.draw();
                    self.phase = Phase::Restarting { dt, draw };
                }
            },
            Phase::Restarting { dt, .. } => {
                self.speed_mps = v;
                self.phase = Phase::Driving { dt };
            },
            Phase::Driving { dt } => {
                self.drive_secs_left = v;
                if v.le(zero) {
                    let draw: u64 = self.draw();
                    self.phase = Phase::NewPause { draw };
                } else {
                    self.phase = Phase::Showing { dt };
                }
            },
            Phase::NewPause { .. } => {
                self.pause_secs_left = v;
                let draw: u64 = self.draw();
                self.phase = Phase::NewDrive { draw };
            },
            Phase::NewDrive { .. } => {
                self.drive_secs_left = v;
                self.last_speed_kmh = zero;
                self.phase = Phase::Idle;
            },
            Phase::Showing { dt } => {
                self.last_speed_kmh = v;
                self.phase = Phase::Budgeting { dt };
            },
            Phase::Budgeting { .. } => {
                self.phase = Phase::Measuring { budget: v, steps: 1 };
            },
            Phase::Measuring { budget, steps } => {
                if budget.lt(v) {
                    self.phase = Phase::Arriving { budget };
                } else if zero.lt(v) {
                    self.phase = Phase::Spending { budget, remain: v, steps };
                } else {
                    self.turn(budget, steps);
                }
            },
            Phase::Spending { steps, .. } => {
                self.turn(v, steps);
            },
            Phase::Turning { budget, steps, .. } => {
                self.speed_mps = v;
                self.step(budget, steps);
            },
            Phase::Arriving { .. } => {
                self.offset_m = v;
                self.phase = Phase::Latitude;
            },
            Phase::Latitude => {
                self.lat = v;
                self.phase = Phase::Longitude;
            },
            Phase::Longitude => {
                self.lon = v;
                self.phase = Phase::Idle;
            },
        }
    }

    /// Decides [`Simulator::can_go_on`].
    pub fn is_ready(&self) -> (r: bool)
        ensures
            r == self.can_go_on(),
    {
        match self.phase {
            Phase::Measuring { .. } | Phase::Latitude => self.to < self.graph.nodes.len(),
            _ => true,
        }
    }

    /// What the simulator wants to know.
    pub fn ask(&self) -> (r: Ask)
        requires
            self.wf(),
            self.can_go_on(),
        ensures
            r == self.question(),
    {
        let offset = self.offset_m;
        match self.phase {
            Phase::Idle => Ask::Done,
            Phase::FirstSpeed { draw } => ask_speed(draw),
            Phase::FirstDrive { draw } => ask_drive(draw),
            Phase::Pausing { dt } => Ask::Less { left: self.pause_secs_left, by: dt },
            Phase::Restarting { draw, .. } => ask_speed(draw),
            Phase::Driving { dt } => Ask::Less { left: self.drive_secs_left, by: dt },
            Phase::NewPause { draw } => Ask::Between {
                lo: Double { bits: PAUSE_MIN_SECS },
                hi: Double { bits: PAUSE_MAX_SECS },
                draw,
            },
            Phase::NewDrive { draw } => ask_drive(draw),
            Phase::Showing { .. } => Ask::Kmh { mps: self.speed_mps },
            Phase::Budgeting { dt } => Ask::Way { mps: self.speed_mps, secs: dt },
            Phase::Measuring { .. } => Ask::Remaining {
                a: self.graph.coord(self.from),
                b: self.graph.coord(self.to),
                offset,
            },
            Phase::Spending { budget, remain, .. } => Ask::Less { left: budget, by: remain },
            Phase::Turning { draw, .. } => ask_speed(draw),
            Phase::Arriving { budget } => Ask::More { offset, by: budget },
            Phase::Latitude => Ask::Latitude {
                a: self.graph.coord(self.from),
                b: self.graph.coord(self.to),
                offset,
            },
            Phase::Longitude => Ask::Longitude {
                a: self.graph.coord(self.from),
                b: self.graph.coord(self.to),
                offset,
            },
        }
    }

    /// The latitude.
    pub fn lat(&self) -> (r: Double)
        ensures
            r == self.lat,
    {
        self.lat
    }

    /// The longitude.
    pub fn lon(&self) -> (r: Double)
        ensures
            r == self.lon,
    {
        self.lon
    }

    /// Whether the vehicle is not paused.
    pub open spec fn drives(self) -> bool {
        self.pause_secs_left.at_most(crate::double::dbl(ZERO))
    }

    /// Whether the vehicle is not paused.
    pub fn moving(&self) -> (r: bool)
        ensures
            r == self.drives(),
    {
        self.pause_secs_left.le(Double { bits: ZERO })
    }

    /// The speed that is shown, in km/h.
    pub fn speed_kmh(&self) -> (r: Double)
        ensures
            r == self.last_speed_kmh,
    {
        self.last_speed_kmh
    }
}

/// The question for a speed.
pub open spec fn speed_question(draw: u64) -> Ask {
    Ask::Speed {
        lo: crate::double::dbl(SPEED_MIN_KMH),
        hi: crate::double::dbl(SPEED_MAX_KMH),
        draw,
    }
}

/// The question for the length of a drive.
pub open spec fn drive_question(draw: u64) -> Ask {
    Ask::Between {
        lo: crate::double::dbl(DRIVE_MIN_SECS),
        hi: crate::double::dbl(DRIVE_MAX_SECS),
        draw,
    }
}

fn ask_speed(draw: u64) -> (r: Ask)
    ensures
        r == speed_question(draw),
{
    Ask::Speed { lo: Double { bits: SPEED_MIN_KMH }, hi: Double { bits: SPEED_MAX_KMH }, draw }
}

fn ask_drive(draw: u64) -> (r: Ask)
    ensures
        r == drive_question(draw),
{
    Ask::Between { lo: Double { bits: DRIVE_MIN_SECS }, hi: Double { bits: DRIVE_MAX_SECS }, draw }
}

proof fn lemma_small(i: int, n: int)
    requires
        0 <= i < n,
    ensures
        i % n == i,
{
    vstd::arithmetic::div_mod::lemma_small_mod(i as nat, n as nat);
}

proof fn lemma_wrap(i: int, n: int)
    requires
        0 <= i < n,
    ensures
        (i + n) % n == i,
{
    vstd::arithmetic::div_mod::lemma_mod_add_multiples_vanish(i, n);
    lemma_small(i, n);
}

/// The place after the one `k` places from `start`, round and round.
proof fn lemma_round(start: int, k: int, n: int)
    requires
        0 <= start < n,
        0 <= k,
    ensures
        (start + (k + 1)) % n == if (start + k) % n + 1 == n {
            0
        } else {
            (start + k) % n + 1
        },
        ((start + k) % n + 1) % n == (start + (k + 1)) % n,
{
    let a = start + k;
    vstd::arithmetic::div_mod::lemma_add_mod_noop(a, 1, n);
    let m = a % n;
    if m + 1 == n {
        vstd::arithmetic::div_mod::lemma_mod_self_0(n);
    } else {
        lemma_small(m + 1, n);
    }
    vstd::arithmetic::div_mod::lemma_add_mod_noop_right(1, a, n);
}

/// The node picked is a neighbour or the node come from, and the latter only
/// where there is no other neighbour.
pub proof fn law_no_turning_back(g: Graph, state: u64, node: int, avoid: int)
    requires
        g.wf(),
        0 <= node < g.nodes@.len(),
    ensures
        ({
            let next = picked(g, state, node, avoid);
            &&& next == avoid || g.edge(node, next) && 0 <= next < g.nodes@.len()
            &&& next == avoid <==> forall|k: int|
                0 <= k < g.adj@[node]@.len() ==> #[trigger] g.adj@[node]@[k] == avoid
        }),
{
    let neighbours = g.adj@[node]@;
    let keep = other_than(avoid);
    let alternatives = neighbours.filter(keep);
    assert(alternatives == others(neighbours, avoid));
    lemma_filtered(neighbours, keep);
    if alternatives.len() > 0 {
        let j = drawn(state) as int % alternatives.len() as int;
        assert(keep(alternatives[j]));
        assert(neighbours.contains(alternatives[j]));
        let k = neighbours.index_of(alternatives[j]);
        assert(neighbours[k] != avoid);
        assert(g.adj@[node]@[k] == picked(g, state, node, avoid));
    }
}

/// A filtered list holds those items of the list that satisfy the condition.
proof fn lemma_filtered(s: Seq<u32>, keep: spec_fn(u32) -> bool)
    ensures
        forall|i: int|
            0 <= i < s.filter(keep).len() ==> keep(#[trigger] s.filter(keep)[i]) && s.contains(
                s.filter(keep)[i],
            ),
        s.filter(keep).len() == 0 ==> forall|k: int| 0 <= k < s.len() ==> !keep(#[trigger] s[k]),
    decreases s.len(),
{
    reveal(Seq::filter);
    if s.len() > 0 {
        let t = s.drop_last();
        lemma_filtered(t, keep);
        let f = s.filter(keep);
        assert forall|i: int| 0 <= i < f.len() implies keep(#[trigger] f[i]) && s.contains(f[i]) by {
            if i < t.filter(keep).len() {
                assert(f[i] == t.filter(keep)[i]);
                assert(t.contains(f[i]));
                let k = t.index_of(f[i]);
                assert(s[k] == f[i]);
            } else {
                assert(s[s.len() - 1] == f[i]);
            }
        }
        if f.len() == 0 {
            assert forall|k: int| 0 <= k < s.len() implies !keep(#[trigger] s[k]) by {
                if k < t.len() {
                    assert(t[k] == s[k]);
                }
            }
        }
    }
}

/// The vehicle stays on the graph whatever the answers are; and where roads lead
/// both ways, it is on a road all the time.
pub proof fn law_stays_on_the_graph(s: Simulator, v: Double)
    requires
        s.wf(),
        s.graph.wf(),
        s.heads_for_a_node(),
    ensures
        s.answered(v).wf(),
        s.answered(v).heads_for_a_node(),
        s.answered(v).graph == s.graph,
        s.graph.two_way() && s.graph.edge(s.from as int, s.to as int) ==> s.graph.edge(
            s.answered(v).from as int,
            s.answered(v).to as int,
        ),
{
    law_no_turning_back(s.graph, s.rng.state, s.to as int, s.from as int);
}

/// The vehicle starts on a road.
pub proof fn law_starts_on_a_road(graph: Graph, seed: u64)
    requires
        graph.wf(),
        has_edges(graph),
    ensures
        ({
            let s = Simulator::built(graph, seed);
            &&& s.graph.edge(s.from as int, s.to as int)
            &&& s.from < graph.nodes@.len() && s.heads_for_a_node()
            &&& (s.lat, s.lon) == graph.nodes@[s.from as int]
        }),
{
    let n = graph.nodes@.len();
    assert(n == graph.nodes.len());
    let start = drawn(seeded(seed)) as int % n as int;
    let i = choose|i: int| 0 <= i < n && (#[trigger] graph.adj@[i]@).len() > 0;
    lemma_linked(graph, start, n, i);
    let from = linked(graph, start, n);
    let neighbours = graph.adj@[from]@;
    let k = drawn(next_state(seeded(seed))) as int % neighbours.len() as int;
    let s = Simulator::built(graph, seed);
    assert(s.from == from);
    assert(s.to == neighbours[k]);
    assert(graph.adj@[from]@[k] == s.to as int);
}

/// A search over enough nodes finds one with a neighbour.
proof fn lemma_linked(g: Graph, at: int, left: nat, i: int)
    requires
        g.wf(),
        0 <= at < g.nodes@.len(),
        0 <= i < g.nodes@.len(),
        g.adj@[i]@.len() > 0,
        left >= if i >= at {
            i - at
        } else {
            i - at + g.nodes@.len()
        },
    ensures
        0 <= linked(g, at, left) < g.nodes@.len(),
        g.adj@[linked(g, at, left)]@.len() > 0,
    decreases left,
{
    let n = g.nodes@.len() as int;
    if left > 0 && g.adj@[at]@.len() == 0 {
        if at + 1 == n {
            vstd::arithmetic::div_mod::lemma_mod_self_0(n);
        } else {
            lemma_small(at + 1, n);
        }
        lemma_linked(g, (at + 1) % n, (left - 1) as nat, i);
    }
}

/// A vehicle whose pause outlasts the time does not move, and shows no speed.
pub proof fn law_pause(s: Simulator, dt: Double, rest: Double)
    requires
        s.phase is Idle,
        !dt.at_most(crate::double::dbl(ZERO)),
        crate::double::dbl(ZERO).below(s.pause_secs_left),
        crate::double::dbl(ZERO).below(rest),
    ensures
        ({
            let t = s.begun(dt).answered(rest);
            &&& s.begun(dt).question() == Ask::Less { left: s.pause_secs_left, by: dt }
            &&& t.phase is Idle
            &&& t.pause_secs_left == rest
            &&& !t.drives()
            &&& t.last_speed_kmh == crate::double::dbl(ZERO)
            &&& (t.lat, t.lon, t.from, t.to, t.offset_m) == (s.lat, s.lon, s.from, s.to, s.offset_m)
        }),
{
}

/// Whether no speed is shown during a pause.
pub open spec fn honest(s: Simulator) -> bool {
    let paused = crate::double::dbl(ZERO).below(s.pause_secs_left);
    match s.phase {
        Phase::Idle | Phase::Pausing { .. } => paused ==> s.last_speed_kmh
            == crate::double::dbl(ZERO),
        Phase::NewPause { .. } | Phase::NewDrive { .. } => true,
        _ => !paused,
    }
}

/// No speed is ever shown during a pause.
pub proof fn law_no_speed_while_paused(s: Simulator, v: Double, graph: Graph, seed: u64)
    ensures
        honest(Simulator::built(graph, seed)),
        honest(s) && s.phase is Idle ==> honest(s.begun(v)),
        honest(s) ==> honest(s.answered(v)),
{
}

/// The position changes only by the answers to the questions for it, and nothing
/// but time above 0 makes the simulator ask.
pub proof fn law_position_changes_when_asked(s: Simulator, v: Double)
    ensures
        s.phase !is Latitude ==> s.answered(v).lat == s.lat,
        s.phase !is Longitude ==> s.answered(v).lon == s.lon,
        s.begun(v).lat == s.lat && s.begun(v).lon == s.lon,
        v.at_most(crate::double::dbl(ZERO)) ==> s.begun(v) == s,
{
}

/// A bound on the questions to come.
pub open spec fn questions_left(s: Simulator) -> int {
    let most = 3 * MAX_STEPS as int;
    match s.phase {
        Phase::Idle => 0,
        Phase::FirstDrive { .. } | Phase::NewDrive { .. } | Phase::Longitude => 1,
        Phase::FirstSpeed { .. } | Phase::NewPause { .. } | Phase::Latitude => 2,
        Phase::Arriving { .. } => 3,
        Phase::Turning { steps, .. } => most - 3 * steps + 3,
        Phase::Spending { steps, .. } => most - 3 * steps + 4,
        Phase::Measuring { steps, .. } => most - 3 * steps + 5,
        Phase::Budgeting { .. } => most + 3,
        Phase::Showing { .. } => most + 4,
        Phase::Driving { .. } => most + 5,
        Phase::Restarting { .. } => most + 6,
        Phase::Pausing { .. } => most + 7,
    }
}

/// Every answer brings the simulator nearer to having nothing to ask, even in a
/// cycle of edges without length.
pub proof fn law_questions_end(s: Simulator, v: Double)
    requires
        s.wf(),
    ensures
        questions_left(s) >= 0,
        questions_left(s) == 0 <==> s.question() is Done,
        s.question() !is Done ==> questions_left(s.answered(v)) < questions_left(s),
{
}

/// What is done with a simulator: it is told to go on for a time, or answered.
pub enum Command {
    Advance(Double),
    Answer(Double),
}

/// A simulator after some commands.
pub open spec fn driven(s: Simulator, commands: Seq<Command>) -> Simulator
    decreases commands.len(),
{
    if commands.len() == 0 {
        s
    } else {
        let t = driven(s, commands.drop_last());
        match commands.last() {
            Command::Advance(dt) => t.begun(dt),
            Command::Answer(v) => t.answered(v),
        }
    }
}

/// Whether the simulator is told to go on only when it has nothing to ask.
pub open spec fn proper(s: Simulator, commands: Seq<Command>) -> bool {
    forall|k: int|
        0 <= k < commands.len() && (#[trigger] commands[k]) is Advance ==> driven(
            s,
            commands.take(k),
        ).phase is Idle
}

/// Whether a latitude is the answer that comes after `k` commands, to the question
/// where on an edge of the graph the vehicle is.
pub open spec fn found_latitude(s: Simulator, commands: Seq<Command>, k: int, lat: Double) -> bool {
    let t = driven(s, commands.take(k));
    &&& 0 <= k < commands.len()
    &&& t.graph == s.graph
    &&& t.from < s.graph.nodes@.len() && t.to < s.graph.nodes@.len()
    &&& s.graph.edge(t.from as int, t.to as int)
    &&& t.question() == (Ask::Latitude {
        a: s.graph.nodes@[t.from as int],
        b: s.graph.nodes@[t.to as int],
        offset: t.offset_m,
    })
    &&& commands[k] == Command::Answer(lat)
}

/// Whether latitude and longitude are the answers that come one after the other
/// after `k` commands, to the questions where on one edge of the graph, and how far
/// along it, the vehicle is.
pub open spec fn found_on_a_road(
    s: Simulator,
    commands: Seq<Command>,
    k: int,
    lat: Double,
    lon: Double,
) -> bool {
    let t = driven(s, commands.take(k));
    &&& found_latitude(s, commands, k, lat)
    &&& k + 1 < commands.len()
    &&& driven(s, commands.take(k + 1)).question() == (Ask::Longitude {
        a: s.graph.nodes@[t.from as int],
        b: s.graph.nodes@[t.to as int],
        offset: t.offset_m,
    })
    &&& commands[k + 1] == Command::Answer(lon)
}

/// The vehicle is always on a road: on a graph whose roads lead both ways, every
/// position that is shown is that of the node where it started, or was found as a
/// point between the two ends of an edge of the graph.
pub proof fn law_always_on_a_road(graph: Graph, seed: u64, commands: Seq<Command>)
    requires
        graph.wf(),
        graph.two_way(),
        has_edges(graph),
        proper(Simulator::built(graph, seed), commands),
        driven(Simulator::built(graph, seed), commands).phase is Idle,
    ensures
        ({
            let s = Simulator::built(graph, seed);
            let t = driven(s, commands);
            ||| (t.lat, t.lon) == graph.nodes@[s.from as int]
            ||| exists|k: int| #[trigger] found_on_a_road(s, commands, k, t.lat, t.lon)
        }),
{
    law_starts_on_a_road(graph, seed);
    lemma_on_a_road(Simulator::built(graph, seed), commands);
}

proof fn lemma_on_a_road(s: Simulator, commands: Seq<Command>)
    requires
        s.wf(),
        s.graph.wf(),
        s.graph.two_way(),
        s.heads_for_a_node(),
        s.graph.edge(s.from as int, s.to as int),
        s.phase !is Longitude,
        proper(s, commands),
    ensures
        ({
            let t = driven(s, commands);
            &&& t.wf()
            &&& t.graph == s.graph
            &&& t.heads_for_a_node()
            &&& s.graph.edge(t.from as int, t.to as int)
            &&& if t.phase is Longitude {
                let k = commands.len() - 1;
                &&& found_latitude(s, commands, k, t.lat)
                &&& driven(s, commands.take(k)).answered(t.lat) == t
            } else {
                ||| (t.lat, t.lon) == (s.lat, s.lon)
                ||| exists|k: int| #[trigger] found_on_a_road(s, commands, k, t.lat, t.lon)
            }
        }),
    decreases commands.len(),
{
    if commands.len() > 0 {
        let before = commands.drop_last();
        let n = before.len() as int;
        assert forall|k: int| 0 <= k < before.len() && (#[trigger] before[k])
            is Advance implies driven(s, before.take(k)).phase is Idle by {
            assert(commands[k] is Advance);
            assert(before.take(k) =~= commands.take(k));
        }
        lemma_on_a_road(s, before);
        let u = driven(s, before);
        let t = driven(s, commands);
        assert(commands.take(n) =~= before);
        assert(commands[n] == commands.last());
        match commands.last() {
            Command::Advance(dt) => {
                assert(u.phase is Idle);
                assert(t == u.begun(dt));
            },
            Command::Answer(v) => {
                law_stays_on_the_graph(u, v);
                assert(t == u.answered(v));
                if u.phase is Latitude {
                    assert(found_latitude(s, commands, n, v));
                } else if u.phase is Longitude {
                    let k = n - 1;
                    assert(before.take(k) =~= commands.take(k));
                    assert(commands.take(k + 1) =~= before);
                    assert(found_latitude(s, before, k, u.lat));
                    assert(commands[k] == before[k]);
                    assert(found_on_a_road(s, commands, k, t.lat, t.lon));
                } else {
                    law_position_changes_when_asked(u, v);
                }
            },
        }
        if u.phase !is Longitude && t.phase !is Longitude && !((u.lat, u.lon) == (s.lat, s.lon)) {
            let k = choose|k: int| #[trigger] found_on_a_road(s, before, k, u.lat, u.lon);
            assert(before.take(k) =~= commands.take(k));
            assert(before.take(k + 1) =~= commands.take(k + 1));
            assert(commands[k] == before[k] && commands[k + 1] == before[k + 1]);
            assert(found_on_a_road(s, commands, k, t.lat, t.lon));
        }
    }
}

/// A simulator after some answers.
pub open spec fn told(s: Simulator, answers: Seq<Double>) -> Simulator
    decreases answers.len(),
{
    if answers.len() == 0 {
        s
    } else {
        told(s, answers.drop_last()).answered(answers.last())
    }
}

/// Whether an answer is exactly the number that a question describes, where `length`
/// is the distance between two positions and `way` the product of speed and time.
/// Numbers drawn, speeds shown and coordinates may be any.
pub open spec fn exact(
    q: Ask,
    v: Double,
    length: spec_fn((Double, Double), (Double, Double)) -> int,
    way: spec_fn(Double, Double) -> int,
) -> bool {
    &&& !v.is_nan()
    &&& match q {
        Ask::Less { left, by } => v.value() == left.value() - by.value(),
        Ask::More { offset, by } => v.value() == offset.value() + by.value(),
        Ask::Way { mps, secs } => v.value() == way(mps, secs),
        Ask::Remaining { a, b, offset } => v.value() == length(a, b) - offset.value(),
        _ => true,
    }
}

/// Whether every answer is exact.
pub open spec fn truthful(
    s: Simulator,
    answers: Seq<Double>,
    length: spec_fn((Double, Double), (Double, Double)) -> int,
    way: spec_fn(Double, Double) -> int,
) -> bool
    decreases answers.len(),
{
    answers.len() > 0 ==> {
        &&& truthful(s, answers.drop_last(), length, way)
        &&& exact(told(s, answers.drop_last()).question(), answers.last(), length, way)
    }
}

/// How far the end of the edge is from where the vehicle is.
pub open spec fn ahead(
    s: Simulator,
    length: spec_fn((Double, Double), (Double, Double)) -> int,
) -> int {
    length(s.graph.nodes@[s.from as int], s.graph.nodes@[s.to as int]) - s.offset_m.value()
}

/// How far the vehicle went between two states that follow each other: on to another
/// place on the edge, or, when it leaves the edge, to its end.
pub open spec fn went(
    s: Simulator,
    t: Simulator,
    length: spec_fn((Double, Double), (Double, Double)) -> int,
) -> int {
    if s.phase is Arriving {
        t.offset_m.value() - s.offset_m.value()
    } else if (s.phase is Measuring || s.phase is Spending) && t.phase !is Arriving && t.phase
        !is Spending {
        if ahead(s, length) > 0 {
            ahead(s, length)
        } else {
            0
        }
    } else {
        0
    }
}

/// How far the vehicle went in all, while it was told some answers.
pub open spec fn odometer(
    s: Simulator,
    answers: Seq<Double>,
    length: spec_fn((Double, Double), (Double, Double)) -> int,
) -> int
    decreases answers.len(),
{
    if answers.len() == 0 {
        0
    } else {
        odometer(s, answers.drop_last(), length) + went(
            told(s, answers.drop_last()),
            told(s, answers),
            length,
        )
    }
}

/// The way that the vehicle has still to go.
pub open spec fn to_go(s: Simulator) -> Option<Double> {
    match s.phase {
        Phase::Measuring { budget, .. } => Some(budget),
        Phase::Spending { budget, .. } => Some(budget),
        Phase::Turning { budget, .. } => Some(budget),
        Phase::Arriving { budget } => Some(budget),
        _ => None,
    }
}

/// Whether the numbers of a vehicle that is on its way agree with each other.
pub open spec fn agrees(
    s: Simulator,
    length: spec_fn((Double, Double), (Double, Double)) -> int,
) -> bool {
    &&& to_go(s) matches Some(b) ==> !b.is_nan()
    &&& s.phase matches Phase::Spending { remain, .. } ==> remain.value() == ahead(s, length)
        && ahead(s, length) > 0
}

/// Whether an advance has gone over as many edges as one may.
pub open spec fn worn_out(s: Simulator) -> bool {
    match s.phase {
        Phase::Measuring { steps, .. } => steps >= 10_000,
        Phase::Spending { steps, .. } => steps >= 10_000,
        Phase::Turning { steps, .. } => steps >= 10_000,
        _ => false,
    }
}

/// No way is lost or gained: whatever the vehicle goes is taken from the way that it
/// has to go, and it stops when nothing of that is left (or after 10000 edges).
pub proof fn law_no_way_is_lost(
    s: Simulator,
    v: Double,
    length: spec_fn((Double, Double), (Double, Double)) -> int,
    way: spec_fn(Double, Double) -> int,
)
    requires
        s.wf(),
        to_go(s) is Some,
        agrees(s, length),
        exact(s.question(), v, length, way),
    ensures
        ({
            let t = s.answered(v);
            &&& agrees(t, length)
            &&& match to_go(t) {
                Some(rest) => to_go(s)->0.value() == went(s, t, length) + rest.value(),
                None => t.phase is Latitude && (to_go(s)->0.value() == went(s, t, length)
                    || worn_out(s)),
            }
        }),
{
    assert(crate::double::dbl(ZERO).value() == 0);
}

/// Whether somewhere on the way an advance has gone over as many edges as one may.
pub open spec fn wears_out(s: Simulator, answers: Seq<Double>) -> bool
    decreases answers.len(),
{
    answers.len() > 0 && (wears_out(s, answers.drop_last()) || worn_out(
        told(s, answers.drop_last()),
    ))
}

/// In one advance a vehicle that drives goes as far as its speed takes it in the time,
/// over however many edges; unless the drive is over, when it does not move. (After
/// 10000 edges it gives up.)
pub proof fn law_way_is_speed_times_time(
    s: Simulator,
    dt: Double,
    answers: Seq<Double>,
    length: spec_fn((Double, Double), (Double, Double)) -> int,
    way: spec_fn(Double, Double) -> int,
)
    requires
        s.wf(),
        s.graph.wf(),
        s.heads_for_a_node(),
        s.phase is Idle,
        s.drives(),
        !dt.at_most(crate::double::dbl(ZERO)),
        truthful(s.begun(dt), answers, length, way),
        told(s.begun(dt), answers).phase is Idle,
    ensures
        answers.len() > 0,
        if answers[0].at_most(crate::double::dbl(ZERO)) {
            odometer(s.begun(dt), answers, length) == 0
        } else {
            odometer(s.begun(dt), answers, length) == way(s.speed_mps, dt) || wears_out(
                s.begun(dt),
                answers,
            )
        },
{
    lemma_odometer(s, dt, answers, length, way);
}

proof fn lemma_odometer(
    s: Simulator,
    dt: Double,
    answers: Seq<Double>,
    length: spec_fn((Double, Double), (Double, Double)) -> int,
    way: spec_fn(Double, Double) -> int,
)
    requires
        s.wf(),
        s.graph.wf(),
        s.heads_for_a_node(),
        s.phase is Idle,
        s.drives(),
        !dt.at_most(crate::double::dbl(ZERO)),
        truthful(s.begun(dt), answers, length, way),
    ensures
        ({
            let t = told(s.begun(dt), answers);
            let went = odometer(s.begun(dt), answers, length);
            let over = answers.len() > 0 && answers[0].at_most(crate::double::dbl(ZERO));
            let worn = wears_out(s.begun(dt), answers);
            &&& t.wf() && t.graph == s.graph && t.heads_for_a_node()
            &&& agrees(t, length)
            &&& match t.phase {
                Phase::Driving { dt: d } => answers.len() == 0 && d == dt && went == 0 && t.speed_mps
                    == s.speed_mps,
                Phase::NewPause { .. } | Phase::NewDrive { .. } => over && went == 0,
                Phase::Showing { dt: d } => answers.len() > 0 && !over && d == dt && went == 0
                    && t.speed_mps == s.speed_mps,
                Phase::Budgeting { dt: d } => answers.len() > 0 && !over && d == dt && went == 0
                    && t.speed_mps == s.speed_mps,
                Phase::Latitude | Phase::Longitude => answers.len() > 0 && !over && (went == way(
                    s.speed_mps,
                    dt,
                ) || worn),
                Phase::Idle => answers.len() > 0 && if over {
                    went == 0
                } else {
                    went == way(s.speed_mps, dt) || worn
                },
                _ => {
                    &&& answers.len() > 0 && !over
                    &&& to_go(t) matches Some(b) && (went + b.value() == way(s.speed_mps, dt))
                },
            }
        }),
    decreases answers.len(),
{
    assert(crate::double::dbl(ZERO).value() == 0);
    if answers.len() > 0 {
        let before = answers.drop_last();
        lemma_odometer(s, dt, before, length, way);
        let u = told(s.begun(dt), before);
        let v = answers.last();
        law_stays_on_the_graph(u, v);
        if before.len() > 0 {
            assert(before[0] == answers[0]);
        } else {
            assert(answers[0] == v);
        }
        if to_go(u) is Some {
            law_no_way_is_lost(u, v, length, way);
        }
    }
}

/// A vehicle whose way ends on the edge that it is on is asked for, and gets, the sum
/// of how far it was and how far it goes; it stays on the edge, at its speed. Each
/// number that is asked for is made of what the simulator held before the advance and
/// of the answers so far.
pub proof fn law_drive_on_one_edge(
    s: Simulator,
    dt: Double,
    left: Double,
    kmh: Double,
    way: Double,
    remain: Double,
    offset: Double,
    lat: Double,
    lon: Double,
)
    requires
        s.wf(),
        s.phase is Idle,
        s.drives(),
        !dt.at_most(crate::double::dbl(ZERO)),
        !left.at_most(crate::double::dbl(ZERO)),
        way.below(remain),
    ensures
        ({
            let a = s.graph.nodes@[s.from as int];
            let b = s.graph.nodes@[s.to as int];
            let t0 = s.begun(dt);
            let t1 = t0.answered(left);
            let t2 = t1.answered(kmh);
            let t3 = t2.answered(way);
            let t4 = t3.answered(remain);
            let t5 = t4.answered(offset);
            let t6 = t5.answered(lat);
            &&& t0.question() == (Ask::Less { left: s.drive_secs_left, by: dt })
            &&& t1.question() == (Ask::Kmh { mps: s.speed_mps })
            &&& t2.question() == (Ask::Way { mps: s.speed_mps, secs: dt })
            &&& t3.question() == (Ask::Remaining { a, b, offset: s.offset_m })
            &&& t4.question() == (Ask::More { offset: s.offset_m, by: way })
            &&& t5.question() == (Ask::Latitude { a, b, offset })
            &&& t6.question() == (Ask::Longitude { a, b, offset })
            &&& t6.answered(lon) == (Simulator {
                drive_secs_left: left,
                last_speed_kmh: kmh,
                offset_m: offset,
                lat,
                lon,
                ..s
            })
        }),
{
}

/// Whether a question is for a number between two whole ones, at a place that is drawn
/// with the generator in a state.
pub open spec fn asks_between(q: Ask, lo: int, hi: int, state: u64) -> bool {
    &&& q matches Ask::Between { lo: l, hi: h, draw }
    &&& l.is_whole(lo) && h.is_whole(hi)
    &&& draw * 2_048 <= drawn(state) < (draw + 1) * 2_048
}

/// Whether a question is for a speed between 30 and 70 km/h, drawn with the generator
/// in a state.
pub open spec fn asks_for_a_speed(q: Ask, state: u64) -> bool {
    &&& q matches Ask::Speed { lo, hi, draw }
    &&& lo.is_whole(30) && hi.is_whole(70)
    &&& draw * 2_048 <= drawn(state) < (draw + 1) * 2_048
}

proof fn lemma_upper(x: u64)
    ensures
        upper53(x) * 2_048 <= x < (upper53(x) + 1) * 2_048,
        upper53(x) < 0x20_0000_0000_0000,
{
    assert((x >> 11) * 2_048 <= x && x < ((x >> 11) + 1) * 2_048 && (x >> 11)
        < 0x20_0000_0000_0000) by (bit_vector);
}

/// A new vehicle is given a speed between 30 and 70 km/h and a drive of 90 to 600
/// seconds, drawn one after the other; it is not paused, and at the start of its edge.
pub proof fn law_beginning(graph: Graph, seed: u64, speed: Double, drive: Double)
    ensures
        ({
            let s = Simulator::built(graph, seed);
            let drawn_twice = next_state(next_state(seeded(seed)));
            let t = s.answered(speed);
            &&& asks_for_a_speed(s.question(), drawn_twice)
            &&& asks_between(t.question(), 90, 600, next_state(drawn_twice))
            &&& t.answered(drive) == (Simulator {
                rng: Rng { state: next_state(next_state(drawn_twice)) },
                speed_mps: speed,
                drive_secs_left: drive,
                phase: Phase::Idle,
                ..s
            })
            &&& s.drives()
            &&& s.offset_m.is_whole(0) && s.pause_secs_left.is_whole(0)
            &&& s.last_speed_kmh.is_whole(0)
        }),
{
    law_limits();
    crate::double::law_constants();
    let s0 = seeded(seed);
    lemma_upper(drawn(next_state(next_state(s0))));
    lemma_upper(drawn(next_state(next_state(next_state(s0)))));
}

/// A vehicle starts at the first node with a neighbour from the one that is drawn on,
/// round and round: every node before it, from that one on, has none. Which of the
/// neighbours of that node it heads for is drawn next.
pub proof fn law_start_is_the_next_linked_node(graph: Graph, seed: u64, k: int)
    requires
        graph.wf(),
        has_edges(graph),
        0 <= k,
    ensures
        ({
            let n = graph.nodes@.len() as int;
            let start = drawn(seeded(seed)) as int % n;
            let from = Simulator::built(graph, seed).from as int;
            let steps = if from >= start {
                from - start
            } else {
                from - start + n
            };
            let neighbours = graph.adj@[from]@;
            let second = drawn(next_state(seeded(seed))) as int;
            &&& neighbours.len() > 0
            &&& Simulator::built(graph, seed).to == neighbours[second % neighbours.len() as int]
            &&& k < steps ==> graph.adj@[(start + k) % n]@.len() == 0
        }),
{
    let n = graph.nodes@.len();
    assert(n == graph.nodes.len());
    let start = drawn(seeded(seed)) as int % n as int;
    let i = choose|i: int| 0 <= i < n && (#[trigger] graph.adj@[i]@).len() > 0;
    lemma_linked(graph, start, n, i);
    lemma_linked_passes(graph, start, n, i, k);
}

proof fn lemma_linked_passes(g: Graph, at: int, left: nat, i: int, k: int)
    requires
        g.wf(),
        0 <= at < g.nodes@.len(),
        0 <= i < g.nodes@.len(),
        g.adj@[i]@.len() > 0,
        left >= if i >= at {
            i - at
        } else {
            i - at + g.nodes@.len()
        },
        left <= g.nodes@.len(),
        0 <= k,
    ensures
        ({
            let n = g.nodes@.len() as int;
            let from = linked(g, at, left);
            let steps = if from >= at {
                from - at
            } else {
                from - at + n
            };
            &&& 0 <= from < n
            &&& k < steps ==> g.adj@[(at + k) % n]@.len() == 0
        }),
    decreases left,
{
    let n = g.nodes@.len() as int;
    lemma_linked(g, at, left, i);
    if left > 0 && g.adj@[at]@.len() == 0 {
        let next = (at + 1) % n;
        if at + 1 == n {
            vstd::arithmetic::div_mod::lemma_mod_self_0(n);
        } else {
            lemma_small(at + 1, n);
        }
        lemma_linked(g, next, (left - 1) as nat, i);
        if k == 0 {
            lemma_small(at, n);
        } else {
            lemma_linked_passes(g, next, (left - 1) as nat, i, k - 1);
            vstd::arithmetic::div_mod::lemma_add_mod_noop_right(k - 1, at + 1, n);
            assert((at + k) % n == (next + (k - 1)) % n);
        }
    }
}

/// How many of the first `k` neighbours are other than one.
pub open spec fn rank(neighbours: Seq<u32>, avoid: int, k: int) -> int
    decreases k,
{
    if k <= 0 {
        0
    } else {
        rank(neighbours, avoid, k - 1) + if neighbours[k - 1] != avoid {
            1int
        } else {
            0
        }
    }
}

/// The draw decides where a vehicle turns: of the neighbours other than the node that
/// it comes from, counted in their order, it takes the one whose number is the
/// remainder of the draw.
pub proof fn law_draw_decides(g: Graph, state: u64, node: int, avoid: int, k: int)
    requires
        0 <= node,
        0 <= k < g.adj@[node]@.len(),
        g.adj@[node]@[k] != avoid,
        ({
            let all = rank(g.adj@[node]@, avoid, g.adj@[node]@.len() as int);
            all > 0 && rank(g.adj@[node]@, avoid, k) == drawn(state) as int % all
        }),
    ensures
        picked(g, state, node, avoid) == g.adj@[node]@[k],
        picked_state(g, state, node, avoid) == next_state(state),
{
    let neighbours = g.adj@[node]@;
    let keep = other_than(avoid);
    lemma_rank(neighbours, avoid, neighbours.len() as int, k);
    assert(neighbours.take(neighbours.len() as int) =~= neighbours);
}

proof fn lemma_rank(neighbours: Seq<u32>, avoid: int, n: int, k: int)
    requires
        0 <= n <= neighbours.len(),
    ensures
        ({
            let kept = neighbours.take(n).filter(other_than(avoid));
            &&& kept.len() == rank(neighbours, avoid, n)
            &&& 0 <= k < n && neighbours[k] != avoid ==> 0 <= rank(neighbours, avoid, k) < kept.len()
                && kept[rank(neighbours, avoid, k)] == neighbours[k]
        }),
    decreases n,
{
    reveal(Seq::filter);
    let keep = other_than(avoid);
    if n > 0 {
        lemma_rank(neighbours, avoid, n - 1, k);
        assert(neighbours.take(n).drop_last() =~= neighbours.take(n - 1));
        assert(neighbours.take(n).last() == neighbours[n - 1]);
    } else {
        assert(neighbours.take(0).filter(keep) =~= Seq::<u32>::empty());
    }
}

/// A vehicle that comes to the end of its edge goes on, from the node there, at the
/// start of another edge, with what is left of its way. At a node with two neighbours
/// it keeps its speed; at any other it is given a new one. Where it goes is drawn
/// first; on a dead end it turns round, and nothing is drawn for that. (A vehicle that
/// is at the end of its edge already, or beyond, keeps the whole of its way.)
#[verifier::rlimit(30)]
pub proof fn law_node_is_reached(
    s: Simulator,
    budget: Double,
    steps: u32,
    remain: Double,
    rest: Double,
    speed: Double,
)
    requires
        s.wf(),
        s.graph.wf(),
        s.heads_for_a_node(),
        s.phase == (Phase::Measuring { budget, steps }),
        !budget.below(remain),
    ensures
        ({
            let u = s.answered(remain);
            let short = crate::double::dbl(ZERO).below(remain);
            let (t, kept) = if short {
                (u.answered(rest), rest)
            } else {
                (u, budget)
            };
            let next = if steps < 10_000 {
                Phase::Measuring { budget: kept, steps: (steps + 1) as u32 }
            } else {
                Phase::Latitude
            };
            let neighbours = s.graph.adj@[s.to as int]@;
            let dead_end = forall|k: int|
                0 <= k < neighbours.len() ==> #[trigger] neighbours[k] == s.from;
            let state = if dead_end {
                s.rng.state
            } else {
                next_state(s.rng.state)
            };
            &&& short ==> u.question() == (Ask::Less { left: budget, by: remain })
            &&& t.from == s.to
            &&& t.offset_m.is_whole(0)
            &&& dead_end ==> t.to == s.from
            &&& !dead_end ==> t.to != s.from && s.graph.edge(s.to as int, t.to as int)
            &&& (t.graph, t.drive_secs_left, t.pause_secs_left, t.last_speed_kmh, t.lat, t.lon) == (
                s.graph,
                s.drive_secs_left,
                s.pause_secs_left,
                s.last_speed_kmh,
                s.lat,
                s.lon,
            )
            &&& t.speed_mps == s.speed_mps
            &&& if neighbours.len() == 2 {
                &&& t.rng.state == state
                &&& t.phase == next
            } else {
                &&& t.rng.state == next_state(state)
                &&& asks_for_a_speed(t.question(), state)
                &&& t.answered(speed) == (Simulator { speed_mps: speed, phase: next, ..t })
            }
        }),
{
    law_limits();
    crate::double::law_constants();
    law_no_turning_back(s.graph, s.rng.state, s.to as int, s.from as int);
    let neighbours = s.graph.adj@[s.to as int]@;
    let keep = other_than(s.from as int);
    lemma_filtered(neighbours, keep);
    let kept = others(neighbours, s.from as int);
    if kept.len() > 0 {
        assert(keep(kept[0]) && neighbours.contains(kept[0]));
        let k = neighbours.index_of(kept[0]);
        assert(neighbours[k] != s.from);
    }
    lemma_upper(drawn(s.rng.state));
    lemma_upper(drawn(next_state(s.rng.state)));
}

/// A vehicle on its last stretch, on whatever edge, is asked for the sum of how far it
/// is and how far it has to go, and is there afterwards; its position is then the point
/// so far along that edge.
pub proof fn law_last_stretch(
    s: Simulator,
    budget: Double,
    steps: u32,
    remain: Double,
    offset: Double,
    lat: Double,
    lon: Double,
)
    requires
        s.wf(),
        s.heads_for_a_node(),
        s.phase == (Phase::Measuring { budget, steps }),
        budget.below(remain),
    ensures
        ({
            let a = s.graph.nodes@[s.from as int];
            let b = s.graph.nodes@[s.to as int];
            let t = s.answered(remain);
            let u = t.answered(offset);
            &&& s.question() == (Ask::Remaining { a, b, offset: s.offset_m })
            &&& t.question() == (Ask::More { offset: s.offset_m, by: budget })
            &&& u.question() == (Ask::Latitude { a, b, offset })
            &&& u.answered(lat).question() == (Ask::Longitude { a, b, offset })
            &&& u.answered(lat).answered(lon) == (Simulator {
                offset_m: offset,
                lat,
                lon,
                phase: Phase::Idle,
                ..s
            })
        }),
{
}

/// A pause that is over leaves the vehicle where it is, with a new speed between 30
/// and 70 km/h, and the whole time counts as driven.
#[verifier::rlimit(30)]
pub proof fn law_pause_is_over(s: Simulator, dt: Double, rest: Double, speed: Double)
    requires
        s.phase is Idle,
        !dt.at_most(crate::double::dbl(ZERO)),
        crate::double::dbl(ZERO).below(s.pause_secs_left),
        !crate::double::dbl(ZERO).below(rest),
    ensures
        ({
            let u = s.begun(dt).answered(rest);
            let t = u.answered(speed);
            &&& s.begun(dt).question() == (Ask::Less { left: s.pause_secs_left, by: dt })
            &&& asks_for_a_speed(u.question(), s.rng.state)
            &&& t.drives() && t.pause_secs_left.is_whole(0)
            &&& t.question() == (Ask::Less { left: s.drive_secs_left, by: dt })
            &&& t == (Simulator {
                rng: Rng { state: next_state(s.rng.state) },
                pause_secs_left: crate::double::dbl(0),
                speed_mps: speed,
                ..s
            }).begun(dt)
        }),
{
    law_limits();
    crate::double::law_constants();
    lemma_upper(drawn(s.rng.state));
}

/// When the time of a drive is over the vehicle stops where it is: for 10 to 240
/// seconds, after which it will drive for 90 to 600.
pub proof fn law_drive_is_over(
    s: Simulator,
    dt: Double,
    left: Double,
    pause: Double,
    drive: Double,
)
    requires
        s.phase is Idle,
        s.drives(),
        !dt.at_most(crate::double::dbl(ZERO)),
        left.at_most(crate::double::dbl(ZERO)),
    ensures
        ({
            let u = s.begun(dt).answered(left);
            let t = u.answered(pause);
            &&& s.begun(dt).question() == (Ask::Less { left: s.drive_secs_left, by: dt })
            &&& asks_between(u.question(), 10, 240, s.rng.state)
            &&& asks_between(t.question(), 90, 600, next_state(s.rng.state))
            &&& t.answered(drive) == (Simulator {
                rng: Rng { state: next_state(next_state(s.rng.state)) },
                pause_secs_left: pause,
                drive_secs_left: drive,
                last_speed_kmh: crate::double::dbl(0),
                ..s
            })
        }),
{
    law_limits();
    lemma_upper(drawn(s.rng.state));
    lemma_upper(drawn(next_state(s.rng.state)));
}

/// A vehicle counts as moving exactly if no time of a pause is left.
pub proof fn law_moving(s: Simulator)
    ensures
        s.drives() <==> !s.pause_secs_left.is_nan() && s.pause_secs_left.value() <= 0,
{
}

/// The generator loses nothing: no two states lead to the same state.
pub proof fn law_states_stay_apart(x: u64, y: u64)
    ensures
        next_state(x) == next_state(y) ==> x == y,
{
    assert(x ^ (x << 13) == y ^ (y << 13) ==> x == y) by (bit_vector);
    let a = x ^ (x << 13);
    let b = y ^ (y << 13);
    assert(a ^ (a >> 7) == b ^ (b >> 7) ==> a == b) by (bit_vector);
    let c = a ^ (a >> 7);
    let d = b ^ (b >> 7);
    assert(c ^ (c << 17) == d ^ (d << 17) ==> c == d) by (bit_vector);
}

/// A simulator can go on whatever it is about to do, as long as the vehicle heads for a
/// node of the graph; and if it does not, as long as no position of that node is needed.
pub proof fn law_when_it_can_go_on(s: Simulator)
    ensures
        s.to < s.graph.nodes@.len() ==> s.can_go_on(),
        s.phase !is Measuring && s.phase !is Latitude ==> s.can_go_on(),
        s.phase is Measuring && s.to >= s.graph.nodes@.len() ==> !s.can_go_on(),
        s.phase is Latitude && s.to >= s.graph.nodes@.len() ==> !s.can_go_on(),
{
}

} // verus!
