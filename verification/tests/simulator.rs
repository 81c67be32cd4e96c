//! The vehicle on the road graph.
use georuggine::double::Double;
use georuggine::sim::{
    Ask, Graph, Phase, Rng, Simulator, DRIVE_MAX_SECS, DRIVE_MIN_SECS, PAUSE_MAX_SECS,
    PAUSE_MIN_SECS, SPEED_MAX_KMH, SPEED_MIN_KMH,
};

fn dbl(v: f64) -> Double {
    Double { bits: v.to_bits() }
}

fn num(d: Double) -> f64 {
    f64::from_bits(d.bits)
}

fn haversine_m(lat1: f64, lon1: f64, lat2: f64, lon2: f64) -> f64 {
    let (p1, p2) = (lat1.to_radians(), lat2.to_radians());
    let dphi = (lat2 - lat1).to_radians();
    let dlmb = (lon2 - lon1).to_radians();
    let a = (dphi / 2.0).sin().powi(2) + p1.cos() * p2.cos() * (dlmb / 2.0).sin().powi(2);
    2.0 * 6_371_000.0 * a.sqrt().asin()
}

fn length(a: (Double, Double), b: (Double, Double)) -> f64 {
    haversine_m(num(a.0), num(a.1), num(b.0), num(b.1))
}

fn between(lo: Double, hi: Double, draw: u64) -> f64 {
    num(lo) + (num(hi) - num(lo)) * (draw as f64 / (1u64 << 53) as f64)
}

fn along(from: f64, to: f64, a: (Double, Double), b: (Double, Double), offset: Double) -> f64 {
    let seg = length(a, b);
    let frac = if seg > 0.0 { (num(offset) / seg).clamp(0.0, 1.0) } else { 0.0 };
    from + (to - from) * frac
}

/// The answer to a question; nothing if none is asked.
fn compute(ask: Ask) -> Option<f64> {
    Some(match ask {
        Ask::Done => return None,
        Ask::Less { left, by } => num(left) - num(by),
        Ask::Between { lo, hi, draw } => between(lo, hi, draw),
        Ask::Speed { lo, hi, draw } => between(lo, hi, draw) / 3.6,
        Ask::Kmh { mps } => num(mps) * 3.6,
        Ask::Way { mps, secs } => num(mps) * num(secs),
        Ask::Remaining { a, b, offset } => length(a, b) - num(offset),
        Ask::More { offset, by } => num(offset) + num(by),
        Ask::Latitude { a, b, offset } => along(num(a.0), num(b.0), a, b, offset),
        Ask::Longitude { a, b, offset } => along(num(a.1), num(b.1), a, b, offset),
    })
}

/// Answers everything that the simulator asks, and counts the questions.
fn settle(s: &mut Simulator) -> usize {
    let mut asked = 0;
    loop {
        assert!(s.is_ready());
        match compute(s.ask()) {
            Some(v) => s.answer(dbl(v)),
            None => return asked,
        }
        asked += 1;
    }
}

fn build(graph: Graph, seed: u64) -> Result<Simulator, &'static str> {
    assert!(graph.nodes.len() <= graph.adj.len());
    let mut s = Simulator::new(graph, seed)?;
    settle(&mut s);
    Ok(s)
}

fn advance(s: &mut Simulator, dt: f64) -> usize {
    s.advance(dbl(dt));
    settle(s)
}

// Linear graph 0-1-2-3-4 with coordinates spaced ~127 m apart in longitude.
fn line_graph() -> Graph {
    Graph {
        nodes: (0..5).map(|i| (dbl(45.07), dbl(7.68 + i as f64 * 0.00127))).collect(),
        adj: vec![vec![1], vec![0, 2], vec![1, 3], vec![2, 4], vec![3]],
    }
}

#[test]
fn constants_of_the_drive() {
    assert_eq!(f64::from_bits(SPEED_MIN_KMH), 30.0);
    assert_eq!(f64::from_bits(SPEED_MAX_KMH), 70.0);
    assert_eq!(f64::from_bits(DRIVE_MIN_SECS), 90.0);
    assert_eq!(f64::from_bits(DRIVE_MAX_SECS), 600.0);
    assert_eq!(f64::from_bits(PAUSE_MIN_SECS), 10.0);
    assert_eq!(f64::from_bits(PAUSE_MAX_SECS), 240.0);
}

#[test]
fn parses_and_starts_on_a_node() {
    let s = build(line_graph(), 1).expect("construction");
    assert!((num(s.lat()) - 45.07).abs() < 1e-6);
}

#[test]
fn deterministic_with_same_seed() {
    let mut a = build(line_graph(), 999).unwrap();
    let mut b = build(line_graph(), 999).unwrap();
    for _ in 0..300 {
        advance(&mut a, 0.5);
        advance(&mut b, 0.5);
    }
    assert_eq!(a.lat(), b.lat());
    assert_eq!(a.lon(), b.lon());
}

#[test]
fn stays_on_the_road_line() {
    let mut s = build(line_graph(), 7).unwrap();
    for _ in 0..1000 {
        advance(&mut s, 0.3);
        assert!((num(s.lat()) - 45.07).abs() < 1e-6);
        assert!(num(s.lon()) >= 7.68 - 1e-3);
        assert!(num(s.lon()) <= 7.68 + 4.0 * 0.00127 + 1e-3);
    }
}

#[test]
fn small_steps_move_smoothly() {
    let mut s = build(line_graph(), 3).unwrap();
    // Skip any initial pauses: ensure a driving state.
    s.pause_secs_left = dbl(0.0);
    s.drive_secs_left = dbl(1000.0);
    let (lat0, lon0) = (num(s.lat()), num(s.lon()));
    advance(&mut s, 0.1);
    let moved = haversine_m(lat0, lon0, num(s.lat()), num(s.lon()));
    assert!(moved < 5.0, "per-step displacement too large: {moved} m");
    assert!(moved > 0.5);
    let kmh = num(s.speed_kmh());
    assert!(kmh >= 30.0 && kmh <= 70.0);
}

#[test]
fn speed_zero_while_paused() {
    let mut s = build(line_graph(), 42).unwrap();
    s.pause_secs_left = dbl(100.0);
    let (lat0, lon0) = (s.lat(), s.lon());
    advance(&mut s, 1.0);
    assert_eq!(num(s.speed_kmh()), 0.0);
    assert!(!s.moving());
    assert_eq!(s.lat(), lat0);
    assert_eq!(s.lon(), lon0);
    assert_eq!(num(s.pause_secs_left), 99.0);
}

#[test]
fn no_time_no_step() {
    let mut s = build(line_graph(), 5).unwrap();
    assert_eq!(advance(&mut s, 0.0), 0);
    assert_eq!(advance(&mut s, -1.0), 0);
}

#[test]
fn pauses_begin_and_end() {
    let mut s = build(line_graph(), 11).unwrap();
    s.drive_secs_left = dbl(0.5);
    advance(&mut s, 1.0);
    assert!(!s.moving());
    assert_eq!(num(s.speed_kmh()), 0.0);
    let pause = num(s.pause_secs_left);
    assert!(pause >= 10.0 && pause <= 240.0);
    let drive = num(s.drive_secs_left);
    assert!(drive >= 90.0 && drive <= 600.0);
    let before = s.lon();
    s.drive_secs_left = dbl(1000.0);
    advance(&mut s, pause + 0.1);
    assert!(s.moving());
    assert_ne!(s.lon(), before);
    assert!(num(s.speed_kmh()) > 0.0);
}

#[test]
fn no_speed_is_shown_during_a_pause() {
    let mut s = build(line_graph(), 77).unwrap();
    for _ in 0..5000 {
        advance(&mut s, 2.0);
        assert!(s.moving() || num(s.speed_kmh()) == 0.0);
        assert!(matches!(s.phase, Phase::Idle));
    }
}

#[test]
fn graphs_that_cannot_be_driven_on() {
    let empty = Graph { nodes: Vec::new(), adj: Vec::new() };
    assert_eq!(build(empty, 1).err(), Some("empty graph"));
    let bare = Graph { nodes: vec![(dbl(45.0), dbl(9.0)); 3], adj: vec![Vec::new(); 3] };
    assert_eq!(build(bare, 1).err(), Some("graph without edges"));
}

#[test]
fn every_node_has_a_list() {
    let node = (dbl(45.0), dbl(9.0));
    assert!(Graph { nodes: vec![node], adj: vec![vec![7]] }.is_listed());
    assert!(Graph { nodes: vec![node], adj: vec![vec![], vec![]] }.is_listed());
    assert!(Graph { nodes: vec![], adj: vec![] }.is_listed());
    assert!(!Graph { nodes: vec![node, node], adj: vec![vec![1]] }.is_listed());
}

#[test]
fn a_missing_node_matters_only_on_the_way_to_it() {
    let astray = || Graph { nodes: vec![(dbl(45.0), dbl(9.0))], adj: vec![vec![1]] };
    let mut s = build(astray(), 1).unwrap();
    assert_eq!((s.from, s.to), (0, 1));
    s.pause_secs_left = dbl(100.0);
    advance(&mut s, 1.0);
    s.pause_secs_left = dbl(0.0);
    s.drive_secs_left = dbl(1000.0);
    s.advance(dbl(1.0));
    // Time, speed and way come before the edge is measured.
    for v in [999.0, 50.0, 14.0] {
        assert!(s.is_ready());
        s.answer(dbl(v));
    }
    assert!(matches!(s.phase, Phase::Measuring { .. }));
    assert!(!s.is_ready());
}

#[test]
fn every_position_lies_on_a_road() {
    let mut s = build(line_graph(), 21).unwrap();
    for _ in 0..500 {
        s.advance(dbl(1.5));
        let mut asked = None;
        loop {
            let ask = s.ask();
            if let Ask::Latitude { a, b, offset } = ask {
                let ends = (s.graph.nodes[s.from], s.graph.nodes[s.to]);
                assert_eq!((a, b), ends);
                assert!(s.graph.adj[s.from].contains(&(s.to as u32)));
                asked = Some((a, b, offset));
            }
            if let Ask::Longitude { a, b, offset } = ask {
                assert_eq!(asked, Some((a, b, offset)));
            }
            match compute(ask) {
                Some(v) => s.answer(dbl(v)),
                None => break,
            }
        }
        if let Some((a, b, _)) = asked {
            let (lo, hi) = (num(a.1).min(num(b.1)), num(a.1).max(num(b.1)));
            assert!(num(s.lon()) >= lo && num(s.lon()) <= hi);
        }
    }
}

#[test]
fn the_start_has_a_neighbour() {
    for seed in 0..50 {
        let g = Graph {
            nodes: (0..6).map(|i| (dbl(45.0), dbl(i as f64))).collect(),
            adj: vec![vec![], vec![], vec![3], vec![2], vec![], vec![]],
        };
        let s = build(g, seed).unwrap();
        assert!(s.from == 2 || s.from == 3);
        assert_eq!(s.from + s.to, 5);
    }
}

#[test]
fn no_turning_back_but_at_a_dead_end() {
    let mut s = build(line_graph(), 1).unwrap();
    for _ in 0..20 {
        assert_eq!(s.pick_next(1, 0), 2);
        assert_eq!(s.pick_next(1, 2), 0);
        assert_eq!(s.pick_next(0, 1), 1);
        let n = s.pick_next(2, 9);
        assert!(n == 1 || n == 3);
    }
    assert!(s.graph.is_intersection(0));
    assert!(!s.graph.is_intersection(1));
}

#[test]
fn an_advance_ends_on_edges_without_length() {
    let g = Graph {
        nodes: vec![(dbl(45.0), dbl(9.0)); 3],
        adj: vec![vec![1, 2], vec![0, 2], vec![0, 1]],
    };
    let mut s = build(g, 1).unwrap();
    s.drive_secs_left = dbl(1000.0);
    let asked = advance(&mut s, 1.0);
    assert!(asked <= 3 * 10_000 + 8);
    assert!(asked > 10_000);
    assert_eq!((num(s.lat()), num(s.lon())), (45.0, 9.0));
}

#[test]
fn numbers_of_the_generator() {
    let mut x: u64 = (1 ^ 0x9E37_79B9_7F4A_7C15) | 1;
    let mut rng = Rng::new(1);
    for _ in 0..1000 {
        x ^= x << 13;
        x ^= x >> 7;
        x ^= x << 17;
        assert_eq!(rng.next_u64(), x.wrapping_mul(0x2545_F491_4F6C_DD1D));
        assert_ne!(rng.state, 0);
    }
    let mut a = Rng::new(7);
    let mut b = Rng::new(7);
    assert_eq!(a.unit(), b.next_u64() >> 11);
    assert_eq!(a.below(10), (b.next_u64() % 10) as usize);
}
