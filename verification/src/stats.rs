//! Statistics over recorded positions: how long a user moved and paused.
use vstd::prelude::*;

use crate::double::{Double, ZERO};
use crate::trips::coords_equal;

verus! {

/// The longest time between two samples of a trip, in seconds, that counts. At a
/// sample every 30 seconds it leaves room for delays; beyond it nothing is known
/// of the time between.
pub const MAX_SAMPLE_GAP_SECS: i64 = 90;

/// A recorded position.
#[derive(Debug, Clone, PartialEq)]
pub struct PositionRecord {
    pub trip_id: i64,
    pub ts: i64,
    pub lat: Double,
    pub lon: Double,
    pub stopped: bool,
}

/// The statistics of a user over an interval.
#[derive(Debug, Clone, PartialEq)]
pub struct MovementStats {
    pub username: String,
    pub from_ts: i64,
    pub to_ts: i64,
    pub distance_m: Double,
    pub movement_secs: i64,
    pub pause_secs: i64,
    pub total_secs: i64,
    pub avg_speed_mps: Double,
    pub avg_speed_kmh: Double,
    pub points: i64,
}

/// The time between a position and the next.
pub open spec fn gap(points: Seq<PositionRecord>, i: int) -> int {
    points[i + 1].ts - points[i].ts
}

/// Whether the time between a position and the next counts: they belong to one
/// trip, and not too much time lies between them.
pub open spec fn counted(points: Seq<PositionRecord>, i: int) -> bool {
    points[i].trip_id == points[i + 1].trip_id && 0 < gap(points, i) <= MAX_SAMPLE_GAP_SECS
}

/// Whether the time between a position and the next is a pause: the next is
/// marked as stopped, or is the same place. `distances[i]` is the distance in
/// metres between the positions `i` and `i + 1`.
pub open spec fn paused(points: Seq<PositionRecord>, distances: Seq<Double>, i: int) -> bool {
    points[i + 1].stopped || crate::trips::same_place(distances[i])
}

/// The gaps before the position `n` that satisfy `p`, added up.
pub open spec fn seconds(points: Seq<PositionRecord>, n: int, p: spec_fn(int) -> bool) -> int
    decreases n,
{
    if n <= 0 {
        0
    } else {
        seconds(points, n - 1, p) + if p(n - 1) {
            gap(points, n - 1)
        } else {
            0
        }
    }
}

/// The numbers below `n` that satisfy `p`, in ascending order.
pub open spec fn numbers(n: int, p: spec_fn(int) -> bool) -> Seq<int>
    decreases n,
{
    if n <= 0 {
        Seq::empty()
    } else if p(n - 1) {
        numbers(n - 1, p).push(n - 1)
    } else {
        numbers(n - 1, p)
    }
}

/// The time that counts.
pub open spec fn total_secs(points: Seq<PositionRecord>) -> int {
    seconds(points, points.len() - 1, |i: int| counted(points, i))
}

/// The time of the pauses.
pub open spec fn pause_secs(points: Seq<PositionRecord>, distances: Seq<Double>) -> int {
    seconds(
        points,
        points.len() - 1,
        |i: int| counted(points, i) && paused(points, distances, i),
    )
}

/// The time of movement.
pub open spec fn movement_secs(points: Seq<PositionRecord>, distances: Seq<Double>) -> int {
    seconds(
        points,
        points.len() - 1,
        |i: int| counted(points, i) && !paused(points, distances, i),
    )
}

/// The positions that are left in movement: the distances between them and the
/// next make up the distance travelled.
pub open spec fn moving_from(points: Seq<PositionRecord>, distances: Seq<Double>) -> Seq<int> {
    numbers(points.len() - 1, |i: int| counted(points, i) && !paused(points, distances, i))
}

/// Whether the times can be counted in 64 bits.
pub open spec fn countable(points: Seq<PositionRecord>) -> bool {
    &&& points.len() * MAX_SAMPLE_GAP_SECS <= i64::MAX
    &&& forall|i: int|
        0 <= i < points.len() - 1 && points[i].trip_id == points[i + 1].trip_id ==> i64::MIN
            <= #[trigger] gap(points, i) <= i64::MAX
}

/// Decides [`countable`].
pub fn can_count(points: &Vec<PositionRecord>) -> (r: bool)
    ensures
        r == countable(points@),
{
    let n: usize = points.len();
    if n as u128 * 90 > i64::MAX as u128 {
        return false;
    }
    let mut i: usize = 0;
    while i + 1 < n
        invariant
            n == points@.len(),
            n > 0 ==> i < n,
            n == 0 ==> i == 0,
            n * MAX_SAMPLE_GAP_SECS <= i64::MAX,
            forall|k: int|
                0 <= k < i && k < n - 1 && points@[k].trip_id == points@[k + 1].trip_id ==> i64::MIN
                    <= #[trigger] gap(points@, k) <= i64::MAX,
        decreases n - i,
    {
        let dt: i128 = points[i + 1].ts as i128 - points[i].ts as i128;
        assert(dt == gap(points@, i as int));
        if points[i].trip_id == points[i + 1].trip_id && (dt < i64::MIN as i128 || dt
            > i64::MAX as i128) {
            return false;
        }
        i += 1;
    }
    true
}

/// The times of a list of positions.
pub struct Tally {
    pub movement_secs: i64,
    pub pause_secs: i64,
    pub total_secs: i64,
    /// The positions that are left in movement.
    pub moving: Vec<usize>,
}

/// The positions of a list, as mathematical numbers.
pub open spec fn positions(v: Seq<usize>) -> Seq<int> {
    v.map_values(|i: usize| i as int)
}

/// Whether times are those of a list of positions.
pub open spec fn is_tally(
    t: Tally,
    points: Seq<PositionRecord>,
    distances: Seq<Double>,
) -> bool {
    &&& t.movement_secs == movement_secs(points, distances)
    &&& t.pause_secs == pause_secs(points, distances)
    &&& t.total_secs == total_secs(points)
    &&& positions(t.moving@) == moving_from(points, distances)
}

/// Counts the times of a list of positions.
pub fn tally_movement(points: &Vec<PositionRecord>, distances: &Vec<Double>) -> (r: Tally)
    requires
        countable(points@),
        distances@.len() + 1 >= points@.len(),
    ensures
        is_tally(r, points@, distances@),
        r.movement_secs == movement_secs(points@, distances@),
        r.pause_secs == pause_secs(points@, distances@),
        r.total_secs == total_secs(points@),
        positions(r.moving@) == moving_from(points@, distances@),
{
    let ghost ps = points@;
    let ghost ds = distances@;
    let ghost all = |i: int| counted(ps, i);
    let ghost pause = |i: int| counted(ps, i) && paused(ps, ds, i);
    let ghost moves = |i: int| counted(ps, i) && !paused(ps, ds, i);
    let mut movement: i64 = 0;
    let mut pauses: i64 = 0;
    let mut total: i64 = 0;
    let mut moving: Vec<usize> = Vec::new();
    let n: usize = points.len();
    let mut i: usize = 0;
    assert(positions(moving@) =~= numbers(0, moves));
    while i + 1 < n
        invariant
            ps == points@,
            ds == distances@,
            n == ps.len(),
            ds.len() + 1 >= n,
            countable(ps),
            n > 0 ==> i < n,
            n == 0 ==> i == 0,
            all == (|i: int| counted(ps, i)),
            pause == (|i: int| counted(ps, i) && paused(ps, ds, i)),
            moves == (|i: int| counted(ps, i) && !paused(ps, ds, i)),
            total == seconds(ps, i as int, all),
            pauses == seconds(ps, i as int, pause),
            movement == seconds(ps, i as int, moves),
            movement >= 0,
            pauses >= 0,
            movement + pauses == total,
            total <= i * MAX_SAMPLE_GAP_SECS,
            positions(moving@) == numbers(i as int, moves),
        decreases n - i,
    {
        let ghost before = positions(moving@);
        if points[i].trip_id == points[i + 1].trip_id {
            assert(i64::MIN <= gap(ps, i as int) <= i64::MAX);
            let dt: i64 = points[i + 1].ts - points[i].ts;
            if dt > 0 && dt <= MAX_SAMPLE_GAP_SECS {
                total += dt;
                let is_pause = points[i + 1].stopped || coords_equal(distances[i]);
                if is_pause {
                    pauses += dt;
                } else {
                    movement += dt;
                    moving.push(i);
                    assert(positions(moving@) =~= before.push(i as int));
                }
            }
        }
        i += 1;
    }
    proof {
        if n == 0 {
            assert(seconds(ps, -1, all) == 0);
        }
    }
    Tally { movement_secs: movement, pause_secs: pauses, total_secs: total, moving }
}

/// Whether statistics are those of a user over an interval, with these positions.
/// `distance_m` is the distance travelled, the two speeds are what it makes per time of
/// movement.
pub open spec fn are_statistics(
    r: MovementStats,
    username: Seq<char>,
    from_ts: i64,
    to_ts: i64,
    points: Seq<PositionRecord>,
    distances: Seq<Double>,
    distance_m: Double,
    avg_speed_mps: Double,
    avg_speed_kmh: Double,
) -> bool {
    &&& (r.username@, r.from_ts, r.to_ts) == (username, from_ts, to_ts)
    &&& r.movement_secs == movement_secs(points, distances)
    &&& r.pause_secs == pause_secs(points, distances)
    &&& r.total_secs == total_secs(points)
    &&& (r.distance_m, r.avg_speed_mps, r.avg_speed_kmh) == if movement_secs(points, distances) > 0 {
        (distance_m, avg_speed_mps, avg_speed_kmh)
    } else {
        (crate::double::dbl(ZERO), crate::double::dbl(ZERO), crate::double::dbl(ZERO))
    }
    &&& r.points == points.len()
}

/// Puts the statistics together. `distance_m` is the distance travelled, the two
/// speeds are what it makes per time of movement. Where there was no movement there
/// is no distance and no speed.
pub fn compute_movement_stats(
    username: &str,
    from_ts: i64,
    to_ts: i64,
    points: &Vec<PositionRecord>,
    distances: &Vec<Double>,
    distance_m: Double,
    avg_speed_mps: Double,
    avg_speed_kmh: Double,
) -> (r: MovementStats)
    requires
        countable(points@),
        distances@.len() + 1 >= points@.len(),
    ensures
        are_statistics(
            r,
            username@,
            from_ts,
            to_ts,
            points@,
            distances@,
            distance_m,
            avg_speed_mps,
            avg_speed_kmh,
        ),
        r.username@ == username@,
        r.from_ts == from_ts,
        r.to_ts == to_ts,
        r.movement_secs == movement_secs(points@, distances@),
        r.pause_secs == pause_secs(points@, distances@),
        r.total_secs == total_secs(points@),
        r.movement_secs > 0 ==> r.distance_m == distance_m && r.avg_speed_mps == avg_speed_mps
            && r.avg_speed_kmh == avg_speed_kmh,
        r.movement_secs <= 0 ==> r.distance_m == crate::double::dbl(ZERO) && r.avg_speed_mps
            == crate::double::dbl(ZERO) && r.avg_speed_kmh == crate::double::dbl(ZERO),
        r.points == points@.len(),
{
    let t = tally_movement(points, distances);
    let zero = Double { bits: ZERO };
    let (metres, mps, kmh) = if t.movement_secs > 0 {
        (distance_m, avg_speed_mps, avg_speed_kmh)
    } else {
        (zero, zero, zero)
    };
    MovementStats {
        username: username.to_owned(),
        from_ts,
        to_ts,
        distance_m: metres,
        movement_secs: t.movement_secs,
        pause_secs: t.pause_secs,
        total_secs: t.total_secs,
        avg_speed_mps: mps,
        avg_speed_kmh: kmh,
        points: points.len() as i64,
    }
}

/// Checks an interval.
pub fn check_interval(from_ts: i64, to_ts: i64) -> (r: Result<(), &'static str>)
    ensures
        match r {
            Ok(()) => from_ts <= to_ts,
            Err(e) => from_ts > to_ts && e@ == "invalid time interval"@,
        },
{
    if from_ts > to_ts {
        return Err("invalid time interval");
    }
    Ok(())
}

/// Time that counts is movement or pause, and never negative.
pub proof fn law_movement_and_pause(points: Seq<PositionRecord>, distances: Seq<Double>)
    ensures
        movement_secs(points, distances) + pause_secs(points, distances) == total_secs(points),
        movement_secs(points, distances) >= 0,
        pause_secs(points, distances) >= 0,
        points.len() > 0 ==> total_secs(points) <= MAX_SAMPLE_GAP_SECS * (points.len() - 1),
        movement_secs(points, distances) > 0 <==> moving_from(points, distances).len() > 0,
{
    lemma_split(points, distances, points.len() - 1);
}

proof fn lemma_split(points: Seq<PositionRecord>, distances: Seq<Double>, n: int)
    ensures
        ({
            let all = |i: int| counted(points, i);
            let pause = |i: int| counted(points, i) && paused(points, distances, i);
            let moves = |i: int| counted(points, i) && !paused(points, distances, i);
            &&& seconds(points, n, moves) + seconds(points, n, pause) == seconds(points, n, all)
            &&& seconds(points, n, moves) >= 0
            &&& seconds(points, n, pause) >= 0
            &&& n >= 0 ==> seconds(points, n, all) <= MAX_SAMPLE_GAP_SECS * n
            &&& seconds(points, n, moves) > 0 <==> numbers(n, moves).len() > 0
        }),
    decreases n,
{
    if n > 0 {
        lemma_split(points, distances, n - 1);
    }
}

/// With the positions in order of time, no more time counts than lies between the
/// first and the last.
pub proof fn law_total_within_span(points: Seq<PositionRecord>)
    requires
        points.len() > 0,
        forall|i: int, j: int| 0 <= i <= j < points.len() ==> points[i].ts <= points[j].ts,
    ensures
        total_secs(points) <= points.last().ts - points.first().ts,
{
    lemma_within(points, points.len() - 1);
}

proof fn lemma_within(points: Seq<PositionRecord>, n: int)
    requires
        0 <= n < points.len(),
        forall|i: int, j: int| 0 <= i <= j < points.len() ==> points[i].ts <= points[j].ts,
    ensures
        seconds(points, n, |i: int| counted(points, i)) <= points[n].ts - points[0].ts,
    decreases n,
{
    if n > 0 {
        lemma_within(points, n - 1);
        assert(points[n - 1].ts <= points[n].ts);
    }
}

/// What a sample does to the state of its user agrees with the statistics: the time
/// up to a recorded sample is a pause exactly if the sample does not make its user
/// move.
pub proof fn law_statistics_agree_with_states(
    place: crate::trips::CoordState,
    points: Seq<PositionRecord>,
    distances: Seq<Double>,
    i: int,
)
    requires
        ({
            let b = points[i + 1];
            crate::trips::sampled(place, b.lat, b.lon, distances[i]).1
                == crate::trips::InsertAction::Insert { stopped: b.stopped }
        }),
    ensures
        ({
            let b = points[i + 1];
            paused(points, distances, i) <==> crate::trips::sampled(
                place,
                b.lat,
                b.lon,
                distances[i],
            ).2 != crate::trips::StatusTransition::ToMoving
        }),
{
}

/// What one more position adds. The time since the one before it counts if both are of
/// one trip and it is above 0 and at most 90 seconds. Then it is a pause if the new
/// position is marked as stopped or at most five metres away, and movement otherwise;
/// and only movement adds to the distance.
pub proof fn law_one_more_position(
    points: Seq<PositionRecord>,
    next: PositionRecord,
    distances: Seq<Double>,
)
    requires
        points.len() > 0,
    ensures
        ({
            let all = points.push(next);
            let last = points.last();
            let dt = next.ts - last.ts;
            let counts = last.trip_id == next.trip_id && 0 < dt <= 90;
            let d = distances[points.len() - 1];
            let still = next.stopped || !d.is_nan() && d.value() <= 5
                * vstd::arithmetic::power2::pow2(1074);
            &&& total_secs(all) == total_secs(points) + if counts {
                dt
            } else {
                0
            }
            &&& pause_secs(all, distances) == pause_secs(points, distances) + if counts && still {
                dt
            } else {
                0
            }
            &&& movement_secs(all, distances) == movement_secs(points, distances) + if counts
                && !still {
                dt
            } else {
                0
            }
            &&& moving_from(all, distances) == if counts && !still {
                moving_from(points, distances).push(points.len() - 1)
            } else {
                moving_from(points, distances)
            }
        }),
{
    crate::double::law_constants();
    let all = points.push(next);
    let n = points.len() - 1;
    let p1 = |i: int| counted(points, i);
    let q1 = |i: int| counted(all, i);
    let p2 = |i: int| counted(points, i) && paused(points, distances, i);
    let q2 = |i: int| counted(all, i) && paused(all, distances, i);
    let p3 = |i: int| counted(points, i) && !paused(points, distances, i);
    let q3 = |i: int| counted(all, i) && !paused(all, distances, i);
    assert forall|i: int| 0 <= i < n implies #[trigger] gap(all, i) == gap(points, i) && q1(i)
        == p1(i) && q2(i) == p2(i) && q3(i) == p3(i) by {
        assert(all[i] == points[i] && all[i + 1] == points[i + 1]);
    }
    lemma_same_seconds(points, all, n, p1, q1);
    lemma_same_seconds(points, all, n, p2, q2);
    lemma_same_seconds(points, all, n, p3, q3);
    assert(all[n] == points.last() && all[n + 1] == next);
    assert(all.len() - 1 == n + 1);
    assert(gap(all, n) == next.ts - points.last().ts);
}

proof fn lemma_same_seconds(
    points: Seq<PositionRecord>,
    all: Seq<PositionRecord>,
    n: int,
    p: spec_fn(int) -> bool,
    q: spec_fn(int) -> bool,
)
    requires
        forall|i: int| 0 <= i < n ==> #[trigger] gap(all, i) == gap(points, i) && q(i) == p(i),
    ensures
        seconds(all, n, q) == seconds(points, n, p),
        numbers(n, q) == numbers(n, p),
    decreases n,
{
    if n > 0 {
        assert(gap(all, n - 1) == gap(points, n - 1));
        lemma_same_seconds(points, all, n - 1, p, q);
    }
}

/// A single position, or none, takes no time.
pub proof fn law_one_position_takes_no_time(points: Seq<PositionRecord>, distances: Seq<Double>)
    requires
        points.len() <= 1,
    ensures
        total_secs(points) == 0,
        pause_secs(points, distances) == 0,
        movement_secs(points, distances) == 0,
        moving_from(points, distances).len() == 0,
{
}

/// Positions of any times since 1970 can be counted, up to some 10^17 of them.
pub proof fn law_what_can_be_counted(points: Seq<PositionRecord>)
    requires
        points.len() <= 100_000_000_000_000_000,
        forall|i: int| 0 <= i < points.len() ==> (#[trigger] points[i]).ts >= 0,
    ensures
        countable(points),
{
    assert forall|i: int|
        0 <= i < points.len() - 1 && points[i].trip_id == points[i + 1].trip_id implies i64::MIN
        <= #[trigger] gap(points, i) <= i64::MAX by {
        assert(points[i].ts >= 0 && points[i + 1].ts >= 0);
    }
}

/// The gaps behind some positions, added up.
pub open spec fn gaps_behind(points: Seq<PositionRecord>, at: Seq<int>) -> int
    decreases at.len(),
{
    if at.len() == 0 {
        0
    } else {
        gaps_behind(points, at.drop_last()) + (points[at.last() + 1].ts - points[at.last()].ts)
    }
}

/// The time of movement is the time behind the positions that are left in movement; with
/// the pauses it makes the total.
pub proof fn law_tally(t: Tally, points: Seq<PositionRecord>, distances: Seq<Double>)
    requires
        is_tally(t, points, distances),
    ensures
        t.movement_secs == gaps_behind(points, positions(t.moving@)),
        t.movement_secs + t.pause_secs == t.total_secs,
        forall|k: int| #![trigger t.moving@[k]]
            0 <= k < t.moving@.len() ==> {
                let i = t.moving@[k] as int;
                let d = distances[i];
                &&& 0 <= i < points.len() - 1
                &&& points[i].trip_id == points[i + 1].trip_id
                &&& 0 < points[i + 1].ts - points[i].ts <= 90
                &&& !points[i + 1].stopped
                &&& d.is_nan() || d.value() > 5 * vstd::arithmetic::power2::pow2(1074)
            },
{
    crate::double::law_constants();
    law_movement_and_pause(points, distances);
    let moves = |i: int| counted(points, i) && !paused(points, distances, i);
    lemma_numbers(points, points.len() - 1, moves);
    let at = positions(t.moving@);
    assert forall|k: int| #![trigger t.moving@[k]] 0 <= k < t.moving@.len() implies {
        let i = t.moving@[k] as int;
        let d = distances[i];
        &&& 0 <= i < points.len() - 1
        &&& points[i].trip_id == points[i + 1].trip_id
        &&& 0 < points[i + 1].ts - points[i].ts <= 90
        &&& !points[i + 1].stopped
        &&& d.is_nan() || d.value() > 5 * vstd::arithmetic::power2::pow2(1074)
    } by {
        assert(at[k] == t.moving@[k]);
        assert(moves(at[k]));
    }
}

proof fn lemma_numbers(points: Seq<PositionRecord>, n: int, p: spec_fn(int) -> bool)
    ensures
        seconds(points, n, p) == gaps_behind(points, numbers(n, p)),
        forall|k: int|
            0 <= k < numbers(n, p).len() ==> 0 <= #[trigger] numbers(n, p)[k] < n && p(
                numbers(n, p)[k],
            ),
    decreases n,
{
    if n > 0 {
        lemma_numbers(points, n - 1, p);
        if p(n - 1) {
            assert(numbers(n, p).drop_last() =~= numbers(n - 1, p));
        }
    }
}

} // verus!
