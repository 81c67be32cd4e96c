//! The stores in memory, and the statistics.
use georuggine::connection::{end_trip, statistics_message};
use georuggine::double::Double;
use georuggine::message::Message;
use georuggine::sessions::{
    clear_sessions, get_user_by_token, insert_token, invalidate_token, invalidate_user_sessions,
    is_logged_in, try_insert_token, AuthStore,
};
use georuggine::stats::{
    can_count, check_interval, compute_movement_stats, tally_movement, MovementStats,
    PositionRecord,
};
use georuggine::status::{remove, StatusStore, UserStatus};
use georuggine::trips::{
    coords_equal, drop_trip, finish_update, initialize_trips, is_tracked, last_position,
    terminate_trip, update_trip, InsertAction, StatusTransition, TripRecord, TripsStore,
};

fn dbl(v: f64) -> Double {
    Double { bits: v.to_bits() }
}

fn haversine_m(lat1: f64, lon1: f64, lat2: f64, lon2: f64) -> f64 {
    let (phi1, phi2) = (lat1.to_radians(), lat2.to_radians());
    let d_phi = (lat2 - lat1).to_radians();
    let d_lambda = (lon2 - lon1).to_radians();
    let a = (d_phi / 2.0).sin().powi(2) + phi1.cos() * phi2.cos() * (d_lambda / 2.0).sin().powi(2);
    6_371_000.0 * 2.0 * a.sqrt().atan2((1.0 - a).sqrt())
}

/// The distances between neighbours of a list.
fn distances(points: &[PositionRecord]) -> Vec<Double> {
    points
        .windows(2)
        .map(|w| {
            dbl(haversine_m(
                f64::from_bits(w[0].lat.bits),
                f64::from_bits(w[0].lon.bits),
                f64::from_bits(w[1].lat.bits),
                f64::from_bits(w[1].lon.bits),
            ))
        })
        .collect()
}

fn statistics(username: &str, from_ts: i64, to_ts: i64, points: &Vec<PositionRecord>) -> MovementStats {
    assert!(can_count(points));
    let ds = distances(points);
    let tally = tally_movement(points, &ds);
    let mut distance = 0.0;
    for i in &tally.moving {
        distance += f64::from_bits(ds[*i].bits);
    }
    let mps = distance / tally.movement_secs as f64;
    compute_movement_stats(username, from_ts, to_ts, points, &ds, dbl(distance), dbl(mps), dbl(mps * 3.6))
}

fn at(trip_id: i64, ts: i64, lat: f64, stopped: bool) -> PositionRecord {
    PositionRecord { trip_id, ts, lat: dbl(lat), lon: dbl(9.0), stopped }
}

#[test]
fn statistics_use_stopped_and_distance() {
    let points = vec![
        PositionRecord { trip_id: 1, ts: 0, lat: dbl(45.000), lon: dbl(9.000), stopped: false },
        PositionRecord { trip_id: 1, ts: 60, lat: dbl(45.000), lon: dbl(9.000), stopped: true },
        PositionRecord { trip_id: 1, ts: 120, lat: dbl(45.001), lon: dbl(9.000), stopped: false },
        PositionRecord { trip_id: 1, ts: 180, lat: dbl(45.002), lon: dbl(9.000), stopped: false },
    ];
    let stats = statistics("mario", 0, 180, &points);
    assert_eq!(stats.points, 4);
    assert_eq!(stats.pause_secs, 60);
    assert_eq!(stats.movement_secs, 120);
    assert_eq!(stats.total_secs, 180);
    let distance_m = f64::from_bits(stats.distance_m.bits);
    let avg_speed_kmh = f64::from_bits(stats.avg_speed_kmh.bits);
    assert!(distance_m > 200.0 && distance_m < 230.0);
    assert!(avg_speed_kmh > 6.0 && avg_speed_kmh < 7.0);
    assert_eq!(stats.username, "mario");
    assert_eq!((stats.from_ts, stats.to_ts), (0, 180));
}

#[test]
fn other_trips_and_long_gaps_do_not_count() {
    let points = vec![
        at(1, 0, 45.0, false),
        at(1, 90, 45.001, false),
        at(1, 181, 45.002, false),
        at(1, 181, 45.003, false),
        at(1, 170, 45.004, false),
        at(2, 200, 45.005, false),
        at(2, 230, 45.006, true),
        at(2, 260, 45.006, false),
    ];
    let stats = statistics("luigi", 0, 300, &points);
    assert_eq!(stats.movement_secs, 90);
    assert_eq!(stats.pause_secs, 60);
    assert_eq!(stats.total_secs, 150);
    let tally = tally_movement(&points, &distances(&points));
    assert_eq!(tally.moving, vec![0]);
}

#[test]
fn without_movement_there_is_no_speed() {
    let points = vec![at(1, 0, 45.0, false), at(1, 30, 45.0, false)];
    let stats = statistics("mario", 0, 30, &points);
    assert_eq!(stats.movement_secs, 0);
    assert_eq!(stats.pause_secs, 30);
    assert_eq!(stats.avg_speed_mps, dbl(0.0));
    assert_eq!(stats.avg_speed_kmh, dbl(0.0));
    let far = dbl(99.0);
    let still = compute_movement_stats("mario", 0, 30, &points, &distances(&points), far, far, far);
    assert_eq!(still.distance_m, dbl(0.0));
    let none = statistics("mario", 0, 30, &Vec::new());
    assert_eq!((none.points, none.total_secs), (0, 0));
    assert_eq!(none.avg_speed_mps, dbl(0.0));
}

#[test]
fn time_is_movement_or_pause() {
    let points: Vec<PositionRecord> =
        (0..200).map(|i| at(i / 50, i * 7 % 300, 45.0 + (i % 3) as f64 * 0.001, i % 5 == 0)).collect();
    let stats = statistics("mario", 0, 400, &points);
    assert_eq!(stats.movement_secs + stats.pause_secs, stats.total_secs);
    assert!(stats.total_secs > 0);
}

#[test]
fn gaps_that_cannot_be_counted() {
    assert!(!can_count(&vec![at(1, i64::MIN, 45.0, false), at(1, 1, 45.0, false)]));
    assert!(can_count(&vec![at(1, i64::MIN, 45.0, false), at(2, 1, 45.0, false)]));
    assert!(can_count(&vec![at(1, -1, 45.0, false), at(1, i64::MAX - 1, 45.0, false)]));
}

#[test]
fn intervals_run_forwards() {
    assert_eq!(check_interval(5, 5), Ok(()));
    assert_eq!(check_interval(6, 5), Err("invalid time interval"));
}

#[test]
fn statistics_are_sent_as_they_are() {
    let stats = statistics("mario", 3, 9, &vec![at(1, 0, 45.0, false)]);
    assert_eq!(
        statistics_message(stats),
        Message::StatsResult {
            username: "mario".to_string(),
            from_ts: 3,
            to_ts: 9,
            distance_m: dbl(0.0),
            movement_secs: 0,
            pause_secs: 0,
            total_secs: 0,
            avg_speed_mps: dbl(0.0),
            avg_speed_kmh: dbl(0.0),
            points: 1,
        }
    );
}

#[test]
fn sessions() {
    let mut store = AuthStore::new();
    assert!(!is_logged_in(&store, "mario"));
    assert_eq!(try_insert_token(&mut store, "mario", "t1"), Ok(()));
    assert_eq!(
        try_insert_token(&mut store, "mario", "t2"),
        Err("user already logged in from another session")
    );
    assert_eq!(get_user_by_token(&store, "t1"), Some("mario".to_string()));
    assert_eq!(get_user_by_token(&store, "t2"), None);
    insert_token(&mut store, "mario", "t3");
    assert_eq!(get_user_by_token(&store, "t1"), None);
    assert_eq!(get_user_by_token(&store, "t3"), Some("mario".to_string()));
    assert_eq!(try_insert_token(&mut store, "luigi", "t4"), Ok(()));
    assert_eq!(invalidate_user_sessions(&mut store, "mario"), 1);
    assert_eq!(invalidate_user_sessions(&mut store, "mario"), 0);
    assert!(!is_logged_in(&store, "mario"));
    assert!(is_logged_in(&store, "luigi"));
    invalidate_token(&mut store, "t4");
    assert!(!is_logged_in(&store, "luigi"));
    insert_token(&mut store, "peach", "t5");
    clear_sessions(&mut store);
    assert!(!is_logged_in(&store, "peach"));
    assert!(!is_logged_in(&AuthStore::default(), "peach"));
}

#[test]
fn states_in_words() {
    assert_eq!(UserStatus::Stationary.as_str(), "stationary");
    assert_eq!(UserStatus::Moving.as_str(), "moving");
}

#[test]
fn states_of_users() {
    let mut store = StatusStore::new();
    assert_eq!(store.get("mario"), None);
    assert!(georuggine::status::set(&mut store, "mario", UserStatus::Moving));
    assert!(!georuggine::status::set(&mut store, "mario", UserStatus::Moving));
    assert!(georuggine::status::set(&mut store, "mario", UserStatus::Stationary));
    assert_eq!(store.get("mario"), Some(UserStatus::Stationary));
    assert!(remove(&mut store, "mario"));
    assert!(!remove(&mut store, "mario"));
    assert_eq!(store.get("mario"), None);
}

#[test]
fn a_stop_is_recorded_once() {
    let mut trips = TripsStore::new();
    let mut statuses = StatusStore::new();
    assert_eq!(
        initialize_trips(&mut trips, &mut statuses, "mario", dbl(45.0), dbl(9.0), Ok(7)),
        Ok(7)
    );
    assert_eq!(statuses.get("mario"), Some(UserStatus::Stationary));
    let mut seen = Vec::new();
    for _ in 0..8 {
        seen.push(update_trip(&mut trips, 7, dbl(45.0), dbl(9.0), dbl(5.0)).unwrap());
    }
    let plain = (InsertAction::Insert { stopped: false }, StatusTransition::Unchanged);
    let stop = (InsertAction::Insert { stopped: true }, StatusTransition::ToStationary);
    let skip = (InsertAction::Skip, StatusTransition::Unchanged);
    assert_eq!(seen, vec![plain, plain, plain, plain, plain, stop, skip, skip]);
    // Off again: the count starts anew.
    assert_eq!(
        update_trip(&mut trips, 7, dbl(45.1), dbl(9.1), dbl(5.1)),
        Ok((InsertAction::Insert { stopped: false }, StatusTransition::ToMoving))
    );
    assert_eq!(last_position(&trips, 7), Some((dbl(45.1), dbl(9.1))));
    assert_eq!(update_trip(&mut trips, 7, dbl(45.1), dbl(9.1), dbl(0.0)), Ok(plain));
}

#[test]
fn trips_that_fail() {
    let mut trips = TripsStore::default();
    let mut statuses = StatusStore::new();
    assert_eq!(
        initialize_trips(
            &mut trips,
            &mut statuses,
            "mario",
            dbl(45.0),
            dbl(9.0),
            Err("disk full".to_string())
        ),
        Err("Failed to start trip: disk full".to_string())
    );
    assert_eq!(statuses.get("mario"), None);
    assert_eq!(
        update_trip(&mut trips, -3, dbl(45.0), dbl(9.0), dbl(0.0)),
        Err("Trip ID -3 not found in store".to_string())
    );
    assert_eq!(last_position(&trips, -3), None);
    assert_eq!(
        finish_update(
            &mut statuses,
            "mario",
            StatusTransition::ToMoving,
            Err("locked".to_string())
        ),
        Err("Failed to insert position: locked".to_string())
    );
    assert_eq!(statuses.get("mario"), None);
    assert_eq!(finish_update(&mut statuses, "mario", StatusTransition::ToMoving, Ok(())), Ok(()));
    assert_eq!(statuses.get("mario"), Some(UserStatus::Moving));
}

#[test]
fn trips_that_end() {
    let mut trips = TripsStore::new();
    let mut statuses = StatusStore::new();
    for id in [1, 2] {
        initialize_trips(&mut trips, &mut statuses, "mario", dbl(45.0), dbl(9.0), Ok(id)).unwrap();
    }
    assert_eq!(
        terminate_trip(&mut trips, 1, end_trip(Ok(0))),
        Err("Failed to end trip: trip missing, not yours or already closed".to_string())
    );
    assert!(is_tracked(&trips, 1));
    assert_eq!(
        terminate_trip(&mut trips, 1, end_trip(Err("locked".to_string()))),
        Err("Failed to end trip: locked".to_string())
    );
    assert_eq!(terminate_trip(&mut trips, 1, end_trip(Ok(1))), Ok(()));
    assert!(!is_tracked(&trips, 1));
    drop_trip(&mut trips, 2);
    assert!(!is_tracked(&trips, 2));
}

#[test]
fn five_metres_are_the_same_place() {
    assert!(coords_equal(dbl(0.0)));
    assert!(coords_equal(dbl(5.0)));
    assert!(!coords_equal(dbl(5.000000001)));
    assert!(!coords_equal(dbl(f64::NAN)));
}

#[test]
fn a_trip_on_record() {
    let t = TripRecord { id: 1, username: "mario".to_string(), started_at: 5, ended_at: None };
    assert_eq!(t, t.clone());
    assert_ne!(t, TripRecord { ended_at: Some(9), ..t.clone() });
}

#[test]
fn no_more_time_counts_than_has_passed() {
    let points: Vec<PositionRecord> =
        (0..60).map(|i| at(1, 100 + i * i, 45.0 + i as f64 * 0.001, false)).collect();
    let stats = statistics("mario", 0, 5_000, &points);
    assert!(stats.total_secs <= points[59].ts - points[0].ts);
    // Gaps grow by two seconds each; those of up to ninety count.
    assert_eq!(stats.total_secs, (0..45).map(|i| 2 * i + 1).sum::<i64>());
}

#[test]
fn statistics_agree_with_states() {
    let mut trips = TripsStore::new();
    let mut statuses = StatusStore::new();
    initialize_trips(&mut trips, &mut statuses, "mario", dbl(45.0), dbl(9.0), Ok(1)).unwrap();
    let mut points = vec![at(1, 0, 45.0, false)];
    let mut movement = 0;
    for i in 1..=20_i64 {
        let lat = if i < 10 { 45.0 } else { 45.0 + i as f64 * 0.001 };
        let last = points.last().unwrap().clone();
        let next = at(1, 30 * i, lat, false);
        let d = distances(&[last.clone(), next.clone()])[0];
        let (action, transition) = update_trip(&mut trips, 1, next.lat, next.lon, d).unwrap();
        if let InsertAction::Insert { stopped } = action {
            if transition == StatusTransition::ToMoving && next.ts - last.ts <= 90 {
                movement += next.ts - last.ts;
            }
            points.push(PositionRecord { stopped, ..next });
        }
    }
    let stats = statistics("mario", 0, 600, &points);
    assert_eq!(stats.movement_secs, movement);
    assert_eq!(stats.points, points.len() as i64);
}
