//! The open trips: where each was last seen, and for how long it has stood
//! there.
use std::collections::HashMap;
use vstd::prelude::*;

use crate::double::{Double, FIVE};
use crate::number::append_signed;
use crate::status;
use crate::status::{StatusStore, UserStatus};

verus! {

broadcast use vstd::std_specs::hash::group_hash_axioms;

/// Samples of one place beyond which a user counts as stationary. At a sample
/// every 30 seconds these are three minutes.
pub const STOP_THRESHOLD_SAMPLES: u32 = 6;

/// The bits of the distance in metres, five, up to which two positions are the
/// same place.
pub const MOVEMENT_EPS_METERS: u64 = FIVE;

/// A trip as it is recorded. An open trip has no end.
#[derive(Debug, Clone, PartialEq)]
pub struct TripRecord {
    pub id: i64,
    pub username: String,
    pub started_at: i64,
    pub ended_at: Option<i64>,
}

/// The last place of a trip.
#[derive(Debug, Clone, Copy)]
pub struct CoordState {
    pub lat: Double,
    pub lon: Double,
    /// How many samples of this place there were, up to the threshold.
    pub n: u32,
    /// Whether the stop at this place has been recorded.
    pub inserted: bool,
}

/// What becomes of a sample.
#[derive(Debug, Clone, Copy, PartialEq, Eq, Structural)]
pub enum InsertAction {
    Insert { stopped: bool },
    Skip,
}

/// What a sample does to the state of its user.
#[derive(Debug, Clone, Copy, PartialEq, Eq, Structural)]
pub enum StatusTransition {
    ToMoving,
    ToStationary,
    Unchanged,
}

/// The trips in memory, by number.
pub struct TripsStore {
    last_coordinates: HashMap<i64, CoordState>,
}

impl View for TripsStore {
    type V = Map<i64, CoordState>;

    closed spec fn view(&self) -> Map<i64, CoordState> {
        self.last_coordinates@
    }
}

/// A place seen for the first time.
pub open spec fn arrival(lat: Double, lon: Double) -> CoordState {
    CoordState { lat, lon, n: 1, inserted: false }
}

/// Whether two positions at the given distance are the same place.
pub open spec fn same_place(distance: Double) -> bool {
    distance.at_most(crate::double::dbl(MOVEMENT_EPS_METERS))
}

/// What a sample at the given distance from the last place does to a trip: the
/// place afterwards, what becomes of the sample, and of the user's state.
pub open spec fn sampled(c: CoordState, lat: Double, lon: Double, distance: Double) -> (
    CoordState,
    InsertAction,
    StatusTransition,
) {
    if !same_place(distance) {
        (arrival(lat, lon), InsertAction::Insert { stopped: false }, StatusTransition::ToMoving)
    } else if c.n < STOP_THRESHOLD_SAMPLES {
        (
            CoordState { n: (c.n + 1) as u32, ..c },
            InsertAction::Insert { stopped: false },
            StatusTransition::Unchanged,
        )
    } else if !c.inserted {
        (
            CoordState { inserted: true, ..c },
            InsertAction::Insert { stopped: true },
            StatusTransition::ToStationary,
        )
    } else {
        (c, InsertAction::Skip, StatusTransition::Unchanged)
    }
}

/// The states of the users after a transition of one of them.
pub open spec fn transitioned(
    statuses: Map<Seq<char>, UserStatus>,
    user: Seq<char>,
    t: StatusTransition,
) -> Map<Seq<char>, UserStatus> {
    match t {
        StatusTransition::ToMoving => statuses.insert(user, UserStatus::Moving),
        StatusTransition::ToStationary => statuses.insert(user, UserStatus::Stationary),
        StatusTransition::Unchanged => statuses,
    }
}

/// What a sample of an unknown trip is refused with.
pub open spec fn untracked(trip_id: int) -> Seq<char> {
    "Trip ID "@ + crate::number::signed_decimal(trip_id) + " not found in store"@
}

impl TripsStore {
    /// No trips.
    pub fn new() -> (r: Self)
        ensures
            r@ == Map::<i64, CoordState>::empty(),
    {
        TripsStore { last_coordinates: HashMap::new() }
    }
}

impl Default for TripsStore {
    fn default() -> (r: Self)
        ensures
            r@ == Map::<i64, CoordState>::empty(),
    {
        Self::new()
    }
}

/// Whether two positions at the given distance count as one.
pub fn coords_equal(distance: Double) -> (r: bool)
    ensures
        r == same_place(distance),
{
    distance.le(Double { bits: MOVEMENT_EPS_METERS })
}

/// Takes a trip up under the number with which it was recorded. Its user is
/// stationary until the first change of place.
pub fn initialize_trips(
    store: &mut TripsStore,
    statuses: &mut StatusStore,
    user: &str,
    lat: Double,
    lon: Double,
    started: Result<i64, String>,
) -> (r: Result<i64, String>)
    ensures
        match started {
            Ok(id) => {
                &&& r == Ok::<i64, String>(id)
                &&& final(store)@ == old(store)@.insert(id, arrival(lat, lon))
                &&& final(statuses)@ == old(statuses)@.insert(user@, UserStatus::Stationary)
            },
            Err(e) => {
                &&& r is Err
                &&& r->Err_0@ == "Failed to start trip: "@ + e@
                &&& *final(store) == *old(store)
                &&& *final(statuses) == *old(statuses)
            },
        },
{
    match started {
        Ok(id) => {
            store.last_coordinates.insert(id, CoordState { lat, lon, n: 1, inserted: false });
            let _ = status::set(statuses, user, UserStatus::Stationary);
            Ok(id)
        },
        Err(e) => {
            let mut text = String::new();
            text.append("Failed to start trip: ");
            text.append(e.as_str());
            Err(text)
        },
    }
}

/// Forgets a trip, if its end could be recorded.
pub fn terminate_trip(store: &mut TripsStore, trip_id: i64, ended: Result<(), String>) -> (r:
    Result<(), String>)
    ensures
        match ended {
            Ok(()) => r is Ok && final(store)@ == old(store)@.remove(trip_id),
            Err(e) => r is Err && r->Err_0@ == "Failed to end trip: "@ + e@ && *final(store)
                == *old(store),
        },
{
    match ended {
        Ok(()) => {
            drop_trip(store, trip_id);
            Ok(())
        },
        Err(e) => {
            let mut text = String::new();
            text.append("Failed to end trip: ");
            text.append(e.as_str());
            Err(text)
        },
    }
}

/// Forgets a trip.
pub fn drop_trip(store: &mut TripsStore, trip_id: i64)
    ensures
        final(store)@ == old(store)@.remove(trip_id),
{
    let _ = store.last_coordinates.remove(&trip_id);
}

/// Whether a trip is known.
pub fn is_tracked(store: &TripsStore, trip_id: i64) -> (r: bool)
    ensures
        r == store@.contains_key(trip_id),
{
    store.last_coordinates.contains_key(&trip_id)
}

/// The last place of a trip.
pub fn last_position(store: &TripsStore, trip_id: i64) -> (r: Option<(Double, Double)>)
    ensures
        r == if store@.contains_key(trip_id) {
            Some((store@[trip_id].lat, store@[trip_id].lon))
        } else {
            None
        },
{
    match store.last_coordinates.get(&trip_id) {
        Some(c) => Some((c.lat, c.lon)),
        None => None,
    }
}

/// Takes a sample in, at the given distance from the last place of its trip, and
/// says what becomes of it and of the state of its user.
pub fn update_trip(
    store: &mut TripsStore,
    trip_id: i64,
    lat: Double,
    lon: Double,
    distance: Double,
) -> (r: Result<(InsertAction, StatusTransition), String>)
    ensures
        match r {
            Ok((action, transition)) => {
                &&& old(store)@.contains_key(trip_id)
                &&& ({
                    let s = sampled(old(store)@[trip_id], lat, lon, distance);
                    &&& final(store)@ == old(store)@.insert(trip_id, s.0)
                    &&& action == s.1
                    &&& transition == s.2
                })
            },
            Err(e) => {
                &&& !old(store)@.contains_key(trip_id)
                &&& *final(store) == *old(store)
                &&& e@ == untracked(trip_id as int)
            },
        },
{
    let known: Option<CoordState> = match store.last_coordinates.get(&trip_id) {
        Some(c) => Some(*c),
        None => None,
    };
    match known {
        Some(c) => {
            let (next, action, transition) = if coords_equal(distance) {
                if c.n < STOP_THRESHOLD_SAMPLES {
                    (
                        CoordState { lat: c.lat, lon: c.lon, n: c.n + 1, inserted: c.inserted },
                        InsertAction::Insert { stopped: false },
                        StatusTransition::Unchanged,
                    )
                } else if !c.inserted {
                    (
                        CoordState { lat: c.lat, lon: c.lon, n: c.n, inserted: true },
                        InsertAction::Insert { stopped: true },
                        StatusTransition::ToStationary,
                    )
                } else {
                    (c, InsertAction::Skip, StatusTransition::Unchanged)
                }
            } else {
                (
                    CoordState { lat, lon, n: 1, inserted: false },
                    InsertAction::Insert { stopped: false },
                    StatusTransition::ToMoving,
                )
            };
            store.last_coordinates.insert(trip_id, next);
            Ok((action, transition))
        },
        None => {
            let mut text = String::new();
            text.append("Trip ID ");
            append_signed(&mut text, trip_id);
            text.append(" not found in store");
            Err(text)
        },
    }
}

/// Sets the state of a user, once a sample is recorded.
pub fn finish_update(
    statuses: &mut StatusStore,
    user: &str,
    transition: StatusTransition,
    recorded: Result<(), String>,
) -> (r: Result<(), String>)
    ensures
        match recorded {
            Ok(()) => r is Ok && final(statuses)@ == transitioned(
                old(statuses)@,
                user@,
                transition,
            ),
            Err(e) => r is Err && r->Err_0@ == "Failed to insert position: "@ + e@
                && *final(statuses) == *old(statuses),
        },
{
    match recorded {
        Ok(()) => {
            match transition {
                StatusTransition::ToMoving => {
                    let _ = status::set(statuses, user, UserStatus::Moving);
                },
                StatusTransition::ToStationary => {
                    let _ = status::set(statuses, user, UserStatus::Stationary);
                },
                StatusTransition::Unchanged => {},
            }
            Ok(())
        },
        Err(e) => {
            let mut text = String::new();
            text.append("Failed to insert position: ");
            text.append(e.as_str());
            Err(text)
        },
    }
}

/// A trip after its last place was sampled `k` more times, at the given
/// distances.
pub open spec fn stayed(c: CoordState, distances: Seq<Double>) -> CoordState
    decreases distances.len(),
{
    if distances.len() == 0 {
        c
    } else {
        let b = stayed(c, distances.drop_last());
        sampled(b, b.lat, b.lon, distances.last()).0
    }
}

/// However long a trip stays at a place, it is recorded there a fixed number of
/// times: once per sample up to the threshold, once more as stopped, when its
/// user becomes stationary, and not again.
pub proof fn law_stop_is_recorded_once(
    lat: Double,
    lon: Double,
    distances: Seq<Double>,
    next: Double,
)
    requires
        forall|i: int| 0 <= i < distances.len() ==> same_place(#[trigger] distances[i]),
        same_place(next),
    ensures
        ({
            let k = distances.len() + 1;
            let s = sampled(stayed(arrival(lat, lon), distances), lat, lon, next);
            &&& s.0.lat == lat && s.0.lon == lon
            &&& k < STOP_THRESHOLD_SAMPLES ==> s.1 == InsertAction::Insert { stopped: false } && s.2
                == StatusTransition::Unchanged
            &&& k == STOP_THRESHOLD_SAMPLES ==> s.1 == InsertAction::Insert { stopped: true } && s.2
                == StatusTransition::ToStationary
            &&& k > STOP_THRESHOLD_SAMPLES ==> s.1 == InsertAction::Skip && s.2
                == StatusTransition::Unchanged && s.0 == stayed(arrival(lat, lon), distances)
        }),
{
    lemma_stayed(lat, lon, distances);
}

proof fn lemma_stayed(lat: Double, lon: Double, distances: Seq<Double>)
    requires
        forall|i: int| 0 <= i < distances.len() ==> same_place(#[trigger] distances[i]),
    ensures
        ({
            let c = stayed(arrival(lat, lon), distances);
            &&& c.lat == lat && c.lon == lon
            &&& c.n == if distances.len() < STOP_THRESHOLD_SAMPLES {
                distances.len() + 1
            } else {
                STOP_THRESHOLD_SAMPLES as nat
            }
            &&& c.inserted == (distances.len() >= STOP_THRESHOLD_SAMPLES)
        }),
    decreases distances.len(),
{
    if distances.len() > 0 {
        let ds = distances.drop_last();
        assert forall|i: int| 0 <= i < ds.len() implies same_place(#[trigger] ds[i]) by {
            assert(ds[i] == distances[i]);
        }
        lemma_stayed(lat, lon, ds);
        assert(same_place(distances[distances.len() - 1]));
    }
}

/// A sample away from the last place is recorded, makes the user move and starts
/// the count of samples anew.
pub proof fn law_change_of_place(c: CoordState, lat: Double, lon: Double, distance: Double)
    requires
        !same_place(distance),
    ensures
        sampled(c, lat, lon, distance) == (
            arrival(lat, lon),
            InsertAction::Insert { stopped: false },
            StatusTransition::ToMoving,
        ),
{
}

/// Up to five metres are the same place.
pub proof fn law_five_metres(distance: Double)
    ensures
        same_place(distance) <==> !distance.is_nan() && distance.value() <= 5
            * vstd::arithmetic::power2::pow2(1074),
{
    crate::double::law_constants();
}

/// What a sample does. Away from the last place it becomes the place, is recorded as
/// moving and makes its user move. At the last place it leaves the place as it is: the
/// first five such samples are recorded as moving and change nobody's state; the sixth
/// is recorded as a stop and makes its user stationary; later ones are not recorded.
/// `distances` are those of the samples at the place so far.
pub proof fn law_samples_of_a_place(
    before: CoordState,
    lat: Double,
    lon: Double,
    far: Double,
    distances: Seq<Double>,
    near: Double,
)
    requires
        !same_place(far),
        forall|i: int| 0 <= i < distances.len() ==> same_place(#[trigger] distances[i]),
        same_place(near),
    ensures
        ({
            let (place, action, change) = sampled(before, lat, lon, far);
            let (after, later, later_change) = sampled(stayed(place, distances), lat, lon, near);
            let k = distances.len() + 1;
            &&& (place.lat, place.lon) == (lat, lon)
            &&& action == (InsertAction::Insert { stopped: false })
            &&& change is ToMoving
            &&& (after.lat, after.lon) == (lat, lon)
            &&& k <= 5 ==> later == (InsertAction::Insert { stopped: false }) && later_change
                is Unchanged
            &&& k == 6 ==> later == (InsertAction::Insert { stopped: true }) && later_change
                is ToStationary
            &&& k >= 7 ==> later is Skip && later_change is Unchanged
        }),
{
    law_change_of_place(before, lat, lon, far);
    law_stop_is_recorded_once(lat, lon, distances, near);
}

/// Only the state of the user in question changes, and to what the transition says.
pub proof fn law_transitions(statuses: Map<Seq<char>, UserStatus>, user: Seq<char>)
    ensures
        transitioned(statuses, user, StatusTransition::ToMoving) == statuses.insert(
            user,
            UserStatus::Moving,
        ),
        transitioned(statuses, user, StatusTransition::ToStationary) == statuses.insert(
            user,
            UserStatus::Stationary,
        ),
        transitioned(statuses, user, StatusTransition::Unchanged) == statuses,
{
}

/// A trip that is taken up is at the place of its start, seen once and not stopped.
pub proof fn law_arrival(lat: Double, lon: Double)
    ensures
        arrival(lat, lon).lat == lat,
        arrival(lat, lon).lon == lon,
        arrival(lat, lon).n == 1,
        !arrival(lat, lon).inserted,
{
}

} // verus!
