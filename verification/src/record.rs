//! The trips on record, and what the actions of a connection mean for them.
//!
//! The record itself is kept outside. What is stated here holds of a record that
//! does what it is asked for.
use vstd::prelude::*;

use crate::connection::{ActionView, ConnectionView, EventView};
use crate::message::MessageView;
use crate::server::ServerView;

verus! {

/// A trip on record.
#[verifier::ext_equal]
pub struct TripRow {
    pub username: Seq<char>,
    pub started_at: i64,
    pub ended_at: Option<i64>,
}

/// Whether a trip is open and the user's: what `TripOpen` asks for.
pub open spec fn trip_open(trips: Map<i64, TripRow>, trip_id: i64, user: Seq<char>) -> bool {
    &&& trips.contains_key(trip_id)
    &&& trips[trip_id].username == user
    &&& trips[trip_id].ended_at is None
}

/// The record after a trip is put on it under a number: what `RecordTrip` asks for,
/// with a number that no trip has yet.
pub open spec fn trip_recorded(
    trips: Map<i64, TripRow>,
    trip_id: i64,
    user: Seq<char>,
    ts: i64,
) -> Map<i64, TripRow> {
    trips.insert(trip_id, TripRow { username: user, started_at: ts, ended_at: None })
}

/// The record after a trip is closed, if it is open and the user's, and how many
/// trips were: what `EndTrip` asks for.
pub open spec fn trip_ended(
    trips: Map<i64, TripRow>,
    trip_id: i64,
    user: Seq<char>,
    ts: i64,
) -> (Map<i64, TripRow>, u64) {
    if trip_open(trips, trip_id, user) {
        (trips.insert(trip_id, TripRow { ended_at: Some(ts), ..trips[trip_id] }), 1)
    } else {
        (trips, 0)
    }
}

/// The record after some trips of a user are closed one after the other.
pub open spec fn all_ended(
    trips: Map<i64, TripRow>,
    user: Seq<char>,
    ids: Seq<i64>,
    ts: i64,
) -> Map<i64, TripRow>
    decreases ids.len(),
{
    if ids.len() == 0 {
        trips
    } else {
        trip_ended(all_ended(trips, user, ids.drop_last(), ts), ids.last(), user, ts).0
    }
}

/// Whether a list holds the open trips of a user: what `OpenTrips` asks for.
pub open spec fn lists_open_trips(
    trips: Map<i64, TripRow>,
    user: Seq<char>,
    ids: Seq<i64>,
) -> bool {
    forall|id: i64| #[trigger] trip_open(trips, id, user) <==> ids.contains(id)
}

/// A trip that is put on record is open to its user and to nobody else, and its user
/// alone can close it; no other trip changes.
pub proof fn law_recorded_trip_is_open(
    trips: Map<i64, TripRow>,
    trip_id: i64,
    user: Seq<char>,
    ts: i64,
    anybody: Seq<char>,
    later: i64,
)
    requires
        !trips.contains_key(trip_id),
    ensures
        ({
            let after = trip_recorded(trips, trip_id, user, ts);
            &&& after.contains_key(trip_id)
            &&& after[trip_id] == (TripRow { username: user, started_at: ts, ended_at: None })
            &&& after.remove(trip_id) == trips
            &&& trip_open(after, trip_id, anybody) <==> anybody == user
            &&& crate::connection::ended(Ok(trip_ended(after, trip_id, anybody, later).1)) is Ok
                <==> anybody == user
            &&& forall|id: i64| #[trigger]
                trip_open(after, id, anybody) <==> trip_open(trips, id, anybody) || (id == trip_id
                    && anybody == user)
        }),
{
    assert(trip_recorded(trips, trip_id, user, ts).remove(trip_id) =~= trips);
}

/// A trip that a client starts is put on record; once its first position is, too, the
/// client is told its number, the server knows the trip, and it is open on record to
/// the user and to nobody else. When the user ends it, that is acknowledged, the
/// server forgets it, and it is open to nobody.
pub proof fn law_whole_trip_over_a_connection(
    s: ServerView,
    c: ConnectionView,
    trips: Map<i64, TripRow>,
    token: Seq<char>,
    user: Seq<char>,
    lat: crate::double::Double,
    lon: crate::double::Double,
    ts: i64,
    trip_id: i64,
    later: i64,
    anybody: Seq<char>,
)
    requires
        c.stage is Decoding,
        crate::server::authorized(s, c.user, token) == Some(user),
        crate::connection::sample_problem(lat, lon, ts) is None,
        !trips.contains_key(trip_id),
    ensures
        ({
            let start = MessageView::StartTrip { token, lat, lon, ts };
            let o = crate::connection::on_event(s, c, EventView::Decoded(Some(start)));
            let open = trip_recorded(trips, trip_id, user, ts);
            let p = crate::connection::on_event(
                o.server,
                o.connection,
                EventView::TripRecorded(Ok(trip_id)),
            );
            let q = crate::connection::on_event(
                p.server,
                p.connection,
                EventView::PositionRecorded(Ok(())),
            );
            let again = ConnectionView { stage: c.stage, ..q.connection };
            let end = MessageView::EndTrip { token, trip_id, ts: later };
            let (closed, rows) = trip_ended(open, trip_id, user, later);
            let x = crate::connection::on_event(
                q.server,
                again,
                EventView::Decoded(Some(end)),
            );
            let y = crate::connection::on_event(
                x.server,
                x.connection,
                EventView::TripEnded(Ok(rows)),
            );
            &&& o.action == (ActionView::RecordTrip { user, ts })
            &&& p.action == (ActionView::RecordPosition { trip_id, lat, lon, ts, stopped: false })
            &&& q.action == (ActionView::Send {
                msg: MessageView::TripStarted { trip_id, lat, lon, ts },
            })
            &&& q.server.trips == s.trips.insert(trip_id, crate::trips::arrival(lat, lon))
            &&& trip_open(open, trip_id, anybody) <==> anybody == user
            &&& x.action == (ActionView::EndTrip { trip_id, user, ts: later })
            &&& y.action == (ActionView::Send { msg: MessageView::Ack })
            &&& y.server.trips == s.trips.remove(trip_id)
            &&& !trip_open(closed, trip_id, anybody)
            &&& closed.remove(trip_id) == trips
        }),
{
    let open = trip_recorded(trips, trip_id, user, ts);
    assert(trip_ended(open, trip_id, user, later).0.remove(trip_id) =~= trips);
    assert(s.trips.insert(trip_id, crate::trips::arrival(lat, lon)).remove(trip_id)
        =~= s.trips.remove(trip_id));
}

/// A trip is closed exactly if it is open and the user's. Then nothing else on record
/// changes, it is open to nobody any more, and cannot be closed again; otherwise
/// nothing changes at all.
pub proof fn law_trip_lifecycle(
    trips: Map<i64, TripRow>,
    trip_id: i64,
    user: Seq<char>,
    ts: i64,
    anybody: Seq<char>,
    later: i64,
)
    ensures
        ({
            let (after, rows) = trip_ended(trips, trip_id, user, ts);
            let again = trip_ended(after, trip_id, user, later);
            &&& crate::connection::ended(Ok(rows)) is Ok <==> trip_open(trips, trip_id, user)
            &&& trip_open(trips, trip_id, user) ==> {
                &&& after.remove(trip_id) == trips.remove(trip_id)
                &&& after.contains_key(trip_id)
                &&& after[trip_id] == (TripRow { ended_at: Some(ts), ..trips[trip_id] })
                &&& !trip_open(after, trip_id, anybody)
                &&& again.0 == after
                &&& crate::connection::ended(Ok(again.1)) is Err
            }
            &&& !trip_open(trips, trip_id, user) ==> after == trips && crate::connection::ended(
                Ok(rows),
            ) == Err::<(), Seq<char>>(crate::connection::no_such_trip())
            &&& trip_open(trips, trip_id, user) && anybody != user ==> trip_ended(
                trips,
                trip_id,
                anybody,
                ts,
            ) == (trips, 0u64)
        }),
{
    let (after, rows) = trip_ended(trips, trip_id, user, ts);
    assert(after.remove(trip_id) =~= trips.remove(trip_id));
}

/// A trip that a client asks to end is closed on record, and acknowledged, exactly if
/// it was open and the user's; a trip of somebody else stays open.
pub proof fn law_end_of_a_trip_over_a_connection(
    s: ServerView,
    c: ConnectionView,
    trips: Map<i64, TripRow>,
    token: Seq<char>,
    user: Seq<char>,
    trip_id: i64,
    ts: i64,
)
    requires
        c.stage is Decoding,
        crate::server::authorized(s, c.user, token) == Some(user),
    ensures
        ({
            let msg = MessageView::EndTrip { token, trip_id, ts };
            let o = crate::connection::on_event(s, c, EventView::Decoded(Some(msg)));
            let rows = trip_ended(trips, trip_id, user, ts).1;
            let p = crate::connection::on_event(
                o.server,
                o.connection,
                EventView::TripEnded(Ok(rows)),
            );
            &&& o.action == (ActionView::EndTrip { trip_id, user, ts })
            &&& if trip_open(trips, trip_id, user) {
                &&& p.action == (ActionView::Send { msg: MessageView::Ack })
                &&& p.server.trips == s.trips.remove(trip_id)
            } else {
                &&& p.action == (ActionView::Send {
                    msg: MessageView::Error {
                        code: "BAD_REQUEST"@,
                        message: "Failed to end trip: "@ + crate::connection::no_such_trip(),
                    },
                })
                &&& p.server == s
            }
        }),
{
}

/// Once the open trips of a user are listed and closed one after the other, none is
/// open on record; the trips of others stay as they are. (That a connection asks for
/// just this at its end is [`crate::guarantees::law_every_end_cleans_up`].)
pub proof fn law_leaving_leaves_no_open_trip(
    trips: Map<i64, TripRow>,
    user: Seq<char>,
    ids: Seq<i64>,
    ts: i64,
    id: i64,
)
    requires
        lists_open_trips(trips, user, ids),
    ensures
        ({
            let after = all_ended(trips, user, ids, ts);
            &&& !trip_open(after, id, user)
            &&& after.contains_key(id) == trips.contains_key(id)
            &&& trips.contains_key(id) && !ids.contains(id) ==> after[id] == trips[id]
            &&& trips.contains_key(id) && trips[id].username != user ==> after[id] == trips[id]
        }),
{
    lemma_all_ended(trips, user, ids, ts, id);
    assert(trip_open(trips, id, user) ==> ids.contains(id));
}

proof fn lemma_all_ended(
    trips: Map<i64, TripRow>,
    user: Seq<char>,
    ids: Seq<i64>,
    ts: i64,
    id: i64,
)
    ensures
        ({
            let after = all_ended(trips, user, ids, ts);
            &&& after.contains_key(id) == trips.contains_key(id)
            &&& trips.contains_key(id) ==> after[id] == if ids.contains(id) && trip_open(
                trips,
                id,
                user,
            ) {
                TripRow { ended_at: Some(ts), ..trips[id] }
            } else {
                trips[id]
            }
        }),
    decreases ids.len(),
{
    if ids.len() > 0 {
        let rest = ids.drop_last();
        lemma_all_ended(trips, user, rest, ts, id);
        if ids.contains(id) && !rest.contains(id) {
            let k = ids.index_of(id);
            if k < rest.len() {
                assert(rest[k] == id);
            }
        }
        if rest.contains(id) {
            let k = rest.index_of(id);
            assert(ids[k] == id);
        }
        assert(ids[ids.len() - 1] == ids.last());
    }
}

} // verus!
