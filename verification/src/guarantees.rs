//! What holds of every connection, whatever happens to it.
use vstd::prelude::*;

use crate::connection::{
    ActionView, ConnectionView, EventView, Outcome, StageView,
};
use crate::message::MessageView;
use crate::server::ServerView;

verus! {

/// No step of a connection gives a user a second session.
pub proof fn law_single_session_is_kept(s: ServerView, c: ConnectionView, e: EventView)
    requires
        crate::sessions::single_session(s.sessions),
    ensures
        crate::sessions::single_session(crate::connection::on_event(s, c, e).server.sessions),
{
    match (c.stage, e) {
        (StageView::CreatingToken { username, .. }, EventView::Token(token)) => {
            crate::sessions::law_single_session(s.sessions, username, token);
            match c.user {
                Some(u) => {
                    if !crate::sessions::logged_in(s.sessions, username) {
                        crate::sessions::law_single_session(
                            s.sessions.insert(token, username),
                            u,
                            token,
                        );
                    }
                },
                None => {},
            }
        },
        (StageView::ListingTrips { user, token }, _) => {
            lemma_leaving_keeps_single_session(s, user, token);
        },
        (StageView::ClosingTrips { user, token, .. }, _) => {
            lemma_leaving_keeps_single_session(s, user, token);
        },
        _ => {
            law_sessions_change_only_there(s, c, e);
        },
    }
}

proof fn lemma_leaving_keeps_single_session(
    s: ServerView,
    user: Seq<char>,
    token: Option<Seq<char>>,
)
    requires
        crate::sessions::single_session(s.sessions),
    ensures
        crate::sessions::single_session(crate::sessions::without_user(s.sessions, user)),
        token matches Some(t) ==> crate::sessions::single_session(s.sessions.remove(t)),
{
    match token {
        Some(t) => crate::sessions::law_single_session(s.sessions, user, t),
        None => crate::sessions::law_single_session(s.sessions, user, Seq::empty()),
    }
}

/// Sessions begin with a token for a user who is let in, and end when a user
/// leaves; no other step touches them.
pub proof fn law_sessions_change_only_there(s: ServerView, c: ConnectionView, e: EventView)
    requires
        !(c.stage is CreatingToken && e is Token),
        !(c.stage is ListingTrips),
        !(c.stage is ClosingTrips),
    ensures
        crate::connection::on_event(s, c, e).server.sessions == s.sessions,
        crate::connection::on_event(s, c, e).server.sinks == s.sinks,
        crate::connection::on_event(s, c, e).connection.user == c.user,
{
}

/// Whether a message speaks for a user by a token (a farewell aside).
pub open spec fn needs_token(msg: MessageView) -> Option<Seq<char>> {
    match msg {
        MessageView::StartTrip { token, .. } => Some(token),
        MessageView::Position { token, .. } => Some(token),
        MessageView::EndTrip { token, .. } => Some(token),
        MessageView::Stats { token, .. } => Some(token),
        MessageView::ChatToServer { token, .. } => Some(token),
        _ => None,
    }
}

/// A message with a token that is not that of the user of the connection is
/// answered with `UNAUTHORIZED`, and changes nothing.
pub proof fn law_invalid_token(s: ServerView, c: ConnectionView, msg: MessageView)
    requires
        c.stage is Decoding,
        needs_token(msg) is Some,
        crate::server::authorized(s, c.user, needs_token(msg)->0) is None,
    ensures
        ({
            let o = crate::connection::on_event(s, c, EventView::Decoded(Some(msg)));
            &&& o.server == s
            &&& o.connection == (ConnectionView { stage: StageView::Replying, ..c })
            &&& o.action == (ActionView::Send {
                msg: MessageView::Error { code: "UNAUTHORIZED"@, message: "invalid token"@ },
            })
        }),
{
}

/// Where nobody is logged in, no token is accepted.
pub proof fn law_anonymous_is_never_authorized(s: ServerView, token: Seq<char>)
    ensures
        crate::server::authorized(s, None, token) is None,
{
}

/// Whether a connection is about to let a user in.
pub open spec fn entering(c: ConnectionView) -> bool {
    ||| c.stage is LookingUp
    ||| c.stage is CheckingCredentials
    ||| c.stage is SavingUser
    ||| c.stage is CreatingToken
}

/// A login or a registration that fails, for whatever reason, leaves everything as
/// it was: whoever was logged in on the connection stays so.
pub proof fn law_failed_entry_changes_nothing(s: ServerView, c: ConnectionView, e: EventView)
    requires
        entering(c),
    ensures
        ({
            let o = crate::connection::on_event(s, c, e);
            ||| o.server == s && o.connection.user == c.user
            ||| o.action matches ActionView::Send { msg } && msg is AuthOk
        }),
{
}

/// A login on a connection of the same user is refused.
pub proof fn law_same_user_is_refused(
    s: ServerView,
    c: ConnectionView,
    username: Seq<char>,
    password: Seq<char>,
)
    requires
        c.stage is Decoding,
        c.user == Some(username),
    ensures
        ({
            let msg = MessageView::Login { username, password };
            let o = crate::connection::on_event(s, c, EventView::Decoded(Some(msg)));
            &&& o.server == s
            &&& o.connection.user == c.user
            &&& o.action == (ActionView::Send {
                msg: MessageView::Error {
                    code: "ALREADY_AUTHENTICATED"@,
                    message: "already authenticated as "@ + username,
                },
            })
        }),
{
}

/// A user who has a session is not given another, on whatever connection.
pub proof fn law_second_login_is_refused(
    s: ServerView,
    c: ConnectionView,
    register: bool,
    username: Seq<char>,
    token: Seq<char>,
)
    requires
        c.stage == (StageView::CreatingToken { register, username }),
        crate::sessions::logged_in(s.sessions, username),
    ensures
        ({
            let o = crate::connection::on_event(s, c, EventView::Token(token));
            &&& o.server == s
            &&& o.action == (ActionView::Send {
                msg: MessageView::Error {
                    code: crate::connection::entry_code(register),
                    message: "user already logged in from another session"@,
                },
            })
        }),
{
}

/// A user who is let in can use the token at once, is stationary and can be
/// reached; whoever was logged in on the connection before is not any more.
pub proof fn law_entry(
    s: ServerView,
    c: ConnectionView,
    register: bool,
    username: Seq<char>,
    token: Seq<char>,
)
    requires
        c.stage == (StageView::CreatingToken { register, username }),
        !crate::sessions::logged_in(s.sessions, username),
        c.user != Some(username),
    ensures
        ({
            let o = crate::connection::on_event(s, c, EventView::Token(token));
            &&& o.action == (ActionView::Send { msg: MessageView::AuthOk { token } })
            &&& o.connection.user == Some(username)
            &&& crate::server::authorized(o.server, o.connection.user, token) == Some(username)
            &&& o.server.statuses.contains_key(username) && o.server.statuses[username]
                == crate::status::UserStatus::Stationary
            &&& o.server.sinks.contains_key(username) && o.server.sinks[username] == c.id
            &&& c.user matches Some(u) ==> !crate::sessions::logged_in(o.server.sessions, u)
                && !o.server.statuses.contains_key(u) && !o.server.sinks.contains_key(u)
        }),
{
    match c.user {
        Some(u) => {
            crate::sessions::law_ended_sessions(s.sessions.insert(token, username), u, token);
        },
        None => {},
    }
}

/// Whether nothing is left of a user.
pub open spec fn gone(s: ServerView, user: Seq<char>) -> bool {
    &&& !crate::sessions::logged_in(s.sessions, user)
    &&& !s.statuses.contains_key(user)
    &&& !s.sinks.contains_key(user)
}

/// A connection that ends leaves nothing of the user whom it held, however it comes
/// to its end.
pub proof fn law_end_leaves_nothing(s: ServerView, c: ConnectionView, e: EventView)
    requires
        own_business(c),
        c.stage !is Finished,
        crate::connection::on_event(s, c, e).connection.stage is Finished,
    ensures
        ({
            let o = crate::connection::on_event(s, c, e);
            &&& o.action is Finish
            &&& o.connection.user == c.user
            &&& c.user matches Some(u) ==> gone(o.server, u)
        }),
{
    match (c.stage, e) {
        (StageView::ListingTrips { user, .. }, _) => {
            crate::sessions::law_ended_sessions(s.sessions, user, Seq::empty());
        },
        (StageView::ClosingTrips { user, .. }, _) => {
            crate::sessions::law_ended_sessions(s.sessions, user, Seq::empty());
        },
        (StageView::Decoding, EventView::Decoded(Some(msg))) => {
            lemma_message_does_not_end(s, c, msg);
        },
        _ => {
            lemma_quiet_end(s, c, e);
        },
    }
}

proof fn lemma_message_does_not_end(s: ServerView, c: ConnectionView, msg: MessageView)
    ensures
        crate::connection::on_message(s, c, msg).connection.stage !is Finished,
{
}

/// Away from those who leave, only a connection that nobody is logged in on ends.
proof fn lemma_quiet_end(s: ServerView, c: ConnectionView, e: EventView)
    requires
        !(c.stage is ListingTrips),
        !(c.stage is ClosingTrips),
        !(c.stage is Decoding && e is Decoded && e->Decoded_0 is Some),
        c.stage !is Finished,
        crate::connection::on_event(s, c, e).connection.stage is Finished,
    ensures
        crate::connection::on_event(s, c, e).action is Finish,
        crate::connection::on_event(s, c, e).connection.user is None,
        c.user is None,
{
}

/// If a connection comes to its end by some events, nothing is left of the user
/// whom it held then.
pub proof fn law_ended_run_leaves_nothing(
    s: ServerView,
    c: ConnectionView,
    events: Seq<EventView>,
)
    requires
        own_business(c),
        c.stage !is Finished,
    ensures
        ({
            let o = run(s, c, events);
            o.connection.stage is Finished ==> (o.connection.user matches Some(u) ==> gone(
                o.server,
                u,
            ))
        }),
        own_business(run(s, c, events).connection),
    decreases events.len(),
{
    if events.len() > 0 {
        law_ended_run_leaves_nothing(s, c, events.drop_last());
        let p = run(s, c, events.drop_last());
        law_own_business(p.server, p.connection, events.last(), 0);
        if p.connection.stage is Finished {
            law_end_is_final(p.server, p.connection, events.last());
        } else if run(s, c, events).connection.stage is Finished {
            law_end_leaves_nothing(p.server, p.connection, events.last());
        }
    }
}

/// Whether an event takes a connection to its end: nothing more can come from the
/// client, something could not be sent to it, or the close frame is sent.
pub open spec fn ends(c: ConnectionView, e: EventView) -> bool {
    ||| c.stage is Reading && e is Closed
    ||| (c.stage is Replying || c.stage is Parting || c.stage is Closing) && e is SendFailed
    ||| c.stage is Closing && e is Sent
}

/// However a connection comes to its end, whoever is logged in on it has every open
/// trip closed, as far as possible, and is forgotten; only then the connection ends.
pub proof fn law_every_end_cleans_up(
    s: ServerView,
    c: ConnectionView,
    e: EventView,
    user: Seq<char>,
    ids: Seq<i64>,
    now: i64,
    results: Seq<Result<u64, Seq<char>>>,
)
    requires
        ends(c, e),
        c.user == Some(user),
        results.len() == ids.len(),
    ensures
        ({
            let o = crate::connection::on_event(s, c, e);
            let listed = seq![EventView::OpenTrips { ids: Some(ids), now }];
            let closed = results.map_values(|r: Result<u64, Seq<char>>| EventView::TripEnded(r));
            let p = run(o.server, o.connection, listed + closed);
            &&& o.server == s
            &&& o.action == (ActionView::OpenTrips { user })
            &&& forall|k: int|
                0 <= k < ids.len() ==> (#[trigger] run(
                    o.server,
                    o.connection,
                    listed + closed.take(k),
                )).action == (ActionView::EndTrip { trip_id: ids[k], user, ts: now })
            &&& p.action is Finish
            &&& gone(p.server, user)
            &&& p.server.trips == s.trips.remove_keys(ids.to_set())
        }),
{
    let o = crate::connection::on_event(s, c, e);
    assert(o == crate::connection::on_end(s, c));
    law_leaving_closes_every_trip(o.server, o.connection, user, None, ids, now, results);
    crate::sessions::law_ended_sessions(s.sessions, user, Seq::empty());
}

/// A farewell leaves nothing of its user either, is acknowledged, and closes the
/// connection.
pub proof fn law_farewell_leaves_nothing(
    s: ServerView,
    c: ConnectionView,
    user: Seq<char>,
    token: Seq<char>,
)
    requires
        crate::sessions::single_session(s.sessions),
        crate::sessions::user_of(s.sessions, token) == Some(user),
    ensures
        ({
            let o = crate::connection::on_left(s, c, user, Some(token));
            let p = crate::connection::on_event(o.server, o.connection, EventView::Sent);
            let q = crate::connection::on_event(p.server, p.connection, EventView::Sent);
            &&& gone(o.server, user)
            &&& o.connection.user is None
            &&& o.action == (ActionView::Send { msg: MessageView::Ack })
            &&& p.server == o.server && p.action is SendClose
            &&& q.server == o.server && q.action is Finish
        }),
{
    let o = crate::connection::on_left(s, c, user, Some(token));
    if crate::sessions::logged_in(o.server.sessions, user) {
        let t = choose|t: Seq<char>| #[trigger]
            o.server.sessions.contains_key(t) && o.server.sessions[t] == user;
        assert(s.sessions.contains_key(t) && s.sessions.contains_key(token));
    }
}

/// A user of whom nothing is left can come back, on whatever connection.
pub proof fn law_user_can_come_back(
    s: ServerView,
    c: ConnectionView,
    register: bool,
    username: Seq<char>,
    token: Seq<char>,
)
    requires
        gone(s, username),
        c.stage == (StageView::CreatingToken { register, username }),
    ensures
        crate::connection::on_event(s, c, EventView::Token(token)).action == (ActionView::Send {
            msg: MessageView::AuthOk { token },
        }),
{
}

/// A chat text is shown to the operator and acknowledged; it changes nothing, and
/// nothing is sent to anybody else.
pub proof fn law_chat_goes_to_the_operator(
    s: ServerView,
    c: ConnectionView,
    user: Seq<char>,
    token: Seq<char>,
    text: Seq<char>,
)
    requires
        c.stage is Decoding,
        crate::server::authorized(s, c.user, token) == Some(user),
        crate::message::chat_problem(text) is None,
    ensures
        ({
            let msg = MessageView::ChatToServer { token, text };
            let o = crate::connection::on_event(s, c, EventView::Decoded(Some(msg)));
            let p = crate::connection::on_event(o.server, o.connection, EventView::Shown);
            let q = crate::connection::on_event(p.server, p.connection, EventView::Sent);
            &&& o.server == s
            &&& o.action == (ActionView::Show { line: "[chat] "@ + user + ": "@ + text })
            &&& p.server == s
            &&& p.action == (ActionView::Send { msg: MessageView::Ack })
            &&& q.server == s
            &&& q.connection == (ConnectionView { stage: StageView::Reading, ..c })
        }),
{
}

/// The events in turn, from a connection on: what the last of them comes to.
pub open spec fn run(s: ServerView, c: ConnectionView, events: Seq<EventView>) -> Outcome
    decreases events.len(),
{
    if events.len() == 0 {
        Outcome { server: s, connection: c, action: ActionView::Ignore }
    } else {
        let o = run(s, c, events.drop_last());
        crate::connection::on_event(o.server, o.connection, events.last())
    }
}

/// A server that has forgotten some trips.
pub open spec fn without_trips(s: ServerView, ids: Seq<i64>) -> ServerView {
    ServerView { trips: s.trips.remove_keys(ids.to_set()), ..s }
}

/// Whoever leaves has every open trip closed, one after the other, whatever comes
/// of closing each; no trip of theirs stays in memory.
pub proof fn law_leaving_closes_every_trip(
    s: ServerView,
    c: ConnectionView,
    user: Seq<char>,
    token: Option<Seq<char>>,
    ids: Seq<i64>,
    now: i64,
    results: Seq<Result<u64, Seq<char>>>,
)
    requires
        c.stage == (StageView::ListingTrips { user, token }),
        results.len() == ids.len(),
    ensures
        ({
            let listed = seq![EventView::OpenTrips { ids: Some(ids), now }];
            let closed = results.map_values(|r: Result<u64, Seq<char>>| EventView::TripEnded(r));
            &&& forall|k: int|
                0 <= k < ids.len() ==> (#[trigger] run(s, c, listed + closed.take(k))).action
                    == (ActionView::EndTrip { trip_id: ids[k], user, ts: now })
            &&& run(s, c, listed + closed) == crate::connection::on_left(
                without_trips(s, ids),
                c,
                user,
                token,
            )
        }),
{
    let listed = seq![EventView::OpenTrips { ids: Some(ids), now }];
    let closed = results.map_values(|r: Result<u64, Seq<char>>| EventView::TripEnded(r));
    assert forall|k: int| 0 <= k < ids.len() implies (#[trigger] run(
        s,
        c,
        listed + closed.take(k),
    )).action == (ActionView::EndTrip { trip_id: ids[k], user, ts: now }) by {
        lemma_closing(s, c, user, token, ids, now, results, k);
    }
    lemma_closing(s, c, user, token, ids, now, results, ids.len() as int);
    assert(closed.take(ids.len() as int) =~= closed);
    assert(ids.take(ids.len() as int) =~= ids);
    assert(ids.skip(ids.len() as int).len() == 0);
}

proof fn lemma_closing(
    s: ServerView,
    c: ConnectionView,
    user: Seq<char>,
    token: Option<Seq<char>>,
    ids: Seq<i64>,
    now: i64,
    results: Seq<Result<u64, Seq<char>>>,
    k: int,
)
    requires
        c.stage == (StageView::ListingTrips { user, token }),
        results.len() == ids.len(),
        0 <= k <= ids.len(),
    ensures
        ({
            let listed = seq![EventView::OpenTrips { ids: Some(ids), now }];
            let closed = results.map_values(|r: Result<u64, Seq<char>>| EventView::TripEnded(r));
            run(s, c, listed + closed.take(k)) == crate::connection::on_leaving(
                without_trips(s, ids.take(k)),
                c,
                user,
                token,
                ids.skip(k),
                now,
            )
        }),
    decreases k,
{
    let listed = seq![EventView::OpenTrips { ids: Some(ids), now }];
    let closed = results.map_values(|r: Result<u64, Seq<char>>| EventView::TripEnded(r));
    let events = listed + closed.take(k);
    if k == 0 {
        assert(events =~= listed);
        assert(events.drop_last() =~= Seq::<EventView>::empty());
        assert(ids.skip(0) =~= ids);
        assert(without_trips(s, ids.take(0)) =~= s);
        assert(run(s, c, events.drop_last()).connection == c);
    } else {
        lemma_closing(s, c, user, token, ids, now, results, k - 1);
        assert(events.drop_last() =~= listed + closed.take(k - 1));
        assert(events.last() == EventView::TripEnded(results[k - 1]));
        let rest = ids.skip(k - 1);
        assert(rest.skip(1) =~= ids.skip(k));
        assert(rest[0] == ids[k - 1]);
        let before = without_trips(s, ids.take(k - 1));
        assert(ids.take(k) =~= ids.take(k - 1).push(ids[k - 1]));
        assert(ids.take(k).to_set() =~= ids.take(k - 1).to_set().insert(ids[k - 1])) by {
            let a = ids.take(k - 1);
            let b = ids.take(k);
            assert forall|x: i64| b.to_set().contains(x) <==> a.to_set().insert(
                ids[k - 1],
            ).contains(x) by {
                if b.contains(x) {
                    let i = b.index_of(x);
                    if i < k - 1 {
                        assert(a[i] == x);
                    }
                }
                if a.contains(x) {
                    let i = a.index_of(x);
                    assert(b[i] == x);
                }
                assert(b[k - 1] == ids[k - 1]);
            }
        }
        assert(before.trips.remove(ids[k - 1]) =~= without_trips(s, ids.take(k)).trips);
    }
}

/// The user for whom a stage works.
pub open spec fn works_for(stage: StageView) -> Option<Seq<char>> {
    match stage {
        StageView::RecordingTrip { user, .. } => Some(user),
        StageView::RecordingStart { user, .. } => Some(user),
        StageView::CheckingTrip { user, .. } => Some(user),
        StageView::Measuring { user, .. } => Some(user),
        StageView::RecordingPosition { user, .. } => Some(user),
        StageView::ListingTrips { user, .. } => Some(user),
        StageView::ClosingTrips { user, .. } => Some(user),
        _ => None,
    }
}

/// Whether a connection works for nobody but its own user.
pub open spec fn own_business(c: ConnectionView) -> bool {
    works_for(c.stage) matches Some(u) ==> c.user == Some(u)
}

/// A connection never works for anybody but its own user.
#[verifier::rlimit(30)]
pub proof fn law_own_business(s: ServerView, c: ConnectionView, e: EventView, id: u64)
    ensures
        own_business(ConnectionView { id, user: None, stage: StageView::Reading }),
        own_business(c) ==> own_business(crate::connection::on_event(s, c, e).connection),
{
    match (c.stage, e) {
        (StageView::Decoding, EventView::Decoded(Some(msg))) => {
            lemma_message_is_own_business(s, c, msg);
        },
        _ => {},
    }
}

proof fn lemma_message_is_own_business(s: ServerView, c: ConnectionView, msg: MessageView)
    ensures
        own_business(crate::connection::on_message(s, c, msg).connection),
{
}

/// Whatever a client does, the states and the connections of users other than its
/// own, and other than the one whom it lets in, stay as they are; and so do their
/// sessions, as long as a token is new.
pub proof fn law_other_users_are_safe(
    s: ServerView,
    c: ConnectionView,
    e: EventView,
    other: Seq<char>,
    token: Seq<char>,
)
    requires
        own_business(c),
        c.user != Some(other),
        c.stage matches StageView::CreatingToken { username, .. } ==> username != other,
        c.stage is CreatingToken ==> e != EventView::Token(token),
        c.stage matches StageView::ListingTrips { token: t, .. } ==> t != Some(token),
        c.stage matches StageView::ClosingTrips { token: t, .. } ==> t != Some(token),
        crate::sessions::user_of(s.sessions, token) == Some(other),
    ensures
        ({
            let t = crate::connection::on_event(s, c, e).server;
            &&& t.statuses.contains_key(other) == s.statuses.contains_key(other)
            &&& t.statuses.contains_key(other) ==> t.statuses[other] == s.statuses[other]
            &&& t.sinks.contains_key(other) == s.sinks.contains_key(other)
            &&& t.sinks.contains_key(other) ==> t.sinks[other] == s.sinks[other]
            &&& crate::sessions::user_of(t.sessions, token) == Some(other)
        }),
{
}

/// Only a trip that is open and its user's is sampled; an open trip of which
/// nothing is known any more is closed, and the client told so, whatever comes of
/// closing it.
pub proof fn law_trip_must_be_open(
    s: ServerView,
    c: ConnectionView,
    open: Result<bool, Seq<char>>,
    rows: Result<u64, Seq<char>>,
)
    requires
        c.stage is CheckingTrip,
    ensures
        ({
            let trip_id = c.stage->CheckingTrip_trip_id;
            let o = crate::connection::on_event(s, c, EventView::TripIsOpen(open));
            let p = crate::connection::on_event(o.server, o.connection, EventView::TripEnded(rows));
            &&& o.server == s
            &&& o.action is Measure <==> open == Ok::<bool, Seq<char>>(true) && s.trips.contains_key(
                trip_id,
            )
            &&& open == Ok::<bool, Seq<char>>(true) && !s.trips.contains_key(trip_id) ==> o.action
                == (ActionView::EndTrip {
                trip_id,
                user: c.stage->CheckingTrip_user,
                ts: c.stage->CheckingTrip_ts,
            }) && p.server == s && p.action == (ActionView::Send {
                msg: MessageView::Error {
                    code: "TRIP_TERMINATED"@,
                    message: "trip closed by the server (state lost): open a new trip"@,
                },
            })
            &&& open == Ok::<bool, Seq<char>>(false) ==> o.action == (ActionView::Send {
                msg: MessageView::Error {
                    code: "BAD_REQUEST"@,
                    message: "trip missing, not yours or already closed"@,
                },
            })
        }),
{
}

/// A trip that is started is known from then on, at the place where it starts, and
/// its user is stationary; the client is told its number. If anything about it
/// cannot be recorded, nothing is known of it.
pub proof fn law_trip_starts(
    s: ServerView,
    c: ConnectionView,
    recorded: Result<(), Seq<char>>,
)
    requires
        c.stage is RecordingStart,
    ensures
        ({
            let o = crate::connection::on_event(s, c, EventView::PositionRecorded(recorded));
            let user = c.stage->RecordingStart_user;
            let trip_id = c.stage->RecordingStart_trip_id;
            let lat = c.stage->RecordingStart_lat;
            let lon = c.stage->RecordingStart_lon;
            let ts = c.stage->RecordingStart_ts;
            match recorded {
                Ok(()) => {
                    &&& o.server.trips.contains_key(trip_id) && o.server.trips[trip_id]
                        == crate::trips::arrival(lat, lon)
                    &&& o.server.statuses.contains_key(user) && o.server.statuses[user]
                        == crate::status::UserStatus::Stationary
                    &&& o.action == (ActionView::Send {
                        msg: MessageView::TripStarted { trip_id, lat, lon, ts },
                    })
                },
                Err(e) => o.server == s && o.action == (ActionView::Send {
                    msg: MessageView::Error {
                        code: "START_TRIP_FAILED"@,
                        message: "Failed to start trip: "@ + e,
                    },
                }),
            }
        }),
{
}

/// A trip that is ended is forgotten, and no later position is taken for it; one
/// that cannot be ended stays as it is.
pub proof fn law_trip_ends(
    s: ServerView,
    c: ConnectionView,
    rows: Result<u64, Seq<char>>,
    d: ConnectionView,
    open: Result<bool, Seq<char>>,
)
    requires
        c.stage is EndingTrip,
        d.stage is CheckingTrip,
        d.stage->CheckingTrip_trip_id == c.stage->EndingTrip_trip_id,
    ensures
        ({
            let o = crate::connection::on_event(s, c, EventView::TripEnded(rows));
            let p = crate::connection::on_event(o.server, d, EventView::TripIsOpen(open));
            match crate::connection::ended(rows) {
                Ok(()) => {
                    &&& !o.server.trips.contains_key(c.stage->EndingTrip_trip_id)
                    &&& o.action == (ActionView::Send { msg: MessageView::Ack })
                    &&& p.action !is Measure
                },
                Err(e) => o.server == s && o.action == (ActionView::Send {
                    msg: MessageView::Error {
                        code: "BAD_REQUEST"@,
                        message: "Failed to end trip: "@ + e,
                    },
                }),
            }
        }),
{
}

/// A connection that has ended does nothing any more.
pub proof fn law_end_is_final(s: ServerView, c: ConnectionView, e: EventView)
    requires
        c.stage is Finished,
    ensures
        crate::connection::on_event(s, c, e) == (Outcome {
            server: s,
            connection: c,
            action: ActionView::Ignore,
        }),
{
}

/// What happens to a connection in the course of a login or a registration.
/// `entered` says whether the credentials are right, or the user is recorded.
pub open spec fn entry_events(
    register: bool,
    username: Seq<char>,
    password: Seq<char>,
    exists: Result<bool, Seq<char>>,
    entered: Result<(), Seq<char>>,
    token: Seq<char>,
) -> Seq<EventView> {
    let msg = if register {
        MessageView::Register { username, password }
    } else {
        MessageView::Login { username, password }
    };
    let entered = if register {
        EventView::Registered(entered)
    } else {
        EventView::CredentialsChecked(entered is Ok)
    };
    seq![
        EventView::Decoded(Some(msg)),
        EventView::KeyExists(exists),
        entered,
        EventView::Token(token),
    ]
}

/// A login or a registration over a connection comes to what
/// [`crate::auth::entry_problem`] says: if nothing speaks against it the user is let
/// in, otherwise it is answered with what does, and nothing is changed.
pub proof fn law_entry_over_a_connection(
    s: ServerView,
    c: ConnectionView,
    register: bool,
    username: Seq<char>,
    password: Seq<char>,
    exists: Result<bool, Seq<char>>,
    entered: Result<(), Seq<char>>,
    token: Seq<char>,
)
    requires
        c.stage is Decoding,
        register || c.user != Some(username),
    ensures
        ({
            let events = entry_events(register, username, password, exists, entered, token);
            let wrong = match entered {
                Ok(()) => None,
                Err(e) => Some(
                    if register {
                        e
                    } else {
                        "invalid credentials"@
                    },
                ),
            };
            match crate::auth::entry_problem(
                s.sessions,
                register,
                username,
                password,
                exists,
                wrong,
            ) {
                None => run(s, c, events).action == (ActionView::Send {
                    msg: MessageView::AuthOk { token },
                }),
                Some(e) => exists|k: int|
                    1 <= k <= events.len() && (#[trigger] run(s, c, events.take(k))).server == s
                        && run(s, c, events.take(k)).action == (ActionView::Send {
                        msg: MessageView::Error {
                            code: crate::connection::entry_code(register),
                            message: e,
                        },
                    }),
            }
        }),
{
    let events = entry_events(register, username, password, exists, entered, token);
    let o1 = run(s, c, events.take(1));
    let o2 = run(s, c, events.take(2));
    let o3 = run(s, c, events.take(3));
    let o4 = run(s, c, events.take(4));
    assert(events.take(1).drop_last() =~= Seq::<EventView>::empty());
    assert(events.take(2).drop_last() =~= events.take(1));
    assert(events.take(3).drop_last() =~= events.take(2));
    assert(events.take(4).drop_last() =~= events.take(3));
    assert(events.take(4) =~= events);
    assert(run(s, c, Seq::<EventView>::empty()).connection == c);
    assert(o1 == crate::connection::on_entry(s, c, register, username, password));
    if crate::auth::details_problem(username, password) is None {
        assert(o2 == crate::connection::on_lookup(
            o1.server,
            o1.connection,
            register,
            username,
            password,
            exists,
        ));
        if crate::auth::lookup_problem(register, exists) is None {
            assert(o3.server == s);
            if entered is Ok {
                assert(o3.connection.stage == (StageView::CreatingToken { register, username }));
                assert(o4 == crate::connection::on_token(
                    o3.server,
                    o3.connection,
                    register,
                    username,
                    token,
                ));
            }
        }
    }
}

/// What becomes of a position, from the message to the reply. It is asked whether the trip
/// is open and the user's; then how far the position is from the last place of the trip.
/// The position that is recorded is that of the message, place for place and at its time;
/// it is a stop exactly if it is within five metres and the place was sampled six times
/// before. It is not recorded only if such a stop has been. The user moves after a
/// position farther away, and is stationary after a stop that is recorded; the client is
/// told once the position is recorded, and told why if it cannot be.
#[verifier::rlimit(30)]
pub proof fn law_position_is_recorded(
    s: ServerView,
    c: ConnectionView,
    token: Seq<char>,
    user: Seq<char>,
    trip_id: i64,
    lat: crate::double::Double,
    lon: crate::double::Double,
    ts: i64,
    d: crate::double::Double,
    e: Seq<char>,
)
    requires
        c.stage is Decoding,
        crate::server::authorized(s, c.user, token) == Some(user),
        crate::connection::sample_problem(lat, lon, ts) is None,
        s.trips.contains_key(trip_id),
    ensures
        ({
            let msg = MessageView::Position { token, trip_id, lat, lon, ts };
            let o = crate::connection::on_event(s, c, EventView::Decoded(Some(msg)));
            let p = crate::connection::on_event(
                o.server,
                o.connection,
                EventView::TripIsOpen(Ok(true)),
            );
            let q = crate::connection::on_event(p.server, p.connection, EventView::Measured(d));
            let done = crate::connection::on_event(
                q.server,
                q.connection,
                EventView::PositionRecorded(Ok(())),
            );
            let failed = crate::connection::on_event(
                q.server,
                q.connection,
                EventView::PositionRecorded(Err(e)),
            );
            let place = s.trips[trip_id];
            let near = !d.is_nan() && d.value() <= 5 * vstd::arithmetic::power2::pow2(1074);
            let stopped = near && place.n >= 6;
            &&& o.server == s && p.server == s
            &&& o.action == (ActionView::TripOpen { trip_id, user })
            &&& p.action == (ActionView::Measure { from: (place.lat, place.lon), to: (lat, lon) })
            &&& q.server.trips.remove(trip_id) == s.trips.remove(trip_id)
            &&& q.server.trips.contains_key(trip_id)
            &&& (q.server.trips[trip_id].lat, q.server.trips[trip_id].lon) == if near {
                (place.lat, place.lon)
            } else {
                (lat, lon)
            }
            &&& q.server.sessions == s.sessions && q.server.sinks == s.sinks
            &&& q.server.statuses == s.statuses
            &&& if stopped && place.inserted {
                q.action == (ActionView::Send { msg: MessageView::Ack })
            } else {
                &&& q.action == (ActionView::RecordPosition { trip_id, lat, lon, ts, stopped })
                &&& done.action == (ActionView::Send { msg: MessageView::Ack })
                &&& done.server.trips == q.server.trips
                &&& done.server.statuses == if !near {
                    s.statuses.insert(user, crate::status::UserStatus::Moving)
                } else if stopped {
                    s.statuses.insert(user, crate::status::UserStatus::Stationary)
                } else {
                    s.statuses
                }
                &&& failed.server == q.server
                &&& failed.action == (ActionView::Send {
                    msg: MessageView::Error {
                        code: "UPDATE_TRIP_FAILED"@,
                        message: "Failed to insert position: "@ + e,
                    },
                })
            }
        }),
{
    crate::trips::law_five_metres(d);
    let place = s.trips[trip_id];
    let after = crate::trips::sampled(place, lat, lon, d).0;
    assert(s.trips.insert(trip_id, after).remove(trip_id) =~= s.trips.remove(trip_id));
}

/// A start or a position with a sample that is not fine is refused with what is wrong, and
/// nothing is asked for or changed.
pub proof fn law_bad_samples_are_refused(
    s: ServerView,
    c: ConnectionView,
    token: Seq<char>,
    trip_id: i64,
    lat: crate::double::Double,
    lon: crate::double::Double,
    ts: i64,
)
    requires
        c.stage is Decoding,
        crate::server::authorized(s, c.user, token) is Some,
        crate::connection::sample_problem(lat, lon, ts) is Some,
    ensures
        ({
            let start = MessageView::StartTrip { token, lat, lon, ts };
            let position = MessageView::Position { token, trip_id, lat, lon, ts };
            let o = crate::connection::on_event(s, c, EventView::Decoded(Some(start)));
            let p = crate::connection::on_event(s, c, EventView::Decoded(Some(position)));
            let said = ActionView::Send {
                msg: MessageView::Error {
                    code: "BAD_REQUEST"@,
                    message: crate::connection::sample_problem(lat, lon, ts)->0,
                },
            };
            o.server == s && p.server == s && o.action == said && p.action == said
        }),
{
}

/// Who asks for statistics is sent those that were computed for them, over the interval
/// that they asked for, number for number; if they cannot be computed, why not. An
/// interval that runs backwards is refused.
pub proof fn law_statistics_are_reported(
    s: ServerView,
    c: ConnectionView,
    token: Seq<char>,
    user: Seq<char>,
    from_ts: i64,
    to_ts: i64,
    stats: crate::stats::MovementStats,
    event: crate::connection::Event,
    e: Seq<char>,
)
    requires
        c.stage is Decoding,
        crate::server::authorized(s, c.user, token) == Some(user),
        event == crate::connection::Event::Statistics(Ok(stats)),
    ensures
        ({
            let msg = MessageView::Stats { token, from_ts, to_ts };
            let o = crate::connection::on_event(s, c, EventView::Decoded(Some(msg)));
            let p = crate::connection::on_event(o.server, o.connection, event@);
            let q = crate::connection::on_event(
                o.server,
                o.connection,
                EventView::Statistics(Err(e)),
            );
            &&& o.server == s
            &&& from_ts > to_ts ==> o.action == (ActionView::Send {
                msg: MessageView::Error {
                    code: "BAD_REQUEST"@,
                    message: "invalid time interval"@,
                },
            })
            &&& from_ts <= to_ts ==> {
                &&& o.action == (ActionView::Statistics { user, from_ts, to_ts })
                &&& p.server == s && q.server == s
                &&& p.action is Send && p.action->msg is StatsResult
                &&& p.action->msg->StatsResult_username == stats.username@
                &&& p.action->msg->StatsResult_from_ts == stats.from_ts
                &&& p.action->msg->StatsResult_to_ts == stats.to_ts
                &&& p.action->msg->StatsResult_distance_m == stats.distance_m
                &&& p.action->msg->StatsResult_movement_secs == stats.movement_secs
                &&& p.action->msg->StatsResult_pause_secs == stats.pause_secs
                &&& p.action->msg->StatsResult_total_secs == stats.total_secs
                &&& p.action->msg->StatsResult_avg_speed_mps == stats.avg_speed_mps
                &&& p.action->msg->StatsResult_avg_speed_kmh == stats.avg_speed_kmh
                &&& p.action->msg->StatsResult_points == stats.points
                &&& q.action == (ActionView::Send {
                    msg: MessageView::Error { code: "BAD_REQUEST"@, message: e },
                })
            }
        }),
{
}

/// The times that are reported are those of the positions: movement as movement, pauses as
/// pauses, and both together as the total; without movement there is no distance and no
/// speed.
pub proof fn law_reported_times(
    s: ServerView,
    c: ConnectionView,
    username: Seq<char>,
    from_ts: i64,
    to_ts: i64,
    points: Seq<crate::stats::PositionRecord>,
    distances: Seq<crate::double::Double>,
    metres: crate::double::Double,
    mps: crate::double::Double,
    kmh: crate::double::Double,
    stats: crate::stats::MovementStats,
    event: crate::connection::Event,
)
    requires
        c.stage is ComputingStatistics,
        crate::stats::are_statistics(
            stats,
            username,
            from_ts,
            to_ts,
            points,
            distances,
            metres,
            mps,
            kmh,
        ),
        event == crate::connection::Event::Statistics(Ok(stats)),
    ensures
        ({
            let o = crate::connection::on_event(s, c, event@);
            &&& o.server == s
            &&& o.action is Send && o.action->msg is StatsResult
            &&& o.action->msg->StatsResult_username == username
            &&& o.action->msg->StatsResult_from_ts == from_ts
            &&& o.action->msg->StatsResult_to_ts == to_ts
            &&& o.action->msg->StatsResult_points == points.len()
            &&& o.action->msg->StatsResult_movement_secs == crate::stats::movement_secs(
                points,
                distances,
            )
            &&& o.action->msg->StatsResult_pause_secs == crate::stats::pause_secs(points, distances)
            &&& o.action->msg->StatsResult_total_secs == o.action->msg->StatsResult_movement_secs
                + o.action->msg->StatsResult_pause_secs
            &&& if o.action->msg->StatsResult_movement_secs > 0 {
                &&& o.action->msg->StatsResult_distance_m == metres
                &&& o.action->msg->StatsResult_avg_speed_mps == mps
                &&& o.action->msg->StatsResult_avg_speed_kmh == kmh
            } else {
                &&& o.action->msg->StatsResult_distance_m.is_whole(0)
                &&& o.action->msg->StatsResult_avg_speed_mps.is_whole(0)
                &&& o.action->msg->StatsResult_avg_speed_kmh.is_whole(0)
            }
        }),
{
    crate::stats::law_movement_and_pause(points, distances);
    crate::double::law_constants();
}

/// The steps of a login: the name is looked up, name and password are checked, a token is
/// drawn and handed out. Each refusal says why; nothing is changed before the token.
pub proof fn law_steps_of_a_login(
    s: ServerView,
    c: ConnectionView,
    username: Seq<char>,
    password: Seq<char>,
    token: Seq<char>,
    e: Seq<char>,
)
    requires
        c.stage is Decoding,
        c.user != Some(username),
        crate::message::username_problem(username) is None,
        crate::message::password_problem(password) is None,
    ensures
        ({
            let msg = MessageView::Login { username, password };
            let o = crate::connection::on_event(s, c, EventView::Decoded(Some(msg)));
            let unknown = crate::connection::on_event(
                s,
                o.connection,
                EventView::KeyExists(Ok(false)),
            );
            let failed = crate::connection::on_event(s, o.connection, EventView::KeyExists(Err(e)));
            let p = crate::connection::on_event(s, o.connection, EventView::KeyExists(Ok(true)));
            let wrong = crate::connection::on_event(
                s,
                p.connection,
                EventView::CredentialsChecked(false),
            );
            let q = crate::connection::on_event(
                s,
                p.connection,
                EventView::CredentialsChecked(true),
            );
            let r = crate::connection::on_event(s, q.connection, EventView::Token(token));
            &&& o.server == s && p.server == s && q.server == s
            &&& unknown.server == s && failed.server == s && wrong.server == s
            &&& o.action == (ActionView::KeyExists { username })
            &&& p.action == (ActionView::CheckCredentials { username, password })
            &&& q.action is CreateToken
            &&& !crate::sessions::logged_in(s.sessions, username) ==> r.action == (
            ActionView::Send { msg: MessageView::AuthOk { token } }) && r.connection.user == Some(
                username,
            )
            &&& unknown.action == (ActionView::Send {
                msg: MessageView::Error {
                    code: "AUTH_FAILED"@,
                    message: "invalid credentials"@,
                },
            })
            &&& wrong.action == unknown.action
            &&& failed.action == (ActionView::Send {
                msg: MessageView::Error { code: "AUTH_FAILED"@, message: e },
            })
        }),
{
}

/// The steps of a registration: the name is looked up, name and password are recorded, a
/// token is drawn and handed out. Each refusal says why; nothing is changed before the
/// token.
pub proof fn law_steps_of_a_registration(
    s: ServerView,
    c: ConnectionView,
    username: Seq<char>,
    password: Seq<char>,
    token: Seq<char>,
    e: Seq<char>,
)
    requires
        c.stage is Decoding,
        crate::message::username_problem(username) is None,
        crate::message::password_problem(password) is None,
    ensures
        ({
            let msg = MessageView::Register { username, password };
            let o = crate::connection::on_event(s, c, EventView::Decoded(Some(msg)));
            let known = crate::connection::on_event(s, o.connection, EventView::KeyExists(Ok(true)));
            let failed = crate::connection::on_event(s, o.connection, EventView::KeyExists(Err(e)));
            let p = crate::connection::on_event(s, o.connection, EventView::KeyExists(Ok(false)));
            let unsaved = crate::connection::on_event(
                s,
                p.connection,
                EventView::Registered(Err(e)),
            );
            let q = crate::connection::on_event(s, p.connection, EventView::Registered(Ok(())));
            let r = crate::connection::on_event(s, q.connection, EventView::Token(token));
            let said = ActionView::Send {
                msg: MessageView::Error { code: "REGISTER_FAILED"@, message: e },
            };
            &&& o.server == s && p.server == s && q.server == s
            &&& known.server == s && failed.server == s && unsaved.server == s
            &&& o.action == (ActionView::KeyExists { username })
            &&& p.action == (ActionView::SaveRegister { username, password })
            &&& q.action is CreateToken
            &&& !crate::sessions::logged_in(s.sessions, username) ==> r.action == (
            ActionView::Send { msg: MessageView::AuthOk { token } }) && r.connection.user == Some(
                username,
            )
            &&& known.action == (ActionView::Send {
                msg: MessageView::Error {
                    code: "REGISTER_FAILED"@,
                    message: "user already exists"@,
                },
            })
            &&& failed.action == said && unsaved.action == said
        }),
{
}

/// A login or a registration with a name or a password that is not well formed is refused
/// with what is wrong, the name first, before anything is looked up.
pub proof fn law_bad_details_are_refused(
    s: ServerView,
    c: ConnectionView,
    username: Seq<char>,
    password: Seq<char>,
)
    requires
        c.stage is Decoding,
        c.user != Some(username),
        crate::message::username_problem(username) is Some
            || crate::message::password_problem(password) is Some,
    ensures
        ({
            let wrong = match crate::message::username_problem(username) {
                Some(e) => e,
                None => crate::message::password_problem(password)->0,
            };
            let login = MessageView::Login { username, password };
            let registration = MessageView::Register { username, password };
            let o = crate::connection::on_event(s, c, EventView::Decoded(Some(login)));
            let p = crate::connection::on_event(s, c, EventView::Decoded(Some(registration)));
            &&& o.server == s && p.server == s
            &&& o.action == (ActionView::Send {
                msg: MessageView::Error { code: "AUTH_FAILED"@, message: wrong },
            })
            &&& p.action == (ActionView::Send {
                msg: MessageView::Error { code: "REGISTER_FAILED"@, message: wrong },
            })
        }),
{
}

/// What comes in: a text, as a text or as its bytes, is decoded, unless it is empty; bytes
/// that are no text, texts that are no message, and messages that only the server sends
/// are refused. After a reply the next frame is read. Nothing of this changes anything.
pub proof fn law_frames(
    s: ServerView,
    c: ConnectionView,
    t: Seq<char>,
    bytes: Seq<u8>,
    d: ConnectionView,
    msg: MessageView,
    r: ConnectionView,
)
    requires
        c.stage is Reading,
        d.stage is Decoding,
        r.stage is Replying,
    ensures
        ({
            let o = crate::connection::on_event(s, c, EventView::Text(t));
            let p = crate::connection::on_event(s, c, EventView::Binary(bytes));
            let q = crate::connection::on_event(s, c, EventView::Control);
            let none = crate::connection::on_event(s, d, EventView::Decoded(None));
            let wrong = crate::connection::on_event(s, d, EventView::Decoded(Some(msg)));
            let next = crate::connection::on_event(s, r, EventView::Sent);
            &&& o.server == s && p.server == s && q.server == s && none.server == s && next.server
                == s
            &&& o.action == if t.len() == 0 {
                ActionView::Read
            } else {
                ActionView::Decode { line: t }
            }
            &&& vstd::utf8::valid_utf8(bytes) && vstd::utf8::decode_utf8(bytes) == t ==> p.action
                == o.action
            &&& !vstd::utf8::valid_utf8(bytes) ==> p.action == (ActionView::Send {
                msg: MessageView::Error {
                    code: "BAD_REQUEST"@,
                    message: "binary payload is not UTF-8"@,
                },
            })
            &&& q.action is Read && next.action is Read
            &&& none.action == (ActionView::Send {
                msg: MessageView::Error { code: "BAD_REQUEST"@, message: "invalid message"@ },
            })
            &&& msg is AuthOk || msg is TripStarted || msg is StatsResult || msg is Ack || msg
                is Error || msg is ChatFromServer ==> wrong.server == s && wrong.action == (
            ActionView::Send {
                msg: MessageView::Error {
                    code: "BAD_REQUEST"@,
                    message: "invalid message type from client"@,
                },
            })
        }),
{
}

/// A chat text that is empty or too long is refused with what is wrong, and shown to
/// nobody.
pub proof fn law_bad_texts_are_refused(
    s: ServerView,
    c: ConnectionView,
    token: Seq<char>,
    text: Seq<char>,
)
    requires
        c.stage is Decoding,
        crate::server::authorized(s, c.user, token) is Some,
        crate::message::chat_problem(text) is Some,
    ensures
        ({
            let msg = MessageView::ChatToServer { token, text };
            let o = crate::connection::on_event(s, c, EventView::Decoded(Some(msg)));
            &&& o.server == s
            &&& o.action == (ActionView::Send {
                msg: MessageView::Error {
                    code: "BAD_REQUEST"@,
                    message: crate::message::chat_problem(text)->0,
                },
            })
        }),
{
}

/// A farewell with the user's own token closes every open trip of the user, one after the
/// other and whatever comes of it, leaves nothing of the user, and is acknowledged; then
/// the connection is closed. With any other token it is only acknowledged, and the
/// connection closed.
pub proof fn law_farewell(
    s: ServerView,
    c: ConnectionView,
    user: Seq<char>,
    token: Seq<char>,
    ids: Seq<i64>,
    now: i64,
    results: Seq<Result<u64, Seq<char>>>,
    other: Seq<char>,
)
    requires
        c.stage is Decoding,
        crate::sessions::single_session(s.sessions),
        crate::server::authorized(s, c.user, token) == Some(user),
        crate::server::authorized(s, c.user, other) is None,
        results.len() == ids.len(),
    ensures
        ({
            let msg = MessageView::Disconnect { token };
            let o = crate::connection::on_event(s, c, EventView::Decoded(Some(msg)));
            let listed = seq![EventView::OpenTrips { ids: Some(ids), now }];
            let closed = results.map_values(|r: Result<u64, Seq<char>>| EventView::TripEnded(r));
            let p = run(o.server, o.connection, listed + closed);
            let q = crate::connection::on_event(p.server, p.connection, EventView::Sent);
            let x = crate::connection::on_event(q.server, q.connection, EventView::Sent);
            let y = crate::connection::on_event(
                s,
                c,
                EventView::Decoded(Some(MessageView::Disconnect { token: other })),
            );
            let z = crate::connection::on_event(y.server, y.connection, EventView::Sent);
            &&& o.server == s
            &&& o.action == (ActionView::OpenTrips { user })
            &&& forall|k: int|
                0 <= k < ids.len() ==> (#[trigger] run(
                    o.server,
                    o.connection,
                    listed + closed.take(k),
                )).action == (ActionView::EndTrip { trip_id: ids[k], user, ts: now })
            &&& p.action == (ActionView::Send { msg: MessageView::Ack })
            &&& gone(p.server, user)
            &&& p.connection.user is None
            &&& p.server.trips == s.trips.remove_keys(ids.to_set())
            &&& q.action is SendClose && q.server == p.server
            &&& x.action is Finish && x.server == p.server
            &&& y.server == s && y.action == (ActionView::Send { msg: MessageView::Ack })
            &&& z.server == s && z.action is SendClose
        }),
{
    let msg = MessageView::Disconnect { token };
    let o = crate::connection::on_event(s, c, EventView::Decoded(Some(msg)));
    law_leaving_closes_every_trip(s, o.connection, user, Some(token), ids, now, results);
    law_farewell_leaves_nothing(without_trips(s, ids), o.connection, user, token);
}

/// Where the open trips of a user who leaves cannot be found, none is closed, but nothing
/// is left of the user all the same.
pub proof fn law_leaving_without_a_list(
    s: ServerView,
    c: ConnectionView,
    user: Seq<char>,
    now: i64,
)
    requires
        c.stage == (StageView::ListingTrips { user, token: None }),
    ensures
        ({
            let o = crate::connection::on_event(s, c, EventView::OpenTrips { ids: None, now });
            &&& o.action is Finish
            &&& gone(o.server, user)
            &&& o.server.trips == s.trips
        }),
{
    crate::sessions::law_ended_sessions(s.sessions, user, Seq::empty());
}

/// What a client is told when its trip or its position gets lost on the way: that the trip
/// could not be recorded, that it could not be found out whether it is open, or that it
/// was forgotten in the meantime. None of this changes anything.
pub proof fn law_lost_on_the_way(
    s: ServerView,
    starting: ConnectionView,
    checking: ConnectionView,
    measuring: ConnectionView,
    e: Seq<char>,
    d: crate::double::Double,
)
    requires
        starting.stage is RecordingTrip,
        checking.stage is CheckingTrip,
        measuring.stage is Measuring,
        !s.trips.contains_key(measuring.stage->Measuring_trip_id),
    ensures
        ({
            let o = crate::connection::on_event(s, starting, EventView::TripRecorded(Err(e)));
            let p = crate::connection::on_event(s, checking, EventView::TripIsOpen(Err(e)));
            let q = crate::connection::on_event(s, measuring, EventView::Measured(d));
            &&& o.server == s && p.server == s && q.server == s
            &&& o.action == (ActionView::Send {
                msg: MessageView::Error {
                    code: "START_TRIP_FAILED"@,
                    message: "Failed to start trip: "@ + e,
                },
            })
            &&& p.action == (ActionView::Send {
                msg: MessageView::Error { code: "BAD_REQUEST"@, message: e },
            })
            &&& q.action == (ActionView::Send {
                msg: MessageView::Error {
                    code: "UPDATE_TRIP_FAILED"@,
                    message: "Trip ID "@ + crate::number::signed_decimal(
                        measuring.stage->Measuring_trip_id as int,
                    ) + " not found in store"@,
                },
            })
        }),
{
}

/// Whether a connection waits for an event of this kind.
pub open spec fn waits_for(stage: StageView, e: EventView) -> bool {
    match e {
        EventView::Text(_) | EventView::Binary(_) | EventView::Control | EventView::Closed => stage
            is Reading,
        EventView::Decoded(_) => stage is Decoding,
        EventView::Sent | EventView::SendFailed => stage is Replying || stage is Parting || stage
            is Closing,
        EventView::KeyExists(_) => stage is LookingUp,
        EventView::CredentialsChecked(_) => stage is CheckingCredentials,
        EventView::Registered(_) => stage is SavingUser,
        EventView::Token(_) => stage is CreatingToken,
        EventView::TripRecorded(_) => stage is RecordingTrip,
        EventView::PositionRecorded(_) => stage is RecordingStart || stage is RecordingPosition,
        EventView::TripIsOpen(_) => stage is CheckingTrip,
        EventView::TripEnded(_) => stage is ClosingOrphan || stage is EndingTrip || stage
            is ClosingTrips,
        EventView::Measured(_) => stage is Measuring,
        EventView::Statistics(_) => stage is ComputingStatistics,
        EventView::Shown => stage is Showing,
        EventView::OpenTrips { .. } => stage is ListingTrips,
    }
}

/// Whatever a connection does not wait for is ignored and changes nothing; whatever it
/// waits for is not ignored.
#[verifier::rlimit(30)]
pub proof fn law_out_of_turn(s: ServerView, c: ConnectionView, e: EventView)
    ensures
        !waits_for(c.stage, e) ==> crate::connection::on_event(s, c, e) == (Outcome {
            server: s,
            connection: c,
            action: ActionView::Ignore,
        }),
        waits_for(c.stage, e) ==> crate::connection::on_event(s, c, e).action !is Ignore,
{
    match (c.stage, e) {
        (StageView::Decoding, EventView::Decoded(Some(msg))) => {
            lemma_message_is_not_ignored(s, c, msg);
        },
        _ => {},
    }
}

proof fn lemma_message_is_not_ignored(s: ServerView, c: ConnectionView, msg: MessageView)
    ensures
        crate::connection::on_message(s, c, msg).action !is Ignore,
{
}

} // verus!
