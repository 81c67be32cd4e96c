//! What holds of all connections together, whatever they do and in whatever order
//! their steps come.
use vstd::prelude::*;

use crate::connection::{ConnectionView, EventView, StageView};
use crate::server::ServerView;

verus! {

/// Whether a connection has not ended.
pub open spec fn live(c: ConnectionView) -> bool {
    c.stage !is Finished
}

/// Whether a connection is logged in as a user.
pub open spec fn logged_in_as(c: ConnectionView, user: Seq<char>) -> bool {
    live(c) && c.user == Some(user)
}

/// Whether the server knows a user and where to reach them.
pub open spec fn reachable(s: ServerView, user: Seq<char>, id: u64) -> bool {
    &&& crate::sessions::logged_in(s.sessions, user)
    &&& s.statuses.contains_key(user)
    &&& s.sinks.contains_key(user)
    &&& s.sinks[user] == id
}

/// Whether the server knows anything of a user.
pub open spec fn known(s: ServerView, user: Seq<char>) -> bool {
    !crate::guarantees::gone(s, user)
}

/// Whether one of the connections is logged in as a user.
pub open spec fn held(cs: Map<u64, ConnectionView>, user: Seq<char>) -> bool {
    exists|i: u64| cs.contains_key(i) && #[trigger] logged_in_as(cs[i], user)
}

/// Whether the token with which a user leaves is that user's.
pub open spec fn leaves_with_own_token(s: ServerView, c: ConnectionView) -> bool {
    match c.stage {
        StageView::ListingTrips { user, token: Some(t) } => crate::sessions::user_of(s.sessions, t)
            == Some(user),
        StageView::ClosingTrips { user, token: Some(t), .. } => crate::sessions::user_of(
            s.sessions,
            t,
        ) == Some(user),
        _ => true,
    }
}

/// Whether the server and its connections are in order.
pub open spec fn in_order(s: ServerView, cs: Map<u64, ConnectionView>) -> bool {
    &&& crate::sessions::single_session(s.sessions)
    &&& forall|i: u64| #[trigger]
        cs.contains_key(i) ==> {
            &&& cs[i].id == i
            &&& live(cs[i]) ==> crate::guarantees::own_business(cs[i]) && leaves_with_own_token(
                s,
                cs[i],
            )
        }
    &&& forall|i: u64, user: Seq<char>|
        cs.contains_key(i) && #[trigger] logged_in_as(cs[i], user) ==> reachable(s, user, i)
    &&& forall|i: u64, j: u64, user: Seq<char>|
        cs.contains_key(i) && cs.contains_key(j) && #[trigger] logged_in_as(cs[i], user)
            && #[trigger] logged_in_as(cs[j], user) ==> i == j
    &&& forall|user: Seq<char>| #[trigger] known(s, user) ==> held(cs, user)
}

/// A server without connections is in order, and stays so when a connection comes.
pub proof fn law_order_begins(s: ServerView, cs: Map<u64, ConnectionView>, id: u64)
    ensures
        in_order(
            ServerView {
                sessions: Map::empty(),
                statuses: Map::empty(),
                trips: Map::empty(),
                sinks: Map::empty(),
            },
            Map::empty(),
        ),
        in_order(s, cs) && !cs.contains_key(id) ==> in_order(
            s,
            cs.insert(id, ConnectionView { id, user: None, stage: StageView::Reading }),
        ),
{
    if in_order(s, cs) && !cs.contains_key(id) {
        let ds = cs.insert(id, ConnectionView { id, user: None, stage: StageView::Reading });
        assert forall|user: Seq<char>| #[trigger] known(s, user) implies held(ds, user) by {
            let i = choose|i: u64| cs.contains_key(i) && #[trigger] logged_in_as(cs[i], user);
            assert(ds.contains_key(i) && logged_in_as(ds[i], user));
        }
    }
}

/// Order is kept by every step of every connection, as long as the tokens that are
/// drawn are new: no user is ever logged in on two connections; everybody who is
/// logged in has a session and a state and can be reached; and every session, every
/// state and every entry for reaching somebody is that of a user who is logged in on
/// a connection that has not ended.
pub proof fn law_order_is_kept(
    s: ServerView,
    cs: Map<u64, ConnectionView>,
    id: u64,
    e: EventView,
)
    requires
        in_order(s, cs),
        cs.contains_key(id),
        e matches EventView::Token(t) ==> !s.sessions.contains_key(t),
    ensures
        ({
            let o = crate::connection::on_event(s, cs[id], e);
            in_order(o.server, cs.insert(id, o.connection))
        }),
{
    let c = cs[id];
    let o = crate::connection::on_event(s, c, e);
    let ds = cs.insert(id, o.connection);
    crate::guarantees::law_single_session_is_kept(s, c, e);
    if !live(c) {
        crate::guarantees::law_end_is_final(s, c, e);
        assert(ds =~= cs);
    } else {
        crate::guarantees::law_own_business(s, c, e, id);
        lemma_own_step(s, cs, id, e);
        assert forall|j: u64| #[trigger] ds.contains_key(j) implies {
            &&& ds[j].id == j
            &&& live(ds[j]) ==> crate::guarantees::own_business(ds[j]) && leaves_with_own_token(
                o.server,
                ds[j],
            )
        } by {
            if j != id {
                lemma_other_step(s, cs, id, e, j);
            }
        }
        assert forall|j: u64, user: Seq<char>|
            ds.contains_key(j) && #[trigger] logged_in_as(ds[j], user) implies reachable(
            o.server,
            user,
            j,
        ) by {
            if j != id {
                assert(logged_in_as(cs[j], user));
                lemma_other_step(s, cs, id, e, j);
            }
        }
        assert forall|i: u64, j: u64, user: Seq<char>|
            ds.contains_key(i) && ds.contains_key(j) && #[trigger] logged_in_as(ds[i], user)
                && #[trigger] logged_in_as(ds[j], user) implies i == j by {
            if i != id && j != id {
                assert(logged_in_as(cs[i], user) && logged_in_as(cs[j], user));
            } else if i != j {
                let k = if i == id {
                    j
                } else {
                    i
                };
                assert(logged_in_as(cs[k], user));
                lemma_user_of_step(s, cs, id, e, user);
            }
        }
        assert forall|user: Seq<char>| #[trigger] known(o.server, user) implies held(ds, user) by {
            match c.user {
                Some(u) => {
                    assert(logged_in_as(c, u));
                },
                None => {},
            }
            lemma_known_after_step(s, c, e, user);
            if logged_in_as(o.connection, user) {
                assert(ds.contains_key(id) && logged_in_as(ds[id], user));
            } else {
                let i = choose|i: u64| cs.contains_key(i) && #[trigger] logged_in_as(cs[i], user);
                assert(i != id);
                assert(ds.contains_key(i) && logged_in_as(ds[i], user));
            }
        }
    }
}

/// A user as whom a connection is logged in after a step was so before, or had no
/// session.
proof fn lemma_user_of_step(
    s: ServerView,
    cs: Map<u64, ConnectionView>,
    id: u64,
    e: EventView,
    user: Seq<char>,
)
    requires
        in_order(s, cs),
        cs.contains_key(id),
        live(cs[id]),
        logged_in_as(crate::connection::on_event(s, cs[id], e).connection, user),
    ensures
        logged_in_as(cs[id], user) || !crate::sessions::logged_in(s.sessions, user),
{
    let c = cs[id];
    match (c.stage, e) {
        (StageView::CreatingToken { .. }, EventView::Token(_)) => {},
        (StageView::ListingTrips { .. }, _) => {},
        (StageView::ClosingTrips { .. }, _) => {},
        _ => {
            crate::guarantees::law_sessions_change_only_there(s, c, e);
        },
    }
}

/// What a step of a connection means for the connection itself.
proof fn lemma_own_step(s: ServerView, cs: Map<u64, ConnectionView>, id: u64, e: EventView)
    requires
        in_order(s, cs),
        cs.contains_key(id),
        live(cs[id]),
        e matches EventView::Token(t) ==> !s.sessions.contains_key(t),
    ensures
        ({
            let o = crate::connection::on_event(s, cs[id], e);
            &&& o.connection.id == id
            &&& live(o.connection) ==> leaves_with_own_token(o.server, o.connection)
            &&& forall|user: Seq<char>| #[trigger]
                logged_in_as(o.connection, user) ==> reachable(o.server, user, id)
        }),
{
    let c = cs[id];
    let o = crate::connection::on_event(s, c, e);
    match c.user {
        Some(u) => {
            assert(logged_in_as(c, u));
        },
        None => {},
    }
    match (c.stage, e) {
        (StageView::CreatingToken { register, username }, EventView::Token(token)) => {
            if !crate::sessions::logged_in(s.sessions, username) {
                crate::guarantees::law_entry(s, c, register, username, token);
                assert(o.server.sessions.contains_key(token) && o.server.sessions[token]
                    == username);
            }
        },
        (StageView::ListingTrips { .. }, _) => {
            lemma_own_leaving(s, c, e);
        },
        (StageView::ClosingTrips { .. }, _) => {
            lemma_own_leaving(s, c, e);
        },
        (StageView::Decoding, EventView::Decoded(Some(msg))) => {
            lemma_own_message(s, c, msg);
        },
        _ => {
            crate::guarantees::law_sessions_change_only_there(s, c, e);
            lemma_no_leaving(s, c, e);
        },
    }
}

proof fn lemma_own_leaving(s: ServerView, c: ConnectionView, e: EventView)
    requires
        c.stage is ListingTrips || c.stage is ClosingTrips,
        crate::guarantees::own_business(c),
        leaves_with_own_token(s, c),
        c.user matches Some(u) ==> reachable(s, u, c.id),
    ensures
        ({
            let o = crate::connection::on_event(s, c, e);
            &&& o.connection.id == c.id
            &&& live(o.connection) ==> leaves_with_own_token(o.server, o.connection)
            &&& forall|user: Seq<char>| #[trigger]
                logged_in_as(o.connection, user) ==> reachable(o.server, user, c.id)
        }),
{
}

proof fn lemma_own_message(s: ServerView, c: ConnectionView, msg: crate::message::MessageView)
    requires
        c.user matches Some(u) ==> reachable(s, u, c.id),
    ensures
        ({
            let o = crate::connection::on_message(s, c, msg);
            &&& o.server == s
            &&& o.connection.id == c.id
            &&& o.connection.user == c.user
            &&& leaves_with_own_token(s, o.connection)
        }),
{
}

/// Away from messages and farewells, no stage holds a token to leave with.
proof fn lemma_no_leaving(s: ServerView, c: ConnectionView, e: EventView)
    requires
        !(c.stage is CreatingToken && e is Token),
        !(c.stage is ListingTrips),
        !(c.stage is ClosingTrips),
        !(c.stage is Decoding && e is Decoded && e->Decoded_0 is Some),
    ensures
        ({
            let o = crate::connection::on_event(s, c, e);
            &&& o.connection.id == c.id
            &&& leaves_with_own_token(o.server, o.connection)
            &&& forall|u: Seq<char>| #[trigger]
                s.statuses.contains_key(u) ==> o.server.statuses.contains_key(u)
        }),
{
}

/// What a step of a connection means for another.
proof fn lemma_other_step(
    s: ServerView,
    cs: Map<u64, ConnectionView>,
    id: u64,
    e: EventView,
    other: u64,
)
    requires
        in_order(s, cs),
        cs.contains_key(id),
        cs.contains_key(other),
        other != id,
        live(cs[id]),
        e matches EventView::Token(t) ==> !s.sessions.contains_key(t),
    ensures
        ({
            let o = crate::connection::on_event(s, cs[id], e);
            &&& live(cs[other]) ==> leaves_with_own_token(o.server, cs[other])
            &&& forall|user: Seq<char>| #[trigger]
                logged_in_as(cs[other], user) ==> reachable(o.server, user, other)
        }),
{
    let c = cs[id];
    let d = cs[other];
    let o = crate::connection::on_event(s, c, e);
    if live(d) {
        match d.user {
            Some(user) => {
                assert(logged_in_as(d, user));
                assert(reachable(s, user, other));
                assert(c.user != Some(user)) by {
                    if c.user == Some(user) {
                        assert(logged_in_as(c, user));
                    }
                }
                let t = choose|t: Seq<char>| #[trigger]
                    s.sessions.contains_key(t) && s.sessions[t] == user;
                lemma_other_user(s, c, e, user, t);
                assert(crate::sessions::user_of(o.server.sessions, t) == Some(user));
                assert(o.server.sessions.contains_key(t));
                match d.stage {
                    StageView::ListingTrips { token: Some(u), .. } => {
                        lemma_other_user(s, c, e, user, u);
                    },
                    StageView::ClosingTrips { token: Some(u), .. } => {
                        lemma_other_user(s, c, e, user, u);
                    },
                    _ => {},
                }
            },
            None => {},
        }
    }
}

/// A step leaves a user with a session alone who is not that of the connection.
proof fn lemma_other_user(
    s: ServerView,
    c: ConnectionView,
    e: EventView,
    user: Seq<char>,
    token: Seq<char>,
)
    requires
        crate::guarantees::own_business(c),
        leaves_with_own_token(s, c),
        c.user != Some(user),
        crate::sessions::user_of(s.sessions, token) == Some(user),
        e matches EventView::Token(t) ==> !s.sessions.contains_key(t),
    ensures
        ({
            let t = crate::connection::on_event(s, c, e).server;
            &&& crate::sessions::user_of(t.sessions, token) == Some(user)
            &&& s.statuses.contains_key(user) ==> t.statuses.contains_key(user)
            &&& s.sinks.contains_key(user) ==> t.sinks.contains_key(user) && t.sinks[user]
                == s.sinks[user]
        }),
{
    let refused = match c.stage {
        StageView::CreatingToken { username, .. } => username == user,
        _ => false,
    };
    if refused {
        assert(s.sessions.contains_key(token));
        assert(crate::sessions::logged_in(s.sessions, user));
    } else {
        crate::guarantees::law_other_users_are_safe(s, c, e, user, token);
    }
}

/// Who is logged in on one connection is let in on no other.
pub proof fn law_logged_in_once(
    s: ServerView,
    cs: Map<u64, ConnectionView>,
    id: u64,
    user: Seq<char>,
    other: u64,
    register: bool,
    token: Seq<char>,
)
    requires
        in_order(s, cs),
        cs.contains_key(id),
        logged_in_as(cs[id], user),
        cs.contains_key(other),
        cs[other].stage == (StageView::CreatingToken { register, username: user }),
    ensures
        ({
            let o = crate::connection::on_event(s, cs[other], EventView::Token(token));
            &&& o.server == s
            &&& o.connection.user == cs[other].user
            &&& o.action == (crate::connection::ActionView::Send {
                msg: crate::message::MessageView::Error {
                    code: crate::connection::entry_code(register),
                    message: "user already logged in from another session"@,
                },
            })
        }),
{
    assert(reachable(s, user, id));
    crate::guarantees::law_second_login_is_refused(s, cs[other], register, user, token);
}

/// Whom the server knows after a step is the user of the connection, or was known
/// before and was not.
proof fn lemma_known_after_step(s: ServerView, c: ConnectionView, e: EventView, user: Seq<char>)
    requires
        crate::sessions::single_session(s.sessions),
        live(c),
        crate::guarantees::own_business(c),
        leaves_with_own_token(s, c),
        c.user matches Some(u) ==> crate::sessions::logged_in(s.sessions, u),
        known(crate::connection::on_event(s, c, e).server, user),
    ensures
        ({
            let o = crate::connection::on_event(s, c, e);
            logged_in_as(o.connection, user) || known(s, user) && c.user != Some(user)
        }),
{
    match (c.stage, e) {
        (StageView::CreatingToken { username, .. }, EventView::Token(token)) => {
            lemma_known_after_entry(s, c, e, user);
        },
        (StageView::ListingTrips { user: u, token }, _) => {
            lemma_known_after_leaving(s, c, e, user, u, token);
        },
        (StageView::ClosingTrips { user: u, token, .. }, _) => {
            lemma_known_after_leaving(s, c, e, user, u, token);
        },
        (StageView::Decoding, EventView::Decoded(Some(msg))) => {
            lemma_message_changes_nothing(s, c, msg);
        },
        _ => {
            crate::guarantees::law_sessions_change_only_there(s, c, e);
            lemma_known_elsewhere(s, c, e, user);
        },
    }
}

proof fn lemma_message_changes_nothing(
    s: ServerView,
    c: ConnectionView,
    msg: crate::message::MessageView,
)
    ensures
        crate::connection::on_message(s, c, msg).server == s,
        crate::connection::on_message(s, c, msg).connection.user == c.user,
        live(crate::connection::on_message(s, c, msg).connection),
{
}

proof fn lemma_known_after_entry(s: ServerView, c: ConnectionView, e: EventView, user: Seq<char>)
    requires
        c.stage is CreatingToken,
        e is Token,
        c.user matches Some(u) ==> crate::sessions::logged_in(s.sessions, u),
        known(crate::connection::on_event(s, c, e).server, user),
    ensures
        ({
            let o = crate::connection::on_event(s, c, e);
            logged_in_as(o.connection, user) || known(s, user) && c.user != Some(user)
        }),
{
    let o = crate::connection::on_event(s, c, e);
    let username = c.stage->CreatingToken_username;
    let token = e->Token_0;
    if !crate::sessions::logged_in(s.sessions, username) && user != username {
        let m = s.sessions.insert(token, username);
        if crate::sessions::logged_in(o.server.sessions, user) {
            let t = choose|t: Seq<char>| #[trigger]
                o.server.sessions.contains_key(t) && o.server.sessions[t] == user;
            assert(m.contains_key(t) && m[t] == user);
            assert(s.sessions.contains_key(t) && s.sessions[t] == user);
        }
        match c.user {
            Some(u) => {
                crate::sessions::law_ended_sessions(m, u, token);
            },
            None => {},
        }
    }
}

proof fn lemma_known_after_leaving(
    s: ServerView,
    c: ConnectionView,
    e: EventView,
    user: Seq<char>,
    own: Seq<char>,
    token: Option<Seq<char>>,
)
    requires
        crate::sessions::single_session(s.sessions),
        c.stage == (StageView::ListingTrips { user: own, token }) || (c.stage is ClosingTrips
            && c.stage->ClosingTrips_user == own && c.stage->ClosingTrips_token == token),
        c.user == Some(own),
        leaves_with_own_token(s, c),
        known(crate::connection::on_event(s, c, e).server, user),
    ensures
        ({
            let o = crate::connection::on_event(s, c, e);
            logged_in_as(o.connection, user) || known(s, user) && c.user != Some(user)
        }),
{
    let o = crate::connection::on_event(s, c, e);
    crate::sessions::law_ended_sessions(s.sessions, own, Seq::empty());
    match token {
        Some(t) => {
            crate::guarantees::law_farewell_leaves_nothing(s, c, own, t);
        },
        None => {},
    }
    if crate::sessions::logged_in(o.server.sessions, user) {
        let t = choose|t: Seq<char>| #[trigger]
            o.server.sessions.contains_key(t) && o.server.sessions[t] == user;
        assert(s.sessions.contains_key(t) && s.sessions[t] == user);
    }
}

proof fn lemma_known_elsewhere(s: ServerView, c: ConnectionView, e: EventView, user: Seq<char>)
    requires
        live(c),
        crate::guarantees::own_business(c),
        !(c.stage is CreatingToken && e is Token),
        !(c.stage is ListingTrips),
        !(c.stage is ClosingTrips),
        !(c.stage is Decoding && e is Decoded && e->Decoded_0 is Some),
        crate::connection::on_event(s, c, e).server.sessions == s.sessions,
        crate::connection::on_event(s, c, e).server.sinks == s.sinks,
        known(crate::connection::on_event(s, c, e).server, user),
    ensures
        ({
            let o = crate::connection::on_event(s, c, e);
            logged_in_as(o.connection, user) || known(s, user) && c.user != Some(user)
        }),
{
}

/// Whoever is logged in on no connection that has not ended is unknown to the
/// server, and so can be let in.
pub proof fn law_nobody_is_locked_out(
    s: ServerView,
    cs: Map<u64, ConnectionView>,
    user: Seq<char>,
)
    requires
        in_order(s, cs),
        forall|i: u64| cs.contains_key(i) ==> !(#[trigger] logged_in_as(cs[i], user)),
    ensures
        crate::guarantees::gone(s, user),
        !crate::sessions::logged_in(s.sessions, user),
{
    if known(s, user) {
        assert(held(cs, user));
    }
}

} // verus!
