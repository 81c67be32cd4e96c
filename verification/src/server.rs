//! What all connections of the server share.
use vstd::prelude::*;

use crate::message::Message;
use crate::sessions::{invalidate_user_sessions, AuthStore};
use crate::status;
use crate::status::{StatusStore, UserStatus};
use crate::text::{holds_text, same_text};
use crate::text_map::TextMap;
use crate::trips::TripsStore;

verus! {

/// The state that all connections share.
pub struct Server {
    pub sessions: AuthStore,
    pub statuses: StatusStore,
    pub trips: TripsStore,
    /// The connection of each user who is logged in.
    pub sinks: TextMap<u64>,
}

/// What a [`Server`] holds.
#[verifier::ext_equal]
pub struct ServerView {
    pub sessions: Map<Seq<char>, Seq<char>>,
    pub statuses: Map<Seq<char>, UserStatus>,
    pub trips: Map<i64, crate::trips::CoordState>,
    pub sinks: Map<Seq<char>, u64>,
}

impl View for Server {
    type V = ServerView;

    open spec fn view(&self) -> ServerView {
        ServerView {
            sessions: self.sessions@,
            statuses: self.statuses@,
            trips: self.trips@,
            sinks: self.sinks@,
        }
    }
}

/// A server without a user as one who is connected.
pub open spec fn forgotten(s: ServerView, user: Seq<char>) -> ServerView {
    ServerView { statuses: s.statuses.remove(user), sinks: s.sinks.remove(user), ..s }
}

/// A server without the sessions of a user, and without the user as one who is
/// connected.
pub open spec fn dismissed(s: ServerView, user: Seq<char>) -> ServerView {
    ServerView {
        sessions: crate::sessions::without_user(s.sessions, user),
        ..forgotten(s, user)
    }
}

/// A server on which a connection passes from one user, if any, to another.
pub open spec fn adopted(
    s: ServerView,
    id: u64,
    previous: Option<Seq<char>>,
    user: Seq<char>,
) -> ServerView {
    let t = match previous {
        Some(u) => dismissed(s, u),
        None => s,
    };
    ServerView {
        statuses: t.statuses.insert(user, UserStatus::Stationary),
        sinks: t.sinks.insert(user, id),
        ..t
    }
}

/// The user of a token, if the connection is that user's.
pub open spec fn authorized(
    s: ServerView,
    user: Option<Seq<char>>,
    token: Seq<char>,
) -> Option<Seq<char>> {
    match crate::sessions::user_of(s.sessions, token) {
        Some(u) => if user == Some(u) {
            Some(u)
        } else {
            None
        },
        None => None,
    }
}

impl Server {
    /// A server without users and trips.
    pub fn new() -> (r: Self)
        ensures
            r@ == (ServerView {
                sessions: Map::empty(),
                statuses: Map::empty(),
                trips: Map::empty(),
                sinks: Map::empty(),
            }),
    {
        Server {
            sessions: AuthStore::new(),
            statuses: StatusStore::new(),
            trips: TripsStore::new(),
            sinks: TextMap::new(),
        }
    }

    /// Marks a user as no longer connected.
    pub fn forget(&mut self, user: &str)
        ensures
            final(self)@ == forgotten(old(self)@, user@),
    {
        let _ = status::remove(&mut self.statuses, user);
        let _ = self.sinks.remove(user);
    }

    /// Ends the sessions of a user who is no longer connected.
    pub fn dismiss(&mut self, user: &str)
        ensures
            final(self)@ == dismissed(old(self)@, user@),
    {
        let _ = invalidate_user_sessions(&mut self.sessions, user);
        self.forget(user);
    }

    /// Passes a connection to a user who was given a session.
    pub fn adopt(&mut self, id: u64, previous: &Option<String>, user: &str)
        ensures
            final(self)@ == adopted(
                old(self)@,
                id,
                crate::message::optional_text(*previous),
                user@,
            ),
    {
        match previous {
            Some(u) => self.dismiss(u.as_str()),
            None => {},
        }
        let _ = status::set(&mut self.statuses, user, UserStatus::Stationary);
        self.sinks.insert(user, id);
    }

    /// Checks that a token is valid and belongs to the user of the connection.
    pub fn validate_token(&self, token: &str, user: &Option<String>) -> (r: Option<String>)
        ensures
            crate::message::optional_text(r) == authorized(
                self@,
                crate::message::optional_text(*user),
                token@,
            ),
    {
        match crate::sessions::get_user_by_token(&self.sessions, token) {
            Some(u) => if holds_text(user, u.as_str()) {
                Some(u)
            } else {
                None
            },
            None => None,
        }
    }
}

/// What a connection passes on of a chat text that goes to everybody: nothing as
/// long as nobody is logged in on it, nor what its own user sent.
pub open spec fn forwarded(me: Option<Seq<char>>, from: Seq<char>, text: Seq<char>) -> Option<
    crate::message::MessageView,
> {
    match me {
        None => None,
        Some(u) => if u == from {
            None
        } else {
            Some(crate::message::MessageView::ChatFromServer { from: Some(from), text })
        },
    }
}

/// Decides what a connection passes on of a chat text that goes to everybody.
pub fn forward_broadcast(me: &Option<String>, from: &str, text: &str) -> (r: Option<Message>)
    ensures
        match r {
            Some(m) => forwarded(crate::message::optional_text(*me), from@, text@) == Some(m@),
            None => forwarded(crate::message::optional_text(*me), from@, text@) is None,
        },
{
    match me {
        None => None,
        Some(u) => if same_text(u.as_str(), from) {
            None
        } else {
            Some(Message::ChatFromServer { from: Some(from.to_owned()), text: text.to_owned() })
        },
    }
}

/// A token speaks for a user exactly if it is one of the user's sessions and the user is
/// the one who is logged in on the connection.
pub proof fn law_who_is_authorized(
    s: ServerView,
    on: Option<Seq<char>>,
    token: Seq<char>,
    user: Seq<char>,
)
    ensures
        authorized(s, on, token) == Some(user) <==> {
            &&& on == Some(user)
            &&& s.sessions.contains_key(token)
            &&& s.sessions[token] == user
        },
{
}

/// A text to everybody reaches everybody who is logged in, with its sender and unchanged,
/// but not the sender.
pub proof fn law_broadcast(me: Seq<char>, from: Seq<char>, text: Seq<char>)
    ensures
        me != from ==> forwarded(Some(me), from, text) == Some(
            crate::message::MessageView::ChatFromServer { from: Some(from), text },
        ),
        forwarded(Some(from), from, text) is None,
        forwarded(None, from, text) is None,
{
}

/// When a connection passes to a user, that user is stationary and reached over it; of
/// the one before nothing is left; nobody else and no trip is touched.
pub proof fn law_passing_on(
    s: ServerView,
    id: u64,
    previous: Option<Seq<char>>,
    user: Seq<char>,
    other: Seq<char>,
    token: Seq<char>,
)
    requires
        other != user,
        previous != Some(user),
    ensures
        ({
            let t = adopted(s, id, previous, user);
            &&& t.statuses.contains_key(user) && t.statuses[user] == UserStatus::Stationary
            &&& t.sinks.contains_key(user) && t.sinks[user] == id
            &&& t.trips == s.trips
            &&& previous == Some(other) ==> {
                &&& !t.statuses.contains_key(other)
                &&& !t.sinks.contains_key(other)
                &&& !crate::sessions::logged_in(t.sessions, other)
            }
            &&& previous != Some(other) ==> {
                &&& t.statuses.contains_key(other) == s.statuses.contains_key(other)
                &&& s.statuses.contains_key(other) ==> t.statuses[other] == s.statuses[other]
                &&& t.sinks.contains_key(other) == s.sinks.contains_key(other)
                &&& s.sinks.contains_key(other) ==> t.sinks[other] == s.sinks[other]
            }
            &&& crate::sessions::user_of(t.sessions, token) == if previous is Some
                && crate::sessions::user_of(s.sessions, token) == previous {
                None
            } else {
                crate::sessions::user_of(s.sessions, token)
            }
        }),
{
    match previous {
        Some(u) => crate::sessions::law_ended_sessions(s.sessions, u, token),
        None => {},
    }
}

} // verus!
