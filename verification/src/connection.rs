//! One connection of the server: what it does on everything that happens to it.
//!
//! A connection is a machine that is told what happened ([`Event`]) and says what
//! to do next ([`Action`]). It shares the [`Server`] with the other connections;
//! between two of its steps, theirs may come.
use vstd::prelude::*;

use crate::auth::{check_details, check_lookup};
use crate::double::{Double, HALF_TURN, MINUS_HALF_TURN, MINUS_NINETY, NINETY};
use crate::message::{error_message, validate_chat, Message};
use crate::server::Server;
use crate::sessions::{invalidate_token, try_insert_token};
use crate::stats::{check_interval, MovementStats};
use crate::text::holds_text;
use crate::trips::{
    drop_trip, finish_update, initialize_trips, last_position, terminate_trip, update_trip,
    InsertAction, StatusTransition,
};

verus! {

/// What a connection waits for.
pub enum Stage {
    /// A frame from the client.
    Reading,
    /// The message in a line.
    Decoding,
    /// That a reply is sent.
    Replying,
    /// Whether a user is known.
    LookingUp { register: bool, username: String, password: String },
    /// Whether the credentials are right.
    CheckingCredentials { username: String },
    /// That a new user is recorded.
    SavingUser { username: String },
    /// A token for a user who is let in.
    CreatingToken { register: bool, username: String },
    /// The number of a new trip.
    RecordingTrip { user: String, lat: Double, lon: Double, ts: i64 },
    /// That the first position of a trip is recorded.
    RecordingStart { user: String, trip_id: i64, lat: Double, lon: Double, ts: i64 },
    /// Whether a trip is open and the user's.
    CheckingTrip { user: String, trip_id: i64, lat: Double, lon: Double, ts: i64 },
    /// That a trip of which nothing is known any more is closed.
    ClosingOrphan,
    /// The distance from the last place of a trip.
    Measuring { user: String, trip_id: i64, lat: Double, lon: Double, ts: i64 },
    /// That a position is recorded.
    RecordingPosition { user: String, transition: StatusTransition },
    /// That a trip is closed.
    EndingTrip { trip_id: i64 },
    /// Statistics.
    ComputingStatistics,
    /// That a chat text is shown.
    Showing,
    /// The open trips of a user who leaves: with this token, or by the end of the
    /// connection.
    ListingTrips { user: String, token: Option<String> },
    /// That the first of these trips is closed.
    ClosingTrips { user: String, token: Option<String>, ids: Vec<i64>, now: i64 },
    /// That the reply to a user who leaves is sent.
    Parting,
    /// That the close frame is sent.
    Closing,
    /// Nothing any more.
    Finished,
}

/// A connection.
pub struct Connection {
    /// Which connection it is.
    pub id: u64,
    /// Who is logged in on it.
    pub user: Option<String>,
    pub stage: Stage,
}

/// What happened.
pub enum Event {
    /// A text frame came.
    Text(String),
    /// A binary frame came.
    Binary(Vec<u8>),
    /// A ping or a pong came.
    Control,
    /// A close frame came, or nothing can come any more.
    Closed,
    /// The line was this message, or none.
    Decoded(Option<Message>),
    /// What was to be sent is sent.
    Sent,
    /// It could not be sent.
    SendFailed,
    /// The user is known or not.
    KeyExists(Result<bool, String>),
    /// The credentials are right or not.
    CredentialsChecked(bool),
    /// The user is recorded or not.
    Registered(Result<(), String>),
    /// This is a token.
    Token(String),
    /// The trip has this number.
    TripRecorded(Result<i64, String>),
    /// The position is recorded or not.
    PositionRecorded(Result<(), String>),
    /// The trip is open and the user's, or not.
    TripIsOpen(Result<bool, String>),
    /// So many trips were closed.
    TripEnded(Result<u64, String>),
    /// This is the distance.
    Measured(Double),
    /// These are the statistics.
    Statistics(Result<MovementStats, String>),
    /// The line is shown.
    Shown,
    /// These trips are open, as far as that could be found out, at this time.
    OpenTrips { ids: Option<Vec<i64>>, now: i64 },
}

/// What to do next.
pub enum Action {
    /// Wait for a frame.
    Read,
    /// Find the message in a line.
    Decode { line: String },
    /// Send a message to the client.
    Send { msg: Message },
    /// Send a close frame to the client.
    SendClose,
    /// Find out whether a user is known.
    KeyExists { username: String },
    /// Check the credentials of a user.
    CheckCredentials { username: String, password: String },
    /// Record a user.
    SaveRegister { username: String, password: String },
    /// Draw a token.
    CreateToken,
    /// Record a trip that starts.
    RecordTrip { user: String, ts: i64 },
    /// Record a position.
    RecordPosition { trip_id: i64, lat: Double, lon: Double, ts: i64, stopped: bool },
    /// Find out whether a trip is open and the user's.
    TripOpen { trip_id: i64, user: String },
    /// Close a trip, if it is open and the user's.
    EndTrip { trip_id: i64, user: String, ts: i64 },
    /// Find the distance between two positions in metres.
    Measure { from: (Double, Double), to: (Double, Double) },
    /// Compute statistics.
    Statistics { user: String, from_ts: i64, to_ts: i64 },
    /// Show a line to the operator.
    Show { line: String },
    /// Find the open trips of a user.
    OpenTrips { user: String },
    /// End the connection.
    Finish,
    /// Nothing: this was not waited for.
    Ignore,
}

/// What a [`Stage`] says.
#[verifier::ext_equal]
pub enum StageView {
    Reading,
    Decoding,
    Replying,
    LookingUp { register: bool, username: Seq<char>, password: Seq<char> },
    CheckingCredentials { username: Seq<char> },
    SavingUser { username: Seq<char> },
    CreatingToken { register: bool, username: Seq<char> },
    RecordingTrip { user: Seq<char>, lat: Double, lon: Double, ts: i64 },
    RecordingStart { user: Seq<char>, trip_id: i64, lat: Double, lon: Double, ts: i64 },
    CheckingTrip { user: Seq<char>, trip_id: i64, lat: Double, lon: Double, ts: i64 },
    ClosingOrphan,
    Measuring { user: Seq<char>, trip_id: i64, lat: Double, lon: Double, ts: i64 },
    RecordingPosition { user: Seq<char>, transition: StatusTransition },
    EndingTrip { trip_id: i64 },
    ComputingStatistics,
    Showing,
    ListingTrips { user: Seq<char>, token: Option<Seq<char>> },
    ClosingTrips { user: Seq<char>, token: Option<Seq<char>>, ids: Seq<i64>, now: i64 },
    Parting,
    Closing,
    Finished,
}

/// What a [`Connection`] says.
#[verifier::ext_equal]
pub struct ConnectionView {
    pub id: u64,
    pub user: Option<Seq<char>>,
    pub stage: StageView,
}

/// What an [`Event`] says.
#[verifier::ext_equal]
pub enum EventView {
    Text(Seq<char>),
    Binary(Seq<u8>),
    Control,
    Closed,
    Decoded(Option<crate::message::MessageView>),
    Sent,
    SendFailed,
    KeyExists(Result<bool, Seq<char>>),
    CredentialsChecked(bool),
    Registered(Result<(), Seq<char>>),
    Token(Seq<char>),
    TripRecorded(Result<i64, Seq<char>>),
    PositionRecorded(Result<(), Seq<char>>),
    TripIsOpen(Result<bool, Seq<char>>),
    TripEnded(Result<u64, Seq<char>>),
    Measured(Double),
    /// The statistics, as the message that carries them.
    Statistics(Result<crate::message::MessageView, Seq<char>>),
    Shown,
    OpenTrips { ids: Option<Seq<i64>>, now: i64 },
}

/// What an [`Action`] says.
#[verifier::ext_equal]
pub enum ActionView {
    Read,
    Decode { line: Seq<char> },
    Send { msg: crate::message::MessageView },
    SendClose,
    KeyExists { username: Seq<char> },
    CheckCredentials { username: Seq<char>, password: Seq<char> },
    SaveRegister { username: Seq<char>, password: Seq<char> },
    CreateToken,
    RecordTrip { user: Seq<char>, ts: i64 },
    RecordPosition { trip_id: i64, lat: Double, lon: Double, ts: i64, stopped: bool },
    TripOpen { trip_id: i64, user: Seq<char> },
    EndTrip { trip_id: i64, user: Seq<char>, ts: i64 },
    Measure { from: (Double, Double), to: (Double, Double) },
    Statistics { user: Seq<char>, from_ts: i64, to_ts: i64 },
    Show { line: Seq<char> },
    OpenTrips { user: Seq<char> },
    Finish,
    Ignore,
}

/// The message that carries statistics.
pub open spec fn statistics_view(s: MovementStats) -> crate::message::MessageView {
    crate::message::MessageView::StatsResult {
        username: s.username@,
        from_ts: s.from_ts,
        to_ts: s.to_ts,
        distance_m: s.distance_m,
        movement_secs: s.movement_secs,
        pause_secs: s.pause_secs,
        total_secs: s.total_secs,
        avg_speed_mps: s.avg_speed_mps,
        avg_speed_kmh: s.avg_speed_kmh,
        points: s.points,
    }
}

impl View for Stage {
    type V = StageView;

    open spec fn view(&self) -> StageView {
        match *self {
            Stage::Reading => StageView::Reading,
            Stage::Decoding => StageView::Decoding,
            Stage::Replying => StageView::Replying,
            Stage::LookingUp { register, username, password } => StageView::LookingUp {
                register,
                username: username@,
                password: password@,
            },
            Stage::CheckingCredentials { username } => StageView::CheckingCredentials {
                username: username@,
            },
            Stage::SavingUser { username } => StageView::SavingUser { username: username@ },
            Stage::CreatingToken { register, username } => StageView::CreatingToken {
                register,
                username: username@,
            },
            Stage::RecordingTrip { user, lat, lon, ts } => StageView::RecordingTrip {
                user: user@,
                lat,
                lon,
                ts,
            },
            Stage::RecordingStart { user, trip_id, lat, lon, ts } => StageView::RecordingStart {
                user: user@,
                trip_id,
                lat,
                lon,
                ts,
            },
            Stage::CheckingTrip { user, trip_id, lat, lon, ts } => StageView::CheckingTrip {
                user: user@,
                trip_id,
                lat,
                lon,
                ts,
            },
            Stage::ClosingOrphan => StageView::ClosingOrphan,
            Stage::Measuring { user, trip_id, lat, lon, ts } => StageView::Measuring {
                user: user@,
                trip_id,
                lat,
                lon,
                ts,
            },
            Stage::RecordingPosition { user, transition } => StageView::RecordingPosition {
                user: user@,
                transition,
            },
            Stage::EndingTrip { trip_id } => StageView::EndingTrip { trip_id },
            Stage::ComputingStatistics => StageView::ComputingStatistics,
            Stage::Showing => StageView::Showing,
            Stage::ListingTrips { user, token } => StageView::ListingTrips {
                user: user@,
                token: crate::message::optional_text(token),
            },
            Stage::ClosingTrips { user, token, ids, now } => StageView::ClosingTrips {
                user: user@,
                token: crate::message::optional_text(token),
                ids: ids@,
                now,
            },
            Stage::Parting => StageView::Parting,
            Stage::Closing => StageView::Closing,
            Stage::Finished => StageView::Finished,
        }
    }
}

impl View for Connection {
    type V = ConnectionView;

    open spec fn view(&self) -> ConnectionView {
        ConnectionView {
            id: self.id,
            user: crate::message::optional_text(self.user),
            stage: self.stage@,
        }
    }
}

impl View for Event {
    type V = EventView;

    open spec fn view(&self) -> EventView {
        match *self {
            Event::Text(t) => EventView::Text(t@),
            Event::Binary(b) => EventView::Binary(b@),
            Event::Control => EventView::Control,
            Event::Closed => EventView::Closed,
            Event::Decoded(Some(m)) => EventView::Decoded(Some(m@)),
            Event::Decoded(None) => EventView::Decoded(None),
            Event::Sent => EventView::Sent,
            Event::SendFailed => EventView::SendFailed,
            Event::KeyExists(r) => EventView::KeyExists(crate::auth::outcome(r)),
            Event::CredentialsChecked(b) => EventView::CredentialsChecked(b),
            Event::Registered(r) => EventView::Registered(crate::auth::outcome(r)),
            Event::Token(t) => EventView::Token(t@),
            Event::TripRecorded(r) => EventView::TripRecorded(crate::auth::outcome(r)),
            Event::PositionRecorded(r) => EventView::PositionRecorded(crate::auth::outcome(r)),
            Event::TripIsOpen(r) => EventView::TripIsOpen(crate::auth::outcome(r)),
            Event::TripEnded(r) => EventView::TripEnded(crate::auth::outcome(r)),
            Event::Measured(d) => EventView::Measured(d),
            Event::Statistics(Ok(s)) => EventView::Statistics(Ok(statistics_view(s))),
            Event::Statistics(Err(e)) => EventView::Statistics(Err(e@)),
            Event::Shown => EventView::Shown,
            Event::OpenTrips { ids: Some(ids), now } => EventView::OpenTrips {
                ids: Some(ids@),
                now,
            },
            Event::OpenTrips { ids: None, now } => EventView::OpenTrips { ids: None, now },
        }
    }
}

impl View for Action {
    type V = ActionView;

    open spec fn view(&self) -> ActionView {
        match *self {
            Action::Read => ActionView::Read,
            Action::Decode { line } => ActionView::Decode { line: line@ },
            Action::Send { msg } => ActionView::Send { msg: msg@ },
            Action::SendClose => ActionView::SendClose,
            Action::KeyExists { username } => ActionView::KeyExists { username: username@ },
            Action::CheckCredentials { username, password } => ActionView::CheckCredentials {
                username: username@,
                password: password@,
            },
            Action::SaveRegister { username, password } => ActionView::SaveRegister {
                username: username@,
                password: password@,
            },
            Action::CreateToken => ActionView::CreateToken,
            Action::RecordTrip { user, ts } => ActionView::RecordTrip { user: user@, ts },
            Action::RecordPosition { trip_id, lat, lon, ts, stopped } => {
                ActionView::RecordPosition { trip_id, lat, lon, ts, stopped }
            },
            Action::TripOpen { trip_id, user } => ActionView::TripOpen { trip_id, user: user@ },
            Action::EndTrip { trip_id, user, ts } => ActionView::EndTrip {
                trip_id,
                user: user@,
                ts,
            },
            Action::Measure { from, to } => ActionView::Measure { from, to },
            Action::Statistics { user, from_ts, to_ts } => ActionView::Statistics {
                user: user@,
                from_ts,
                to_ts,
            },
            Action::Show { line } => ActionView::Show { line: line@ },
            Action::OpenTrips { user } => ActionView::OpenTrips { user: user@ },
            Action::Finish => ActionView::Finish,
            Action::Ignore => ActionView::Ignore,
        }
    }
}

/// A connection in another stage.
pub open spec fn in_stage(c: ConnectionView, stage: StageView) -> ConnectionView {
    ConnectionView { stage, ..c }
}

/// What a step comes to: the server and the connection afterwards, and what to do
/// next.
#[verifier::ext_equal]
pub struct Outcome {
    pub server: crate::server::ServerView,
    pub connection: ConnectionView,
    pub action: ActionView,
}

/// To go on in a stage with an action.
pub open spec fn go(
    s: crate::server::ServerView,
    c: ConnectionView,
    stage: StageView,
    action: ActionView,
) -> Outcome {
    Outcome { server: s, connection: in_stage(c, stage), action }
}

/// To wait for the next frame.
pub open spec fn read(s: crate::server::ServerView, c: ConnectionView) -> Outcome {
    go(s, c, StageView::Reading, ActionView::Read)
}

/// To reply.
pub open spec fn reply(
    s: crate::server::ServerView,
    c: ConnectionView,
    msg: crate::message::MessageView,
) -> Outcome {
    go(s, c, StageView::Replying, ActionView::Send { msg })
}

/// To reply with an error.
pub open spec fn refuse(
    s: crate::server::ServerView,
    c: ConnectionView,
    code: Seq<char>,
    text: Seq<char>,
) -> Outcome {
    reply(s, c, crate::message::error_view(code, text))
}

/// To refuse a message with an invalid token.
pub open spec fn unauthorized(s: crate::server::ServerView, c: ConnectionView) -> Outcome {
    refuse(s, c, "UNAUTHORIZED"@, "invalid token"@)
}

/// The code with which a login or a registration is refused.
pub open spec fn entry_code(register: bool) -> Seq<char> {
    if register {
        "REGISTER_FAILED"@
    } else {
        "AUTH_FAILED"@
    }
}

/// Whether a position is on the globe.
pub open spec fn on_globe(lat: Double, lon: Double) -> bool {
    &&& crate::double::dbl(MINUS_NINETY).at_most(lat) && lat.at_most(crate::double::dbl(NINETY))
    &&& crate::double::dbl(MINUS_HALF_TURN).at_most(lon) && lon.at_most(
        crate::double::dbl(HALF_TURN),
    )
}

/// What is wrong with a sample; nothing if it is fine.
pub open spec fn sample_problem(lat: Double, lon: Double, ts: i64) -> Option<Seq<char>> {
    if !on_globe(lat, lon) {
        Some("coordinates out of range"@)
    } else if ts <= 0 {
        Some("invalid timestamp"@)
    } else {
        None
    }
}

/// What is said of a trip that cannot be used or closed.
pub open spec fn no_such_trip() -> Seq<char> {
    "trip missing, not yours or already closed"@
}

/// What came of closing a trip, when so many trips were closed.
pub open spec fn ended(rows: Result<u64, Seq<char>>) -> Result<(), Seq<char>> {
    match rows {
        Err(e) => Err(e),
        Ok(n) => if n == 0 {
            Err(no_such_trip())
        } else {
            Ok(())
        },
    }
}

/// On a line.
pub open spec fn on_line(
    s: crate::server::ServerView,
    c: ConnectionView,
    line: Seq<char>,
) -> Outcome {
    if line.len() == 0 {
        read(s, c)
    } else {
        go(s, c, StageView::Decoding, ActionView::Decode { line })
    }
}

/// When nothing can come from the client any more, or nothing can be sent to it:
/// whoever is logged in leaves.
pub open spec fn on_end(s: crate::server::ServerView, c: ConnectionView) -> Outcome {
    match c.user {
        Some(user) => go(
            s,
            c,
            StageView::ListingTrips { user, token: None },
            ActionView::OpenTrips { user },
        ),
        None => go(s, c, StageView::Finished, ActionView::Finish),
    }
}

/// On a login or a registration.
pub open spec fn on_entry(
    s: crate::server::ServerView,
    c: ConnectionView,
    register: bool,
    username: Seq<char>,
    password: Seq<char>,
) -> Outcome {
    if !register && c.user == Some(username) {
        refuse(s, c, "ALREADY_AUTHENTICATED"@, "already authenticated as "@ + username)
    } else {
        match crate::auth::details_problem(username, password) {
            Some(e) => refuse(s, c, entry_code(register), e),
            None => go(
                s,
                c,
                StageView::LookingUp { register, username, password },
                ActionView::KeyExists { username },
            ),
        }
    }
}

/// When it is known whether the user of a login or a registration exists.
pub open spec fn on_lookup(
    s: crate::server::ServerView,
    c: ConnectionView,
    register: bool,
    username: Seq<char>,
    password: Seq<char>,
    exists: Result<bool, Seq<char>>,
) -> Outcome {
    match crate::auth::lookup_problem(register, exists) {
        Some(e) => refuse(s, c, entry_code(register), e),
        None => if register {
            go(
                s,
                c,
                StageView::SavingUser { username },
                ActionView::SaveRegister { username, password },
            )
        } else {
            go(
                s,
                c,
                StageView::CheckingCredentials { username },
                ActionView::CheckCredentials { username, password },
            )
        },
    }
}

/// When a user is let in.
pub open spec fn on_token(
    s: crate::server::ServerView,
    c: ConnectionView,
    register: bool,
    username: Seq<char>,
    token: Seq<char>,
) -> Outcome {
    if crate::sessions::logged_in(s.sessions, username) {
        refuse(s, c, entry_code(register), crate::sessions::already_logged_in())
    } else {
        let t = crate::server::ServerView {
            sessions: s.sessions.insert(token, username),
            ..s
        };
        reply(
            crate::server::adopted(t, c.id, c.user, username),
            ConnectionView { user: Some(username), ..c },
            crate::message::MessageView::AuthOk { token },
        )
    }
}

/// On the start of a trip by an authorized user.
pub open spec fn on_start_trip(
    s: crate::server::ServerView,
    c: ConnectionView,
    user: Seq<char>,
    lat: Double,
    lon: Double,
    ts: i64,
) -> Outcome {
    match sample_problem(lat, lon, ts) {
        Some(e) => refuse(s, c, "BAD_REQUEST"@, e),
        None => go(
            s,
            c,
            StageView::RecordingTrip { user, lat, lon, ts },
            ActionView::RecordTrip { user, ts },
        ),
    }
}

/// When a trip is recorded, but not yet its first position.
pub open spec fn on_trip_recorded(
    s: crate::server::ServerView,
    c: ConnectionView,
    user: Seq<char>,
    lat: Double,
    lon: Double,
    ts: i64,
    recorded: Result<i64, Seq<char>>,
) -> Outcome {
    match recorded {
        Ok(trip_id) => go(
            s,
            c,
            StageView::RecordingStart { user, trip_id, lat, lon, ts },
            ActionView::RecordPosition { trip_id, lat, lon, ts, stopped: false },
        ),
        Err(e) => refuse(s, c, "START_TRIP_FAILED"@, "Failed to start trip: "@ + e),
    }
}

/// When the first position of a trip is recorded.
pub open spec fn on_start_recorded(
    s: crate::server::ServerView,
    c: ConnectionView,
    user: Seq<char>,
    trip_id: i64,
    lat: Double,
    lon: Double,
    ts: i64,
    recorded: Result<(), Seq<char>>,
) -> Outcome {
    match recorded {
        Ok(()) => reply(
            crate::server::ServerView {
                trips: s.trips.insert(trip_id, crate::trips::arrival(lat, lon)),
                statuses: s.statuses.insert(user, crate::status::UserStatus::Stationary),
                ..s
            },
            c,
            crate::message::MessageView::TripStarted { trip_id, lat, lon, ts },
        ),
        Err(e) => refuse(s, c, "START_TRIP_FAILED"@, "Failed to start trip: "@ + e),
    }
}

/// On a position from an authorized user.
pub open spec fn on_position(
    s: crate::server::ServerView,
    c: ConnectionView,
    user: Seq<char>,
    trip_id: i64,
    lat: Double,
    lon: Double,
    ts: i64,
) -> Outcome {
    match sample_problem(lat, lon, ts) {
        Some(e) => refuse(s, c, "BAD_REQUEST"@, e),
        None => go(
            s,
            c,
            StageView::CheckingTrip { user, trip_id, lat, lon, ts },
            ActionView::TripOpen { trip_id, user },
        ),
    }
}

/// When it is known whether the trip of a position is open. A trip that is open
/// but not in memory is closed: its state was lost.
pub open spec fn on_trip_checked(
    s: crate::server::ServerView,
    c: ConnectionView,
    user: Seq<char>,
    trip_id: i64,
    lat: Double,
    lon: Double,
    ts: i64,
    open: Result<bool, Seq<char>>,
) -> Outcome {
    match open {
        Err(e) => refuse(s, c, "BAD_REQUEST"@, e),
        Ok(false) => refuse(s, c, "BAD_REQUEST"@, no_such_trip()),
        Ok(true) => if s.trips.contains_key(trip_id) {
            go(
                s,
                c,
                StageView::Measuring { user, trip_id, lat, lon, ts },
                ActionView::Measure {
                    from: (s.trips[trip_id].lat, s.trips[trip_id].lon),
                    to: (lat, lon),
                },
            )
        } else {
            go(
                s,
                c,
                StageView::ClosingOrphan,
                ActionView::EndTrip { trip_id, user, ts },
            )
        },
    }
}

/// When the distance of a position from the last place of its trip is known.
pub open spec fn on_measured(
    s: crate::server::ServerView,
    c: ConnectionView,
    user: Seq<char>,
    trip_id: i64,
    lat: Double,
    lon: Double,
    ts: i64,
    distance: Double,
) -> Outcome {
    if s.trips.contains_key(trip_id) {
        let (place, action, transition) = crate::trips::sampled(
            s.trips[trip_id],
            lat,
            lon,
            distance,
        );
        let t = crate::server::ServerView { trips: s.trips.insert(trip_id, place), ..s };
        match action {
            InsertAction::Insert { stopped } => go(
                t,
                c,
                StageView::RecordingPosition { user, transition },
                ActionView::RecordPosition { trip_id, lat, lon, ts, stopped },
            ),
            InsertAction::Skip => on_position_recorded(t, c, user, transition, Ok(())),
        }
    } else {
        refuse(s, c, "UPDATE_TRIP_FAILED"@, crate::trips::untracked(trip_id as int))
    }
}

/// When a position is recorded.
pub open spec fn on_position_recorded(
    s: crate::server::ServerView,
    c: ConnectionView,
    user: Seq<char>,
    transition: StatusTransition,
    recorded: Result<(), Seq<char>>,
) -> Outcome {
    match recorded {
        Ok(()) => reply(
            crate::server::ServerView {
                statuses: crate::trips::transitioned(s.statuses, user, transition),
                ..s
            },
            c,
            crate::message::MessageView::Ack,
        ),
        Err(e) => refuse(s, c, "UPDATE_TRIP_FAILED"@, "Failed to insert position: "@ + e),
    }
}

/// When a trip is closed.
pub open spec fn on_trip_ended(
    s: crate::server::ServerView,
    c: ConnectionView,
    trip_id: i64,
    rows: Result<u64, Seq<char>>,
) -> Outcome {
    match ended(rows) {
        Ok(()) => reply(
            crate::server::ServerView { trips: s.trips.remove(trip_id), ..s },
            c,
            crate::message::MessageView::Ack,
        ),
        Err(e) => refuse(s, c, "BAD_REQUEST"@, "Failed to end trip: "@ + e),
    }
}

/// On a chat text from an authorized user: it is shown to the operator, and to
/// nobody else.
pub open spec fn on_chat(
    s: crate::server::ServerView,
    c: ConnectionView,
    user: Seq<char>,
    text: Seq<char>,
) -> Outcome {
    match crate::message::chat_problem(text) {
        Some(e) => refuse(s, c, "BAD_REQUEST"@, e),
        None => go(
            s,
            c,
            StageView::Showing,
            ActionView::Show { line: "[chat] "@ + user + ": "@ + text },
        ),
    }
}

/// On a farewell.
pub open spec fn on_disconnect(
    s: crate::server::ServerView,
    c: ConnectionView,
    token: Seq<char>,
) -> Outcome {
    match crate::server::authorized(s, c.user, token) {
        Some(user) => go(
            s,
            c,
            StageView::ListingTrips { user, token: Some(token) },
            ActionView::OpenTrips { user },
        ),
        None => go(
            s,
            c,
            StageView::Parting,
            ActionView::Send { msg: crate::message::MessageView::Ack },
        ),
    }
}

/// When the trips of a user who leaves are closed, as far as possible. After a
/// farewell the session with its token ends; at the end of a connection all
/// sessions of its user do.
pub open spec fn on_left(
    s: crate::server::ServerView,
    c: ConnectionView,
    user: Seq<char>,
    token: Option<Seq<char>>,
) -> Outcome {
    match token {
        Some(t) => go(
            crate::server::ServerView {
                sessions: s.sessions.remove(t),
                ..crate::server::forgotten(s, user)
            },
            ConnectionView { user: None, ..c },
            StageView::Parting,
            ActionView::Send { msg: crate::message::MessageView::Ack },
        ),
        None => go(
            crate::server::dismissed(s, user),
            c,
            StageView::Finished,
            ActionView::Finish,
        ),
    }
}

/// When these trips of a user who leaves are left to be closed.
pub open spec fn on_leaving(
    s: crate::server::ServerView,
    c: ConnectionView,
    user: Seq<char>,
    token: Option<Seq<char>>,
    ids: Seq<i64>,
    now: i64,
) -> Outcome {
    if ids.len() == 0 {
        on_left(s, c, user, token)
    } else {
        go(
            s,
            c,
            StageView::ClosingTrips { user, token, ids, now },
            ActionView::EndTrip { trip_id: ids[0], user, ts: now },
        )
    }
}

/// On a message.
pub open spec fn on_message(
    s: crate::server::ServerView,
    c: ConnectionView,
    msg: crate::message::MessageView,
) -> Outcome {
    match msg {
        crate::message::MessageView::Login { username, password } => on_entry(
            s,
            c,
            false,
            username,
            password,
        ),
        crate::message::MessageView::Register { username, password } => on_entry(
            s,
            c,
            true,
            username,
            password,
        ),
        crate::message::MessageView::StartTrip { token, lat, lon, ts } => {
            match crate::server::authorized(s, c.user, token) {
                Some(user) => on_start_trip(s, c, user, lat, lon, ts),
                None => unauthorized(s, c),
            }
        },
        crate::message::MessageView::Position { token, trip_id, lat, lon, ts } => {
            match crate::server::authorized(s, c.user, token) {
                Some(user) => on_position(s, c, user, trip_id, lat, lon, ts),
                None => unauthorized(s, c),
            }
        },
        crate::message::MessageView::EndTrip { token, trip_id, ts } => {
            match crate::server::authorized(s, c.user, token) {
                Some(user) => go(
                    s,
                    c,
                    StageView::EndingTrip { trip_id },
                    ActionView::EndTrip { trip_id, user, ts },
                ),
                None => unauthorized(s, c),
            }
        },
        crate::message::MessageView::Stats { token, from_ts, to_ts } => {
            match crate::server::authorized(s, c.user, token) {
                Some(user) => if from_ts > to_ts {
                    refuse(s, c, "BAD_REQUEST"@, "invalid time interval"@)
                } else {
                    go(
                        s,
                        c,
                        StageView::ComputingStatistics,
                        ActionView::Statistics { user, from_ts, to_ts },
                    )
                },
                None => unauthorized(s, c),
            }
        },
        crate::message::MessageView::ChatToServer { token, text } => {
            match crate::server::authorized(s, c.user, token) {
                Some(user) => on_chat(s, c, user, text),
                None => unauthorized(s, c),
            }
        },
        crate::message::MessageView::Disconnect { token } => on_disconnect(s, c, token),
        _ => refuse(s, c, "BAD_REQUEST"@, "invalid message type from client"@),
    }
}

/// On something that is not waited for: nothing.
pub open spec fn ignored(s: crate::server::ServerView, c: ConnectionView) -> Outcome {
    Outcome { server: s, connection: c, action: ActionView::Ignore }
}

/// On an event while a frame is waited for.
pub open spec fn on_frame(
    s: crate::server::ServerView,
    c: ConnectionView,
    e: EventView,
) -> Outcome {
    match e {
        EventView::Text(t) => on_line(s, c, t),
        EventView::Binary(b) => if vstd::utf8::valid_utf8(b) {
            on_line(s, c, vstd::utf8::decode_utf8(b))
        } else {
            refuse(s, c, "BAD_REQUEST"@, "binary payload is not UTF-8"@)
        },
        EventView::Control => read(s, c),
        EventView::Closed => on_end(s, c),
        _ => ignored(s, c),
    }
}

/// On an event while a message is decoded.
pub open spec fn on_decoded(
    s: crate::server::ServerView,
    c: ConnectionView,
    e: EventView,
) -> Outcome {
    match e {
        EventView::Decoded(Some(m)) => on_message(s, c, m),
        EventView::Decoded(None) => refuse(s, c, "BAD_REQUEST"@, "invalid message"@),
        _ => ignored(s, c),
    }
}

/// On an event while something is sent. If it cannot be sent, the client is gone,
/// and the connection ends.
pub open spec fn on_sent(
    s: crate::server::ServerView,
    c: ConnectionView,
    e: EventView,
) -> Outcome {
    match (c.stage, e) {
        (StageView::Replying, EventView::Sent) => read(s, c),
        (StageView::Parting, EventView::Sent) => go(
            s,
            c,
            StageView::Closing,
            ActionView::SendClose,
        ),
        (StageView::Closing, EventView::Sent) => on_end(s, c),
        (_, EventView::SendFailed) => on_end(s, c),
        _ => ignored(s, c),
    }
}

/// On an event while a user is let in.
pub open spec fn on_entering(
    s: crate::server::ServerView,
    c: ConnectionView,
    e: EventView,
) -> Outcome {
    match (c.stage, e) {
        (
            StageView::LookingUp { register, username, password },
            EventView::KeyExists(exists),
        ) => on_lookup(s, c, register, username, password, exists),
        (
            StageView::CheckingCredentials { username },
            EventView::CredentialsChecked(right),
        ) => if right {
            go(
                s,
                c,
                StageView::CreatingToken { register: false, username },
                ActionView::CreateToken,
            )
        } else {
            refuse(s, c, "AUTH_FAILED"@, "invalid credentials"@)
        },
        (StageView::SavingUser { username }, EventView::Registered(saved)) => match saved {
            Ok(()) => go(
                s,
                c,
                StageView::CreatingToken { register: true, username },
                ActionView::CreateToken,
            ),
            Err(e) => refuse(s, c, "REGISTER_FAILED"@, e),
        },
        (
            StageView::CreatingToken { register, username },
            EventView::Token(token),
        ) => on_token(s, c, register, username, token),
        _ => ignored(s, c),
    }
}

/// On an event while a trip is started, followed or ended.
pub open spec fn on_travelling(
    s: crate::server::ServerView,
    c: ConnectionView,
    e: EventView,
) -> Outcome {
    match (c.stage, e) {
        (
            StageView::RecordingTrip { user, lat, lon, ts },
            EventView::TripRecorded(recorded),
        ) => on_trip_recorded(s, c, user, lat, lon, ts, recorded),
        (
            StageView::RecordingStart { user, trip_id, lat, lon, ts },
            EventView::PositionRecorded(recorded),
        ) => on_start_recorded(s, c, user, trip_id, lat, lon, ts, recorded),
        (
            StageView::CheckingTrip { user, trip_id, lat, lon, ts },
            EventView::TripIsOpen(open),
        ) => on_trip_checked(s, c, user, trip_id, lat, lon, ts, open),
        (StageView::ClosingOrphan, EventView::TripEnded(_)) => refuse(
            s,
            c,
            "TRIP_TERMINATED"@,
            "trip closed by the server (state lost): open a new trip"@,
        ),
        (
            StageView::Measuring { user, trip_id, lat, lon, ts },
            EventView::Measured(distance),
        ) => on_measured(s, c, user, trip_id, lat, lon, ts, distance),
        (
            StageView::RecordingPosition { user, transition },
            EventView::PositionRecorded(recorded),
        ) => on_position_recorded(s, c, user, transition, recorded),
        (StageView::EndingTrip { trip_id }, EventView::TripEnded(rows)) => on_trip_ended(
            s,
            c,
            trip_id,
            rows,
        ),
        _ => ignored(s, c),
    }
}

/// On an event while something is looked up or shown.
pub open spec fn on_informed(
    s: crate::server::ServerView,
    c: ConnectionView,
    e: EventView,
) -> Outcome {
    match (c.stage, e) {
        (StageView::ComputingStatistics, EventView::Statistics(stats)) => match stats {
            Ok(msg) => reply(s, c, msg),
            Err(e) => refuse(s, c, "BAD_REQUEST"@, e),
        },
        (StageView::Showing, EventView::Shown) => reply(s, c, crate::message::MessageView::Ack),
        _ => ignored(s, c),
    }
}

/// On an event while the trips of a user who leaves are closed.
pub open spec fn on_parting(
    s: crate::server::ServerView,
    c: ConnectionView,
    e: EventView,
) -> Outcome {
    match (c.stage, e) {
        (StageView::ListingTrips { user, token }, EventView::OpenTrips { ids, now }) => match ids {
            Some(ids) => on_leaving(s, c, user, token, ids, now),
            None => on_left(s, c, user, token),
        },
        (
            StageView::ClosingTrips { user, token, ids, now },
            EventView::TripEnded(_),
        ) => if ids.len() == 0 {
            on_left(s, c, user, token)
        } else {
            on_leaving(
                crate::server::ServerView { trips: s.trips.remove(ids[0]), ..s },
                c,
                user,
                token,
                ids.skip(1),
                now,
            )
        },
        _ => ignored(s, c),
    }
}

/// On an event.
pub open spec fn on_event(
    s: crate::server::ServerView,
    c: ConnectionView,
    e: EventView,
) -> Outcome {
    match c.stage {
        StageView::Reading => on_frame(s, c, e),
        StageView::Decoding => on_decoded(s, c, e),
        StageView::Replying | StageView::Parting | StageView::Closing => on_sent(s, c, e),
        StageView::LookingUp { .. }
        | StageView::CheckingCredentials { .. }
        | StageView::SavingUser { .. }
        | StageView::CreatingToken { .. } => on_entering(s, c, e),
        StageView::RecordingTrip { .. }
        | StageView::RecordingStart { .. }
        | StageView::CheckingTrip { .. }
        | StageView::ClosingOrphan
        | StageView::Measuring { .. }
        | StageView::RecordingPosition { .. }
        | StageView::EndingTrip { .. } => on_travelling(s, c, e),
        StageView::ComputingStatistics | StageView::Showing => on_informed(s, c, e),
        StageView::ListingTrips { .. } | StageView::ClosingTrips { .. } => on_parting(s, c, e),
        StageView::Finished => ignored(s, c),
    }
}

/// Calls `String::from_utf8`: the text of some bytes, if they are valid UTF-8.
#[verifier::external_body]
fn utf8_text(bytes: Vec<u8>) -> (r: Option<String>)
    ensures
        match r {
            Some(t) => vstd::utf8::valid_utf8(bytes@) && t@ == vstd::utf8::decode_utf8(bytes@),
            None => !vstd::utf8::valid_utf8(bytes@),
        },
{
    String::from_utf8(bytes).ok()
}

/// The message that carries statistics.
pub fn statistics_message(s: MovementStats) -> (r: Message)
    ensures
        r@ == statistics_view(s),
        r is StatsResult,
        r->StatsResult_username@ == s.username@,
        r->StatsResult_from_ts == s.from_ts,
        r->StatsResult_to_ts == s.to_ts,
        r->StatsResult_distance_m == s.distance_m,
        r->StatsResult_movement_secs == s.movement_secs,
        r->StatsResult_pause_secs == s.pause_secs,
        r->StatsResult_total_secs == s.total_secs,
        r->StatsResult_avg_speed_mps == s.avg_speed_mps,
        r->StatsResult_avg_speed_kmh == s.avg_speed_kmh,
        r->StatsResult_points == s.points,
{
    Message::StatsResult {
        username: s.username,
        from_ts: s.from_ts,
        to_ts: s.to_ts,
        distance_m: s.distance_m,
        movement_secs: s.movement_secs,
        pause_secs: s.pause_secs,
        total_secs: s.total_secs,
        avg_speed_mps: s.avg_speed_mps,
        avg_speed_kmh: s.avg_speed_kmh,
        points: s.points,
    }
}

/// Checks a sample.
pub fn check_sample(lat: Double, lon: Double, ts: i64) -> (r: Result<(), &'static str>)
    ensures
        match r {
            Ok(()) => sample_problem(lat, lon, ts) is None,
            Err(e) => sample_problem(lat, lon, ts) == Some(e@),
        },
{
    let lat_fits = Double { bits: MINUS_NINETY }.le(lat) && lat.le(Double { bits: NINETY });
    let lon_fits = Double { bits: MINUS_HALF_TURN }.le(lon) && lon.le(Double { bits: HALF_TURN });
    if !lat_fits || !lon_fits {
        Err("coordinates out of range")
    } else if ts <= 0 {
        Err("invalid timestamp")
    } else {
        Ok(())
    }
}

/// What came of closing a trip, when so many trips were closed.
pub fn end_trip(rows: Result<u64, String>) -> (r: Result<(), String>)
    ensures
        crate::auth::outcome(r) == ended(crate::auth::outcome(rows)),
{
    match rows {
        Err(e) => Err(e),
        Ok(n) => if n == 0 {
            Err("trip missing, not yours or already closed".to_owned())
        } else {
            Ok(())
        },
    }
}

impl Connection {
    /// A new connection, on which nobody is logged in.
    pub fn new(id: u64) -> (r: Self)
        ensures
            r@ == (ConnectionView { id, user: None, stage: StageView::Reading }),
    {
        Connection { id, user: None, stage: Stage::Reading }
    }

    fn read(&mut self) -> (r: Action)
        ensures
            final(self)@ == (ConnectionView { stage: StageView::Reading, ..old(self)@ }),
            r@ == ActionView::Read,
    {
        self.stage = Stage::Reading;
        Action::Read
    }

    fn reply(&mut self, msg: Message) -> (r: Action)
        ensures
            final(self)@ == (ConnectionView { stage: StageView::Replying, ..old(self)@ }),
            r@ == (ActionView::Send { msg: msg@ }),
    {
        self.stage = Stage::Replying;
        Action::Send { msg }
    }

    fn refuse(&mut self, code: &str, text: &str) -> (r: Action)
        ensures
            final(self)@ == (ConnectionView { stage: StageView::Replying, ..old(self)@ }),
            r@ == (ActionView::Send { msg: crate::message::error_view(code@, text@) }),
    {
        self.reply(error_message(code, text))
    }

    fn line(&mut self, line: String) -> (r: Action)
        ensures
            forall|s: crate::server::ServerView| #[trigger]
                on_line(s, old(self)@, line@) == (Outcome {
                    server: s,
                    connection: final(self)@,
                    action: r@,
                }),
    {
        if line.as_str().is_empty() {
            self.read()
        } else {
            self.stage = Stage::Decoding;
            Action::Decode { line }
        }
    }

    fn end(&mut self) -> (r: Action)
        ensures
            forall|s: crate::server::ServerView| #[trigger]
                on_end(s, old(self)@) == (Outcome {
                    server: s,
                    connection: final(self)@,
                    action: r@,
                }),
    {
        match &self.user {
            Some(u) => {
                let user = u.clone();
                let also = u.clone();
                self.stage = Stage::ListingTrips { user, token: None };
                Action::OpenTrips { user: also }
            },
            None => {
                self.stage = Stage::Finished;
                Action::Finish
            },
        }
    }

    fn entry(&mut self, register: bool, username: String, password: String) -> (r: Action)
        ensures
            forall|s: crate::server::ServerView| #[trigger]
                on_entry(s, old(self)@, register, username@, password@) == (Outcome {
                    server: s,
                    connection: final(self)@,
                    action: r@,
                }),
    {
        if !register && holds_text(&self.user, username.as_str()) {
            let mut text = String::new();
            text.append("already authenticated as ");
            text.append(username.as_str());
            assert(text@ =~= "already authenticated as "@ + username@);
            return self.refuse("ALREADY_AUTHENTICATED", text.as_str());
        }
        match check_details(username.as_str(), password.as_str()) {
            Err(e) => self.refuse(code_of(register), e),
            Ok(()) => {
                let name = username.clone();
                self.stage = Stage::LookingUp { register, username, password };
                Action::KeyExists { username: name }
            },
        }
    }

    fn lookup(
        &mut self,
        register: bool,
        username: String,
        password: String,
        exists: Result<bool, String>,
    ) -> (r: Action)
        ensures
            forall|s: crate::server::ServerView| #[trigger]
                on_lookup(
                    s,
                    old(self)@,
                    register,
                    username@,
                    password@,
                    crate::auth::outcome(exists),
                ) == (Outcome { server: s, connection: final(self)@, action: r@ }),
    {
        match check_lookup(register, exists) {
            Err(e) => self.refuse(code_of(register), e.as_str()),
            Ok(()) => {
                let name = username.clone();
                if register {
                    self.stage = Stage::SavingUser { username: name };
                    Action::SaveRegister { username, password }
                } else {
                    self.stage = Stage::CheckingCredentials { username: name };
                    Action::CheckCredentials { username, password }
                }
            },
        }
    }

    fn token(
        &mut self,
        server: &mut Server,
        register: bool,
        username: String,
        token: String,
    ) -> (r: Action)
        ensures
            on_token(old(server)@, old(self)@, register, username@, token@) == (Outcome {
                server: final(server)@,
                connection: final(self)@,
                action: r@,
            }),
    {
        match try_insert_token(&mut server.sessions, username.as_str(), token.as_str()) {
            Err(e) => self.refuse(code_of(register), e),
            Ok(()) => {
                server.adopt(self.id, &self.user, username.as_str());
                self.user = Some(username);
                self.reply(Message::AuthOk { token })
            },
        }
    }

    fn start_trip(&mut self, user: String, lat: Double, lon: Double, ts: i64) -> (r: Action)
        ensures
            forall|s: crate::server::ServerView| #[trigger]
                on_start_trip(s, old(self)@, user@, lat, lon, ts) == (Outcome {
                    server: s,
                    connection: final(self)@,
                    action: r@,
                }),
    {
        match check_sample(lat, lon, ts) {
            Err(e) => self.refuse("BAD_REQUEST", e),
            Ok(()) => {
                let name = user.clone();
                self.stage = Stage::RecordingTrip { user, lat, lon, ts };
                Action::RecordTrip { user: name, ts }
            },
        }
    }

    fn trip_recorded(
        &mut self,
        server: &mut Server,
        user: String,
        lat: Double,
        lon: Double,
        ts: i64,
        recorded: Result<i64, String>,
    ) -> (r: Action)
        ensures
            on_trip_recorded(
                old(server)@,
                old(self)@,
                user@,
                lat,
                lon,
                ts,
                crate::auth::outcome(recorded),
            ) == (Outcome { server: final(server)@, connection: final(self)@, action: r@ }),
    {
        match recorded {
            Ok(trip_id) => {
                self.stage = Stage::RecordingStart { user, trip_id, lat, lon, ts };
                Action::RecordPosition { trip_id, lat, lon, ts, stopped: false }
            },
            Err(e) => self.started(server, user, lat, lon, ts, Err(e)),
        }
    }

    fn start_recorded(
        &mut self,
        server: &mut Server,
        user: String,
        trip_id: i64,
        lat: Double,
        lon: Double,
        ts: i64,
        recorded: Result<(), String>,
    ) -> (r: Action)
        ensures
            on_start_recorded(
                old(server)@,
                old(self)@,
                user@,
                trip_id,
                lat,
                lon,
                ts,
                crate::auth::outcome(recorded),
            ) == (Outcome { server: final(server)@, connection: final(self)@, action: r@ }),
    {
        let started = match recorded {
            Ok(()) => Ok(trip_id),
            Err(e) => Err(e),
        };
        self.started(server, user, lat, lon, ts, started)
    }

    fn started(
        &mut self,
        server: &mut Server,
        user: String,
        lat: Double,
        lon: Double,
        ts: i64,
        started: Result<i64, String>,
    ) -> (r: Action)
        ensures
            match started {
                Ok(trip_id) => on_start_recorded(
                    old(server)@,
                    old(self)@,
                    user@,
                    trip_id,
                    lat,
                    lon,
                    ts,
                    Ok(()),
                ),
                Err(e) => refuse(
                    old(server)@,
                    old(self)@,
                    "START_TRIP_FAILED"@,
                    "Failed to start trip: "@ + e@,
                ),
            } == (Outcome { server: final(server)@, connection: final(self)@, action: r@ }),
    {
        match initialize_trips(
            &mut server.trips,
            &mut server.statuses,
            user.as_str(),
            lat,
            lon,
            started,
        ) {
            Ok(trip_id) => self.reply(Message::TripStarted { trip_id, lat, lon, ts }),
            Err(e) => self.refuse("START_TRIP_FAILED", e.as_str()),
        }
    }

    fn position(
        &mut self,
        user: String,
        trip_id: i64,
        lat: Double,
        lon: Double,
        ts: i64,
    ) -> (r: Action)
        ensures
            forall|s: crate::server::ServerView| #[trigger]
                on_position(s, old(self)@, user@, trip_id, lat, lon, ts) == (Outcome {
                    server: s,
                    connection: final(self)@,
                    action: r@,
                }),
    {
        match check_sample(lat, lon, ts) {
            Err(e) => self.refuse("BAD_REQUEST", e),
            Ok(()) => {
                let name = user.clone();
                self.stage = Stage::CheckingTrip { user, trip_id, lat, lon, ts };
                Action::TripOpen { trip_id, user: name }
            },
        }
    }

    fn trip_checked(
        &mut self,
        server: &Server,
        user: String,
        trip_id: i64,
        lat: Double,
        lon: Double,
        ts: i64,
        open: Result<bool, String>,
    ) -> (r: Action)
        ensures
            on_trip_checked(
                server@,
                old(self)@,
                user@,
                trip_id,
                lat,
                lon,
                ts,
                crate::auth::outcome(open),
            ) == (Outcome { server: server@, connection: final(self)@, action: r@ }),
    {
        match open {
            Err(e) => {
                return self.refuse("BAD_REQUEST", e.as_str());
            },
            Ok(false) => {
                return self.refuse("BAD_REQUEST", "trip missing, not yours or already closed");
            },
            Ok(true) => {},
        }
        match last_position(&server.trips, trip_id) {
            Some(from) => {
                self.stage = Stage::Measuring { user, trip_id, lat, lon, ts };
                Action::Measure { from, to: (lat, lon) }
            },
            None => {
                self.stage = Stage::ClosingOrphan;
                Action::EndTrip { trip_id, user, ts }
            },
        }
    }

    fn measured(
        &mut self,
        server: &mut Server,
        user: String,
        trip_id: i64,
        lat: Double,
        lon: Double,
        ts: i64,
        distance: Double,
    ) -> (r: Action)
        ensures
            on_measured(
                old(server)@,
                old(self)@,
                user@,
                trip_id,
                lat,
                lon,
                ts,
                distance,
            ) == (Outcome { server: final(server)@, connection: final(self)@, action: r@ }),
    {
        match update_trip(&mut server.trips, trip_id, lat, lon, distance) {
            Err(e) => self.refuse("UPDATE_TRIP_FAILED", e.as_str()),
            Ok((action, transition)) => match action {
                InsertAction::Insert { stopped } => {
                    self.stage = Stage::RecordingPosition { user, transition };
                    Action::RecordPosition { trip_id, lat, lon, ts, stopped }
                },
                InsertAction::Skip => self.position_recorded(server, user, transition, Ok(())),
            },
        }
    }

    fn position_recorded(
        &mut self,
        server: &mut Server,
        user: String,
        transition: StatusTransition,
        recorded: Result<(), String>,
    ) -> (r: Action)
        ensures
            on_position_recorded(
                old(server)@,
                old(self)@,
                user@,
                transition,
                crate::auth::outcome(recorded),
            ) == (Outcome { server: final(server)@, connection: final(self)@, action: r@ }),
    {
        match finish_update(&mut server.statuses, user.as_str(), transition, recorded) {
            Ok(()) => self.reply(Message::Ack),
            Err(e) => self.refuse("UPDATE_TRIP_FAILED", e.as_str()),
        }
    }

    fn trip_ended(
        &mut self,
        server: &mut Server,
        trip_id: i64,
        rows: Result<u64, String>,
    ) -> (r: Action)
        ensures
            on_trip_ended(
                old(server)@,
                old(self)@,
                trip_id,
                crate::auth::outcome(rows),
            ) == (Outcome { server: final(server)@, connection: final(self)@, action: r@ }),
    {
        match terminate_trip(&mut server.trips, trip_id, end_trip(rows)) {
            Ok(()) => self.reply(Message::Ack),
            Err(e) => self.refuse("BAD_REQUEST", e.as_str()),
        }
    }

    fn chat(&mut self, user: String, text: String) -> (r: Action)
        ensures
            forall|s: crate::server::ServerView| #[trigger]
                on_chat(s, old(self)@, user@, text@) == (Outcome {
                    server: s,
                    connection: final(self)@,
                    action: r@,
                }),
    {
        match validate_chat(text.as_str()) {
            Err(e) => self.refuse("BAD_REQUEST", e),
            Ok(()) => {
                let mut line = String::new();
                line.append("[chat] ");
                line.append(user.as_str());
                line.append(": ");
                line.append(text.as_str());
                assert(line@ =~= "[chat] "@ + user@ + ": "@ + text@);
                self.stage = Stage::Showing;
                Action::Show { line }
            },
        }
    }

    fn disconnect(&mut self, server: &Server, token: String) -> (r: Action)
        ensures
            on_disconnect(server@, old(self)@, token@) == (Outcome {
                server: server@,
                connection: final(self)@,
                action: r@,
            }),
    {
        match server.validate_token(token.as_str(), &self.user) {
            Some(user) => {
                let name = user.clone();
                self.stage = Stage::ListingTrips { user, token: Some(token) };
                Action::OpenTrips { user: name }
            },
            None => {
                self.stage = Stage::Parting;
                Action::Send { msg: Message::Ack }
            },
        }
    }

    fn left(&mut self, server: &mut Server, user: String, token: Option<String>) -> (r: Action)
        ensures
            on_left(
                old(server)@,
                old(self)@,
                user@,
                crate::message::optional_text(token),
            ) == (Outcome { server: final(server)@, connection: final(self)@, action: r@ }),
    {
        match token {
            Some(t) => {
                server.forget(user.as_str());
                invalidate_token(&mut server.sessions, t.as_str());
                self.user = None;
                self.stage = Stage::Parting;
                Action::Send { msg: Message::Ack }
            },
            None => {
                server.dismiss(user.as_str());
                self.stage = Stage::Finished;
                Action::Finish
            },
        }
    }

    fn leaving(
        &mut self,
        server: &mut Server,
        user: String,
        token: Option<String>,
        ids: Vec<i64>,
        now: i64,
    ) -> (r: Action)
        ensures
            on_leaving(
                old(server)@,
                old(self)@,
                user@,
                crate::message::optional_text(token),
                ids@,
                now,
            ) == (Outcome { server: final(server)@, connection: final(self)@, action: r@ }),
    {
        if ids.len() == 0 {
            return self.left(server, user, token);
        }
        let trip_id: i64 = ids[0];
        let name = user.clone();
        self.stage = Stage::ClosingTrips { user, token, ids, now };
        Action::EndTrip { trip_id, user: name, ts: now }
    }

    fn trip_closed(
        &mut self,
        server: &mut Server,
        user: String,
        token: Option<String>,
        ids: Vec<i64>,
        now: i64,
    ) -> (r: Action)
        ensures
            ({
                let t = crate::message::optional_text(token);
                if ids@.len() == 0 {
                    on_left(old(server)@, old(self)@, user@, t)
                } else {
                    on_leaving(
                        crate::server::ServerView {
                            trips: old(server)@.trips.remove(ids@[0]),
                            ..old(server)@
                        },
                        old(self)@,
                        user@,
                        t,
                        ids@.skip(1),
                        now,
                    )
                }
            }) == (Outcome { server: final(server)@, connection: final(self)@, action: r@ }),
    {
        let mut rest = ids;
        if rest.len() == 0 {
            return self.left(server, user, token);
        }
        let closed: i64 = rest.remove(0);
        assert(rest@ =~= ids@.skip(1));
        drop_trip(&mut server.trips, closed);
        self.leaving(server, user, token, rest, now)
    }

    fn message(&mut self, server: &Server, msg: Message) -> (r: Action)
        ensures
            on_message(server@, old(self)@, msg@) == (Outcome {
                server: server@,
                connection: final(self)@,
                action: r@,
            }),
    {
        match msg {
            Message::Login { username, password } => self.entry(false, username, password),
            Message::Register { username, password } => self.entry(true, username, password),
            Message::StartTrip { token, lat, lon, ts } => match server.validate_token(
                token.as_str(),
                &self.user,
            ) {
                Some(user) => self.start_trip(user, lat, lon, ts),
                None => self.refuse("UNAUTHORIZED", "invalid token"),
            },
            Message::Position { token, trip_id, lat, lon, ts } => match server.validate_token(
                token.as_str(),
                &self.user,
            ) {
                Some(user) => self.position(user, trip_id, lat, lon, ts),
                None => self.refuse("UNAUTHORIZED", "invalid token"),
            },
            Message::EndTrip { token, trip_id, ts } => match server.validate_token(
                token.as_str(),
                &self.user,
            ) {
                Some(user) => {
                    self.stage = Stage::EndingTrip { trip_id };
                    Action::EndTrip { trip_id, user, ts }
                },
                None => self.refuse("UNAUTHORIZED", "invalid token"),
            },
            Message::Stats { token, from_ts, to_ts } => match server.validate_token(
                token.as_str(),
                &self.user,
            ) {
                Some(user) => match check_interval(from_ts, to_ts) {
                    Err(e) => self.refuse("BAD_REQUEST", e),
                    Ok(()) => {
                        self.stage = Stage::ComputingStatistics;
                        Action::Statistics { user, from_ts, to_ts }
                    },
                },
                None => self.refuse("UNAUTHORIZED", "invalid token"),
            },
            Message::ChatToServer { token, text } => match server.validate_token(
                token.as_str(),
                &self.user,
            ) {
                Some(user) => self.chat(user, text),
                None => self.refuse("UNAUTHORIZED", "invalid token"),
            },
            Message::Disconnect { token } => self.disconnect(server, token),
            _ => self.refuse("BAD_REQUEST", "invalid message type from client"),
        }
    }
}

fn code_of(register: bool) -> (r: &'static str)
    ensures
        r@ == entry_code(register),
{
    if register {
        "REGISTER_FAILED"
    } else {
        "AUTH_FAILED"
    }
}

impl Connection {
    fn take_frame(&mut self, event: Event) -> (r: Action)
        requires
            old(self).stage is Reading,
        ensures
            forall|s: crate::server::ServerView| #[trigger]
                on_frame(s, old(self)@, event@) == (Outcome {
                    server: s,
                    connection: final(self)@,
                    action: r@,
                }),
    {
        match event {
            Event::Text(t) => self.line(t),
            Event::Binary(b) => match utf8_text(b) {
                Some(t) => self.line(t),
                None => self.refuse("BAD_REQUEST", "binary payload is not UTF-8"),
            },
            Event::Control => self.read(),
            Event::Closed => self.end(),
            _ => Action::Ignore,
        }
    }

    fn take_message(&mut self, server: &Server, event: Event) -> (r: Action)
        requires
            old(self).stage is Decoding,
        ensures
            on_decoded(server@, old(self)@, event@) == (Outcome {
                server: server@,
                connection: final(self)@,
                action: r@,
            }),
    {
        match event {
            Event::Decoded(Some(m)) => self.message(server, m),
            Event::Decoded(None) => self.refuse("BAD_REQUEST", "invalid message"),
            _ => Action::Ignore,
        }
    }

    fn take_sent(&mut self, event: Event) -> (r: Action)
        requires
            old(self).stage is Replying || old(self).stage is Parting || old(self).stage is Closing,
        ensures
            forall|s: crate::server::ServerView| #[trigger]
                on_sent(s, old(self)@, event@) == (Outcome {
                    server: s,
                    connection: final(self)@,
                    action: r@,
                }),
    {
        match event {
            Event::Sent => match self.stage {
                Stage::Parting => {
                    self.stage = Stage::Closing;
                    Action::SendClose
                },
                Stage::Closing => self.end(),
                _ => self.read(),
            },
            Event::SendFailed => self.end(),
            _ => Action::Ignore,
        }
    }

    fn take_entering(&mut self, server: &mut Server, stage: Stage, event: Event) -> (r: Action)
        ensures
            on_entering(
                old(server)@,
                in_stage(old(self)@, stage@),
                event@,
            ) == (Outcome { server: final(server)@, connection: final(self)@, action: r@ }),
    {
        match (stage, event) {
            (Stage::LookingUp { register, username, password }, Event::KeyExists(exists)) => {
                let ghost c = self@;
                let r = self.lookup(register, username, password, exists);
                assert(on_lookup(
                    server@,
                    c,
                    register,
                    username@,
                    password@,
                    crate::auth::outcome(exists),
                ).action == r@);
                r
            },
            (Stage::CheckingCredentials { username }, Event::CredentialsChecked(right)) => {
                if right {
                    self.stage = Stage::CreatingToken { register: false, username };
                    Action::CreateToken
                } else {
                    self.refuse("AUTH_FAILED", "invalid credentials")
                }
            },
            (Stage::SavingUser { username }, Event::Registered(saved)) => match saved {
                Ok(()) => {
                    self.stage = Stage::CreatingToken { register: true, username };
                    Action::CreateToken
                },
                Err(e) => self.refuse("REGISTER_FAILED", e.as_str()),
            },
            (Stage::CreatingToken { register, username }, Event::Token(token)) => self.token(
                server,
                register,
                username,
                token,
            ),
            (stage, _) => {
                self.stage = stage;
                Action::Ignore
            },
        }
    }

    fn take_travelling(&mut self, server: &mut Server, stage: Stage, event: Event) -> (r: Action)
        ensures
            on_travelling(
                old(server)@,
                in_stage(old(self)@, stage@),
                event@,
            ) == (Outcome { server: final(server)@, connection: final(self)@, action: r@ }),
    {
        match (stage, event) {
            (Stage::RecordingTrip { user, lat, lon, ts }, Event::TripRecorded(recorded)) => {
                self.trip_recorded(server, user, lat, lon, ts, recorded)
            },
            (
                Stage::RecordingStart { user, trip_id, lat, lon, ts },
                Event::PositionRecorded(recorded),
            ) => self.start_recorded(server, user, trip_id, lat, lon, ts, recorded),
            (Stage::CheckingTrip { user, trip_id, lat, lon, ts }, Event::TripIsOpen(open)) => {
                self.trip_checked(server, user, trip_id, lat, lon, ts, open)
            },
            (Stage::ClosingOrphan, Event::TripEnded(_)) => self.refuse(
                "TRIP_TERMINATED",
                "trip closed by the server (state lost): open a new trip",
            ),
            (Stage::Measuring { user, trip_id, lat, lon, ts }, Event::Measured(distance)) => {
                self.measured(server, user, trip_id, lat, lon, ts, distance)
            },
            (Stage::RecordingPosition { user, transition }, Event::PositionRecorded(recorded)) => {
                self.position_recorded(server, user, transition, recorded)
            },
            (Stage::EndingTrip { trip_id }, Event::TripEnded(rows)) => self.trip_ended(
                server,
                trip_id,
                rows,
            ),
            (stage, _) => {
                self.stage = stage;
                Action::Ignore
            },
        }
    }

    fn take_informed(&mut self, stage: Stage, event: Event) -> (r: Action)
        ensures
            forall|s: crate::server::ServerView| #[trigger]
                on_informed(
                    s,
                    in_stage(old(self)@, stage@),
                    event@,
                ) == (Outcome { server: s, connection: final(self)@, action: r@ }),
    {
        match (stage, event) {
            (Stage::ComputingStatistics, Event::Statistics(stats)) => match stats {
                Ok(s) => self.reply(statistics_message(s)),
                Err(e) => self.refuse("BAD_REQUEST", e.as_str()),
            },
            (Stage::Showing, Event::Shown) => self.reply(Message::Ack),
            (stage, _) => {
                self.stage = stage;
                Action::Ignore
            },
        }
    }

    fn take_parting(&mut self, server: &mut Server, stage: Stage, event: Event) -> (r: Action)
        ensures
            on_parting(
                old(server)@,
                in_stage(old(self)@, stage@),
                event@,
            ) == (Outcome { server: final(server)@, connection: final(self)@, action: r@ }),
    {
        match (stage, event) {
            (Stage::ListingTrips { user, token }, Event::OpenTrips { ids, now }) => match ids {
                Some(ids) => self.leaving(server, user, token, ids, now),
                None => self.left(server, user, token),
            },
            (Stage::ClosingTrips { user, token, ids, now }, Event::TripEnded(_)) => {
                self.trip_closed(server, user, token, ids, now)
            },
            (stage, _) => {
                self.stage = stage;
                Action::Ignore
            },
        }
    }
}

/// Takes an event in.
pub fn step(server: &mut Server, connection: &mut Connection, event: Event) -> (r: Action)
    ensures
        on_event(old(server)@, old(connection)@, event@) == (Outcome {
            server: final(server)@,
            connection: final(connection)@,
            action: r@,
        }),
{
    let mut stage = Stage::Reading;
    std::mem::swap(&mut stage, &mut connection.stage);
    match stage {
        Stage::Reading => connection.take_frame(event),
        Stage::Decoding => {
            connection.stage = stage;
            connection.take_message(server, event)
        },
        Stage::Replying | Stage::Parting | Stage::Closing => {
            connection.stage = stage;
            connection.take_sent(event)
        },
        Stage::LookingUp { .. }
        | Stage::CheckingCredentials { .. }
        | Stage::SavingUser { .. }
        | Stage::CreatingToken { .. } => connection.take_entering(server, stage, event),
        Stage::RecordingTrip { .. }
        | Stage::RecordingStart { .. }
        | Stage::CheckingTrip { .. }
        | Stage::ClosingOrphan
        | Stage::Measuring { .. }
        | Stage::RecordingPosition { .. }
        | Stage::EndingTrip { .. } => connection.take_travelling(server, stage, event),
        Stage::ComputingStatistics | Stage::Showing => connection.take_informed(stage, event),
        Stage::ListingTrips { .. } | Stage::ClosingTrips { .. } => connection.take_parting(
            server,
            stage,
            event,
        ),
        Stage::Finished => {
            connection.stage = stage;
            Action::Ignore
        },
    }
}

/// What is asked for is seen with every part under its own name.
pub proof fn law_actions_are_seen_as_they_are(a: Action)
    ensures
        match a {
            Action::Read => a@ is Read,
            Action::Decode { line } => a@ == (ActionView::Decode { line: line@ }),
            Action::Send { msg } => a@ == (ActionView::Send { msg: msg@ }),
            Action::SendClose => a@ is SendClose,
            Action::KeyExists { username } => a@ == (ActionView::KeyExists { username: username@ }),
            Action::CheckCredentials { username, password } => a@ == (
            ActionView::CheckCredentials { username: username@, password: password@ }),
            Action::SaveRegister { username, password } => a@ == (ActionView::SaveRegister {
                username: username@,
                password: password@,
            }),
            Action::CreateToken => a@ is CreateToken,
            Action::RecordTrip { user, ts } => a@ == (ActionView::RecordTrip { user: user@, ts }),
            Action::RecordPosition { trip_id, lat, lon, ts, stopped } => a@ == (
            ActionView::RecordPosition { trip_id, lat, lon, ts, stopped }),
            Action::TripOpen { trip_id, user } => a@ == (ActionView::TripOpen {
                trip_id,
                user: user@,
            }),
            Action::EndTrip { trip_id, user, ts } => a@ == (ActionView::EndTrip {
                trip_id,
                user: user@,
                ts,
            }),
            Action::Measure { from, to } => a@ == (ActionView::Measure { from, to }),
            Action::Statistics { user, from_ts, to_ts } => a@ == (ActionView::Statistics {
                user: user@,
                from_ts,
                to_ts,
            }),
            Action::Show { line } => a@ == (ActionView::Show { line: line@ }),
            Action::OpenTrips { user } => a@ == (ActionView::OpenTrips { user: user@ }),
            Action::Finish => a@ is Finish,
            Action::Ignore => a@ is Ignore,
        },
{
}

/// What happened is seen as it is.
pub proof fn law_events_are_seen_as_they_are(e: Event)
    ensures
        match e {
            Event::Text(t) => e@ == EventView::Text(t@),
            Event::Binary(b) => e@ == EventView::Binary(b@),
            Event::Control => e@ is Control,
            Event::Closed => e@ is Closed,
            Event::Decoded(Some(m)) => e@ == EventView::Decoded(Some(m@)),
            Event::Decoded(None) => e@ == EventView::Decoded(None),
            Event::Sent => e@ is Sent,
            Event::SendFailed => e@ is SendFailed,
            Event::KeyExists(Ok(b)) => e@ == EventView::KeyExists(Ok(b)),
            Event::KeyExists(Err(t)) => e@ == EventView::KeyExists(Err(t@)),
            Event::CredentialsChecked(b) => e@ == EventView::CredentialsChecked(b),
            Event::Registered(Ok(())) => e@ == EventView::Registered(Ok(())),
            Event::Registered(Err(t)) => e@ == EventView::Registered(Err(t@)),
            Event::Token(t) => e@ == EventView::Token(t@),
            Event::TripRecorded(Ok(id)) => e@ == EventView::TripRecorded(Ok(id)),
            Event::TripRecorded(Err(t)) => e@ == EventView::TripRecorded(Err(t@)),
            Event::PositionRecorded(Ok(())) => e@ == EventView::PositionRecorded(Ok(())),
            Event::PositionRecorded(Err(t)) => e@ == EventView::PositionRecorded(Err(t@)),
            Event::TripIsOpen(Ok(b)) => e@ == EventView::TripIsOpen(Ok(b)),
            Event::TripIsOpen(Err(t)) => e@ == EventView::TripIsOpen(Err(t@)),
            Event::TripEnded(Ok(n)) => e@ == EventView::TripEnded(Ok(n)),
            Event::TripEnded(Err(t)) => e@ == EventView::TripEnded(Err(t@)),
            Event::Measured(d) => e@ == EventView::Measured(d),
            Event::Statistics(Ok(_)) => e@ is Statistics && e@->Statistics_0 is Ok,
            Event::Statistics(Err(t)) => e@ == EventView::Statistics(Err(t@)),
            Event::Shown => e@ is Shown,
            Event::OpenTrips { ids: Some(ids), now } => e@ == (EventView::OpenTrips {
                ids: Some(ids@),
                now,
            }),
            Event::OpenTrips { ids: None, now } => e@ == (EventView::OpenTrips { ids: None, now }),
        },
{
}

/// A position is on the globe exactly if its latitude is a number from -90 to 90 and its
/// longitude one from -180 to 180; a sample is fine if it is, and its time above 0. The
/// place is looked at before the time.
pub proof fn law_fine_samples(lat: Double, lon: Double, ts: i64)
    ensures
        ({
            let one = vstd::arithmetic::power2::pow2(1074) as int;
            let fits = {
                &&& !lat.is_nan() && -90 * one <= lat.value() <= 90 * one
                &&& !lon.is_nan() && -180 * one <= lon.value() <= 180 * one
            };
            sample_problem(lat, lon, ts) == if !fits {
                Some("coordinates out of range"@)
            } else if ts <= 0 {
                Some("invalid timestamp"@)
            } else {
                None
            }
        }),
{
    crate::double::law_constants();
}

/// A trip counts as ended exactly if the record could be asked and closed one.
pub proof fn law_ended_trips(rows: u64, e: Seq<char>)
    ensures
        ended(Err(e)) == Err::<(), Seq<char>>(e),
        rows > 0 ==> ended(Ok(rows)) == Ok::<(), Seq<char>>(()),
        ended(Ok(0)) == Err::<(), Seq<char>>("trip missing, not yours or already closed"@),
{
}

} // verus!
