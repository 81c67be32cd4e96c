//! Whole conversations between clients and the server.
use georuggine::auth::{check_credentials, create_token, finish_register, prepare_register, SaveOutcome};
use georuggine::connection::{step, Action, Connection, Event, Stage};
use georuggine::double::Double;
use georuggine::message::Message;
use georuggine::server::{forward_broadcast, Server};
use georuggine::sessions::{get_user_by_token, is_logged_in};
use georuggine::stats::{compute_movement_stats, MovementStats};
use georuggine::status::UserStatus;
use georuggine::trips::{drop_trip, is_tracked};
use std::collections::HashMap;

const NOW: i64 = 1_700_000_500;

fn dbl(v: f64) -> Double {
    Double { bits: v.to_bits() }
}

fn num(d: Double) -> f64 {
    f64::from_bits(d.bits)
}

struct Trip {
    user: String,
    ended: Option<i64>,
}

/// The records behind the server, and everything that its connections say.
struct World {
    server: Server,
    connections: HashMap<u64, Connection>,
    hashes: HashMap<String, String>,
    trips: Vec<Trip>,
    positions: Vec<(i64, i64, bool)>,
    shown: Vec<String>,
    /// What was sent over each connection.
    sent: HashMap<u64, Vec<Message>>,
    /// What the next access to the records fails with.
    fault: Option<String>,
    /// Whether nothing can be sent any more.
    cut_off: bool,
}

/// What came of an event.
#[derive(Debug, PartialEq)]
enum End {
    Waiting,
    Finished,
}

impl World {
    fn new() -> Self {
        World {
            server: Server::new(),
            connections: HashMap::new(),
            hashes: HashMap::new(),
            trips: Vec::new(),
            positions: Vec::new(),
            shown: Vec::new(),
            sent: HashMap::new(),
            fault: None,
            cut_off: false,
        }
    }

    fn connect(&mut self, id: u64) {
        self.connections.insert(id, Connection::new(id));
    }

    fn fail<T>(&mut self) -> Option<Result<T, String>> {
        self.fault.take().map(Err)
    }

    /// Feeds an event to a connection, and does what it says until it waits for the
    /// client again.
    fn feed(&mut self, id: u64, event: Event, mut msg: Option<Message>) -> (Vec<Message>, bool, End) {
        let mut c = self.connections.remove(&id).expect("no such connection");
        let mut replies = Vec::new();
        let mut closed = false;
        let mut event = event;
        let end = loop {
            event = match step(&mut self.server, &mut c, event) {
                Action::Read => break End::Waiting,
                Action::Finish => break End::Finished,
                Action::Ignore => panic!("an event out of turn"),
                Action::Decode { .. } => Event::Decoded(msg.take()),
                Action::Send { msg } => {
                    if self.cut_off {
                        Event::SendFailed
                    } else {
                        self.sent.entry(id).or_default().push(msg.clone());
                        replies.push(msg);
                        Event::Sent
                    }
                }
                Action::SendClose => {
                    closed = true;
                    Event::Sent
                }
                Action::KeyExists { username } => {
                    let known = self.hashes.contains_key(&username);
                    Event::KeyExists(self.fail().unwrap_or(Ok(known)))
                }
                Action::CheckCredentials { username, password } => {
                    let stored = self.hashes.get(&username).map(|h| h.as_str());
                    let msg = Message::Login { username: username.clone(), password };
                    Event::CredentialsChecked(check_credentials(&msg, stored).is_ok())
                }
                Action::SaveRegister { username, password } => {
                    let msg = Message::Register { username: username.clone(), password };
                    let saved = match prepare_register(&msg) {
                        Err(e) => Err(e),
                        Ok((name, hash)) => finish_register(match self.fail::<()>() {
                            Some(Err(e)) => SaveOutcome::Failed(e),
                            _ => {
                                if self.hashes.contains_key(&name) {
                                    SaveOutcome::Duplicate
                                } else {
                                    self.hashes.insert(name, hash);
                                    SaveOutcome::Saved
                                }
                            }
                        }),
                    };
                    Event::Registered(saved)
                }
                Action::CreateToken => Event::Token(create_token(&self.server.sessions).unwrap()),
                Action::RecordTrip { user, .. } => {
                    let r = match self.fail() {
                        Some(r) => r,
                        None => {
                            self.trips.push(Trip { user, ended: None });
                            Ok(self.trips.len() as i64)
                        }
                    };
                    Event::TripRecorded(r)
                }
                Action::RecordPosition { trip_id, ts, stopped, .. } => {
                    let r = match self.fail() {
                        Some(r) => r,
                        None => {
                            self.positions.push((trip_id, ts, stopped));
                            Ok(())
                        }
                    };
                    Event::PositionRecorded(r)
                }
                Action::TripOpen { trip_id, user } => {
                    let open = self.open(trip_id, &user);
                    Event::TripIsOpen(self.fail().unwrap_or(Ok(open)))
                }
                Action::EndTrip { trip_id, user, ts } => {
                    let r = match self.fail() {
                        Some(r) => r,
                        None => {
                            if self.open(trip_id, &user) {
                                self.trips[trip_id as usize - 1].ended = Some(ts);
                                Ok(1)
                            } else {
                                Ok(0)
                            }
                        }
                    };
                    Event::TripEnded(r)
                }
                Action::Measure { from, to } => {
                    let d = ((num(from.0) - num(to.0)).powi(2) + (num(from.1) - num(to.1)).powi(2))
                        .sqrt()
                        * 111_195.0;
                    Event::Measured(dbl(d))
                }
                Action::Statistics { user, from_ts, to_ts } => {
                    let stats = empty_statistics(&user, from_ts, to_ts);
                    Event::Statistics(self.fail().unwrap_or(Ok(stats)))
                }
                Action::Show { line } => {
                    self.shown.push(line);
                    Event::Shown
                }
                Action::OpenTrips { user } => {
                    let ids = (1..=self.trips.len() as i64)
                        .filter(|id| self.open(*id, &user))
                        .collect();
                    let ids = if self.fail::<()>().is_some() { None } else { Some(ids) };
                    Event::OpenTrips { ids, now: NOW }
                }
            };
        };
        self.connections.insert(id, c);
        (replies, closed, end)
    }

    fn open(&self, trip_id: i64, user: &str) -> bool {
        trip_id >= 1
            && (trip_id as usize) <= self.trips.len()
            && self.trips[trip_id as usize - 1].user == user
            && self.trips[trip_id as usize - 1].ended.is_none()
    }

    /// Sends a message and hands back the one reply to it.
    fn send(&mut self, id: u64, msg: Message) -> Message {
        let (mut replies, closed, end) = self.feed(id, Event::Text("{}".to_string()), Some(msg));
        assert_eq!(replies.len(), 1);
        assert!(!closed);
        assert_eq!(end, End::Waiting);
        replies.remove(0)
    }

    fn register(&mut self, id: u64, user: &str, pass: &str) -> Message {
        self.send(id, Message::Register { username: user.into(), password: pass.into() })
    }

    fn register_ok(&mut self, id: u64, user: &str, pass: &str) -> String {
        self.connect(id);
        match self.register(id, user, pass) {
            Message::AuthOk { token } => token,
            other => panic!("expected AuthOk for {user}, got {other:?}"),
        }
    }

    fn login(&mut self, id: u64, user: &str, pass: &str) -> Message {
        self.send(id, Message::Login { username: user.into(), password: pass.into() })
    }

    fn start_trip(&mut self, id: u64, token: &str) -> i64 {
        let msg = Message::StartTrip {
            token: token.into(),
            lat: dbl(45.07),
            lon: dbl(7.69),
            ts: 1_700_000_000,
        };
        match self.send(id, msg) {
            Message::TripStarted { trip_id, .. } => trip_id,
            other => panic!("expected TripStarted, got {other:?}"),
        }
    }

    fn position(&mut self, id: u64, token: &str, trip_id: i64, lat: f64, ts: i64) -> Message {
        self.send(
            id,
            Message::Position { token: token.into(), trip_id, lat: dbl(lat), lon: dbl(7.69), ts },
        )
    }

    /// The client goes away without a word.
    fn hang_up(&mut self, id: u64) {
        let (replies, closed, end) = self.feed(id, Event::Closed, None);
        assert!(replies.is_empty() && !closed);
        assert_eq!(end, End::Finished);
    }
}

fn empty_statistics(user: &str, from_ts: i64, to_ts: i64) -> MovementStats {
    let zero = dbl(0.0);
    compute_movement_stats(user, from_ts, to_ts, &Vec::new(), &Vec::new(), zero, zero, zero)
}

fn error(code: &str, message: &str) -> Message {
    Message::Error { code: code.to_string(), message: message.to_string() }
}

#[test]
fn register_replies_with_auth_ok() {
    let mut w = World::new();
    w.connect(1);
    match w.register(1, "mario", "secret") {
        Message::AuthOk { token } => assert!(!token.is_empty()),
        other => panic!("unexpected response: {other:?}"),
    }
}

#[test]
fn login_after_register_replies_with_auth_ok() {
    let mut w = World::new();
    w.register_ok(1, "luigi", "pass123");
    w.hang_up(1);
    w.connect(2);
    match w.login(2, "luigi", "pass123") {
        Message::AuthOk { token } => assert!(!token.is_empty()),
        other => panic!("unexpected response: {other:?}"),
    }
}

#[test]
fn login_wrong_password_replies_with_error() {
    let mut w = World::new();
    w.register_ok(1, "peach", "correct1");
    w.connect(2);
    assert_eq!(w.login(2, "peach", "wrongpass"), error("AUTH_FAILED", "invalid credentials"));
}

#[test]
fn login_nonexistent_user_replies_with_error() {
    let mut w = World::new();
    w.connect(1);
    assert_eq!(w.login(1, "ghost", "whatever"), error("AUTH_FAILED", "invalid credentials"));
}

#[test]
fn duplicate_register_replies_with_error() {
    let mut w = World::new();
    w.register_ok(1, "bowser", "secret");
    w.connect(2);
    assert_eq!(w.register(2, "bowser", "secret"), error("REGISTER_FAILED", "user already exists"));
}

#[test]
fn start_and_end_trip_lifecycle() {
    let mut w = World::new();
    let token = w.register_ok(1, "yoshi", "secret");
    let trip_id = w.start_trip(1, &token);
    assert!(trip_id > 0);
    assert!(w.open(trip_id, "yoshi") && !w.open(trip_id, "mario"));
    assert_eq!(w.send(1, Message::EndTrip { token, trip_id, ts: 0 }), Message::Ack);
    assert!(!w.open(trip_id, "yoshi"));
    assert!(!is_tracked(&w.server.trips, trip_id));
}

#[test]
fn start_trip_requires_valid_token() {
    let mut w = World::new();
    w.connect(1);
    let msg = Message::StartTrip { token: "fake".into(), lat: dbl(0.0), lon: dbl(0.0), ts: 0 };
    match w.send(1, msg) {
        Message::Error { code, .. } => assert_eq!(code, "UNAUTHORIZED"),
        other => panic!("unexpected response: {other:?}"),
    }
}

#[test]
fn register_n_parallel_users_all_ok() {
    let mut w = World::new();
    let n = 10;
    let mut tokens = Vec::new();
    for i in 0..n {
        tokens.push(w.register_ok(i, &format!("user{i}"), "secret"));
    }
    assert_eq!(tokens.len(), n as usize);
    let mut sorted = tokens.clone();
    sorted.sort();
    sorted.dedup();
    assert_eq!(sorted.len(), n as usize, "duplicate tokens: {tokens:?}");
}

#[test]
fn concurrent_registers_same_username_only_one_ok() {
    // All look the name up before any of them records it.
    let mut w = World::new();
    let n = 5;
    let mut waiting = Vec::new();
    for id in 0..n {
        let mut c = Connection::new(id);
        step(&mut w.server, &mut c, Event::Text("{}".to_string()));
        step(
            &mut w.server,
            &mut c,
            Event::Decoded(Some(Message::Register {
                username: "duplicate".into(),
                password: "secret".into(),
            })),
        );
        step(&mut w.server, &mut c, Event::KeyExists(Ok(false)));
        assert!(matches!(c.stage, Stage::SavingUser { .. }));
        waiting.push(c);
    }
    let mut ok_count = 0;
    let mut err_count = 0;
    for mut c in waiting {
        let outcome =
            if w.hashes.contains_key("duplicate") { SaveOutcome::Duplicate } else { SaveOutcome::Saved };
        w.hashes.insert("duplicate".to_string(), "hash".to_string());
        let action = step(&mut w.server, &mut c, Event::Registered(finish_register(outcome)));
        let action = match action {
            Action::CreateToken => {
                let token = create_token(&w.server.sessions).unwrap();
                step(&mut w.server, &mut c, Event::Token(token))
            }
            other => other,
        };
        match action {
            Action::Send { msg: Message::AuthOk { .. } } => ok_count += 1,
            Action::Send { msg: Message::Error { .. } } => err_count += 1,
            _ => panic!("unexpected response"),
        }
    }
    assert_eq!(ok_count, 1, "expected exactly 1 AuthOk, got {ok_count}");
    assert_eq!(err_count, n - 1);
}

#[test]
fn chat_from_client_goes_only_to_server_and_is_not_forwarded() {
    let mut w = World::new();
    let alice_tok = w.register_ok(1, "alice", "secret");
    let bob_tok = w.register_ok(2, "bob", "secret");
    let carol_tok = w.register_ok(3, "carol", "secret");
    let msg = Message::ChatToServer { token: alice_tok, text: "hello server".into() };
    assert_eq!(w.send(1, msg), Message::Ack);
    assert_eq!(w.shown, vec!["[chat] alice: hello server"]);
    // Neither bob nor carol must receive anything.
    assert_eq!(w.sent[&2], vec![Message::AuthOk { token: bob_tok }]);
    assert_eq!(w.sent[&3], vec![Message::AuthOk { token: carol_tok }]);
}

#[test]
fn parallel_trips_all_receive_distinct_ids() {
    let mut w = World::new();
    let n = 5;
    let mut ids = Vec::new();
    for i in 0..n {
        let token = w.register_ok(i, &format!("t{i}"), "secret");
        ids.push(w.start_trip(i, &token));
    }
    let mut sorted = ids.clone();
    sorted.sort();
    sorted.dedup();
    assert_eq!(sorted.len(), n as usize, "duplicate trip_ids: {ids:?}");
}

#[test]
fn concurrent_end_trip_of_another_user_fails() {
    let mut w = World::new();
    let alice_tok = w.register_ok(1, "alice", "secret");
    let bob_tok = w.register_ok(2, "bob", "secret");
    let alice_trip = w.start_trip(1, &alice_tok);
    let msg = Message::EndTrip { token: bob_tok, trip_id: alice_trip, ts: 0 };
    assert_eq!(
        w.send(2, msg),
        error("BAD_REQUEST", "Failed to end trip: trip missing, not yours or already closed")
    );
    assert!(is_tracked(&w.server.trips, alice_trip));
}

#[test]
fn second_login_same_user_rejected() {
    let mut w = World::new();
    w.register_ok(1, "mario", "secret");
    w.connect(2);
    match w.login(2, "mario", "secret") {
        Message::Error { code, message } => {
            assert_eq!(code, "AUTH_FAILED");
            assert!(message.contains("already logged in"));
        }
        other => panic!("expected Error, got {other:?}"),
    }
}

#[test]
fn relogin_same_user_same_conn_rejected() {
    let mut w = World::new();
    w.register_ok(1, "mario", "secret");
    match w.login(1, "mario", "secret") {
        Message::Error { code, message } => {
            assert_eq!(code, "ALREADY_AUTHENTICATED");
            assert_eq!(message, "already authenticated as mario");
        }
        other => panic!("expected Error ALREADY_AUTHENTICATED, got {other:?}"),
    }
}

#[test]
fn after_disconnect_another_login_is_possible() {
    let mut w = World::new();
    let token = w.register_ok(1, "mario", "secret");
    let (replies, closed, end) =
        w.feed(1, Event::Text("{}".to_string()), Some(Message::Disconnect { token }));
    assert_eq!(replies, vec![Message::Ack]);
    assert!(closed);
    assert_eq!(end, End::Finished);
    w.connect(2);
    assert!(matches!(w.login(2, "mario", "secret"), Message::AuthOk { .. }));
}

#[test]
fn disconnect_closes_the_connection() {
    let mut w = World::new();
    let token = w.register_ok(1, "disc", "secret");
    let (replies, closed, end) =
        w.feed(1, Event::Text("{}".to_string()), Some(Message::Disconnect { token }));
    assert_eq!(replies, vec![Message::Ack]);
    assert!(closed);
    assert_eq!(end, End::Finished);
    assert!(matches!(w.connections[&1].stage, Stage::Finished));
}

#[test]
fn a_farewell_closes_all_trips() {
    let mut w = World::new();
    let token = w.register_ok(1, "mario", "secret");
    let a = w.start_trip(1, &token);
    let b = w.start_trip(1, &token);
    assert_eq!(w.server.statuses.get("mario"), Some(UserStatus::Stationary));
    assert_eq!(w.server.sinks.get("mario"), Some(&1));
    w.feed(1, Event::Text("{}".to_string()), Some(Message::Disconnect { token: token.clone() }));
    assert_eq!(w.trips[0].ended, Some(NOW));
    assert_eq!(w.trips[1].ended, Some(NOW));
    assert!(!is_tracked(&w.server.trips, a) && !is_tracked(&w.server.trips, b));
    assert_eq!(w.server.statuses.get("mario"), None);
    assert!(!w.server.sinks.contains_key("mario"));
    assert_eq!(get_user_by_token(&w.server.sessions, &token), None);
}

#[test]
fn a_farewell_with_another_token_still_ends_the_connection() {
    let mut w = World::new();
    w.register_ok(1, "mario", "secret");
    let (replies, closed, end) = w.feed(
        1,
        Event::Text("{}".to_string()),
        Some(Message::Disconnect { token: "fake".to_string() }),
    );
    assert_eq!(replies, vec![Message::Ack]);
    assert!(closed);
    assert_eq!(end, End::Finished);
    assert!(!is_logged_in(&w.server.sessions, "mario"));
}

#[test]
fn hanging_up_closes_all_trips_as_far_as_possible() {
    let mut w = World::new();
    let token = w.register_ok(1, "mario", "secret");
    let a = w.start_trip(1, &token);
    w.start_trip(1, &token);
    // The first access afterwards fails, so no open trip is found.
    w.fault = Some("locked".to_string());
    w.hang_up(1);
    assert!(is_tracked(&w.server.trips, a));
    assert!(!is_logged_in(&w.server.sessions, "mario"));
    assert_eq!(w.server.statuses.get("mario"), None);
}

#[test]
fn a_client_to_whom_nothing_can_be_sent_has_left() {
    let mut w = World::new();
    let token = w.register_ok(1, "mario", "secret");
    let trip = w.start_trip(1, &token);
    w.cut_off = true;
    let (replies, closed, end) = w.feed(1, Event::Text("{}".to_string()), Some(Message::Ack));
    assert!(replies.is_empty() && !closed);
    assert_eq!(end, End::Finished);
    assert!(matches!(w.connections[&1].stage, Stage::Finished));
    assert_eq!(w.trips[0].ended, Some(NOW));
    assert!(!is_tracked(&w.server.trips, trip));
    assert!(!is_logged_in(&w.server.sessions, "mario"));
    assert_eq!(get_user_by_token(&w.server.sessions, &token), None);
    assert_eq!(w.server.statuses.get("mario"), None);
    assert!(!w.server.sinks.contains_key("mario"));
    // And can come back.
    w.cut_off = false;
    w.connect(2);
    assert!(matches!(w.login(2, "mario", "secret"), Message::AuthOk { .. }));
}

#[test]
fn a_farewell_that_cannot_be_acknowledged() {
    let mut w = World::new();
    let token = w.register_ok(1, "mario", "secret");
    w.cut_off = true;
    let (replies, closed, end) =
        w.feed(1, Event::Text("{}".to_string()), Some(Message::Disconnect { token }));
    assert!(replies.is_empty() && !closed);
    assert_eq!(end, End::Finished);
    assert!(!is_logged_in(&w.server.sessions, "mario"));
    assert_eq!(w.server.sinks.len(), 0);
}

#[test]
fn the_user_whose_entry_cannot_be_acknowledged_is_forgotten() {
    let mut w = World::new();
    w.connect(1);
    w.cut_off = true;
    let msg = Message::Register { username: "mario".into(), password: "secret".into() };
    let (_, _, end) = w.feed(1, Event::Text("{}".to_string()), Some(msg));
    assert_eq!(end, End::Finished);
    assert!(!is_logged_in(&w.server.sessions, "mario"));
    assert_eq!(w.server.statuses.get("mario"), None);
}

#[test]
fn frames() {
    let mut w = World::new();
    w.connect(1);
    for e in [Event::Control, Event::Text(String::new()), Event::Binary(Vec::new())] {
        let (replies, _, end) = w.feed(1, e, None);
        assert!(replies.is_empty());
        assert_eq!(end, End::Waiting);
    }
    let (replies, _, _) = w.feed(1, Event::Binary(vec![0xff, 0xfe]), None);
    assert_eq!(replies, vec![error("BAD_REQUEST", "binary payload is not UTF-8")]);
    let (replies, _, _) = w.feed(1, Event::Text("nonsense".to_string()), None);
    assert_eq!(replies, vec![error("BAD_REQUEST", "invalid message")]);
    let (replies, _, _) = w.feed(1, Event::Binary(b"{}".to_vec()), Some(Message::Ack));
    assert_eq!(replies, vec![error("BAD_REQUEST", "invalid message type from client")]);
    // The bytes of a line reach the decoder as the text that they spell.
    let mut c = Connection::new(2);
    match step(&mut w.server, &mut c, Event::Binary("perché".as_bytes().to_vec())) {
        Action::Decode { line } => assert_eq!(line, "perché"),
        _ => panic!("not decoded"),
    }
    // What is not waited for changes nothing.
    assert!(matches!(step(&mut w.server, &mut c, Event::Sent), Action::Ignore));
    assert!(matches!(c.stage, Stage::Decoding));
    w.hang_up(1);
}

#[test]
fn messages_of_the_server_are_refused() {
    let mut w = World::new();
    w.connect(1);
    let refused = error("BAD_REQUEST", "invalid message type from client");
    for msg in [
        Message::Ack,
        Message::AuthOk { token: "t".to_string() },
        Message::TripStarted { trip_id: 1, lat: dbl(0.0), lon: dbl(0.0), ts: 1 },
        Message::ChatFromServer { from: None, text: "hi".to_string() },
        error("A", "b"),
    ] {
        assert_eq!(w.send(1, msg), refused);
    }
}

#[test]
fn tokens_of_others_are_refused() {
    let mut w = World::new();
    let alice_tok = w.register_ok(1, "alice", "secret");
    w.register_ok(2, "bob", "secret");
    let t = || alice_tok.clone();
    let refused = error("UNAUTHORIZED", "invalid token");
    for msg in [
        Message::StartTrip { token: t(), lat: dbl(0.0), lon: dbl(0.0), ts: 1 },
        Message::Position { token: t(), trip_id: 1, lat: dbl(0.0), lon: dbl(0.0), ts: 1 },
        Message::EndTrip { token: t(), trip_id: 1, ts: 1 },
        Message::Stats { token: t(), from_ts: 0, to_ts: 1 },
        Message::ChatToServer { token: t(), text: "hi".to_string() },
    ] {
        assert_eq!(w.send(2, msg), refused);
    }
    assert!(w.shown.is_empty());
}

#[test]
fn another_account_on_the_same_connection() {
    let mut w = World::new();
    let token = w.register_ok(1, "mario", "secret");
    // A failed attempt leaves mario logged in.
    assert_eq!(w.login(1, "luigi", "secret"), error("AUTH_FAILED", "invalid credentials"));
    assert_eq!(get_user_by_token(&w.server.sessions, &token), Some("mario".to_string()));
    match w.register(1, "luigi", "secret") {
        Message::AuthOk { .. } => {}
        other => panic!("expected AuthOk, got {other:?}"),
    }
    assert_eq!(get_user_by_token(&w.server.sessions, &token), None);
    assert_eq!(w.server.statuses.get("mario"), None);
    assert_eq!(w.server.statuses.get("luigi"), Some(UserStatus::Stationary));
    assert_eq!(w.connections[&1].user, Some("luigi".to_string()));
    assert!(!w.server.sinks.contains_key("mario"));
}

#[test]
fn whoever_is_replaced_keeps_open_trips() {
    let mut w = World::new();
    let token = w.register_ok(1, "mario", "secret");
    let trip_id = w.start_trip(1, &token);
    assert!(matches!(w.register(1, "luigi", "secret"), Message::AuthOk { .. }));
    w.hang_up(1);
    assert!(w.open(trip_id, "mario"));
    w.connect(2);
    assert!(matches!(w.login(2, "mario", "secret"), Message::AuthOk { .. }));
}

#[test]
fn a_trip_is_followed() {
    let mut w = World::new();
    let token = w.register_ok(1, "mario", "secret");
    let trip = w.start_trip(1, &token);
    assert_eq!(w.position(1, &token, trip, 45.08, 1_700_000_030), Message::Ack);
    assert_eq!(w.server.statuses.get("mario"), Some(UserStatus::Moving));
    for i in 0..8 {
        assert_eq!(w.position(1, &token, trip, 45.08, 1_700_000_060 + 30 * i), Message::Ack);
    }
    assert_eq!(w.server.statuses.get("mario"), Some(UserStatus::Stationary));
    // The start, the change of place, five samples of it, and the stop.
    let stops: Vec<bool> = w.positions.iter().map(|p| p.2).collect();
    assert_eq!(stops, vec![false, false, false, false, false, false, false, true]);
}

#[test]
fn samples_that_are_refused() {
    let mut w = World::new();
    let token = w.register_ok(1, "mario", "secret");
    let trip = w.start_trip(1, &token);
    assert_eq!(
        w.position(1, &token, trip, 91.0, 5),
        error("BAD_REQUEST", "coordinates out of range")
    );
    assert_eq!(w.position(1, &token, trip, 45.0, 0), error("BAD_REQUEST", "invalid timestamp"));
    assert_eq!(
        w.position(1, &token, trip + 1, 45.0, 5),
        error("BAD_REQUEST", "trip missing, not yours or already closed")
    );
    w.fault = Some("locked".to_string());
    assert_eq!(w.position(1, &token, trip, 45.0, 5), error("BAD_REQUEST", "locked"));
    let msg = |ts: i64, lat: f64| Message::StartTrip {
        token: token.clone(),
        lat: dbl(lat),
        lon: dbl(0.0),
        ts,
    };
    assert_eq!(w.send(1, msg(0, 0.0)), error("BAD_REQUEST", "invalid timestamp"));
    assert_eq!(w.send(1, msg(5, -90.5)), error("BAD_REQUEST", "coordinates out of range"));
    w.fault = Some("disk full".to_string());
    assert_eq!(
        w.send(1, msg(5, 0.0)),
        error("START_TRIP_FAILED", "Failed to start trip: disk full")
    );
}

#[test]
fn positions_that_cannot_be_recorded() {
    let mut w = World::new();
    let token = w.register_ok(1, "mario", "secret");
    let trip = w.start_trip(1, &token);
    let mut c = w.connections.remove(&1).unwrap();
    let s = &mut w.server;
    step(s, &mut c, Event::Text("{}".to_string()));
    step(
        s,
        &mut c,
        Event::Decoded(Some(Message::Position {
            token: token.clone(),
            trip_id: trip,
            lat: dbl(45.0),
            lon: dbl(9.0),
            ts: 9,
        })),
    );
    match step(s, &mut c, Event::TripIsOpen(Ok(true))) {
        Action::Measure { from, to } => {
            assert_eq!(from, (dbl(45.07), dbl(7.69)));
            assert_eq!(to, (dbl(45.0), dbl(9.0)));
        }
        _ => panic!("not measured"),
    }
    // The trip is dropped meanwhile.
    drop_trip(&mut s.trips, trip);
    match step(s, &mut c, Event::Measured(dbl(10.0))) {
        Action::Send { msg } => {
            assert_eq!(msg, error("UPDATE_TRIP_FAILED", "Trip ID 1 not found in store"))
        }
        _ => panic!("not refused"),
    }
    step(s, &mut c, Event::Sent);
    w.connections.insert(1, c);
    let trip = w.start_trip(1, &token);
    let mut c = w.connections.remove(&1).unwrap();
    let s = &mut w.server;
    step(s, &mut c, Event::Text("{}".to_string()));
    let msg = Message::Position { token, trip_id: trip, lat: dbl(45.0), lon: dbl(9.0), ts: 9 };
    step(s, &mut c, Event::Decoded(Some(msg)));
    step(s, &mut c, Event::TripIsOpen(Ok(true)));
    match step(s, &mut c, Event::Measured(dbl(10.0))) {
        Action::RecordPosition { trip_id, stopped, ts, .. } => {
            assert_eq!((trip_id, stopped, ts), (trip, false, 9))
        }
        _ => panic!("not recorded"),
    }
    match step(s, &mut c, Event::PositionRecorded(Err("locked".to_string()))) {
        Action::Send { msg } => {
            assert_eq!(msg, error("UPDATE_TRIP_FAILED", "Failed to insert position: locked"))
        }
        _ => panic!("not refused"),
    }
    assert_eq!(s.statuses.get("mario"), Some(UserStatus::Stationary));
}

#[test]
fn a_trip_of_which_nothing_is_known_is_closed() {
    let mut w = World::new();
    let token = w.register_ok(1, "mario", "secret");
    w.trips.push(Trip { user: "mario".to_string(), ended: None });
    assert_eq!(
        w.position(1, &token, 1, 45.0, 77),
        error("TRIP_TERMINATED", "trip closed by the server (state lost): open a new trip")
    );
    assert_eq!(w.trips[0].ended, Some(77));
}

#[test]
fn statistics_of_a_user() {
    let mut w = World::new();
    let token = w.register_ok(1, "mario", "secret");
    let msg = |from_ts: i64, to_ts: i64| Message::Stats { token: token.clone(), from_ts, to_ts };
    match w.send(1, msg(3, 9)) {
        Message::StatsResult { username, from_ts, to_ts, points, .. } => {
            assert_eq!((username.as_str(), from_ts, to_ts, points), ("mario", 3, 9, 0))
        }
        other => panic!("expected StatsResult, got {other:?}"),
    }
    assert_eq!(w.send(1, msg(9, 3)), error("BAD_REQUEST", "invalid time interval"));
    w.fault = Some("locked".to_string());
    assert_eq!(w.send(1, msg(3, 9)), error("BAD_REQUEST", "locked"));
}

#[test]
fn entries_that_are_refused() {
    let mut w = World::new();
    w.connect(1);
    assert_eq!(
        w.register(1, "mario rossi", "secret"),
        error("REGISTER_FAILED", "username: only alphanumeric characters, '_' or '-'")
    );
    assert_eq!(w.login(1, "mario", "abc"), error("AUTH_FAILED", "password too short (min 4)"));
    w.fault = Some("locked".to_string());
    assert_eq!(w.login(1, "mario", "secret"), error("AUTH_FAILED", "locked"));
    let token = w.register_ok(2, "luigi", "secret");
    let msg = Message::ChatToServer { token, text: String::new() };
    assert_eq!(w.send(2, msg), error("BAD_REQUEST", "empty message"));
}

#[test]
fn a_text_to_everybody() {
    let me = Some("mario".to_string());
    assert_eq!(
        forward_broadcast(&me, "SERVER", "hi"),
        Some(Message::ChatFromServer { from: Some("SERVER".to_string()), text: "hi".to_string() })
    );
    assert_eq!(forward_broadcast(&me, "mario", "hi"), None);
    assert_eq!(forward_broadcast(&None, "SERVER", "hi"), None);
}

#[test]
fn nobody_is_ever_logged_in_twice() {
    let mut w = World::new();
    for i in 0..4 {
        w.hashes.insert(
            format!("u{i}"),
            "$2b$04$EGdrhbKUv8Oc9vGiXX0HQOxSg445d458Muh7DAHskb6QbtCvdxcie".to_string(),
        );
    }
    let mut tokens: HashMap<u64, String> = HashMap::new();
    let mut x: u64 = 12_345;
    let mut next_id = 0;
    for _ in 0..300 {
        x = x.wrapping_mul(6_364_136_223_846_793_005).wrapping_add(1_442_695_040_888_963_407);
        let mut ids: Vec<u64> = w.connections.keys().copied().collect();
        ids.sort();
        let choice = (x >> 33) % 9;
        if ids.len() < 3 || choice == 0 && ids.len() < 6 {
            w.connect(next_id);
            next_id += 1;
            continue;
        }
        let id = ids[(x >> 40) as usize % ids.len()];
        if choice < 5 {
            let user = format!("u{}", (x >> 50) % 4);
            if let Message::AuthOk { token } = w.login(id, &user, "correctbatteryhorsestapler") {
                tokens.insert(id, token);
            }
        } else if choice == 5 {
            w.hang_up(id);
            w.connections.remove(&id);
        } else {
            let token = tokens.get(&id).cloned().unwrap_or_default();
            if choice == 8 {
                w.cut_off = true;
                w.feed(id, Event::Text("{}".to_string()), Some(Message::Ack));
                w.cut_off = false;
                w.connections.remove(&id);
            } else if choice == 6 {
                w.feed(id, Event::Text("{}".to_string()), Some(Message::Disconnect { token }));
                w.connections.remove(&id);
            } else {
                let msg = Message::StartTrip { token, lat: dbl(1.0), lon: dbl(2.0), ts: 3 };
                w.send(id, msg);
            }
        }
        let mut users = Vec::new();
        for (id, c) in &w.connections {
            if let Some(u) = &c.user {
                assert!(is_logged_in(&w.server.sessions, u));
                assert_eq!(w.server.sinks.get(u), Some(id));
                assert!(w.server.statuses.get(u).is_some());
                users.push(u.clone());
            }
        }
        // And of nobody else is anything left.
        assert_eq!(w.server.sinks.len(), users.len());
        for i in 0..4 {
            let user = format!("u{i}");
            let held = users.contains(&user);
            assert_eq!(is_logged_in(&w.server.sessions, &user), held);
            assert_eq!(w.server.statuses.get(&user).is_some(), held);
        }
        users.sort();
        let all = users.len();
        users.dedup();
        assert_eq!(users.len(), all);
    }
    assert!(next_id > 10);
}
