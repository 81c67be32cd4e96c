//! The command lines of client and operator, and the settings.
use georuggine::admin::{admin_line, AdminAction};
use georuggine::client::{
    arguments, is_takeable, show, show_statistics, show_trip, ClientSession, Turn,
};
use georuggine::config::{
    client_addr, database_url, index_page, pool_settings, server_addr, web_base, PoolSettings,
};
use georuggine::double::Double;
use georuggine::message::Message;
use georuggine::text_map::TextMap;

const NOW: i64 = 1_700_000_000;

fn dbl(v: f64) -> Double {
    Double { bits: v.to_bits() }
}

fn number(words: &[String], i: usize) -> Option<Double> {
    words.get(i).and_then(|w| w.parse::<f64>().ok()).map(dbl)
}

fn enter(c: &mut ClientSession, line: &str) -> Turn {
    let words = arguments(line);
    c.turn(line, NOW, number(&words, 0), number(&words, 1))
}

/// What a line prints, and what it sends.
fn said(c: &mut ClientSession, line: &str) -> (Option<String>, Option<Message>) {
    let t = enter(c, line);
    assert!(!t.quit);
    (t.print, t.msg)
}

fn prints(line: &str) -> (Option<String>, Option<Message>) {
    (Some(line.to_string()), None)
}

fn logged_in() -> ClientSession {
    let mut c = ClientSession::new();
    c.receive(&Message::AuthOk { token: "tok".to_string() });
    c
}

fn on_trip() -> ClientSession {
    let mut c = logged_in();
    c.receive(&Message::TripStarted { trip_id: 7, lat: dbl(45.0), lon: dbl(9.0), ts: 1 });
    c
}

#[test]
fn credentials_on_the_command_line() {
    let mut c = ClientSession::new();
    assert_eq!(
        said(&mut c, "/register mario top secret"),
        (
            None,
            Some(Message::Register {
                username: "mario".to_string(),
                password: "top secret".to_string()
            })
        )
    );
    assert_eq!(
        said(&mut c, "  /login   luigi pass123  "),
        (
            None,
            Some(Message::Login { username: "luigi".to_string(), password: "pass123".to_string() })
        )
    );
    assert_eq!(said(&mut c, "/login luigi"), (None, None));
    assert_eq!(said(&mut c, "   "), (None, None));
}

#[test]
fn who_is_not_logged_in_is_told_so() {
    let mut c = ClientSession::new();
    let first = prints("you must /register or /login first");
    for line in ["/start", "/pos 1 2 3", "/stats day", "/stats-range 1 2", "/end", "/chat hi"] {
        assert_eq!(said(&mut c, line), first);
    }
    assert_eq!(said(&mut c, "/chat"), prints("usage: /chat <text>"));
    assert_eq!(said(&mut c, "/dance now"), prints("invalid command: /dance"));
    let t = enter(&mut c, "/quit");
    assert!(t.quit);
    assert_eq!(t.msg, Some(Message::Disconnect { token: String::new() }));
}

#[test]
fn trips_on_the_command_line() {
    let mut c = logged_in();
    assert_eq!(said(&mut c, "/pos 1 2 3"), prints("no open trip: use /start first"));
    assert_eq!(said(&mut c, "/end"), prints("no open trip: use /start first"));
    let started = Some(
        "[autopos] active: will send a POSITION every 30 seconds after TRIP_STARTED".to_string(),
    );
    assert_eq!(
        said(&mut c, "/start"),
        (
            started.clone(),
            Some(Message::StartTrip {
                token: "tok".to_string(),
                lat: dbl(45.0),
                lon: dbl(9.0),
                ts: NOW
            })
        )
    );
    assert!(!c.autopos_due());
    assert_eq!(
        said(&mut c, "/start x 7.5"),
        (
            started,
            Some(Message::StartTrip {
                token: "tok".to_string(),
                lat: dbl(45.0),
                lon: dbl(7.5),
                ts: NOW
            })
        )
    );
    assert_eq!(c.pos, (dbl(45.0), dbl(7.5)));
    c.receive(&Message::TripStarted { trip_id: 7, lat: dbl(45.0), lon: dbl(7.5), ts: NOW });
    assert!(c.autopos_due());
    assert_eq!(
        c.autopos_message(dbl(45.00045), dbl(7.50045), NOW + 30),
        Some(Message::Position {
            token: "tok".to_string(),
            trip_id: 7,
            lat: dbl(45.00045),
            lon: dbl(7.50045),
            ts: NOW + 30
        })
    );
    assert_eq!(
        said(&mut c, "/end"),
        (None, Some(Message::EndTrip { token: "tok".to_string(), trip_id: 7, ts: NOW }))
    );
    assert!(!c.autopos_due());
    assert_eq!(c.autopos_message(dbl(1.0), dbl(1.0), NOW), None);
    assert_eq!(said(&mut c, "/end"), prints("no open trip: use /start first"));
}

#[test]
fn a_command_closes_no_trip_by_itself() {
    let mut c = on_trip();
    c.autopos = true;
    let r = c.parse_cmd("/end", NOW, None, None);
    assert_eq!(
        r.msg,
        Some(Message::EndTrip { token: "tok".to_string(), trip_id: 7, ts: NOW })
    );
    assert_eq!(r.print, None);
    assert_eq!((c.trip, c.autopos), (Some(7), true));
    // The turn of the client does.
    let t = enter(&mut c, " /end ");
    assert!(!t.quit && t.msg.is_some());
    assert_eq!((c.trip, c.autopos), (None, false));
}

#[test]
fn a_command_starts_the_line() {
    let mut c = logged_in();
    let r = c.parse_cmd(" /chat hi", NOW, None, None);
    assert_eq!((r.print, r.msg), (Some("invalid command: ".to_string()), None));
    let r = c.parse_cmd("", NOW, None, None);
    assert_eq!((r.print, r.msg), (Some("invalid command: ".to_string()), None));
    let r = c.parse_cmd("/quit", NOW, None, None);
    assert_eq!(r.msg, Some(Message::Disconnect { token: "tok".to_string() }));
    assert_eq!(c.token, Some("tok".to_string()));
}

#[test]
fn a_clock_far_off_matters_to_statistics_only() {
    let mut c = logged_in();
    let t = c.turn("/chat hi", i64::MAX, None, None);
    assert!(t.msg.is_some());
    let t = c.turn("/start", i64::MAX, None, None);
    assert!(matches!(t.msg, Some(Message::StartTrip { ts: i64::MAX, .. })));
}

#[test]
fn lines_that_can_be_taken() {
    let week = 604_800;
    for line in ["/stats day", "/stats", "/stats nonsense"] {
        assert!(is_takeable(line, NOW));
        assert!(is_takeable(line, i64::MAX - week) && !is_takeable(line, i64::MAX - week + 1));
        assert!(is_takeable(line, i64::MIN + week) && !is_takeable(line, i64::MIN + week - 1));
    }
    for line in ["", "/chat /stats", "/stats-range 1 2", " /stats day", "/end"] {
        assert!(is_takeable(line, i64::MAX) && is_takeable(line, i64::MIN));
    }
}

#[test]
fn positions_on_the_command_line() {
    let mut c = on_trip();
    let sent = |ts: i64| {
        (
            None,
            Some(Message::Position {
                token: "tok".to_string(),
                trip_id: 7,
                lat: dbl(45.1),
                lon: dbl(9.2),
                ts,
            }),
        )
    };
    assert_eq!(said(&mut c, "/pos 45.1 9.2 123"), sent(123));
    assert_eq!(c.pos, (dbl(45.1), dbl(9.2)));
    assert_eq!(said(&mut c, "/pos 45.1 9.2"), sent(NOW));
    assert_eq!(said(&mut c, "/pos 45.1 9.2 soon"), prints("usage: /pos <lat> <lon> <ts>"));
    assert_eq!(said(&mut c, "/pos 45.1"), prints("usage: /pos <lat> <lon> [ts]"));
    assert_eq!(said(&mut c, "/pos"), prints("usage: /pos <lat> <lon> [ts]"));
    assert_eq!(said(&mut c, "/pos x 9.2 1"), prints("usage: /pos <lat> <lon> [ts]"));
}

#[test]
fn statistics_on_the_command_line() {
    let mut c = logged_in();
    assert_eq!(
        said(&mut c, "/stats day"),
        (
            Some(
                "requesting statistics for current day UTC: [1699920000, 1700006399]".to_string()
            ),
            Some(Message::Stats {
                token: "tok".to_string(),
                from_ts: 1_699_920_000,
                to_ts: 1_700_006_399
            })
        )
    );
    assert_eq!(said(&mut c, "/stats"), prints("usage: /stats day|week|month"));
    assert_eq!(said(&mut c, "/stats year"), prints("usage: /stats day|week|month"));
    assert_eq!(
        said(&mut c, "/stats-range  -5 +10 extra"),
        (None, Some(Message::Stats { token: "tok".to_string(), from_ts: -5, to_ts: 10 }))
    );
    assert_eq!(said(&mut c, "/stats-range 5"), prints("usage: /stats-range <from_ts> <to_ts>"));
    assert_eq!(said(&mut c, "/stats-range a 5"), prints("usage: /stats-range <from_ts> <to_ts>"));
}

#[test]
fn chat_and_farewell_on_the_command_line() {
    let mut c = on_trip();
    assert_eq!(
        said(&mut c, "/chat  hello  server "),
        (
            None,
            Some(Message::ChatToServer {
                token: "tok".to_string(),
                text: "hello  server".to_string()
            })
        )
    );
    let t = enter(&mut c, "/quit");
    assert!(t.quit);
    assert_eq!(t.msg, Some(Message::Disconnect { token: "tok".to_string() }));
}

#[test]
fn messages_on_the_screen() {
    let line = |m: Message| show(&m);
    assert_eq!(
        line(Message::AuthOk { token: "t".to_string() }),
        Some("[server] AUTH_OK token=t".to_string())
    );
    assert_eq!(
        line(Message::Error { code: "C".to_string(), message: "m".to_string() }),
        Some("[server] ERROR C: m".to_string())
    );
    assert_eq!(line(Message::Ack), Some("[server] ACK".to_string()));
    assert_eq!(
        line(Message::ChatFromServer { from: Some("SERVER".to_string()), text: "hi".to_string() }),
        Some("[chat from SERVER] hi".to_string())
    );
    assert_eq!(
        line(Message::ChatFromServer { from: None, text: "hi".to_string() }),
        Some("[chat broadcast] hi".to_string())
    );
    assert_eq!(line(Message::Disconnect { token: "t".to_string() }), None);
    assert_eq!(
        show_trip(-4, "45.07", "7.69", 12),
        "[server] TRIP_STARTED id=-4 lat=45.07 lon=7.69 ts=12"
    );
    assert_eq!(
        show_statistics("mario", 4, 0, 180, "222.39", 120, 60, 3_780, "1.85", "6.67"),
        "[stats] user=mario points=4 interval=[0, 180]\n\
         \tdistance: 222.39 m\n\
         \tmovement: 0h 2m 0s (120 s)\n\
         \tpauses:     0h 1m 0s (60 s)\n\
         \ttotal:      1h 3m 0s (3780 s)\n\
         \taverage speed: 1.85 m/s = 6.67 km/h"
    );
}

fn printed(a: AdminAction) -> String {
    match a {
        AdminAction::Print { line } => line,
        _ => panic!("no line to print"),
    }
}

#[test]
fn lines_of_the_operator() {
    let mut sinks: TextMap<u64> = TextMap::new();
    assert!(matches!(admin_line(&sinks, "  \t "), AdminAction::Skip));
    assert_eq!(printed(admin_line(&sinks, " /list ")), "(no users connected)");
    assert_eq!(printed(admin_line(&sinks, "@mario")), "use: @user text");
    assert_eq!(printed(admin_line(&sinks, "@mario   ")), "use: @user text");
    assert_eq!(printed(admin_line(&sinks, "@mario hi")), "user 'mario' not connected");
    sinks.insert("mario", 3);
    sinks.insert("luigi", 4);
    match admin_line(&sinks, "/list") {
        AdminAction::List { mut users } => {
            users.sort();
            assert_eq!(users, vec!["luigi", "mario"]);
        }
        _ => panic!("no list"),
    }
    match admin_line(&sinks, "@mario \t hello  there ") {
        AdminAction::Deliver { id, user, msg } => {
            assert_eq!((id, user.as_str()), (3, "mario"));
            assert_eq!(
                msg,
                Message::ChatFromServer {
                    from: Some("SERVER".to_string()),
                    text: "hello  there".to_string()
                }
            );
        }
        _ => panic!("not delivered"),
    }
    match admin_line(&sinks, " /list all ") {
        AdminAction::Broadcast { from, text, clients } => {
            assert_eq!((from.as_str(), text.as_str(), clients), ("SERVER", "/list all", 2));
        }
        _ => panic!("not sent to everybody"),
    }
}

#[test]
fn settings() {
    assert_eq!(database_url(None), "sqlite://./georuggine.db");
    assert_eq!(database_url(Some("sqlite::memory:".to_string())), "sqlite::memory:");
    assert_eq!(server_addr(None), "127.0.0.1:7878");
    assert_eq!(server_addr(Some("0.0.0.0:80".to_string())), "0.0.0.0:80");
    assert_eq!(client_addr(None), "ws://127.0.0.1:7878/ws");
    assert_eq!(
        pool_settings("sqlite::memory:"),
        PoolSettings { max_connections: 1, write_ahead: false }
    );
    assert_eq!(
        pool_settings("sqlite://./georuggine.db"),
        PoolSettings { max_connections: 8, write_ahead: true }
    );
    assert_eq!(web_base(true, true), "web");
    assert_eq!(web_base(false, true), "../web");
    assert_eq!(web_base(false, false), "web");
    assert_eq!(index_page(Some("x".to_string())), "x");
    assert_eq!(index_page(None), "<h1>georuggine</h1><p>web/index.html not found</p>");
}
