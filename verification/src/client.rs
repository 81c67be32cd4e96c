//! The command line of the client.
//!
//! - `/register <user> <pass>` and `/login <user> <pass>`;
//! - `/start [lat lon]` opens a trip;
//! - `/pos <lat> <lon> [ts]` sends a position of the trip;
//! - `/stats day|week|month` and `/stats-range <from_ts> <to_ts>` ask for
//!   statistics;
//! - `/end` closes the trip;
//! - `/chat <text>` sends a text to the server;
//! - `/quit` leaves.
use vstd::prelude::*;

use crate::calendar::{fmt_duration, stats_interval};
use crate::double::{Double, FORTY_FIVE, NINE};
use crate::message::Message;
use crate::number::{append_signed, parse_i64};
use crate::text::{cut_blank, same_text, split_words, trim};

verus! {

/// The seconds between two positions that are sent without being asked for.
pub const AUTOPOS_SECS: u64 = 30;

/// What a client knows.
pub struct ClientSession {
    /// The token, once logged in.
    pub token: Option<String>,
    /// The open trip.
    pub trip: Option<i64>,
    /// Whether positions are sent without being asked for.
    pub autopos: bool,
    /// The last position.
    pub pos: (Double, Double),
}

/// What a [`ClientSession`] says.
#[verifier::ext_equal]
pub struct ClientView {
    pub token: Option<Seq<char>>,
    pub trip: Option<i64>,
    pub autopos: bool,
    pub pos: (Double, Double),
}

impl View for ClientSession {
    type V = ClientView;

    open spec fn view(&self) -> ClientView {
        ClientView {
            token: crate::message::optional_text(self.token),
            trip: self.trip,
            autopos: self.autopos,
            pos: self.pos,
        }
    }
}

/// What comes of a command: a line to print, and a message to send.
pub struct Reply {
    pub print: Option<String>,
    pub msg: Option<Message>,
}

/// What a [`Reply`] says.
#[verifier::ext_equal]
pub struct ReplyView {
    pub print: Option<Seq<char>>,
    pub msg: Option<crate::message::MessageView>,
}

/// What comes of a line: a line to print, a message to send, and whether to leave
/// then.
pub struct Turn {
    pub print: Option<String>,
    pub msg: Option<Message>,
    pub quit: bool,
}

/// What a [`Turn`] says.
#[verifier::ext_equal]
pub struct TurnView {
    pub print: Option<Seq<char>>,
    pub msg: Option<crate::message::MessageView>,
    pub quit: bool,
}

/// What an optional message says.
pub open spec fn optional_message(m: Option<Message>) -> Option<crate::message::MessageView> {
    match m {
        Some(m) => Some(m@),
        None => None,
    }
}

impl View for Reply {
    type V = ReplyView;

    open spec fn view(&self) -> ReplyView {
        ReplyView {
            print: crate::message::optional_text(self.print),
            msg: optional_message(self.msg),
        }
    }
}

impl View for Turn {
    type V = TurnView;

    open spec fn view(&self) -> TurnView {
        TurnView {
            print: crate::message::optional_text(self.print),
            msg: optional_message(self.msg),
            quit: self.quit,
        }
    }
}

/// A client that is not logged in, and has not been anywhere.
pub open spec fn newcomer() -> ClientView {
    ClientView {
        token: None,
        trip: None,
        autopos: false,
        pos: (crate::double::dbl(FORTY_FIVE), crate::double::dbl(NINE)),
    }
}

/// Nothing comes of a command.
pub open spec fn nothing() -> ReplyView {
    ReplyView { print: None, msg: None }
}

/// A line is printed.
pub open spec fn printed(line: Seq<char>) -> ReplyView {
    ReplyView { print: Some(line), msg: None }
}

/// A message is sent.
pub open spec fn sent(msg: crate::message::MessageView) -> ReplyView {
    ReplyView { print: None, msg: Some(msg) }
}

/// The command in a line, and what follows it.
pub open spec fn command_parts(line: Seq<char>) -> (Seq<char>, Seq<char>) {
    match crate::text::cut(line, |c: char| c == ' ') {
        Some(parts) => (parts.0, crate::text::trimmed(parts.1)),
        None => (line, Seq::empty()),
    }
}

/// The words behind the command of a line.
pub open spec fn argument_words(line: Seq<char>) -> Seq<Seq<char>> {
    crate::text::words(command_parts(crate::text::trimmed(line)).1)
}

/// The number that a word spells, if there is the word.
pub open spec fn number_at(words: Seq<Seq<char>>, i: int) -> Option<i64> {
    if i < words.len() {
        crate::number::parsed_i64(words[i])
    } else {
        None
    }
}

/// The time in a position: that of the third word, or the time now if there is
/// none.
pub open spec fn time_at(words: Seq<Seq<char>>, now: i64) -> Option<i64> {
    if words.len() <= 2 {
        Some(now)
    } else {
        crate::number::parsed_i64(words[2])
    }
}

/// On `/register` and `/login`.
pub open spec fn on_credentials(register: bool, rest: Seq<char>) -> ReplyView {
    match crate::text::cut(rest, |c: char| c == ' ') {
        Some(parts) => if register {
            sent(
                crate::message::MessageView::Register { username: parts.0, password: parts.1 },
            )
        } else {
            sent(crate::message::MessageView::Login { username: parts.0, password: parts.1 })
        },
        None => nothing(),
    }
}

/// What is said to those who are not logged in.
pub open spec fn no_token() -> ReplyView {
    printed("you must /register or /login first"@)
}

/// What is said to those without a trip.
pub open spec fn no_trip() -> ReplyView {
    printed("no open trip: use /start first"@)
}

/// On `/start`, with the numbers that its first two words spell.
pub open spec fn on_start(
    c: ClientView,
    now: i64,
    lat: Option<Double>,
    lon: Option<Double>,
) -> (ClientView, ReplyView) {
    match c.token {
        None => (c, no_token()),
        Some(token) => {
            let lat = match lat {
                Some(v) => v,
                None => crate::double::dbl(FORTY_FIVE),
            };
            let lon = match lon {
                Some(v) => v,
                None => crate::double::dbl(NINE),
            };
            (
                ClientView { autopos: true, pos: (lat, lon), ..c },
                ReplyView {
                    print: Some(
                        "[autopos] active: will send a POSITION every 30 seconds after TRIP_STARTED"@,
                    ),
                    ..sent(
                        crate::message::MessageView::StartTrip { token, lat, lon, ts: now },
                    )
                },
            )
        },
    }
}

/// On `/pos`, with the numbers that its first two words spell.
pub open spec fn on_pos(
    c: ClientView,
    words: Seq<Seq<char>>,
    now: i64,
    lat: Option<Double>,
    lon: Option<Double>,
) -> (ClientView, ReplyView) {
    match (c.token, c.trip) {
        (None, _) => (c, no_token()),
        (Some(_), None) => (c, no_trip()),
        (Some(token), Some(trip_id)) => match (lat, lon, time_at(words, now)) {
            (Some(lat), Some(lon), Some(ts)) => (
                ClientView { pos: (lat, lon), ..c },
                sent(crate::message::MessageView::Position { token, trip_id, lat, lon, ts }),
            ),
            (Some(_), Some(_), None) => (c, printed("usage: /pos <lat> <lon> <ts>"@)),
            _ => (c, printed("usage: /pos <lat> <lon> [ts]"@)),
        },
    }
}

/// On `/stats`.
pub open spec fn on_stats(c: ClientView, kind: Seq<char>, now: i64) -> ReplyView {
    match c.token {
        None => no_token(),
        Some(token) => match crate::calendar::interval_around(kind, now as int) {
            None => printed("usage: /stats day|week|month"@),
            Some(i) => ReplyView {
                print: Some(
                    "requesting statistics for "@ + i.2 + " UTC: ["@
                        + crate::number::signed_decimal(i.0) + ", "@
                        + crate::number::signed_decimal(i.1) + "]"@,
                ),
                ..sent(
                    crate::message::MessageView::Stats {
                        token,
                        from_ts: i.0 as i64,
                        to_ts: i.1 as i64,
                    },
                )
            },
        },
    }
}

/// On `/stats-range`.
pub open spec fn on_range(c: ClientView, words: Seq<Seq<char>>) -> ReplyView {
    match c.token {
        None => no_token(),
        Some(token) => match (number_at(words, 0), number_at(words, 1)) {
            (Some(from_ts), Some(to_ts)) => sent(
                crate::message::MessageView::Stats { token, from_ts, to_ts },
            ),
            _ => printed("usage: /stats-range <from_ts> <to_ts>"@),
        },
    }
}

/// On `/end`.
pub open spec fn on_end(c: ClientView, now: i64) -> ReplyView {
    match (c.token, c.trip) {
        (None, _) => no_token(),
        (Some(_), None) => no_trip(),
        (Some(token), Some(trip_id)) => sent(
            crate::message::MessageView::EndTrip { token, trip_id, ts: now },
        ),
    }
}

/// On `/chat`.
pub open spec fn on_chat(c: ClientView, text: Seq<char>) -> ReplyView {
    if text.len() == 0 {
        printed("usage: /chat <text>"@)
    } else {
        match c.token {
            None => no_token(),
            Some(token) => sent(crate::message::MessageView::ChatToServer { token, text }),
        }
    }
}

/// On `/quit`.
pub open spec fn on_quit(c: ClientView) -> ReplyView {
    let token = match c.token {
        Some(t) => t,
        None => Seq::empty(),
    };
    sent(crate::message::MessageView::Disconnect { token })
}

/// On a command with what follows it. `lat` and `lon` are the numbers that the first
/// two words behind the command spell.
pub open spec fn on_command(
    c: ClientView,
    line: Seq<char>,
    now: i64,
    lat: Option<Double>,
    lon: Option<Double>,
) -> (ClientView, ReplyView) {
    let (cmd, rest) = command_parts(line);
    let words = crate::text::words(rest);
    if cmd == "/register"@ {
        (c, on_credentials(true, rest))
    } else if cmd == "/login"@ {
        (c, on_credentials(false, rest))
    } else if cmd == "/start"@ {
        on_start(c, now, lat, lon)
    } else if cmd == "/pos"@ {
        on_pos(c, words, now, lat, lon)
    } else if cmd == "/stats"@ {
        (c, on_stats(c, rest, now))
    } else if cmd == "/stats-range"@ {
        (c, on_range(c, words))
    } else if cmd == "/end"@ {
        (c, on_end(c, now))
    } else if cmd == "/chat"@ {
        (c, on_chat(c, rest))
    } else if cmd == "/quit"@ {
        (c, on_quit(c))
    } else {
        (c, printed("invalid command: "@ + cmd))
    }
}

/// On a line. White space around it does not count. A trip whose end is sent counts
/// as closed at once, and the client leaves after its farewell.
pub open spec fn on_line(
    c: ClientView,
    line: Seq<char>,
    now: i64,
    lat: Option<Double>,
    lon: Option<Double>,
) -> (ClientView, TurnView) {
    let t = crate::text::trimmed(line);
    if t.len() == 0 {
        (c, TurnView { print: None, msg: None, quit: false })
    } else {
        let (d, r) = on_command(c, t, now, lat, lon);
        (
            if r.msg is Some && r.msg->0 is EndTrip {
                ClientView { trip: None, autopos: false, ..d }
            } else {
                d
            },
            TurnView {
                print: r.print,
                msg: r.msg,
                quit: r.msg is Some && r.msg->0 is Disconnect,
            },
        )
    }
}

/// When it is time for a position that is not asked for.
pub open spec fn on_tick(c: ClientView, lat: Double, lon: Double, now: i64) -> (
    ClientView,
    Option<crate::message::MessageView>,
) {
    match (c.autopos, c.token, c.trip) {
        (true, Some(token), Some(trip_id)) => (
            ClientView { pos: (lat, lon), ..c },
            Some(crate::message::MessageView::Position { token, trip_id, lat, lon, ts: now }),
        ),
        _ => (c, None),
    }
}

/// Whether a line with this command can be taken at this time: the week around it
/// must be counted for statistics.
pub open spec fn can_take(line: Seq<char>, now: i64) -> bool {
    command_parts(line).0 == "/stats"@ ==> crate::calendar::week_fits(now as int)
}

fn no_reply() -> (r: Reply)
    ensures
        r@ == nothing(),
{
    Reply { print: None, msg: None }
}

fn reply_print(line: &str) -> (r: Reply)
    ensures
        r@ == printed(line@),
{
    Reply { print: Some(line.to_owned()), msg: None }
}

fn reply_send(msg: Message) -> (r: Reply)
    ensures
        r@ == sent(msg@),
{
    Reply { print: None, msg: Some(msg) }
}

/// The command in a line, and what follows it.
fn split_command(line: &str) -> (r: (&str, &str))
    ensures
        (r.0@, r.1@) == command_parts(line@),
{
    match cut_blank(line) {
        Some((cmd, rest)) => (cmd, trim(rest)),
        None => {
            proof {
                reveal_strlit("");
            }
            assert(""@ =~= Seq::<char>::empty());
            (line, "")
        },
    }
}

/// Decides whether a line with this command can be taken at this time.
pub fn is_takeable(line: &str, now: i64) -> (r: bool)
    ensures
        r == can_take(line@, now),
{
    let (cmd, _) = split_command(line);
    !same_text(cmd, "/stats") || crate::calendar::is_week_countable(now)
}

/// The words behind the command of a line, white space around which does not count.
pub fn arguments(line: &str) -> (r: Vec<String>)
    ensures
        crate::text::texts(r@) == argument_words(line@),
        crate::text::texts(r@) == crate::text::words(
            command_parts(crate::text::trimmed(line@)).1,
        ),
{
    let (_, rest) = split_command(trim(line));
    split_words(rest)
}

fn word_number(words: &Vec<String>, i: usize) -> (r: Option<i64>)
    ensures
        r == number_at(crate::text::texts(words@), i as int),
{
    if i < words.len() {
        assert(crate::text::texts(words@)[i as int] == words@[i as int]@);
        parse_i64(words[i].as_str())
    } else {
        None
    }
}

fn credentials(register: bool, rest: &str) -> (r: Reply)
    ensures
        r@ == on_credentials(register, rest@),
{
    match cut_blank(rest) {
        Some((u, p)) => {
            let username = u.to_owned();
            let password = p.to_owned();
            if register {
                reply_send(Message::Register { username, password })
            } else {
                reply_send(Message::Login { username, password })
            }
        },
        None => no_reply(),
    }
}

impl ClientSession {
    /// A client that is not logged in.
    pub fn new() -> (r: Self)
        ensures
            r@ == newcomer(),
            r@ == (ClientView {
                token: None,
                trip: None,
                autopos: false,
                pos: (crate::double::dbl(FORTY_FIVE), crate::double::dbl(NINE)),
            }),
    {
        ClientSession {
            token: None,
            trip: None,
            autopos: false,
            pos: (Double { bits: FORTY_FIVE }, Double { bits: NINE }),
        }
    }

    fn start(&mut self, now: i64, lat: Option<Double>, lon: Option<Double>) -> (r: Reply)
        ensures
            (final(self)@, r@) == on_start(old(self)@, now, lat, lon),
    {
        let token = match &self.token {
            None => {
                return reply_print("you must /register or /login first");
            },
            Some(t) => t.clone(),
        };
        let lat = match lat {
            Some(v) => v,
            None => Double { bits: FORTY_FIVE },
        };
        let lon = match lon {
            Some(v) => v,
            None => Double { bits: NINE },
        };
        self.pos = (lat, lon);
        self.autopos = true;
        Reply {
            print: Some(
                "[autopos] active: will send a POSITION every 30 seconds after TRIP_STARTED".to_owned(),
            ),
            msg: Some(Message::StartTrip { token, lat, lon, ts: now }),
        }
    }

    fn position(
        &mut self,
        words: &Vec<String>,
        now: i64,
        lat: Option<Double>,
        lon: Option<Double>,
    ) -> (r: Reply)
        ensures
            (final(self)@, r@) == on_pos(
                old(self)@,
                crate::text::texts(words@),
                now,
                lat,
                lon,
            ),
    {
        let token = match &self.token {
            None => {
                return reply_print("you must /register or /login first");
            },
            Some(t) => t.clone(),
        };
        let trip_id: i64 = match self.trip {
            None => {
                return reply_print("no open trip: use /start first");
            },
            Some(id) => id,
        };
        let (lat, lon) = match (lat, lon) {
            (Some(lat), Some(lon)) => (lat, lon),
            _ => {
                return reply_print("usage: /pos <lat> <lon> [ts]");
            },
        };
        let ts: Option<i64> = if words.len() <= 2 {
            Some(now)
        } else {
            word_number(words, 2)
        };
        match ts {
            None => reply_print("usage: /pos <lat> <lon> <ts>"),
            Some(ts) => {
                self.pos = (lat, lon);
                reply_send(Message::Position { token, trip_id, lat, lon, ts })
            },
        }
    }

    fn stats(&self, kind: &str, now: i64) -> (r: Reply)
        requires
            crate::calendar::week_fits(now as int),
        ensures
            r@ == on_stats(self@, kind@, now),
    {
        let token = match &self.token {
            None => {
                return reply_print("you must /register or /login first");
            },
            Some(t) => t.clone(),
        };
        match stats_interval(kind, now) {
            None => reply_print("usage: /stats day|week|month"),
            Some((from_ts, to_ts, label)) => {
                let mut line = String::new();
                line.append("requesting statistics for ");
                line.append(label);
                line.append(" UTC: [");
                append_signed(&mut line, from_ts);
                line.append(", ");
                append_signed(&mut line, to_ts);
                line.append("]");
                assert(line@ =~= "requesting statistics for "@ + label@ + " UTC: ["@
                    + crate::number::signed_decimal(from_ts as int) + ", "@
                    + crate::number::signed_decimal(to_ts as int) + "]"@);
                Reply {
                    print: Some(line),
                    msg: Some(Message::Stats { token, from_ts, to_ts }),
                        }
            },
        }
    }

    fn range(&self, words: &Vec<String>) -> (r: Reply)
        ensures
            r@ == on_range(self@, crate::text::texts(words@)),
    {
        let token = match &self.token {
            None => {
                return reply_print("you must /register or /login first");
            },
            Some(t) => t.clone(),
        };
        match (word_number(words, 0), word_number(words, 1)) {
            (Some(from_ts), Some(to_ts)) => reply_send(Message::Stats { token, from_ts, to_ts }),
            _ => reply_print("usage: /stats-range <from_ts> <to_ts>"),
        }
    }

    fn end(&self, now: i64) -> (r: Reply)
        ensures
            r@ == on_end(self@, now),
    {
        let token = match &self.token {
            None => {
                return reply_print("you must /register or /login first");
            },
            Some(t) => t.clone(),
        };
        let trip_id: i64 = match self.trip {
            None => {
                return reply_print("no open trip: use /start first");
            },
            Some(id) => id,
        };
        reply_send(Message::EndTrip { token, trip_id, ts: now })
    }

    fn chat(&self, text: &str) -> (r: Reply)
        ensures
            r@ == on_chat(self@, text@),
    {
        if text.is_empty() {
            return reply_print("usage: /chat <text>");
        }
        match &self.token {
            None => reply_print("you must /register or /login first"),
            Some(t) => reply_send(
                Message::ChatToServer { token: t.clone(), text: text.to_owned() },
            ),
        }
    }

    fn quit(&self) -> (r: Reply)
        ensures
            r@ == on_quit(self@),
    {
        let token = match &self.token {
            Some(t) => t.clone(),
            None => String::new(),
        };
        reply_send(Message::Disconnect { token })
    }

    /// Takes a command in. `lat` and `lon` are the numbers that the first two words
    /// behind the command spell.
    pub fn parse_cmd(
        &mut self,
        line: &str,
        now: i64,
        lat: Option<Double>,
        lon: Option<Double>,
    ) -> (r: Reply)
        requires
            can_take(line@, now),
        ensures
            (final(self)@, r@) == on_command(old(self)@, line@, now, lat, lon),
    {
        let (cmd, rest) = split_command(line);
        if same_text(cmd, "/register") {
            credentials(true, rest)
        } else if same_text(cmd, "/login") {
            credentials(false, rest)
        } else if same_text(cmd, "/start") {
            self.start(now, lat, lon)
        } else if same_text(cmd, "/pos") {
            let words = split_words(rest);
            self.position(&words, now, lat, lon)
        } else if same_text(cmd, "/stats") {
            self.stats(rest, now)
        } else if same_text(cmd, "/stats-range") {
            let words = split_words(rest);
            self.range(&words)
        } else if same_text(cmd, "/end") {
            self.end(now)
        } else if same_text(cmd, "/chat") {
            self.chat(rest)
        } else if same_text(cmd, "/quit") {
            self.quit()
        } else {
            let mut text = String::new();
            text.append("invalid command: ");
            text.append(cmd);
            reply_print(text.as_str())
        }
    }

    /// Takes a line in. `lat` and `lon` are the numbers that the first two of its
    /// [`arguments`] spell.
    pub fn turn(
        &mut self,
        line: &str,
        now: i64,
        lat: Option<Double>,
        lon: Option<Double>,
    ) -> (r: Turn)
        requires
            can_take(crate::text::trimmed(line@), now),
        ensures
            (final(self)@, r@) == on_line(old(self)@, line@, now, lat, lon),
    {
        let line = trim(line);
        if line.is_empty() {
            return Turn { print: None, msg: None, quit: false };
        }
        let r = self.parse_cmd(line, now, lat, lon);
        let quit = match &r.msg {
            Some(Message::EndTrip { .. }) => {
                self.trip = None;
                self.autopos = false;
                false
            },
            Some(Message::Disconnect { .. }) => true,
            _ => false,
        };
        Turn { print: r.print, msg: r.msg, quit }
    }

    /// Whether a position is to be sent now without being asked for.
    pub open spec fn due(self) -> bool {
        self.autopos && self.token is Some && self.trip is Some
    }

    /// Whether a position is to be sent now without being asked for.
    pub fn autopos_due(&self) -> (r: bool)
        ensures
            r == self.due(),
    {
        self.autopos && self.token.is_some() && self.trip.is_some()
    }

    /// The message with a position that is sent without being asked for, if one is
    /// due.
    pub fn autopos_message(&mut self, lat: Double, lon: Double, now: i64) -> (r: Option<Message>)
        ensures
            (final(self)@, optional_message(r)) == on_tick(old(self)@, lat, lon, now),
            old(self).due() ==> optional_message(r) == Some(
                crate::message::MessageView::Position {
                    token: old(self)@.token->0,
                    trip_id: old(self)@.trip->0,
                    lat,
                    lon,
                    ts: now,
                },
            ) && final(self)@ == (ClientView { pos: (lat, lon), ..old(self)@ }),
            !old(self).due() ==> r is None && *final(self) == *old(self),
    {
        if !self.autopos {
            return None;
        }
        let token = match &self.token {
            Some(t) => t.clone(),
            None => {
                return None;
            },
        };
        match self.trip {
            Some(trip_id) => {
                self.pos = (lat, lon);
                Some(Message::Position { token, trip_id, lat, lon, ts: now })
            },
            None => None,
        }
    }

    /// What the client knows after a message from the server.
    pub open spec fn informed(c: ClientView, msg: crate::message::MessageView) -> ClientView {
        match msg {
            crate::message::MessageView::AuthOk { token } => ClientView {
                token: Some(token),
                ..c
            },
            crate::message::MessageView::TripStarted { trip_id, .. } => ClientView {
                trip: Some(trip_id),
                ..c
            },
            _ => c,
        }
    }

    /// Takes a message from the server in.
    pub fn receive(&mut self, msg: &Message)
        ensures
            final(self)@ == ClientSession::informed(old(self)@, msg@),
    {
        match msg {
            Message::AuthOk { token } => {
                self.token = Some(token.clone());
            },
            Message::TripStarted { trip_id, .. } => {
                self.trip = Some(*trip_id);
            },
            _ => {},
        }
    }
}

/// The line that shows a message without fractional numbers in it; nothing for
/// other messages.
pub open spec fn shown(msg: crate::message::MessageView) -> Option<Seq<char>> {
    match msg {
        crate::message::MessageView::AuthOk { token } => Some(
            "[server] AUTH_OK token="@ + token,
        ),
        crate::message::MessageView::Error { code, message } => Some(
            "[server] ERROR "@ + code + ": "@ + message,
        ),
        crate::message::MessageView::Ack => Some("[server] ACK"@),
        crate::message::MessageView::ChatFromServer { from: Some(f), text } => Some(
            "[chat from "@ + f + "] "@ + text,
        ),
        crate::message::MessageView::ChatFromServer { from: None, text } => Some(
            "[chat broadcast] "@ + text,
        ),
        _ => None,
    }
}

/// Writes the line that shows a message without fractional numbers in it.
pub fn show(msg: &Message) -> (r: Option<String>)
    ensures
        crate::message::optional_text(r) == shown(msg@),
{
    let mut line = String::new();
    match msg {
        Message::AuthOk { token } => {
            line.append("[server] AUTH_OK token=");
            line.append(token.as_str());
        },
        Message::Error { code, message } => {
            line.append("[server] ERROR ");
            line.append(code.as_str());
            line.append(": ");
            line.append(message.as_str());
        },
        Message::Ack => {
            line.append("[server] ACK");
        },
        Message::ChatFromServer { from, text } => match from {
            Some(f) => {
                line.append("[chat from ");
                line.append(f.as_str());
                line.append("] ");
                line.append(text.as_str());
            },
            None => {
                line.append("[chat broadcast] ");
                line.append(text.as_str());
            },
        },
        _ => {
            return None;
        },
    }
    assert(line@ =~= shown(msg@)->0);
    Some(line)
}

/// The line that shows the start of a trip, with its coordinates written out.
pub open spec fn trip_text(trip_id: int, lat: Seq<char>, lon: Seq<char>, ts: int) -> Seq<char> {
    "[server] TRIP_STARTED id="@ + crate::number::signed_decimal(trip_id) + " lat="@ + lat
        + " lon="@ + lon + " ts="@ + crate::number::signed_decimal(ts)
}

/// Writes the line that shows the start of a trip.
pub fn show_trip(trip_id: i64, lat: &str, lon: &str, ts: i64) -> (r: String)
    ensures
        r@ == trip_text(trip_id as int, lat@, lon@, ts as int),
{
    let mut line = String::new();
    line.append("[server] TRIP_STARTED id=");
    append_signed(&mut line, trip_id);
    line.append(" lat=");
    line.append(lat);
    line.append(" lon=");
    line.append(lon);
    line.append(" ts=");
    append_signed(&mut line, ts);
    assert(line@ =~= trip_text(trip_id as int, lat@, lon@, ts as int));
    line
}

/// A duration, and its seconds in brackets.
pub open spec fn duration_line(label: Seq<char>, secs: int) -> Seq<char> {
    label + crate::calendar::duration_text(secs) + " ("@ + crate::number::signed_decimal(secs)
        + " s)\n"@
}

fn append_duration(out: &mut String, label: &str, secs: i64)
    ensures
        final(out)@ == old(out)@ + duration_line(label@, secs as int),
{
    out.append(label);
    let d = fmt_duration(secs);
    out.append(d.as_str());
    out.append(" (");
    append_signed(out, secs);
    out.append(" s)\n");
    assert(out@ =~= old(out)@ + duration_line(label@, secs as int));
}

/// The lines that show statistics, with the distance and the two speeds written
/// out.
pub open spec fn statistics_text(
    username: Seq<char>,
    points: int,
    from_ts: int,
    to_ts: int,
    distance: Seq<char>,
    movement_secs: int,
    pause_secs: int,
    total_secs: int,
    mps: Seq<char>,
    kmh: Seq<char>,
) -> Seq<char> {
    "[stats] user="@ + username + " points="@ + crate::number::signed_decimal(points)
        + " interval=["@ + crate::number::signed_decimal(from_ts) + ", "@
        + crate::number::signed_decimal(to_ts) + "]\n\tdistance: "@ + distance + " m\n"@
        + duration_line("\tmovement: "@, movement_secs) + duration_line(
        "\tpauses:     "@,
        pause_secs,
    ) + duration_line("\ttotal:      "@, total_secs) + "\taverage speed: "@ + mps + " m/s = "@ + kmh
        + " km/h"@
}

/// Writes the lines that show statistics.
pub fn show_statistics(
    username: &str,
    points: i64,
    from_ts: i64,
    to_ts: i64,
    distance: &str,
    movement_secs: i64,
    pause_secs: i64,
    total_secs: i64,
    mps: &str,
    kmh: &str,
) -> (r: String)
    ensures
        r@ == statistics_text(
            username@,
            points as int,
            from_ts as int,
            to_ts as int,
            distance@,
            movement_secs as int,
            pause_secs as int,
            total_secs as int,
            mps@,
            kmh@,
        ),
{
    let mut out = String::new();
    out.append("[stats] user=");
    out.append(username);
    out.append(" points=");
    append_signed(&mut out, points);
    out.append(" interval=[");
    append_signed(&mut out, from_ts);
    out.append(", ");
    append_signed(&mut out, to_ts);
    out.append("]\n\tdistance: ");
    out.append(distance);
    out.append(" m\n");
    append_duration(&mut out, "\tmovement: ", movement_secs);
    append_duration(&mut out, "\tpauses:     ", pause_secs);
    append_duration(&mut out, "\ttotal:      ", total_secs);
    out.append("\taverage speed: ");
    out.append(mps);
    out.append(" m/s = ");
    out.append(kmh);
    out.append(" km/h");
    assert(out@ =~= statistics_text(
        username@,
        points as int,
        from_ts as int,
        to_ts as int,
        distance@,
        movement_secs as int,
        pause_secs as int,
        total_secs as int,
        mps@,
        kmh@,
    ));
    out
}

/// A command leaves the token and the trip as they are. Only the start of a trip
/// switches automatic positions, and switches them on; only the start and a position
/// set the last position, to the one that is sent.
pub proof fn law_what_a_command_changes(
    c: ClientView,
    line: Seq<char>,
    now: i64,
    lat: Option<Double>,
    lon: Option<Double>,
)
    ensures
        ({
            let (d, r) = on_command(c, line, now, lat, lon);
            &&& d.token == c.token
            &&& d.trip == c.trip
            &&& match r.msg {
                Some(crate::message::MessageView::StartTrip { lat, lon, .. }) => d.autopos && d.pos
                    == (lat, lon),
                Some(crate::message::MessageView::Position { lat, lon, .. }) => d.autopos
                    == c.autopos && d.pos == (lat, lon),
                _ => d == c,
            }
        }),
{
}

/// Who is not logged in can send nothing but credentials and a farewell.
pub proof fn law_login_comes_first(
    c: ClientView,
    line: Seq<char>,
    now: i64,
    lat: Option<Double>,
    lon: Option<Double>,
)
    requires
        c.token is None,
    ensures
        on_line(c, line, now, lat, lon).0 == c,
        on_line(c, line, now, lat, lon).1.msg matches Some(m) ==> m is Register || m is Login
            || m is Disconnect,
{
}

/// Every message that a logged-in client sends carries its token, and a position or
/// the end of a trip the number of its trip.
pub proof fn law_client_speaks_for_itself(
    c: ClientView,
    line: Seq<char>,
    now: i64,
    lat: Option<Double>,
    lon: Option<Double>,
)
    ensures
        on_line(c, line, now, lat, lon).1.msg matches Some(m) ==> {
            &&& crate::guarantees::needs_token(m) matches Some(t) ==> c.token == Some(t)
            &&& m matches crate::message::MessageView::Position { trip_id, .. } ==> c.trip == Some(
                trip_id,
            )
            &&& m matches crate::message::MessageView::EndTrip { trip_id, .. } ==> c.trip == Some(
                trip_id,
            )
        },
{
}

/// A client that has sent the end of its trip sends no position until the next
/// trip has started.
pub proof fn law_no_position_after_the_end(
    c: ClientView,
    line: Seq<char>,
    now: i64,
    lat: Option<Double>,
    lon: Option<Double>,
    next: Seq<char>,
)
    requires
        on_line(c, line, now, lat, lon).1.msg matches Some(m) && m is EndTrip,
    ensures
        ({
            let d = on_line(c, line, now, lat, lon).0;
            &&& d.trip is None && !d.autopos
            &&& on_line(d, next, now, lat, lon).1.msg matches Some(m) ==> m !is Position && m
                !is EndTrip
        }),
{
}

/// Whether a text is without blanks.
pub open spec fn plain(t: Seq<char>) -> bool {
    forall|i: int| 0 <= i < t.len() ==> #[trigger] t[i] != ' '
}

/// Whether a line is made of a command and, behind a blank, of what goes with it; or of
/// the command alone, when nothing does.
pub open spec fn is_line(line: Seq<char>, cmd: Seq<char>, args: Seq<char>) -> bool {
    line == cmd + seq![' '] + args || line == cmd && args.len() == 0
}

proof fn lemma_line(line: Seq<char>, cmd: Seq<char>, args: Seq<char>)
    requires
        is_line(line, cmd, args),
        plain(cmd),
    ensures
        command_parts(line) == (cmd, crate::text::trimmed(args)),
        crate::text::words(crate::text::trimmed(args)) == crate::text::words(args),
{
    let none = Seq::<char>::empty();
    crate::text::law_cut(cmd, ' ', args, |c: char| c == ' ');
    crate::text::law_words(args, ' ', none, none);
    if line == cmd && args.len() == 0 {
        assert(args =~= none);
        crate::text::law_trimming(none, none, none);
    }
}

proof fn lemma_commands()
    ensures
        "/register"@ != "/login"@,
        "/register"@ != "/start"@,
        "/register"@ != "/pos"@,
        "/register"@ != "/stats"@,
        "/register"@ != "/stats-range"@,
        "/register"@ != "/end"@,
        "/register"@ != "/chat"@,
        "/register"@ != "/quit"@,
        "/login"@ != "/start"@,
        "/login"@ != "/pos"@,
        "/login"@ != "/stats"@,
        "/login"@ != "/stats-range"@,
        "/login"@ != "/end"@,
        "/login"@ != "/chat"@,
        "/login"@ != "/quit"@,
        "/start"@ != "/pos"@,
        "/start"@ != "/stats"@,
        "/start"@ != "/stats-range"@,
        "/start"@ != "/end"@,
        "/start"@ != "/chat"@,
        "/start"@ != "/quit"@,
        "/pos"@ != "/stats"@,
        "/pos"@ != "/stats-range"@,
        "/pos"@ != "/end"@,
        "/pos"@ != "/chat"@,
        "/pos"@ != "/quit"@,
        "/stats"@ != "/stats-range"@,
        "/stats"@ != "/end"@,
        "/stats"@ != "/chat"@,
        "/stats"@ != "/quit"@,
        "/stats-range"@ != "/end"@,
        "/stats-range"@ != "/chat"@,
        "/stats-range"@ != "/quit"@,
        "/end"@ != "/chat"@,
        "/end"@ != "/quit"@,
        "/chat"@ != "/quit"@,
        plain("/register"@),
        plain("/login"@),
        plain("/start"@),
        plain("/pos"@),
        plain("/stats"@),
        plain("/stats-range"@),
        plain("/end"@),
        plain("/chat"@),
        plain("/quit"@),
{
    reveal_strlit("/register");
    reveal_strlit("/login");
    reveal_strlit("/start");
    reveal_strlit("/pos");
    reveal_strlit("/stats");
    reveal_strlit("/stats-range");
    reveal_strlit("/end");
    reveal_strlit("/chat");
    reveal_strlit("/quit");
    assert("/register"@.len() == 9 && "/register"@[1] == 'r' && "/register"@[2] == 'e');
    assert("/login"@.len() == 6 && "/login"@[1] == 'l' && "/login"@[2] == 'o');
    assert("/start"@.len() == 6 && "/start"@[1] == 's' && "/start"@[2] == 't');
    assert("/start"@[4] == 'r' && "/stats"@[4] == 't');
    assert("/pos"@.len() == 4 && "/pos"@[1] == 'p' && "/pos"@[2] == 'o');
    assert("/stats"@.len() == 6 && "/stats"@[1] == 's' && "/stats"@[2] == 't');
    assert("/stats-range"@.len() == 12 && "/stats-range"@[1] == 's' && "/stats-range"@[2] == 't');
    assert("/end"@.len() == 4 && "/end"@[1] == 'e' && "/end"@[2] == 'n');
    assert("/chat"@.len() == 5 && "/chat"@[1] == 'c' && "/chat"@[2] == 'h');
    assert("/quit"@.len() == 5 && "/quit"@[1] == 'q' && "/quit"@[2] == 'u');
}

/// `/start` of a client that is logged in starts a trip at the numbers that are given, now:
/// 45 and 9 stand in only for a number that is not given. The client's last position is
/// the one that is sent. Who is not logged in is told so.
pub proof fn law_start_command(
    c: ClientView,
    line: Seq<char>,
    args: Seq<char>,
    now: i64,
    lat: Option<Double>,
    lon: Option<Double>,
)
    requires
        is_line(line, "/start"@, args),
    ensures
        ({
            let (d, r) = on_command(c, line, now, lat, lon);
            match c.token {
                Some(token) => {
                    &&& r.msg is Some && r.msg->0 is StartTrip
                    &&& r.msg->0->StartTrip_token == token
                    &&& r.msg->0->StartTrip_ts == now
                    &&& lat matches Some(a) ==> r.msg->0->StartTrip_lat == a
                    &&& lat is None ==> r.msg->0->StartTrip_lat.is_whole(45)
                    &&& lon matches Some(b) ==> r.msg->0->StartTrip_lon == b
                    &&& lon is None ==> r.msg->0->StartTrip_lon.is_whole(9)
                    &&& d.pos == (r.msg->0->StartTrip_lat, r.msg->0->StartTrip_lon)
                    &&& d.autopos && d.token == c.token && d.trip == c.trip
                    &&& r.print == Some(
                        "[autopos] active: will send a POSITION every 30 seconds after TRIP_STARTED"@,
                    )
                },
                None => d == c && r.msg is None && r.print == Some(
                    "you must /register or /login first"@,
                ),
            }
        }),
{
    lemma_commands();
    lemma_line(line, "/start"@, args);
    crate::double::law_constants();
}

/// `/pos` of a client on a trip sends the two numbers as latitude and longitude of the
/// trip, at the time that the third word spells, or now if there is no third word.
/// Where a number is missing or no number nothing is sent, and it is said how to write
/// the command.
pub proof fn law_position_command(
    c: ClientView,
    line: Seq<char>,
    args: Seq<char>,
    now: i64,
    lat: Option<Double>,
    lon: Option<Double>,
    token: Seq<char>,
    trip_id: i64,
)
    requires
        is_line(line, "/pos"@, args),
    ensures
        ({
            let (d, r) = on_command(c, line, now, lat, lon);
            let words = crate::text::words(args);
            &&& c.token is None ==> d == c && r.msg is None && r.print == Some(
                "you must /register or /login first"@,
            )
            &&& c.token is Some && c.trip is None ==> d == c && r.msg is None && r.print == Some(
                "no open trip: use /start first"@,
            )
            &&& c.token == Some(token) && c.trip == Some(trip_id) ==> {
                &&& lat is None || lon is None ==> d == c && r.msg is None && r.print == Some(
                    "usage: /pos <lat> <lon> [ts]"@,
                )
                &&& lat is Some && lon is Some && words.len() <= 2 ==> {
                    &&& d == (ClientView { pos: (lat->0, lon->0), ..c })
                    &&& r.print is None
                    &&& r.msg == Some(
                        crate::message::MessageView::Position {
                            token,
                            trip_id,
                            lat: lat->0,
                            lon: lon->0,
                            ts: now,
                        },
                    )
                }
                &&& lat is Some && lon is Some && words.len() > 2 ==> {
                    match crate::number::parsed_i64(words[2]) {
                        Some(ts) => {
                            &&& d == (ClientView { pos: (lat->0, lon->0), ..c })
                            &&& r.print is None
                            &&& r.msg == Some(
                                crate::message::MessageView::Position {
                                    token,
                                    trip_id,
                                    lat: lat->0,
                                    lon: lon->0,
                                    ts,
                                },
                            )
                        },
                        None => d == c && r.msg is None && r.print == Some(
                            "usage: /pos <lat> <lon> <ts>"@,
                        ),
                    }
                }
            }
        }),
{
    lemma_commands();
    lemma_line(line, "/pos"@, args);
}

/// `/register` and `/login` send the name, up to the first blank, and all that comes
/// behind it as the password; without a blank nothing is sent. They change nothing.
pub proof fn law_credentials_commands(
    c: ClientView,
    line: Seq<char>,
    user: Seq<char>,
    pass: Seq<char>,
    now: i64,
    lat: Option<Double>,
    lon: Option<Double>,
)
    requires
        plain(user),
        crate::text::tight(user + seq![' '] + pass),
        crate::text::tight(user),
    ensures
        is_line(line, "/register"@, user + seq![' '] + pass) ==> on_command(c, line, now, lat, lon)
            == (
            c,
            ReplyView {
                print: None,
                msg: Some(
                    crate::message::MessageView::Register { username: user, password: pass },
                ),
            },
        ),
        is_line(line, "/login"@, user + seq![' '] + pass) ==> on_command(c, line, now, lat, lon)
            == (
            c,
            ReplyView {
                print: None,
                msg: Some(crate::message::MessageView::Login { username: user, password: pass }),
            },
        ),
        is_line(line, "/register"@, user) || is_line(line, "/login"@, user) ==> on_command(
            c,
            line,
            now,
            lat,
            lon,
        ) == (c, ReplyView { print: None, msg: None }),
{
    lemma_commands();
    let none = Seq::<char>::empty();
    let both = user + seq![' '] + pass;
    crate::text::law_trimming(none, both, none);
    crate::text::law_trimming(none, user, none);
    crate::text::law_cut(user, ' ', pass, |c: char| c == ' ');
    if is_line(line, "/register"@, both) {
        lemma_line(line, "/register"@, both);
    }
    if is_line(line, "/login"@, both) {
        lemma_line(line, "/login"@, both);
    }
    if is_line(line, "/register"@, user) {
        lemma_line(line, "/register"@, user);
    }
    if is_line(line, "/login"@, user) {
        lemma_line(line, "/login"@, user);
    }
}

/// `/stats` asks for the day, the week or the month around now, and says so; `/stats-range`
/// for the time between two numbers. They change nothing.
pub proof fn law_statistics_commands(
    c: ClientView,
    line: Seq<char>,
    args: Seq<char>,
    now: i64,
    lat: Option<Double>,
    lon: Option<Double>,
    token: Seq<char>,
)
    requires
        c.token == Some(token),
        crate::text::tight(args),
    ensures
        on_command(c, line, now, lat, lon).0 == c || !(is_line(line, "/stats"@, args) || is_line(
            line,
            "/stats-range"@,
            args,
        )),
        is_line(line, "/stats"@, args) ==> {
            let r = on_command(c, line, now, lat, lon).1;
            match crate::calendar::interval_around(args, now as int) {
                Some((from, to, name)) => {
                    &&& r.msg == Some(
                        crate::message::MessageView::Stats {
                            token,
                            from_ts: from as i64,
                            to_ts: to as i64,
                        },
                    )
                    &&& r.print == Some(
                        "requesting statistics for "@ + name + " UTC: ["@
                            + crate::number::signed_decimal(from) + ", "@
                            + crate::number::signed_decimal(to) + "]"@,
                    )
                },
                None => r.msg is None && r.print == Some("usage: /stats day|week|month"@),
            }
        },
        is_line(line, "/stats-range"@, args) ==> {
            let r = on_command(c, line, now, lat, lon).1;
            let words = crate::text::words(args);
            if words.len() >= 2 && crate::number::parsed_i64(words[0]) is Some
                && crate::number::parsed_i64(words[1]) is Some {
                &&& r.print is None
                &&& r.msg == Some(
                    crate::message::MessageView::Stats {
                        token,
                        from_ts: crate::number::parsed_i64(words[0])->0,
                        to_ts: crate::number::parsed_i64(words[1])->0,
                    },
                )
            } else {
                r.msg is None && r.print == Some("usage: /stats-range <from_ts> <to_ts>"@)
            }
        },
{
    lemma_commands();
    let none = Seq::<char>::empty();
    crate::text::law_trimming(none, args, none);
    if is_line(line, "/stats"@, args) {
        lemma_line(line, "/stats"@, args);
    }
    if is_line(line, "/stats-range"@, args) {
        lemma_line(line, "/stats-range"@, args);
    }
}

/// `/end` sends the end of the trip, now; `/chat` the text behind it; `/quit` a farewell
/// with the token, if there is one. Any other command is called invalid. None of them
/// changes anything.
pub proof fn law_other_commands(
    c: ClientView,
    line: Seq<char>,
    cmd: Seq<char>,
    args: Seq<char>,
    now: i64,
    lat: Option<Double>,
    lon: Option<Double>,
)
    requires
        is_line(line, cmd, args),
        plain(cmd),
        crate::text::tight(args),
    ensures
        ({
            let (d, r) = on_command(c, line, now, lat, lon);
            &&& cmd == "/end"@ ==> d == c && match (c.token, c.trip) {
                (Some(token), Some(trip_id)) => {
                    &&& r.print is None
                    &&& r.msg == Some(
                        crate::message::MessageView::EndTrip { token, trip_id, ts: now },
                    )
                },
                (Some(_), None) => r.msg is None && r.print == Some(
                    "no open trip: use /start first"@,
                ),
                (None, _) => r.msg is None && r.print == Some(
                    "you must /register or /login first"@,
                ),
            }
            &&& cmd == "/chat"@ ==> d == c && if args.len() == 0 {
                r.msg is None && r.print == Some("usage: /chat <text>"@)
            } else {
                match c.token {
                    Some(token) => {
                        &&& r.print is None
                        &&& r.msg == Some(
                            crate::message::MessageView::ChatToServer { token, text: args },
                        )
                    },
                    None => r.msg is None && r.print == Some(
                        "you must /register or /login first"@,
                    ),
                }
            }
            &&& cmd == "/quit"@ ==> {
                &&& d == c
                &&& r.print is None
                &&& r.msg is Some && r.msg->0 is Disconnect
                &&& c.token matches Some(token) ==> r.msg->0->Disconnect_token == token
                &&& c.token is None ==> r.msg->0->Disconnect_token.len() == 0
            }
            &&& cmd != "/register"@ && cmd != "/login"@ && cmd != "/start"@ && cmd != "/pos"@ && cmd
                != "/stats"@ && cmd != "/stats-range"@ && cmd != "/end"@ && cmd != "/chat"@ && cmd
                != "/quit"@ ==> d == c && r.msg is None && r.print == Some(
                "invalid command: "@ + cmd,
            )
        }),
{
    lemma_commands();
    let none = Seq::<char>::empty();
    crate::text::law_trimming(none, args, none);
    lemma_line(line, cmd, args);
}

/// Who is not logged in is told so, whatever is asked for: a start, a position,
/// statistics, an end, or a text to be sent.
pub proof fn law_told_to_log_in(
    c: ClientView,
    line: Seq<char>,
    cmd: Seq<char>,
    args: Seq<char>,
    now: i64,
    lat: Option<Double>,
    lon: Option<Double>,
)
    requires
        c.token is None,
        is_line(line, cmd, args),
        cmd == "/start"@ || cmd == "/pos"@ || cmd == "/stats"@ || cmd == "/stats-range"@ || cmd
            == "/end"@,
    ensures
        on_command(c, line, now, lat, lon) == (
            c,
            ReplyView { print: Some("you must /register or /login first"@), msg: None },
        ),
{
    lemma_commands();
    lemma_line(line, cmd, args);
}

/// White space around a line does not count. What is printed and sent is what the
/// command says. The end of a trip that is sent closes the trip and stops automatic
/// positions; a farewell makes the client leave, and nothing else does. A blank line does
/// nothing.
pub proof fn law_lines(
    c: ClientView,
    before: Seq<char>,
    command: Seq<char>,
    after: Seq<char>,
    now: i64,
    lat: Option<Double>,
    lon: Option<Double>,
)
    requires
        crate::text::blank(before),
        crate::text::tight(command),
        crate::text::blank(after),
    ensures
        ({
            let (d, t) = on_line(c, before + command + after, now, lat, lon);
            let (e, r) = on_command(c, command, now, lat, lon);
            if command.len() == 0 {
                d == c && t.print is None && t.msg is None && !t.quit
            } else {
                &&& t.print == r.print
                &&& t.msg == r.msg
                &&& t.quit <==> r.msg is Some && r.msg->0 is Disconnect
                &&& d.token == e.token && d.pos == e.pos
                &&& r.msg is Some && r.msg->0 is EndTrip ==> d.trip is None && !d.autopos
                &&& !(r.msg is Some && r.msg->0 is EndTrip) ==> d.trip == e.trip && d.autopos
                    == e.autopos
            }
        }),
{
    crate::text::law_trimming(before, command, after);
}

/// While a client is logged in, on a trip and sends positions by itself, the next one is
/// that of its trip, at the place and the time that are given; otherwise there is none.
pub proof fn law_automatic_positions(
    c: ClientView,
    lat: Double,
    lon: Double,
    now: i64,
    token: Seq<char>,
    trip_id: i64,
)
    ensures
        c.autopos && c.token == Some(token) && c.trip == Some(trip_id) ==> on_tick(c, lat, lon, now)
            == (
            ClientView { pos: (lat, lon), ..c },
            Some(crate::message::MessageView::Position { token, trip_id, lat, lon, ts: now }),
        ),
        !c.autopos || c.token is None || c.trip is None ==> on_tick(c, lat, lon, now) == (
            c,
            None::<crate::message::MessageView>,
        ),
{
}

/// What a client learns from the server: its token when it is let in, and its trip when
/// one has started; nothing else, and from no other message.
pub proof fn law_what_a_client_learns(c: ClientView, msg: crate::message::MessageView)
    ensures
        ({
            let d = ClientSession::informed(c, msg);
            &&& d.autopos == c.autopos && d.pos == c.pos
            &&& msg is AuthOk ==> d.token == Some(msg->AuthOk_token) && d.trip == c.trip
            &&& msg is TripStarted ==> d.trip == Some(msg->TripStarted_trip_id) && d.token == c.token
            &&& msg !is AuthOk && msg !is TripStarted ==> d == c
        }),
{
}

/// A client that is let in sends what it is asked to with the token that it was given, and
/// positions for the trip that it was told has started.
pub proof fn law_token_and_trip_are_used(
    c: ClientView,
    token: Seq<char>,
    trip_id: i64,
    lat: Double,
    lon: Double,
    place: (Double, Double),
    started: i64,
    now: i64,
)
    ensures
        ({
            let a = ClientSession::informed(c, crate::message::MessageView::AuthOk { token });
            let b = ClientSession::informed(
                a,
                crate::message::MessageView::TripStarted {
                    trip_id,
                    lat: place.0,
                    lon: place.1,
                    ts: started,
                },
            );
            on_command(b, "/pos"@, now, Some(lat), Some(lon)).1.msg == Some(
                crate::message::MessageView::Position { token, trip_id, lat, lon, ts: now },
            )
        }),
{
    lemma_commands();
    let none = Seq::<char>::empty();
    lemma_line("/pos"@, "/pos"@, none);
    crate::text::law_words(none, ' ', none, none);
    crate::text::law_trimming(none, none, none);
}

/// What is shown of a message, part by part.
pub proof fn law_what_is_shown(
    a: Seq<char>,
    b: Seq<char>,
    trip_id: int,
    ts: int,
    secs: int,
    msg: crate::message::MessageView,
)
    ensures
        shown(crate::message::MessageView::AuthOk { token: a }) == Some(
            "[server] AUTH_OK token="@ + a,
        ),
        shown(crate::message::MessageView::Error { code: a, message: b }) == Some(
            "[server] ERROR "@ + a + ": "@ + b,
        ),
        shown(crate::message::MessageView::Ack) == Some("[server] ACK"@),
        shown(crate::message::MessageView::ChatFromServer { from: Some(a), text: b }) == Some(
            "[chat from "@ + a + "] "@ + b,
        ),
        shown(crate::message::MessageView::ChatFromServer { from: None, text: b }) == Some(
            "[chat broadcast] "@ + b,
        ),
        shown(msg) is Some <==> msg is AuthOk || msg is Error || msg is Ack || msg is ChatFromServer,
        trip_text(trip_id, a, b, ts) == "[server] TRIP_STARTED id="@
            + crate::number::signed_decimal(trip_id) + " lat="@ + a + " lon="@ + b + " ts="@
            + crate::number::signed_decimal(ts),
        duration_line(a, secs) == a + crate::calendar::duration_text(secs) + " ("@
            + crate::number::signed_decimal(secs) + " s)\n"@,
{
}

/// The statistics on the screen: each number behind its own label.
pub proof fn law_statistics_on_the_screen(
    username: Seq<char>,
    points: int,
    from_ts: int,
    to_ts: int,
    distance: Seq<char>,
    movement: int,
    pause: int,
    total: int,
    mps: Seq<char>,
    kmh: Seq<char>,
)
    ensures
        ({
            let head = "[stats] user="@ + username + " points="@ + crate::number::signed_decimal(
                points,
            ) + " interval=["@ + crate::number::signed_decimal(from_ts) + ", "@
                + crate::number::signed_decimal(to_ts) + "]\n\tdistance: "@ + distance + " m\n"@;
            let times = duration_line("\tmovement: "@, movement) + duration_line(
                "\tpauses:     "@,
                pause,
            ) + duration_line("\ttotal:      "@, total);
            let tail = "\taverage speed: "@ + mps + " m/s = "@ + kmh + " km/h"@;
            statistics_text(
                username,
                points,
                from_ts,
                to_ts,
                distance,
                movement,
                pause,
                total,
                mps,
                kmh,
            ) =~= head + times + tail
        }),
{
}

/// A new client knows no token and no trip, sends no positions by itself, and is at 45
/// degrees north and 9 east; one that does send them does so every 30 seconds.
pub proof fn law_newcomers()
    ensures
        newcomer().token is None,
        newcomer().trip is None,
        !newcomer().autopos,
        newcomer().pos.0.is_whole(45),
        newcomer().pos.1.is_whole(9),
        AUTOPOS_SECS == 30,
{
    crate::double::law_constants();
}

/// The words that go with a command are all the words behind it, and the command is none
/// of them.
pub proof fn law_arguments(
    before: Seq<char>,
    line: Seq<char>,
    after: Seq<char>,
    cmd: Seq<char>,
    args: Seq<char>,
)
    requires
        crate::text::blank(before),
        crate::text::tight(line),
        crate::text::blank(after),
        plain(cmd),
        is_line(line, cmd, args),
    ensures
        argument_words(before + line + after) == crate::text::words(args),
{
    crate::text::law_trimming(before, line, after);
    lemma_line(line, cmd, args);
}

/// Any line can be taken at any time, but for `/stats`, which needs a week of room at
/// either end of what 64 bits can count.
pub proof fn law_what_can_be_taken(
    line: Seq<char>,
    cmd: Seq<char>,
    args: Seq<char>,
    now: i64,
)
    requires
        plain(cmd),
        is_line(line, cmd, args),
    ensures
        can_take(line, now) <==> cmd != "/stats"@ || i64::MIN + 604_800 <= now <= i64::MAX - 604_800,
{
    lemma_line(line, cmd, args);
}

} // verus!
