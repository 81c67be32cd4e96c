//! The messages between server and clients, and the rules for what they carry.
use vstd::prelude::*;

use crate::double::Double;
use crate::text::chars_of;

verus! {

/// The greatest length of a username, in bytes.
pub const MAX_USERNAME_LEN: usize = 32;

/// The greatest length of a password, in bytes.
pub const MAX_PASSWORD_LEN: usize = 128;

/// The greatest length of a chat text, in bytes.
pub const MAX_CHAT_LEN: usize = 1024;

/// A message of the protocol.
#[derive(Debug, Clone, PartialEq)]
pub enum Message {
    Register { username: String, password: String },
    Login { username: String, password: String },
    AuthOk { token: String },
    StartTrip { token: String, lat: Double, lon: Double, ts: i64 },
    TripStarted { trip_id: i64, lat: Double, lon: Double, ts: i64 },
    Position { token: String, trip_id: i64, lat: Double, lon: Double, ts: i64 },
    EndTrip { token: String, trip_id: i64, ts: i64 },
    /// Asks for statistics over the seconds from `from_ts` to `to_ts`.
    Stats { token: String, from_ts: i64, to_ts: i64 },
    StatsResult {
        username: String,
        from_ts: i64,
        to_ts: i64,
        distance_m: Double,
        movement_secs: i64,
        pause_secs: i64,
        total_secs: i64,
        avg_speed_mps: Double,
        avg_speed_kmh: Double,
        points: i64,
    },
    Ack,
    Error { code: String, message: String },
    /// A chat text from a client to the server.
    ChatToServer { token: String, text: String },
    /// A chat text from the server to a client. Without a sender it is an
    /// announcement.
    ChatFromServer { from: Option<String>, text: String },
    Disconnect { token: String },
}

/// What a [`Message`] says.
#[verifier::ext_equal]
pub enum MessageView {
    Register { username: Seq<char>, password: Seq<char> },
    Login { username: Seq<char>, password: Seq<char> },
    AuthOk { token: Seq<char> },
    StartTrip { token: Seq<char>, lat: Double, lon: Double, ts: i64 },
    TripStarted { trip_id: i64, lat: Double, lon: Double, ts: i64 },
    Position { token: Seq<char>, trip_id: i64, lat: Double, lon: Double, ts: i64 },
    EndTrip { token: Seq<char>, trip_id: i64, ts: i64 },
    Stats { token: Seq<char>, from_ts: i64, to_ts: i64 },
    StatsResult {
        username: Seq<char>,
        from_ts: i64,
        to_ts: i64,
        distance_m: Double,
        movement_secs: i64,
        pause_secs: i64,
        total_secs: i64,
        avg_speed_mps: Double,
        avg_speed_kmh: Double,
        points: i64,
    },
    Ack,
    Error { code: Seq<char>, message: Seq<char> },
    ChatToServer { token: Seq<char>, text: Seq<char> },
    ChatFromServer { from: Option<Seq<char>>, text: Seq<char> },
    Disconnect { token: Seq<char> },
}

/// The characters of an optional text.
pub open spec fn optional_text(t: Option<String>) -> Option<Seq<char>> {
    match t {
        Some(s) => Some(s@),
        None => None,
    }
}

impl View for Message {
    type V = MessageView;

    open spec fn view(&self) -> MessageView {
        match *self {
            Message::Register { username, password } => MessageView::Register {
                username: username@,
                password: password@,
            },
            Message::Login { username, password } => MessageView::Login {
                username: username@,
                password: password@,
            },
            Message::AuthOk { token } => MessageView::AuthOk { token: token@ },
            Message::StartTrip { token, lat, lon, ts } => MessageView::StartTrip {
                token: token@,
                lat,
                lon,
                ts,
            },
            Message::TripStarted { trip_id, lat, lon, ts } => MessageView::TripStarted {
                trip_id,
                lat,
                lon,
                ts,
            },
            Message::Position { token, trip_id, lat, lon, ts } => MessageView::Position {
                token: token@,
                trip_id,
                lat,
                lon,
                ts,
            },
            Message::EndTrip { token, trip_id, ts } => MessageView::EndTrip {
                token: token@,
                trip_id,
                ts,
            },
            Message::Stats { token, from_ts, to_ts } => MessageView::Stats {
                token: token@,
                from_ts,
                to_ts,
            },
            Message::StatsResult {
                username,
                from_ts,
                to_ts,
                distance_m,
                movement_secs,
                pause_secs,
                total_secs,
                avg_speed_mps,
                avg_speed_kmh,
                points,
            } => MessageView::StatsResult {
                username: username@,
                from_ts,
                to_ts,
                distance_m,
                movement_secs,
                pause_secs,
                total_secs,
                avg_speed_mps,
                avg_speed_kmh,
                points,
            },
            Message::Ack => MessageView::Ack,
            Message::Error { code, message } => MessageView::Error {
                code: code@,
                message: message@,
            },
            Message::ChatToServer { token, text } => MessageView::ChatToServer {
                token: token@,
                text: text@,
            },
            Message::ChatFromServer { from, text } => MessageView::ChatFromServer {
                from: optional_text(from),
                text: text@,
            },
            Message::Disconnect { token } => MessageView::Disconnect { token: token@ },
        }
    }
}

/// An error message.
pub open spec fn error_view(code: Seq<char>, message: Seq<char>) -> MessageView {
    MessageView::Error { code, message }
}

/// Makes an error message.
pub fn error_message(code: &str, message: &str) -> (r: Message)
    ensures
        r@ == error_view(code@, message@),
{
    Message::Error { code: code.to_owned(), message: message.to_owned() }
}

/// The length of a text in bytes.
pub open spec fn byte_len(s: Seq<char>) -> nat {
    vstd::utf8::encode_utf8(s).len()
}

/// The characters that a username may hold: letters and digits of ASCII, `_`
/// and `-`.
pub open spec fn is_name_char(c: char) -> bool {
    ||| 'a' <= c <= 'z'
    ||| 'A' <= c <= 'Z'
    ||| '0' <= c <= '9'
    ||| c == '_'
    ||| c == '-'
}

/// What is wrong with a username; nothing if it is fine.
pub open spec fn username_problem(u: Seq<char>) -> Option<Seq<char>> {
    if u.len() == 0 {
        Some("empty username"@)
    } else if byte_len(u) > MAX_USERNAME_LEN {
        Some("username too long"@)
    } else if exists|i: int| 0 <= i < u.len() && !is_name_char(#[trigger] u[i]) {
        Some("username: only alphanumeric characters, '_' or '-'"@)
    } else {
        None
    }
}

/// What is wrong with a password; nothing if it is fine.
pub open spec fn password_problem(p: Seq<char>) -> Option<Seq<char>> {
    if byte_len(p) < 4 {
        Some("password too short (min 4)"@)
    } else if byte_len(p) > MAX_PASSWORD_LEN {
        Some("password too long"@)
    } else {
        None
    }
}

/// What is wrong with a chat text; nothing if it is fine.
pub open spec fn chat_problem(t: Seq<char>) -> Option<Seq<char>> {
    if t.len() == 0 {
        Some("empty message"@)
    } else if byte_len(t) > MAX_CHAT_LEN {
        Some("message too long"@)
    } else {
        None
    }
}

fn name_char(c: char) -> (r: bool)
    ensures
        r == is_name_char(c),
{
    ('a' <= c && c <= 'z') || ('A' <= c && c <= 'Z') || ('0' <= c && c <= '9') || c == '_' || c
        == '-'
}

/// Checks a username.
pub fn validate_username(u: &str) -> (r: Result<(), &'static str>)
    ensures
        match r {
            Ok(()) => username_problem(u@) is None,
            Err(e) => username_problem(u@) == Some(e@),
        },
{
    let cs = chars_of(u);
    if cs.len() == 0 {
        return Err("empty username");
    }
    if u.as_bytes().len() > MAX_USERNAME_LEN {
        return Err("username too long");
    }
    let mut i: usize = 0;
    while i < cs.len()
        invariant
            cs@ == u@,
            u@.len() > 0,
            byte_len(u@) <= MAX_USERNAME_LEN,
            i <= cs@.len(),
            forall|k: int| 0 <= k < i ==> is_name_char(#[trigger] u@[k]),
        decreases cs@.len() - i,
    {
        if !name_char(cs[i]) {
            assert(!is_name_char(u@[i as int]));
            return Err("username: only alphanumeric characters, '_' or '-'");
        }
        i += 1;
    }
    Ok(())
}

/// Checks a password.
pub fn validate_password(p: &str) -> (r: Result<(), &'static str>)
    ensures
        match r {
            Ok(()) => password_problem(p@) is None,
            Err(e) => password_problem(p@) == Some(e@),
        },
{
    let n: usize = p.as_bytes().len();
    if n < 4 {
        return Err("password too short (min 4)");
    }
    if n > MAX_PASSWORD_LEN {
        return Err("password too long");
    }
    Ok(())
}

/// Checks a chat text.
pub fn validate_chat(t: &str) -> (r: Result<(), &'static str>)
    ensures
        match r {
            Ok(()) => chat_problem(t@) is None,
            Err(e) => chat_problem(t@) == Some(e@),
        },
{
    let n: usize = t.as_bytes().len();
    proof {
        lemma_empty_bytes(t@);
    }
    if n == 0 {
        return Err("empty message");
    }
    if n > MAX_CHAT_LEN {
        return Err("message too long");
    }
    Ok(())
}

/// Only the empty text has no bytes.
proof fn lemma_empty_bytes(t: Seq<char>)
    ensures
        byte_len(t) == 0 <==> t.len() == 0,
{
    vstd::utf8::encode_utf8_decode_utf8(t);
    if byte_len(t) == 0 {
        assert(vstd::utf8::encode_utf8(t) == Seq::<u8>::empty());
        assert(vstd::utf8::decode_utf8(Seq::<u8>::empty()).len() == 0);
    }
}

/// A username is fine exactly if it is made of 1 to 32 of the permitted
/// characters.
pub proof fn law_usernames(u: Seq<char>)
    ensures
        username_problem(u) is None <==> 1 <= u.len() <= MAX_USERNAME_LEN && forall|i: int|
            0 <= i < u.len() ==> is_name_char(#[trigger] u[i]),
{
    if forall|i: int| 0 <= i < u.len() ==> is_name_char(#[trigger] u[i]) {
        assert(vstd::utf8::is_ascii_chars(u));
        vstd::utf8::is_ascii_chars_encode_utf8(u);
    }
}

/// A name is made of letters and digits of ASCII, `_` and `-`: the characters with these
/// numbers.
pub proof fn law_name_characters(c: char)
    ensures
        is_name_char(c) <==> {
            ||| 48 <= c as u32 <= 57
            ||| 65 <= c as u32 <= 90
            ||| 97 <= c as u32 <= 122
            ||| c as u32 == 95
            ||| c as u32 == 45
        },
{
}

/// The limits of names, passwords and chat texts, in bytes, and the words for what is
/// wrong: a name has 1 to 32, a password 4 to 128, a chat text 1 to 1024.
pub proof fn law_limits(t: Seq<char>)
    ensures
        byte_len(t) == vstd::utf8::encode_utf8(t).len(),
        username_problem(t) is None ==> 1 <= byte_len(t) <= 32,
        t.len() == 0 ==> username_problem(t) == Some("empty username"@),
        byte_len(t) > 32 ==> username_problem(t) == Some("username too long"@),
        1 <= byte_len(t) <= 32 && (exists|i: int|
            0 <= i < t.len() && !is_name_char(#[trigger] t[i])) ==> username_problem(t) == Some(
            "username: only alphanumeric characters, '_' or '-'"@,
        ),
        1 <= byte_len(t) <= 32 && (forall|i: int|
            0 <= i < t.len() ==> is_name_char(#[trigger] t[i])) ==> username_problem(t) is None,
        password_problem(t) is None <==> 4 <= byte_len(t) <= 128,
        byte_len(t) < 4 ==> password_problem(t) == Some("password too short (min 4)"@),
        byte_len(t) > 128 ==> password_problem(t) == Some("password too long"@),
        chat_problem(t) is None <==> 1 <= byte_len(t) <= 1_024,
        byte_len(t) == 0 ==> chat_problem(t) == Some("empty message"@),
        byte_len(t) > 1_024 ==> chat_problem(t) == Some("message too long"@),
{
    lemma_empty_bytes(t);
}

/// A message is seen with every part under its own name.
pub proof fn law_messages_are_seen_as_they_are(m: Message)
    ensures
        match m {
            Message::Register { username, password } => m@ == (MessageView::Register {
                username: username@,
                password: password@,
            }),
            Message::Login { username, password } => m@ == (MessageView::Login {
                username: username@,
                password: password@,
            }),
            Message::AuthOk { token } => m@ == (MessageView::AuthOk { token: token@ }),
            Message::StartTrip { token, lat, lon, ts } => m@ == (MessageView::StartTrip {
                token: token@,
                lat,
                lon,
                ts,
            }),
            Message::TripStarted { trip_id, lat, lon, ts } => m@ == (MessageView::TripStarted {
                trip_id,
                lat,
                lon,
                ts,
            }),
            Message::Position { token, trip_id, lat, lon, ts } => m@ == (MessageView::Position {
                token: token@,
                trip_id,
                lat,
                lon,
                ts,
            }),
            Message::EndTrip { token, trip_id, ts } => m@ == (MessageView::EndTrip {
                token: token@,
                trip_id,
                ts,
            }),
            Message::Stats { token, from_ts, to_ts } => m@ == (MessageView::Stats {
                token: token@,
                from_ts,
                to_ts,
            }),
            Message::StatsResult { .. } => {
                &&& m@ is StatsResult
                &&& m@->StatsResult_username == m->StatsResult_username@
                &&& m@->StatsResult_from_ts == m->StatsResult_from_ts
                &&& m@->StatsResult_to_ts == m->StatsResult_to_ts
                &&& m@->StatsResult_distance_m == m->StatsResult_distance_m
                &&& m@->StatsResult_movement_secs == m->StatsResult_movement_secs
                &&& m@->StatsResult_pause_secs == m->StatsResult_pause_secs
                &&& m@->StatsResult_total_secs == m->StatsResult_total_secs
                &&& m@->StatsResult_avg_speed_mps == m->StatsResult_avg_speed_mps
                &&& m@->StatsResult_avg_speed_kmh == m->StatsResult_avg_speed_kmh
                &&& m@->StatsResult_points == m->StatsResult_points
            },
            Message::Ack => m@ is Ack,
            Message::Error { code, message } => m@ == (MessageView::Error {
                code: code@,
                message: message@,
            }),
            Message::ChatToServer { token, text } => m@ == (MessageView::ChatToServer {
                token: token@,
                text: text@,
            }),
            Message::ChatFromServer { from: Some(f), text } => m@ == (MessageView::ChatFromServer {
                from: Some(f@),
                text: text@,
            }),
            Message::ChatFromServer { from: None, text } => m@ == (MessageView::ChatFromServer {
                from: None,
                text: text@,
            }),
            Message::Disconnect { token } => m@ == (MessageView::Disconnect { token: token@ }),
        },
{
}

} // verus!
