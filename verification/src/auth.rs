//! Passwords, tokens, and the rules of login and registration.
use vstd::prelude::*;

use crate::message::{validate_password, validate_username, Message};
use crate::sessions::{get_user_by_token, try_insert_token, AuthStore};

verus! {

/// The cost with which passwords are hashed.
pub const BCRYPT_COST: u32 = 10;

/// Whether a text begins with a capital letter of ASCII.
pub open spec fn is_capitalized(t: Seq<char>) -> bool {
    t.len() > 0 && 'A' <= t[0] <= 'Z'
}

/// What can go wrong in hashing or in reading a hash.
#[verifier::external_type_specification]
#[verifier::external_body]
pub struct ExBcryptError(bcrypt::BcryptError);

/// What `bcrypt::verify` says of a password and a hash: whether the password is
/// the one that was hashed; nothing if the text is no hash.
pub uninterp spec fn bcrypt_verdict(password: Seq<char>, stored: Seq<char>) -> Option<bool>;

/// Calls `bcrypt::verify`. Its result depends on the password and the text alone;
/// it is an error where the text is no hash.
#[verifier::external_body]
fn bcrypt_verify(password: &str, stored: &str) -> (r: Result<bool, bcrypt::BcryptError>)
    ensures
        match r {
            Ok(same) => bcrypt_verdict(password@, stored@) == Some(same),
            Err(_) => bcrypt_verdict(password@, stored@) is None,
        },
{
    bcrypt::verify(password, stored)
}

/// How a hash of a cost begins: with the version and the cost.
pub open spec fn hash_header(cost: nat) -> Seq<char> {
    "$2b$"@ + crate::number::two_digits(cost) + "$"@
}

/// Calls `bcrypt::hash`. A hash that it makes is one that `bcrypt::verify` accepts
/// with the same password; it has 60 characters, of which the first tell the
/// version and the cost. It makes none for a cost outside 4 to 31, nor where the
/// system has no random numbers for the salt. Which of the possible hashes it
/// makes is left to chance.
#[verifier::external_body]
fn bcrypt_hash(password: &str, cost: u32) -> (r: Result<String, bcrypt::BcryptError>)
    ensures
        r matches Ok(h) ==> bcrypt_verdict(password@, h@) == Some(true),
        r matches Ok(h) ==> h@.len() == 60 && h@.take(7) == hash_header(cost as nat),
        cost < 4 || cost > 31 ==> r is Err,
{
    bcrypt::hash(password, cost)
}

/// The text of an error of `bcrypt`, as the `to_string` of `BcryptError` gives it. Of
/// the words it is only said that they begin with a capital letter.
#[verifier::external_body]
fn bcrypt_error_text(e: bcrypt::BcryptError) -> (r: String)
    ensures
        is_capitalized(r@),
{
    e.to_string()
}

/// A digit of the hexadecimal system, in lower case.
pub open spec fn is_hex(c: char) -> bool {
    '0' <= c <= '9' || 'a' <= c <= 'f'
}

/// The form of a random UUID (version 4): groups of 8, 4, 4, 4 and 12 digits with
/// hyphens between them, the version at the start of the third and the variant at
/// the start of the fourth.
pub open spec fn is_random_uuid(t: Seq<char>) -> bool {
    &&& t.len() == 36
    &&& t[8] == '-' && t[13] == '-' && t[18] == '-' && t[23] == '-'
    &&& t[14] == '4'
    &&& t[19] == '8' || t[19] == '9' || t[19] == 'a' || t[19] == 'b'
    &&& forall|i: int|
        0 <= i < 36 && i != 8 && i != 13 && i != 18 && i != 23 ==> is_hex(#[trigger] t[i])
}

/// Calls `uuid::Uuid::new_v4` and `to_string`: some random UUID. (Where the system
/// has no random numbers `new_v4` does not return.)
#[verifier::external_body]
fn random_uuid() -> (r: String)
    ensures
        is_random_uuid(r@),
{
    uuid::Uuid::new_v4().to_string()
}

/// Whether a password is accepted for a stored hash. A text that is no hash
/// accepts none.
pub open spec fn accepts(password: Seq<char>, stored: Seq<char>) -> bool {
    bcrypt_verdict(password, stored) == Some(true)
}

/// Whether a password matches a stored hash.
pub fn verify_password(password: &str, stored: &str) -> (r: bool)
    ensures
        r == accepts(password@, stored@),
{
    match bcrypt_verify(password, stored) {
        Ok(same) => same,
        Err(_) => false,
    }
}

/// What is wrong with the credentials in a message, when `fits` says whether the
/// password is that of the user (nothing if there is no such user).
pub open spec fn credentials_problem(
    msg: crate::message::MessageView,
    fits: Option<bool>,
) -> Option<Seq<char>> {
    if !(msg is Login) && !(msg is Register) {
        Some("invalid message"@)
    } else {
        match fits {
            None => Some("user not found"@),
            Some(true) => None,
            Some(false) => Some("invalid credentials"@),
        }
    }
}

/// Judges the credentials in a message, when it is known whether the password is
/// that of the user.
pub fn judge_credentials(msg: &Message, fits: Option<bool>) -> (r: Result<(), &'static str>)
    ensures
        match r {
            Ok(()) => credentials_problem(msg@, fits) is None,
            Err(e) => credentials_problem(msg@, fits) == Some(e@),
        },
{
    match msg {
        Message::Login { .. } => {},
        Message::Register { .. } => {},
        _ => {
            return Err("invalid message");
        },
    }
    match fits {
        None => Err("user not found"),
        Some(true) => Ok(()),
        Some(false) => Err("invalid credentials"),
    }
}

/// The password in a login or a registration.
pub open spec fn password_in(msg: crate::message::MessageView) -> Seq<char> {
    match msg {
        crate::message::MessageView::Login { password, .. } => password,
        crate::message::MessageView::Register { password, .. } => password,
        _ => Seq::empty(),
    }
}

/// Checks the credentials in a message against the hash that is stored for its
/// user, if there is one.
pub fn check_credentials(msg: &Message, stored: Option<&str>) -> (r: Result<(), &'static str>)
    ensures
        ({
            let fits = match stored {
                Some(h) => Some(accepts(password_in(msg@), h@)),
                None => None,
            };
            match r {
                Ok(()) => credentials_problem(msg@, fits) is None,
                Err(e) => credentials_problem(msg@, fits) == Some(e@),
            }
        }),
{
    let password: &String = match msg {
        Message::Login { password, .. } => password,
        Message::Register { password, .. } => password,
        _ => {
            return Err("invalid message");
        },
    };
    let fits = match stored {
        Some(h) => Some(verify_password(password.as_str(), h)),
        None => None,
    };
    judge_credentials(msg, fits)
}

/// What is recorded of a registration: its user and a hash of its password.
pub fn registration_row(msg: &Message, hashed: Result<String, String>) -> (r: Result<
    (String, String),
    String,
>)
    ensures
        match (msg@, hashed) {
            (crate::message::MessageView::Register { username, .. }, Ok(h)) => r is Ok && r->Ok_0.0@
                == username && r->Ok_0.1@ == h@,
            (crate::message::MessageView::Register { .. }, Err(e)) => r is Err && r->Err_0@ == e@,
            _ => r is Err && r->Err_0@ == "save_register: not a Register variant"@,
        },
{
    match msg {
        Message::Register { username, .. } => match hashed {
            Ok(h) => Ok((username.clone(), h)),
            Err(e) => Err(e),
        },
        _ => Err("save_register: not a Register variant".to_owned()),
    }
}

/// Whether a name and a hash are what is recorded of a message: its user, and a hash
/// of its password at the cost of the library.
pub open spec fn records(msg: crate::message::MessageView, name: Seq<char>, hash: Seq<char>) -> bool {
    &&& msg is Register
    &&& name == msg->Register_username
    &&& accepts(msg->Register_password, hash)
    &&& hash.len() == 60
    &&& hash.take(7) == hash_header(BCRYPT_COST as nat)
}

/// Hashes the password of a registration, and says what is to be recorded. Of the
/// error that comes where nothing can be hashed only the first letter is known: it
/// is never the error for a message that is no registration.
pub fn prepare_register(msg: &Message) -> (r: Result<(String, String), String>)
    ensures
        r matches Ok(row) ==> records(msg@, row.0@, row.1@),
        r is Err && r->Err_0@ == "save_register: not a Register variant"@ <==> !(msg@ is Register),
        msg@ is Register && r is Err ==> is_capitalized(r->Err_0@),
{
    proof {
        reveal_strlit("save_register: not a Register variant");
    }
    match msg {
        Message::Register { password, .. } => {
            let hashed = match bcrypt_hash(password.as_str(), BCRYPT_COST) {
                Ok(h) => Ok(h),
                Err(e) => Err(bcrypt_error_text(e)),
            };
            registration_row(msg, hashed)
        },
        _ => registration_row(msg, Err(String::new())),
    }
}

/// What came of recording a user.
pub enum SaveOutcome {
    Saved,
    /// There was a user of that name.
    Duplicate,
    Failed(String),
}

/// Ends a registration.
pub fn finish_register(outcome: SaveOutcome) -> (r: Result<(), String>)
    ensures
        match outcome {
            SaveOutcome::Saved => r is Ok,
            SaveOutcome::Duplicate => r is Err && r->Err_0@ == "user already exists"@,
            SaveOutcome::Failed(e) => r is Err && r->Err_0@ == e@,
        },
{
    match outcome {
        SaveOutcome::Saved => Ok(()),
        SaveOutcome::Duplicate => Err("user already exists".to_owned()),
        SaveOutcome::Failed(e) => Err(e),
    }
}

/// Whether a token is in no session.
pub fn is_free(store: &AuthStore, token: &str) -> (r: bool)
    ensures
        r == !store@.contains_key(token@),
{
    get_user_by_token(store, token).is_none()
}

/// A new token: a random UUID that is in no session. One is drawn after another
/// until one is free; only where 2^64 - 1 of them were in use there is none.
pub fn create_token(store: &AuthStore) -> (r: Option<String>)
    ensures
        r matches Some(t) ==> is_random_uuid(t@) && !store@.contains_key(t@),
        r is None ==> exists|t: Seq<char>| is_random_uuid(t) && #[trigger] store@.contains_key(t),
{
    let mut tries: u64 = 0;
    let ghost mut last: Seq<char> = Seq::empty();
    while tries < u64::MAX
        invariant
            tries > 0 ==> is_random_uuid(last) && store@.contains_key(last),
        decreases u64::MAX - tries,
    {
        let token = random_uuid();
        if is_free(store, token.as_str()) {
            return Some(token);
        }
        proof {
            last = token@;
        }
        tries += 1;
    }
    None
}

/// What is wrong with a name and a password.
pub open spec fn details_problem(username: Seq<char>, password: Seq<char>) -> Option<Seq<char>> {
    match crate::message::username_problem(username) {
        Some(e) => Some(e),
        None => crate::message::password_problem(password),
    }
}

/// What speaks against a login or a registration, when `exists` says whether the
/// user is known.
pub open spec fn lookup_problem(register: bool, exists: Result<bool, Seq<char>>) -> Option<
    Seq<char>,
> {
    match exists {
        Err(e) => Some(e),
        Ok(known) => if register && known {
            Some("user already exists"@)
        } else if !register && !known {
            Some("invalid credentials"@)
        } else {
            None
        },
    }
}

/// Checks a name and a password.
pub fn check_details(username: &str, password: &str) -> (r: Result<(), &'static str>)
    ensures
        match r {
            Ok(()) => details_problem(username@, password@) is None,
            Err(e) => details_problem(username@, password@) == Some(e@),
        },
{
    match validate_username(username) {
        Err(e) => Err(e),
        Ok(()) => validate_password(password),
    }
}

/// The result of something outside, with the characters of its error.
pub open spec fn outcome<T>(r: Result<T, String>) -> Result<T, Seq<char>> {
    match r {
        Ok(v) => Ok(v),
        Err(e) => Err(e@),
    }
}

/// Checks a lookup.
pub fn check_lookup(register: bool, exists: Result<bool, String>) -> (r: Result<(), String>)
    ensures
        match r {
            Ok(()) => lookup_problem(register, outcome(exists)) is None,
            Err(e) => lookup_problem(register, outcome(exists)) == Some(e@),
        },
{
    match exists {
        Err(e) => Err(e),
        Ok(known) => if register && known {
            Err("user already exists".to_owned())
        } else if !register && !known {
            Err("invalid credentials".to_owned())
        } else {
            Ok(())
        },
    }
}

/// What speaks against giving a user a session, first things first. `exists` says
/// whether the user is known; `entered` what speaks against the credentials, or
/// against recording the user.
pub open spec fn entry_problem(
    sessions: Map<Seq<char>, Seq<char>>,
    register: bool,
    username: Seq<char>,
    password: Seq<char>,
    exists: Result<bool, Seq<char>>,
    entered: Option<Seq<char>>,
) -> Option<Seq<char>> {
    match details_problem(username, password) {
        Some(e) => Some(e),
        None => match lookup_problem(register, exists) {
            Some(e) => Some(e),
            None => match entered {
                Some(e) => Some(e),
                None => if crate::sessions::logged_in(sessions, username) {
                    Some(crate::sessions::already_logged_in())
                } else {
                    None
                },
            },
        },
    }
}

/// Logs a user in with a new token. `exists` says whether the user is known,
/// `credentials` whether the password is the right one.
pub fn login(
    store: &mut AuthStore,
    msg: &Message,
    exists: Result<bool, String>,
    credentials: bool,
    token: &str,
) -> (r: Result<(String, String), String>)
    ensures
        ({
            let wrong = if credentials {
                None
            } else {
                Some("invalid credentials"@)
            };
            match msg@ {
                crate::message::MessageView::Login { username, password } => match entry_problem(
                    old(store)@,
                    false,
                    username,
                    password,
                    outcome(exists),
                    wrong,
                ) {
                    None => {
                        &&& r is Ok
                        &&& r->Ok_0.0@ == username
                        &&& r->Ok_0.1@ == token@
                        &&& final(store)@ == old(store)@.insert(token@, username)
                    },
                    Some(e) => r is Err && r->Err_0@ == e && *final(store) == *old(store),
                },
                _ => r is Err && r->Err_0@ == "invalid message"@ && *final(store) == *old(store),
            }
        }),
{
    match msg {
        Message::Login { username, password } => {
            let entered = if credentials {
                Ok(())
            } else {
                Err("invalid credentials".to_owned())
            };
            enter(store, false, username, password, exists, entered, token)
        },
        _ => Err("invalid message".to_owned()),
    }
}

/// Registers a user, who is logged in with a new token. `exists` says whether the
/// user is known, `saved` what came of recording the user.
pub fn register(
    store: &mut AuthStore,
    msg: &Message,
    exists: Result<bool, String>,
    saved: Result<(), String>,
    token: &str,
) -> (r: Result<(String, String), String>)
    ensures
        ({
            let unsaved = match saved {
                Ok(()) => None,
                Err(e) => Some(e@),
            };
            match msg@ {
                crate::message::MessageView::Register { username, password } => match entry_problem(
                    old(store)@,
                    true,
                    username,
                    password,
                    outcome(exists),
                    unsaved,
                ) {
                    None => {
                        &&& r is Ok
                        &&& r->Ok_0.0@ == username
                        &&& r->Ok_0.1@ == token@
                        &&& final(store)@ == old(store)@.insert(token@, username)
                    },
                    Some(e) => r is Err && r->Err_0@ == e && *final(store) == *old(store),
                },
                _ => r is Err && r->Err_0@ == "invalid message"@ && *final(store) == *old(store),
            }
        }),
{
    match msg {
        Message::Register { username, password } => enter(
            store,
            true,
            username,
            password,
            exists,
            saved,
            token,
        ),
        _ => Err("invalid message".to_owned()),
    }
}

fn enter(
    store: &mut AuthStore,
    register: bool,
    username: &String,
    password: &String,
    exists: Result<bool, String>,
    entered: Result<(), String>,
    token: &str,
) -> (r: Result<(String, String), String>)
    ensures
        ({
            let problem = entry_problem(
                old(store)@,
                register,
                username@,
                password@,
                outcome(exists),
                match entered {
                    Ok(()) => None,
                    Err(e) => Some(e@),
                },
            );
            match problem {
                None => {
                    &&& r is Ok
                    &&& r->Ok_0.0@ == username@
                    &&& r->Ok_0.1@ == token@
                    &&& final(store)@ == old(store)@.insert(token@, username@)
                },
                Some(e) => r is Err && r->Err_0@ == e && *final(store) == *old(store),
            }
        }),
{
    match check_details(username.as_str(), password.as_str()) {
        Err(e) => {
            return Err(e.to_owned());
        },
        Ok(()) => {},
    }
    match check_lookup(register, exists) {
        Err(e) => {
            return Err(e);
        },
        Ok(()) => {},
    }
    match entered {
        Err(e) => {
            return Err(e);
        },
        Ok(()) => {},
    }
    match try_insert_token(store, username.as_str(), token) {
        Err(e) => Err(e.to_owned()),
        Ok(()) => Ok((username.clone(), token.to_owned())),
    }
}

/// Who registers can log in: whatever [`prepare_register`] gives to record of a
/// registration, [`check_credentials`] finds nothing wrong with its name and password.
/// Any other password goes by the recorded hash alone: it is let in where `bcrypt`
/// accepts it for that hash, and is invalid otherwise.
pub proof fn law_registered_password_is_accepted(
    username: Seq<char>,
    password: Seq<char>,
    name: Seq<char>,
    hash: Seq<char>,
    other: Seq<char>,
)
    requires
        records(crate::message::MessageView::Register { username, password }, name, hash),
    ensures
        name == username,
        ({
            let login = crate::message::MessageView::Login { username, password };
            credentials_problem(login, Some(accepts(password_in(login), hash))) is None
        }),
        ({
            let login = crate::message::MessageView::Login { username, password: other };
            credentials_problem(login, Some(accepts(password_in(login), hash))) == if other
                == password || bcrypt_verdict(other, hash) == Some(true) {
                None
            } else {
                Some("invalid credentials"@)
            }
        }),
{
}

/// A user who is logged in is not let in a second time, whatever the credentials.
pub proof fn law_one_session_per_user(
    sessions: Map<Seq<char>, Seq<char>>,
    register: bool,
    username: Seq<char>,
    password: Seq<char>,
    exists: Result<bool, Seq<char>>,
    entered: Option<Seq<char>>,
)
    requires
        crate::sessions::logged_in(sessions, username),
    ensures
        entry_problem(sessions, register, username, password, exists, entered) is Some,
{
}

/// One of several attempts to register a name.
pub struct Attempt {
    pub password: Seq<char>,
    /// Whether the name was found on record when it was looked up.
    pub found: bool,
    /// The token that the attempt would be given.
    pub token: Seq<char>,
}

/// Where several attempts to register a name lead: the names on record, the
/// sessions, and what each attempt was answered: a token, or what speaks against it.
pub struct Race {
    pub record: Set<Seq<char>>,
    pub sessions: Map<Seq<char>, Seq<char>>,
    pub answers: Seq<Result<Seq<char>, Seq<char>>>,
}

/// What speaks against recording a name, which no record holds twice.
pub open spec fn saving_problem(record: Set<Seq<char>>, name: Seq<char>) -> Option<Seq<char>> {
    if record.contains(name) {
        Some("user already exists"@)
    } else {
        None
    }
}

/// The attempts in the order in which they come to record the name. Any of them may
/// have looked it up long before.
pub open spec fn race(
    record: Set<Seq<char>>,
    sessions: Map<Seq<char>, Seq<char>>,
    username: Seq<char>,
    attempts: Seq<Attempt>,
) -> Race
    decreases attempts.len(),
{
    if attempts.len() == 0 {
        Race { record, sessions, answers: Seq::empty() }
    } else {
        let before = race(record, sessions, username, attempts.drop_last());
        let a = attempts.last();
        let unrecorded = a.found || details_problem(username, a.password) is Some;
        let problem = entry_problem(
            before.sessions,
            true,
            username,
            a.password,
            Ok(a.found),
            saving_problem(before.record, username),
        );
        Race {
            record: if unrecorded {
                before.record
            } else {
                before.record.insert(username)
            },
            sessions: match problem {
                None => before.sessions.insert(a.token, username),
                Some(_) => before.sessions,
            },
            answers: before.answers.push(
                match problem {
                    None => Ok(a.token),
                    Some(e) => Err(e),
                },
            ),
        }
    }
}

/// Of several attempts to register a new name, however they overlap, exactly one is
/// let in: the first that comes to record it. Afterwards the name is on record, and
/// its one session is the one with the token that was given out.
pub proof fn law_one_registration_succeeds(
    record: Set<Seq<char>>,
    sessions: Map<Seq<char>, Seq<char>>,
    username: Seq<char>,
    attempts: Seq<Attempt>,
)
    requires
        attempts.len() > 0,
        !record.contains(username),
        !crate::sessions::logged_in(sessions, username),
        forall|i: int|
            0 <= i < attempts.len() ==> details_problem(
                username,
                (#[trigger] attempts[i]).password,
            ) is None,
        !attempts[0].found,
    ensures
        ({
            let r = race(record, sessions, username, attempts);
            &&& r.answers.len() == attempts.len()
            &&& r.answers[0] == Ok::<Seq<char>, Seq<char>>(attempts[0].token)
            &&& forall|i: int| 0 < i < attempts.len() ==> (#[trigger] r.answers[i]) is Err
            &&& r.record == record.insert(username)
            &&& r.sessions == sessions.insert(attempts[0].token, username)
            &&& crate::sessions::tokens_of(r.sessions, username) == set![attempts[0].token]
        }),
    decreases attempts.len(),
{
    let token = attempts[0].token;
    let r = race(record, sessions, username, attempts);
    let rest = attempts.drop_last();
    assert(details_problem(username, attempts[attempts.len() - 1].password) is None);
    if attempts.len() == 1 {
        assert(rest =~= Seq::<Attempt>::empty());
        assert(race(record, sessions, username, rest).sessions == sessions);
    } else {
        assert forall|i: int| 0 <= i < rest.len() implies details_problem(
            username,
            (#[trigger] rest[i]).password,
        ) is None by {
            assert(rest[i] == attempts[i]);
        }
        law_one_registration_succeeds(record, sessions, username, rest);
        let before = race(record, sessions, username, rest);
        assert(before.record.contains(username));
        assert(r.record =~= record.insert(username));
        assert forall|i: int| 0 < i < attempts.len() implies (#[trigger] r.answers[i]) is Err by {
            if i < rest.len() {
                assert(r.answers[i] == before.answers[i]);
            }
        }
    }
    assert(crate::sessions::tokens_of(r.sessions, username) =~= set![token]) by {
        assert forall|t: Seq<char>|
            crate::sessions::tokens_of(r.sessions, username).contains(t) <==> t == token by {
            if t != token && crate::sessions::tokens_of(r.sessions, username).contains(t) {
                assert(sessions.contains_key(t) && sessions[t] == username);
            }
        }
    }
}

/// When a user is let in: name and password are well formed, the user is known at a login
/// and new at a registration, the credentials are right or the user recorded, and there
/// is no session of the user yet.
pub proof fn law_who_is_let_in(
    sessions: Map<Seq<char>, Seq<char>>,
    register: bool,
    username: Seq<char>,
    password: Seq<char>,
    exists: Result<bool, Seq<char>>,
    entered: Option<Seq<char>>,
)
    ensures
        entry_problem(sessions, register, username, password, exists, entered) is None <==> {
            &&& crate::message::username_problem(username) is None
            &&& crate::message::password_problem(password) is None
            &&& exists == Ok::<bool, Seq<char>>(!register)
            &&& entered is None
            &&& forall|t: Seq<char>| #[trigger]
                sessions.contains_key(t) ==> sessions[t] != username
        },
{
}

/// What a user who is not let in is told: the first thing that speaks against it, the
/// name before the password, these before the record, and a session last of all.
pub proof fn law_what_is_said_first(
    sessions: Map<Seq<char>, Seq<char>>,
    username: Seq<char>,
    password: Seq<char>,
    register: bool,
    e: Seq<char>,
    exists: Result<bool, Seq<char>>,
    entered: Option<Seq<char>>,
)
    ensures
        ({
            let name = crate::message::username_problem(username);
            let pass = crate::message::password_problem(password);
            let said = entry_problem(sessions, register, username, password, exists, entered);
            &&& name is Some ==> said == name
            &&& name is None && pass is Some ==> said == pass
            &&& name is None && pass is None ==> {
                &&& exists == Err::<bool, Seq<char>>(e) ==> said == Some(e)
                &&& register && exists == Ok::<bool, Seq<char>>(true) ==> said == Some(
                    "user already exists"@,
                )
                &&& !register && exists == Ok::<bool, Seq<char>>(false) ==> said == Some(
                    "invalid credentials"@,
                )
                &&& exists == Ok::<bool, Seq<char>>(!register) && entered == Some(e) ==> said
                    == Some(e)
                &&& exists == Ok::<bool, Seq<char>>(!register) && entered is None
                    && crate::sessions::logged_in(sessions, username) ==> said == Some(
                    "user already logged in from another session"@,
                )
            }
            &&& details_problem(username, password) == if name is Some {
                name
            } else {
                pass
            }
        }),
{
}

/// What is recorded of a registration is the name as it was given and a hash of version
/// 2b and cost 10 that accepts the password.
pub proof fn law_what_is_recorded(
    username: Seq<char>,
    password: Seq<char>,
    name: Seq<char>,
    hash: Seq<char>,
)
    requires
        records(crate::message::MessageView::Register { username, password }, name, hash),
    ensures
        name == username,
        bcrypt_verdict(password, hash) == Some(true),
        hash.len() == 60,
        hash.take(7) == "$2b$10$"@,
{
    reveal_strlit("$2b$");
    reveal_strlit("$");
    reveal_strlit("$2b$10$");
    reveal_with_fuel(crate::number::decimal, 3);
    assert(crate::number::decimal(1) =~= seq!['1']);
    assert(crate::number::decimal(10) =~= seq!['1', '0']);
    assert(hash_header(10) =~= "$2b$10$"@);
}

/// How credentials are judged: a user who is not on record is not found; the others are
/// let in exactly if `bcrypt` accepts the password for the hash; other messages than
/// logins and registrations carry none.
pub proof fn law_credentials(
    username: Seq<char>,
    password: Seq<char>,
    hash: Seq<char>,
    other: crate::message::MessageView,
    fits: Option<bool>,
)
    requires
        other !is Login,
        other !is Register,
    ensures
        ({
            let login = crate::message::MessageView::Login { username, password };
            let registration = crate::message::MessageView::Register { username, password };
            let verdict = Some(accepts(password_in(login), hash));
            &&& password_in(login) == password && password_in(registration) == password
            &&& credentials_problem(login, None) == Some("user not found"@)
            &&& credentials_problem(login, verdict) == if bcrypt_verdict(password, hash) == Some(
                true,
            ) {
                None
            } else {
                Some("invalid credentials"@)
            }
            &&& credentials_problem(registration, fits) == credentials_problem(login, fits)
            &&& credentials_problem(other, fits) == Some("invalid message"@)
        }),
{
}

} // verus!
