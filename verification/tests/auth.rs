//! Passwords, tokens, login and registration.
use georuggine::auth::{
    check_credentials, check_details, check_lookup, create_token, finish_register, is_free,
    judge_credentials, login, prepare_register, register, registration_row, verify_password,
    SaveOutcome,
};
use georuggine::message::Message;
use georuggine::sessions::{get_user_by_token, invalidate_token, AuthStore};
use std::collections::HashMap;

/// The users on record, and the sessions.
struct World {
    hashes: HashMap<String, String>,
    sessions: AuthStore,
}

impl World {
    fn new() -> Self {
        World { hashes: HashMap::new(), sessions: AuthStore::new() }
    }

    fn key_exists(&self, msg: &Message) -> bool {
        match msg {
            Message::Login { username, .. } | Message::Register { username, .. } => {
                self.hashes.contains_key(username)
            }
            _ => false,
        }
    }

    fn save_register(&mut self, msg: &Message) -> Result<(), String> {
        let (username, hash) = prepare_register(msg)?;
        let outcome = if self.hashes.contains_key(&username) {
            SaveOutcome::Duplicate
        } else {
            self.hashes.insert(username, hash);
            SaveOutcome::Saved
        };
        finish_register(outcome)
    }

    fn check_credentials(&self, msg: &Message) -> Result<(), &'static str> {
        let stored = match msg {
            Message::Login { username, .. } | Message::Register { username, .. } => {
                self.hashes.get(username)
            }
            _ => None,
        };
        check_credentials(msg, stored.map(|h| h.as_str()))
    }

    fn login(&mut self, msg: &Message) -> Result<(String, String), String> {
        let exists = self.key_exists(msg);
        let right = self.check_credentials(msg).is_ok();
        let token = create_token(&self.sessions).unwrap();
        login(&mut self.sessions, msg, Ok(exists), right, &token)
    }

    fn register(&mut self, msg: &Message) -> Result<(String, String), String> {
        let exists = self.key_exists(msg);
        let saved = if exists { Ok(()) } else { self.save_register(msg) };
        let token = create_token(&self.sessions).unwrap();
        register(&mut self.sessions, msg, Ok(exists), saved, &token)
    }
}

fn reg(username: &str, password: &str) -> Message {
    Message::Register { username: username.into(), password: password.into() }
}

fn log(username: &str, password: &str) -> Message {
    Message::Login { username: username.into(), password: password.into() }
}

#[test]
fn register_and_check_credentials_ok() {
    let mut w = World::new();
    w.save_register(&reg("mario", "secret")).unwrap();
    assert!(w.key_exists(&log("mario", "secret")));
    assert!(w.check_credentials(&log("mario", "secret")).is_ok());
    assert!(w.check_credentials(&log("mario", "wrong")).is_err());
}

#[test]
fn duplicate_save_register_fails() {
    let mut w = World::new();
    w.save_register(&reg("luigi", "secret")).unwrap();
    assert!(w.save_register(&reg("luigi", "secret")).is_err());
}

#[test]
fn register_new_user_returns_token() {
    let mut w = World::new();
    let (user, token) = w.register(&reg("mario", "secret")).expect("register");
    assert_eq!(user, "mario");
    assert!(!token.is_empty());
}

#[test]
fn register_duplicate_user_returns_error() {
    let mut w = World::new();
    w.register(&reg("mario", "secret")).unwrap();
    assert_eq!(w.register(&reg("mario", "secret")), Err("user already exists".to_string()));
}

#[test]
fn register_with_wrong_message_returns_error() {
    let mut w = World::new();
    assert!(w.register(&log("mario", "secret")).is_err());
}

#[test]
fn login_ok_returns_token() {
    let mut w = World::new();
    let (_, t0) = w.register(&reg("mario", "secret")).unwrap();
    // Simulate a "disconnect" before the re-login (single-session policy).
    invalidate_token(&mut w.sessions, &t0);
    let (user, token) = w.login(&log("mario", "secret")).unwrap();
    assert_eq!(user, "mario");
    assert!(!token.is_empty());
}

#[test]
fn second_login_from_another_session_fails() {
    let mut w = World::new();
    w.register(&reg("mario", "secret")).unwrap();
    let err = w.login(&log("mario", "secret")).unwrap_err();
    assert!(err.contains("already logged in"), "expected single-session error, got: {err}");
}

#[test]
fn login_nonexistent_user_returns_error() {
    let mut w = World::new();
    assert_eq!(w.login(&log("ghost", "secret")), Err("invalid credentials".to_string()));
}

#[test]
fn login_wrong_password_returns_error() {
    let mut w = World::new();
    w.register(&reg("mario", "secret")).unwrap();
    assert_eq!(w.login(&log("mario", "wrongpass")), Err("invalid credentials".to_string()));
}

#[test]
fn login_with_wrong_message_returns_error() {
    let mut w = World::new();
    assert_eq!(w.login(&reg("mario", "secret")), Err("invalid message".to_string()));
}

#[test]
fn two_different_registrations_have_different_tokens() {
    let mut w = World::new();
    let (_, t1) = w.register(&reg("mario", "secret")).unwrap();
    let (_, t2) = w.register(&reg("luigi", "secret")).unwrap();
    assert_ne!(t1, t2);
}

#[test]
fn token_generated_and_valid_in_session() {
    let mut w = World::new();
    let (_, token) = w.register(&reg("mario", "secret")).unwrap();
    assert_eq!(get_user_by_token(&w.sessions, &token), Some("mario".to_string()));
}

#[test]
fn hashes_of_other_tools_are_accepted() {
    let hash = "$2b$04$EGdrhbKUv8Oc9vGiXX0HQOxSg445d458Muh7DAHskb6QbtCvdxcie";
    assert!(verify_password("correctbatteryhorsestapler", hash));
    assert!(!verify_password("wrong", hash));
    assert!(!verify_password("correctbatteryhorsestapler", "no hash at all"));
    assert!(!verify_password("", ""));
}

#[test]
fn a_hash_is_not_the_password() {
    let (name, hash) = prepare_register(&reg("mario", "secret")).unwrap();
    assert_eq!(name, "mario");
    assert!(hash.starts_with("$2b$10$"));
    assert_eq!(hash.len(), 60);
    assert!(!hash.contains("secret"));
    assert!(verify_password("secret", &hash));
}

#[test]
fn tokens_are_random_uuids() {
    let store = AuthStore::new();
    let token = create_token(&store).unwrap();
    assert_eq!(token.len(), 36);
    for (i, c) in token.chars().enumerate() {
        match i {
            8 | 13 | 18 | 23 => assert_eq!(c, '-'),
            14 => assert_eq!(c, '4'),
            19 => assert!("89ab".contains(c)),
            _ => assert!(c.is_ascii_digit() || ('a'..='f').contains(&c)),
        }
    }
    assert!(is_free(&store, &token));
    assert_ne!(create_token(&store), Some(token));
}

#[test]
fn errors_of_the_credentials() {
    assert_eq!(judge_credentials(&log("a", "b"), None), Err("user not found"));
    assert_eq!(judge_credentials(&log("a", "b"), Some(false)), Err("invalid credentials"));
    assert_eq!(judge_credentials(&reg("a", "b"), Some(true)), Ok(()));
    assert_eq!(judge_credentials(&Message::Ack, Some(true)), Err("invalid message"));
    assert_eq!(check_credentials(&Message::Ack, None), Err("invalid message"));
    assert_eq!(check_credentials(&log("a", "b"), None), Err("user not found"));
}

#[test]
fn errors_of_the_registration() {
    assert_eq!(
        prepare_register(&Message::Ack),
        Err("save_register: not a Register variant".to_string())
    );
    assert_eq!(
        registration_row(&reg("mario", "secret"), Err("no luck".to_string())),
        Err("no luck".to_string())
    );
    assert_eq!(
        registration_row(&reg("mario", "secret"), Ok("hash".to_string())),
        Ok(("mario".to_string(), "hash".to_string()))
    );
    assert_eq!(finish_register(SaveOutcome::Saved), Ok(()));
    assert_eq!(finish_register(SaveOutcome::Duplicate), Err("user already exists".to_string()));
    assert_eq!(
        finish_register(SaveOutcome::Failed("disk full".to_string())),
        Err("disk full".to_string())
    );
}

#[test]
fn first_things_first() {
    let mut s = AuthStore::new();
    assert_eq!(
        login(&mut s, &log("", "x"), Ok(false), false, "t"),
        Err("empty username".to_string())
    );
    assert_eq!(
        login(&mut s, &log("mario", "x"), Ok(false), false, "t"),
        Err("password too short (min 4)".to_string())
    );
    assert_eq!(
        login(&mut s, &log("mario", "secret"), Err("locked".to_string()), false, "t"),
        Err("locked".to_string())
    );
    assert_eq!(
        register(&mut s, &reg("mario", "secret"), Ok(true), Ok(()), "t"),
        Err("user already exists".to_string())
    );
    assert_eq!(
        register(&mut s, &reg("mario", "secret"), Ok(false), Err("locked".to_string()), "t"),
        Err("locked".to_string())
    );
    assert_eq!(
        register(&mut s, &reg("mario", "secret"), Ok(false), Ok(()), "t"),
        Ok(("mario".to_string(), "t".to_string()))
    );
    assert_eq!(check_details("mario", "secret"), Ok(()));
    assert_eq!(check_details("a b", "secret"), Err("username: only alphanumeric characters, '_' or '-'"));
    assert_eq!(check_lookup(false, Ok(true)), Ok(()));
    assert_eq!(check_lookup(true, Ok(false)), Ok(()));
}

#[test]
fn of_several_registrations_one_is_let_in() {
    let mut s = AuthStore::new();
    let mut recorded = false;
    let mut given = Vec::new();
    // The last looks the name up after it was recorded, the others before.
    for (i, found) in [false, false, false, true].into_iter().enumerate() {
        let outcome = if recorded { SaveOutcome::Duplicate } else { SaveOutcome::Saved };
        recorded = true;
        let token = format!("t{i}");
        let saved = finish_register(outcome);
        match register(&mut s, &reg("duplicate", "secret"), Ok(found), saved, &token) {
            Ok((user, token)) => given.push((user, token)),
            Err(e) => assert_eq!(e, "user already exists"),
        }
    }
    assert_eq!(given, vec![("duplicate".to_string(), "t0".to_string())]);
    assert_eq!(get_user_by_token(&s, "t0"), Some("duplicate".to_string()));
}

#[test]
fn what_cannot_be_hashed_is_told_from_what_is_no_registration() {
    let no_registration = prepare_register(&Message::Ack).unwrap_err();
    assert_eq!(no_registration, "save_register: not a Register variant");
    for e in [
        bcrypt::hash("secret", 3).unwrap_err(),
        bcrypt::hash("secret", 32).unwrap_err(),
        bcrypt::verify("secret", "no hash").unwrap_err(),
        bcrypt::verify("secret", &"x".repeat(60)).unwrap_err(),
    ] {
        let words = e.to_string();
        assert!(words.starts_with(|c: char| c.is_ascii_uppercase()), "{words}");
        assert_ne!(words, no_registration);
    }
}
