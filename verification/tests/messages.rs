//! Names, passwords, chat texts and samples.
use georuggine::connection::check_sample;
use georuggine::double::Double;
use georuggine::message::{
    error_message, validate_chat, validate_password, validate_username, Message, MAX_CHAT_LEN,
    MAX_PASSWORD_LEN, MAX_USERNAME_LEN,
};

fn dbl(v: f64) -> Double {
    Double { bits: v.to_bits() }
}

#[test]
fn validate_username_ok() {
    assert!(validate_username("mario").is_ok());
    assert!(validate_username("mario_99").is_ok());
    assert!(validate_username("mario-luigi").is_ok());
}

#[test]
fn validate_username_rejects_bad() {
    assert!(validate_username("").is_err());
    assert!(validate_username(&"x".repeat(MAX_USERNAME_LEN + 1)).is_err());
    assert!(validate_username("mario@dev").is_err());
    assert!(validate_username("mario rossi").is_err());
}

#[test]
fn validate_password_ok() {
    assert!(validate_password("secret").is_ok());
}

#[test]
fn validate_password_rejects_bad() {
    assert!(validate_password("abc").is_err());
    assert!(validate_password(&"x".repeat(MAX_PASSWORD_LEN + 1)).is_err());
}

#[test]
fn validate_chat_rejects_bad() {
    assert!(validate_chat("").is_err());
    assert!(validate_chat(&"x".repeat(MAX_CHAT_LEN + 1)).is_err());
}

#[test]
fn username_errors_in_words() {
    assert_eq!(validate_username(""), Err("empty username"));
    assert_eq!(validate_username(&"x".repeat(33)), Err("username too long"));
    assert_eq!(
        validate_username("perché"),
        Err("username: only alphanumeric characters, '_' or '-'")
    );
    assert_eq!(validate_username(&"x".repeat(32)), Ok(()));
    // Seventeen characters of two bytes each are too long before they are wrong.
    assert_eq!(validate_username(&"é".repeat(17)), Err("username too long"));
}

#[test]
fn lengths_are_counted_in_bytes() {
    assert_eq!(validate_password("éé"), Ok(()));
    assert_eq!(validate_password("é1"), Err("password too short (min 4)"));
    assert_eq!(validate_password(&"x".repeat(128)), Ok(()));
    assert_eq!(validate_password(&"x".repeat(129)), Err("password too long"));
    assert_eq!(validate_password(&"é".repeat(65)), Err("password too long"));
    assert_eq!(validate_chat(&"x".repeat(1024)), Ok(()));
    assert_eq!(validate_chat(&"é".repeat(513)), Err("message too long"));
    assert_eq!(validate_chat(""), Err("empty message"));
    assert_eq!(validate_chat(" "), Ok(()));
}

#[test]
fn an_error_carries_its_code_and_its_text() {
    assert_eq!(
        error_message("AUTH_FAILED", "invalid credentials"),
        Message::Error {
            code: "AUTH_FAILED".to_string(),
            message: "invalid credentials".to_string(),
        }
    );
}

#[test]
fn messages_are_equal_by_what_they_say() {
    let a = Message::StartTrip { token: "t".to_string(), lat: dbl(0.0), lon: dbl(9.0), ts: 1 };
    let b = Message::StartTrip { token: "t".to_string(), lat: dbl(-0.0), lon: dbl(9.0), ts: 1 };
    let c = Message::StartTrip { token: "t".to_string(), lat: dbl(f64::NAN), lon: dbl(9.0), ts: 1 };
    assert_eq!(a, b);
    assert_eq!(a, a.clone());
    assert_ne!(a, c);
    assert_ne!(c, c.clone());
    assert_ne!(a, Message::Ack);
}

#[test]
fn samples_lie_on_the_globe() {
    assert_eq!(check_sample(dbl(90.0), dbl(180.0), 1), Ok(()));
    assert_eq!(check_sample(dbl(-90.0), dbl(-180.0), 1), Ok(()));
    assert_eq!(check_sample(dbl(90.000001), dbl(0.0), 1), Err("coordinates out of range"));
    assert_eq!(check_sample(dbl(-90.000001), dbl(0.0), 1), Err("coordinates out of range"));
    assert_eq!(check_sample(dbl(0.0), dbl(180.1), 1), Err("coordinates out of range"));
    assert_eq!(check_sample(dbl(0.0), dbl(-180.1), 1), Err("coordinates out of range"));
    assert_eq!(check_sample(dbl(f64::NAN), dbl(0.0), 1), Err("coordinates out of range"));
    assert_eq!(check_sample(dbl(0.0), dbl(f64::INFINITY), 1), Err("coordinates out of range"));
    assert_eq!(check_sample(dbl(45.0), dbl(9.0), 0), Err("invalid timestamp"));
    assert_eq!(check_sample(dbl(45.0), dbl(9.0), -5), Err("invalid timestamp"));
}
