use std::str::FromStr;

use pg_task_scheduler::ids::{
    DeduplicationKey, IdentifierError, JobId, JobName, LeaseToken, RunId, WorkerId,
};

#[test]
fn empty_is_rejected() {
    assert_eq!(JobName::try_from(""), Err(IdentifierError::Empty));
    assert_eq!(WorkerId::try_from(""), Err(IdentifierError::Empty));
}

#[test]
fn whitespace_only_is_surrounding_whitespace() {
    assert_eq!(
        JobName::try_from("  "),
        Err(IdentifierError::SurroundingWhitespace)
    );
}

#[test]
fn leading_or_trailing_whitespace_is_rejected() {
    assert_eq!(
        JobName::try_from(" x"),
        Err(IdentifierError::SurroundingWhitespace)
    );
    assert_eq!(
        JobName::try_from("x "),
        Err(IdentifierError::SurroundingWhitespace)
    );
    assert_eq!(
        WorkerId::try_from(" x"),
        Err(IdentifierError::SurroundingWhitespace)
    );
}

#[test]
fn over_max_length_is_too_long() {
    let s = "x".repeat(256);
    assert_eq!(JobName::try_from(s.as_str()), Err(IdentifierError::TooLong));
    assert_eq!(WorkerId::try_from(s), Err(IdentifierError::TooLong));
}

#[test]
fn at_max_length_is_accepted() {
    let s = "x".repeat(255);
    assert!(JobName::try_from(s.as_str()).is_ok());
    assert!(WorkerId::try_from(s).is_ok());
}

#[test]
fn length_counts_chars_not_bytes() {
    let s = "é".repeat(255); // 255 chars, 510 bytes
    let name = JobName::try_from(s.as_str()).expect("255 chars is valid");
    assert_eq!(name.as_str(), s);
}

#[test]
fn valid_round_trips_via_as_str() {
    let name = JobName::try_from("my-job").unwrap();
    assert_eq!(name.as_str(), "my-job");
    assert!(JobName::try_from("my job").is_ok()); // interior spaces allowed
}

#[test]
fn from_str_delegates_to_try_from() {
    assert!(JobName::from_str("ok").is_ok());
    assert_eq!(JobName::from_str(""), Err(IdentifierError::Empty));
    assert!(WorkerId::from_str("ok").is_ok());
}

#[test]
fn exotic_whitespace_is_rejected_like_trim_does() {
    for c in [
        '\u{0009}', '\u{000b}', '\u{000d}', '\u{0020}', '\u{0085}', '\u{00a0}', '\u{1680}',
        '\u{2000}', '\u{200a}', '\u{2028}', '\u{2029}', '\u{202f}', '\u{205f}', '\u{3000}',
    ] {
        let padded = format!("x{c}");
        assert_ne!(padded.trim(), padded);
        assert_eq!(
            JobName::try_from(padded),
            Err(IdentifierError::SurroundingWhitespace)
        );
    }
    for c in ['\u{200b}', '\u{180e}', '\u{feff}', '\u{0000}', '\u{001f}'] {
        let odd = format!("{c}x");
        assert_eq!(odd.trim(), odd);
        assert!(JobName::try_from(odd).is_ok());
    }
}

#[test]
fn whitespace_outranks_length() {
    let s = format!(" {}", "x".repeat(300));
    assert_eq!(
        DeduplicationKey::try_from(s.as_str()),
        Err(IdentifierError::SurroundingWhitespace)
    );
    assert_eq!(DeduplicationKey::try_from("k").unwrap().as_str(), "k");
    assert_eq!(
        DeduplicationKey::try_from(String::new()),
        Err(IdentifierError::Empty)
    );
}

#[test]
fn identifier_messages() {
    assert_eq!(
        IdentifierError::Empty.to_string(),
        "identifier must not be empty"
    );
    assert_eq!(
        IdentifierError::SurroundingWhitespace.to_string(),
        "identifier must not have leading or trailing whitespace"
    );
    assert_eq!(
        IdentifierError::TooLong.to_string(),
        "identifier must be at most 255 characters"
    );
}

#[test]
fn generated_ids_are_random_uuids() {
    let a = RunId::generate();
    let b = RunId::generate();
    assert_ne!(a, b);
    for value in [a.0, b.0, JobId::generate().0, LeaseToken::generate().value()] {
        assert_eq!(uuid::Uuid::from_u128(value).get_version_num(), 4);
        assert_eq!(uuid::Uuid::from_u128(value).get_variant(), uuid::Variant::RFC4122);
    }
}

#[test]
fn stored_tokens_round_trip() {
    let token = LeaseToken::generate();
    assert_eq!(LeaseToken::from_stored(token.value()), token);
    assert_eq!(LeaseToken::from_stored(7).value(), 7);
}

#[test]
fn stored_names_are_not_validated_again() {
    assert_eq!(JobName::from_stored(" padded ".to_owned()).as_str(), " padded ");
    assert_eq!(WorkerId::from_stored(String::new()).as_str(), "");
    assert_eq!(DeduplicationKey::from_stored("k".to_owned()).as_str(), "k");
}
