use error_handling::history::HistoryCause;
use error_handling::password::{RawPassword, ValidationError, MIN_PASS_LEN};

fn no_history() -> Result<Vec<u128>, HistoryCause> {
    Ok(Vec::new())
}

#[test]
fn empty_password_is_reported_before_same_as_username() {
    let r = RawPassword::new_password("", "", 20210225, no_history());
    assert_eq!(r.err(), Some(ValidationError::EmptyPassword));
}

#[test]
fn empty_password_is_reported_before_missing_history() {
    let r = RawPassword::new_password("caleb", "", 1, Err(HistoryCause::NotFound));
    assert_eq!(r.err(), Some(ValidationError::EmptyPassword));
}

#[test]
fn short_passwords_are_too_short_whatever_they_hold() {
    for pass in ["1", "1!", "12!", "123!", "a1!b", "    ", "cale", "\u{e9}1!a"] {
        let r = RawPassword::new_password("caleb", pass, 20210225, no_history());
        assert_eq!(r.err(), Some(ValidationError::TooShort { required: 5 }), "{}", pass);
    }
}

#[test]
fn short_password_equal_to_username_is_too_short() {
    let r = RawPassword::new_password("a1!", "a1!", 7, no_history());
    assert_eq!(r.err(), Some(ValidationError::TooShort { required: MIN_PASS_LEN }));
}

#[test]
fn length_counts_characters_not_bytes() {
    // four characters in six bytes
    let r = RawPassword::new_password("caleb", "\u{e9}\u{e9}1!", 1, no_history());
    assert_eq!(r.err(), Some(ValidationError::TooShort { required: 5 }));
    // five characters
    let r = RawPassword::new_password("caleb", "\u{e9}\u{e9}\u{e9}1!", 1, no_history());
    assert!(r.is_ok());
}

#[test]
fn password_without_digit_is_rejected() {
    let r = RawPassword::new_password("caleb", "abcdef!", 20210225, no_history());
    assert_eq!(r.err(), Some(ValidationError::MissingDigit));
    // neither digit nor punctuation: the digit is asked for first
    let r = RawPassword::new_password("caleb", "abcdefg", 20210225, no_history());
    assert_eq!(r.err(), Some(ValidationError::MissingDigit));
    // a digit of another script is no ASCII digit
    let r = RawPassword::new_password("caleb", "abcde\u{663}!", 20210225, no_history());
    assert_eq!(r.err(), Some(ValidationError::MissingDigit));
}

#[test]
fn password_without_punctuation_is_rejected() {
    let r = RawPassword::new_password("caleb", "1234567", 20210225, no_history());
    assert_eq!(r.err(), Some(ValidationError::MissingSpecialChar));
    let r = RawPassword::new_password("caleb", "abc 123", 20210225, no_history());
    assert_eq!(r.err(), Some(ValidationError::MissingSpecialChar));
}

#[test]
fn password_equal_to_username_is_rejected() {
    let r = RawPassword::new_password("caleb1!", "caleb1!", 20210225, no_history());
    assert_eq!(r.err(), Some(ValidationError::SameAsUsername));
}

#[test]
fn username_without_digit_equal_to_password_fails_on_the_digit() {
    let r = RawPassword::new_password("caleb!", "caleb!", 20210225, no_history());
    assert_eq!(r.err(), Some(ValidationError::MissingDigit));
}

#[test]
fn good_password_with_empty_history_is_accepted() {
    let r = RawPassword::new_password("caleb", "1234567!", 20210225, no_history());
    let made = r.ok().expect("accepted");
    assert_eq!(made.user(), "caleb");
    assert_eq!(made.pass(), "1234567!");
    assert_eq!(made.salt(), "20210225");
    assert_eq!(made.hash(), 85);
}

#[test]
fn good_password_absent_from_history_is_accepted() {
    let r = RawPassword::new_password("caleb", "1234567!", 20210225, Ok(vec![1, 84, 86, 850]));
    assert!(r.is_ok());
}

#[test]
fn good_password_present_in_history_was_previously_used() {
    let r = RawPassword::new_password("caleb", "1234567!", 20210225, Ok(vec![1, 84, 85]));
    assert_eq!(r.err(), Some(ValidationError::PreviouslyUsed));
    let r = RawPassword::new_password("caleb", "1234567!", 20210225, Ok(vec![85]));
    assert_eq!(r.err(), Some(ValidationError::PreviouslyUsed));
}

#[test]
fn missing_history_is_reported_with_its_cause() {
    for cause in [
        HistoryCause::NotFound,
        HistoryCause::PermissionDenied,
        HistoryCause::IoError,
        HistoryCause::ParseError,
        HistoryCause::Timeout,
    ] {
        let r = RawPassword::new_password("caleb", "1234567!", 20210225, Err(cause));
        assert_eq!(r.err(), Some(ValidationError::HistoryUnavailable { cause }));
    }
}

#[test]
fn structural_failure_is_reported_before_missing_history() {
    let r = RawPassword::new_password("caleb", "1234567", 1, Err(HistoryCause::NotFound));
    assert_eq!(r.err(), Some(ValidationError::MissingSpecialChar));
}

#[test]
fn fingerprint_weighs_byte_lengths() {
    // user: 2 bytes, password: 6 bytes, salt "0": 1 byte
    let made = RawPassword::new_password("\u{e9}", "12345!", 0, no_history()).ok().unwrap();
    assert_eq!(made.hash(), 2 + 3 * 6 + 7);
    // salt of three digits
    let made = RawPassword::new_password("", "12345!", 100, no_history()).ok().unwrap();
    assert_eq!(made.salt(), "100");
    assert_eq!(made.hash(), 3 * 6 + 7 * 3);
}

#[test]
fn validate_is_good_reports_the_first_failure() {
    assert_eq!(RawPassword::validate_is_good("u", ""), Err(ValidationError::EmptyPassword));
    assert_eq!(
        RawPassword::validate_is_good("u", "1!"),
        Err(ValidationError::TooShort { required: 5 })
    );
    assert_eq!(RawPassword::validate_is_good("u", "abcde"), Err(ValidationError::MissingDigit));
    assert_eq!(
        RawPassword::validate_is_good("u", "abcd1"),
        Err(ValidationError::MissingSpecialChar)
    );
    assert_eq!(
        RawPassword::validate_is_good("abc1!", "abc1!"),
        Err(ValidationError::SameAsUsername)
    );
    assert_eq!(RawPassword::validate_is_good("abc1!x", "abc1!"), Ok(()));
    assert_eq!(RawPassword::validate_is_good("caleb", "1234567!"), Ok(()));
}

#[test]
fn validate_is_not_past_password_searches_the_whole_history() {
    let made = RawPassword::new_password("caleb", "1234567!", 20210225, no_history()).ok().unwrap();
    assert_eq!(made.validate_is_not_past_password(&[]), Ok(()));
    assert_eq!(made.validate_is_not_past_password(&[84, 86]), Ok(()));
    assert_eq!(
        made.validate_is_not_past_password(&[85, 1]),
        Err(ValidationError::PreviouslyUsed)
    );
    assert_eq!(
        made.validate_is_not_past_password(&[1, 2, 3, 85]),
        Err(ValidationError::PreviouslyUsed)
    );
}
