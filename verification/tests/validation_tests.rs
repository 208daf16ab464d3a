use grape_tasks::validation::{validate_gen_num, validate_seed_sequences, ValidationError};

const GOOD: &str = "ACGUACGUACGUACGUACGU";

#[test]
fn accepts_single_good_sequence() {
    assert_eq!(validate_seed_sequences(GOOD.as_bytes()), Ok(()));
}

#[test]
fn accepts_lowercase_and_mixed_case() {
    assert_eq!(validate_seed_sequences(b"acguacguacguacguacgu"), Ok(()));
    assert_eq!(validate_seed_sequences(b"AcGuAcGuAcGuAcGuAcGu"), Ok(()));
}

#[test]
fn accepts_blank_padding_and_empty_lines() {
    let text = format!("  {}  \r\n\n\t{}\t\n", GOOD, GOOD);
    assert_eq!(validate_seed_sequences(text.as_bytes()), Ok(()));
}

#[test]
fn accepts_empty_submission_text() {
    assert_eq!(validate_seed_sequences(b""), Ok(()));
    assert_eq!(validate_seed_sequences(b"\n\n  \n"), Ok(()));
}

#[test]
fn rejects_nineteen_character_line() {
    let r = validate_seed_sequences(b"ACGUACGUACGUACGUACG");
    assert_eq!(r, Err(ValidationError::WrongLength { line: 1, length: 19 }));
}

#[test]
fn rejects_twenty_one_character_line() {
    let r = validate_seed_sequences(b"ACGUACGUACGUACGUACGUA");
    assert_eq!(r, Err(ValidationError::WrongLength { line: 1, length: 21 }));
}

#[test]
fn rejects_bad_characters_before_length() {
    // A 19-character line with a bad character reports the characters.
    let r = validate_seed_sequences(b"ACGTACGTACGTACGTACG");
    assert_eq!(r, Err(ValidationError::InvalidCharacters { line: 1 }));
}

#[test]
fn reports_one_based_line_of_first_violation() {
    let text = format!("{}\n\n{}\nACGXACGUACGUACGUACGU\n", GOOD, GOOD);
    let r = validate_seed_sequences(text.as_bytes());
    // The empty line does not count: the bad line is the third token.
    assert_eq!(r, Err(ValidationError::InvalidCharacters { line: 3 }));
}

#[test]
fn accepts_exactly_ten_thousand_sequences() {
    let mut text = String::new();
    for _ in 0..10000 {
        text.push_str(GOOD);
        text.push('\n');
    }
    assert_eq!(validate_seed_sequences(text.as_bytes()), Ok(()));
}

#[test]
fn rejects_ten_thousand_and_one_sequences() {
    let mut text = String::new();
    for _ in 0..10001 {
        text.push_str(GOOD);
        text.push('\n');
    }
    let r = validate_seed_sequences(text.as_bytes());
    assert_eq!(r, Err(ValidationError::TooManySequences { count: 10001 }));
}

#[test]
fn gen_num_boundaries() {
    assert_eq!(validate_gen_num(b"1"), Ok(1));
    assert_eq!(validate_gen_num(b"10000"), Ok(10000));
    assert_eq!(
        validate_gen_num(b"0"),
        Err(ValidationError::GenNumOutOfRange { value: 0 })
    );
    assert_eq!(
        validate_gen_num(b"10001"),
        Err(ValidationError::GenNumOutOfRange { value: 10001 })
    );
}

#[test]
fn gen_num_ordinary_value() {
    assert_eq!(validate_gen_num(b"42"), Ok(42));
    assert_eq!(validate_gen_num(b"007"), Ok(7));
    assert_eq!(validate_gen_num(b"+10"), Ok(10));
    assert_eq!(validate_gen_num(b"+"), Err(ValidationError::NotANumber));
    assert_eq!(validate_gen_num(b"++1"), Err(ValidationError::NotANumber));
}

#[test]
fn gen_num_rejects_non_numbers() {
    assert_eq!(validate_gen_num(b""), Err(ValidationError::NotANumber));
    assert_eq!(validate_gen_num(b"abc"), Err(ValidationError::NotANumber));
    assert_eq!(validate_gen_num(b"12a"), Err(ValidationError::NotANumber));
    assert_eq!(validate_gen_num(b"-5"), Err(ValidationError::NotANumber));
    assert_eq!(validate_gen_num(b"1 "), Err(ValidationError::NotANumber));
}

#[test]
fn gen_num_rejects_overflowing_value() {
    assert_eq!(
        validate_gen_num(b"4294967296"),
        Err(ValidationError::NotANumber)
    );
    assert_eq!(
        validate_gen_num(b"99999999999999999999"),
        Err(ValidationError::NotANumber)
    );
}
