use kenlm::error::{failure, KenlmError, NulError};

fn nul_error(bytes: &[u8]) -> KenlmError {
    KenlmError::InteriorNul(NulError::check(bytes.to_vec()).unwrap_err())
}

#[test]
fn interior_nul_message_names_position() {
    assert_eq!(
        nul_error(b"0123456789ab\0").message(),
        "string contains an interior NUL byte: nul byte found in provided data at position: 12"
    );
    assert_eq!(
        nul_error(b"\0").message(),
        "string contains an interior NUL byte: nul byte found in provided data at position: 0"
    );

}

#[test]
fn load_and_mismatch_messages() {
    assert_eq!(KenlmError::Load("bad header".to_string()).message(), "bad header");
    assert_eq!(
        KenlmError::StateModelMismatch.message(),
        "KenLM state was created by a different model"
    );
}

#[test]
fn failure_replaces_empty_message() {
    assert!(matches!(failure(String::new()), KenlmError::Load(m) if m == "unknown KenLM error"));
    assert!(matches!(failure("boom".to_string()), KenlmError::Load(m) if m == "boom"));
}

#[test]
fn push_decimal_writes_numerals() {
    let mut text = String::from("n=");
    kenlm::error::push_decimal(&mut text, 9050);
    assert_eq!(text, "n=9050");
}

#[test]
fn nul_error_keeps_bytes_and_first_position() {
    let error = NulError::check(b"a\0b\0".to_vec()).unwrap_err();
    assert_eq!(error.nul_position(), 1);
    assert_eq!(error.clone().into_vec(), b"a\0b\0".to_vec());
    assert_eq!(NulError::check(b"ab".to_vec()).unwrap(), b"ab".to_vec());
}

#[test]
fn push_decimal_writes_large_numerals() {
    let mut text = String::new();
    kenlm::error::push_decimal(&mut text, usize::MAX);
    assert_eq!(text, usize::MAX.to_string());
}
