use kenlm::commands::{argument_bytes, exit_code};
use kenlm::error::KenlmError;

#[test]
fn exit_code_clamps_status() {
    assert_eq!(exit_code(0), 0);
    assert_eq!(exit_code(7), 7);
    assert_eq!(exit_code(255), 255);
    assert_eq!(exit_code(256), 255);
    assert_eq!(exit_code(-3), 0);
    assert_eq!(exit_code(i32::MAX), 255);
}

#[test]
fn argument_bytes_converts_every_argument() {
    let args = vec!["lmplz".to_string(), "-o".to_string(), "5".to_string()];
    let bytes = argument_bytes(&args).unwrap();
    assert_eq!(bytes, vec![b"lmplz".to_vec(), b"-o".to_vec(), b"5".to_vec()]);
}

#[test]
fn argument_bytes_stops_at_first_nul() {
    let args = vec!["query".to_string(), "a\0b".to_string(), "\0".to_string()];
    match argument_bytes(&args) {
        Err(KenlmError::InteriorNul(e)) => {
            assert_eq!(e.nul_position(), 1);
            assert_eq!(e.as_bytes(), b"a\0b");
        }
        _ => panic!("expected an interior NUL error"),
    }
}
