use dactor::vm::dactor_base::{read_u64, DactorBase, ParseDactorError};
use dactor::vm::wire::word_at;

fn word(n: u64) -> Vec<u8> {
    n.to_le_bytes().to_vec()
}

fn container(programs: &[(u64, u64)], blob: &[u8]) -> Vec<u8> {
    let mut bytes = word(programs.len() as u64);
    for (start, end) in programs {
        bytes.extend(word(*start));
        bytes.extend(word(*end));
    }
    bytes.extend_from_slice(blob);
    bytes
}

fn parse_error(bytes: &[u8]) -> ParseDactorError {
    match DactorBase::parse(bytes) {
        Ok(_) => panic!("the container was read"),
        Err(e) => e,
    }
}

#[test]
fn word_at_reads_least_significant_byte_first() {
    let bytes = [0xff, 0x01, 0x02, 0x03, 0x04, 0x05, 0x06, 0x07, 0x08, 0xff];
    assert_eq!(word_at(&bytes, 1), 0x0807060504030201);
    assert_eq!(word_at(&[0xff; 8], 0), u64::MAX);
    assert_eq!(word_at(&[0; 8], 0), 0);
}

#[test]
fn read_u64_takes_eight_bytes_off_the_front() {
    let bytes = [0x2a, 0, 0, 0, 0, 0, 0, 0, 9, 8];
    let mut rest: &[u8] = &bytes;
    assert_eq!(read_u64(&mut rest), Ok(42));
    assert_eq!(rest, &[9, 8]);
    assert_eq!(read_u64(&mut rest), Err(ParseDactorError::UnexpectedEOF));
    assert_eq!(rest, &[9, 8]);
}

#[test]
fn parse_reads_programs_and_blob() {
    let bytes = container(&[(0, 3), (3, 5)], &[10, 11, 12, 13, 14]);
    let base = DactorBase::parse(&bytes).unwrap();
    assert_eq!(base.programs, vec![(0, 3), (3, 5)]);
    assert_eq!(base.actor_code, vec![10, 11, 12, 13, 14]);
}

#[test]
fn parse_takes_offsets_from_the_start_of_the_blob() {
    // The header is 24 bytes long and the blob 2: an end offset of 3 would
    // lie within the container but beyond the blob.
    let bytes = container(&[(0, 3)], &[1, 2]);
    assert_eq!(parse_error(&bytes), ParseDactorError::ProgramOutOfRange(3));
    let bytes = container(&[(0, 2)], &[1, 2]);
    assert!(DactorBase::parse(&bytes).is_ok());
}

#[test]
fn parse_accepts_an_empty_table() {
    let base = DactorBase::parse(&container(&[], &[7, 7])).unwrap();
    assert!(base.programs.is_empty());
    assert_eq!(base.actor_code, vec![7, 7]);
    let base = DactorBase::parse(&container(&[], &[])).unwrap();
    assert!(base.programs.is_empty());
    assert!(base.actor_code.is_empty());
}

#[test]
fn parse_fails_on_a_short_count() {
    assert_eq!(parse_error(&[]), ParseDactorError::UnexpectedEOF);
    assert_eq!(parse_error(&[1, 0, 0, 0, 0, 0, 0]), ParseDactorError::UnexpectedEOF);
}

#[test]
fn parse_fails_on_a_short_table() {
    let mut bytes = container(&[(0, 0), (0, 0)], &[]);
    bytes.pop();
    assert_eq!(parse_error(&bytes), ParseDactorError::UnexpectedEOF);
    let bytes = word(1);
    assert_eq!(parse_error(&bytes), ParseDactorError::UnexpectedEOF);
    let bytes = word(u64::MAX);
    assert_eq!(parse_error(&bytes), ParseDactorError::UnexpectedEOF);
}

#[test]
fn parse_reports_a_short_table_before_any_offset() {
    // The first program is out of range, but the table itself is cut short.
    let mut bytes = container(&[(900, 901), (0, 0)], &[]);
    bytes.pop();
    assert_eq!(parse_error(&bytes), ParseDactorError::UnexpectedEOF);
}

#[test]
fn parse_names_the_first_offset_beyond_the_blob() {
    let blob = [0u8; 4];
    assert_eq!(
        parse_error(&container(&[(5, 9)], &blob)),
        ParseDactorError::ProgramOutOfRange(5)
    );
    assert_eq!(
        parse_error(&container(&[(1, 9)], &blob)),
        ParseDactorError::ProgramOutOfRange(9)
    );
    assert_eq!(
        parse_error(&container(&[(0, 4), (2, 7), (8, 9)], &blob)),
        ParseDactorError::ProgramOutOfRange(7)
    );
}

#[test]
fn parse_accepts_offsets_at_the_end_of_the_blob() {
    let base = DactorBase::parse(&container(&[(4, 4)], &[0u8; 4])).unwrap();
    assert_eq!(base.programs, vec![(4, 4)]);
}

#[test]
fn parse_does_not_ask_that_a_program_starts_before_it_ends() {
    let base = DactorBase::parse(&container(&[(3, 1)], &[0u8; 4])).unwrap();
    assert_eq!(base.programs, vec![(3, 1)]);
}
