use dicomscan::matrix::{DicomAcqMatrix, MatrixParseError};

#[test]
fn parse_valid_zero_outer_pattern() {
    let m = DicomAcqMatrix::parse("0\\64\\64\\0").unwrap();
    assert_eq!(m.extract_pair(), (64, 64));
}

#[test]
fn parse_valid_zero_inner_pattern() {
    let m = DicomAcqMatrix::parse("128\\0\\0\\256").unwrap();
    assert_eq!(m.extract_pair(), (128, 256));
}

#[test]
fn parse_rejects_no_zero_pattern() {
    let r = DicomAcqMatrix::parse("1\\2\\3\\4");
    assert_eq!(r.unwrap_err(), MatrixParseError::BadPattern);
}

#[test]
fn parse_rejects_wrong_arity() {
    let r = DicomAcqMatrix::parse("1\\2\\3");
    assert_eq!(r.unwrap_err(), MatrixParseError::WrongArity);
}

#[test]
fn parse_rejects_five_parts() {
    let r = DicomAcqMatrix::parse("0\\1\\1\\0\\0");
    assert_eq!(r.unwrap_err(), MatrixParseError::WrongArity);
}

#[test]
fn parse_rejects_non_number() {
    let r = DicomAcqMatrix::parse("a\\64\\64\\0");
    assert_eq!(r.unwrap_err(), MatrixParseError::BadNumber);
}

#[test]
fn parse_rejects_empty_part() {
    let r = DicomAcqMatrix::parse("0\\\\64\\0");
    assert_eq!(r.unwrap_err(), MatrixParseError::BadNumber);
}

#[test]
fn parse_rejects_value_over_u32() {
    let r = DicomAcqMatrix::parse("0\\4294967296\\64\\0");
    assert_eq!(r.unwrap_err(), MatrixParseError::BadNumber);
}

#[test]
fn parse_accepts_max_u32() {
    let m = DicomAcqMatrix::parse("0\\4294967295\\64\\0").unwrap();
    assert_eq!(m.extract_pair(), (4294967295, 64));
}

#[test]
fn parse_trims_whitespace_and_accepts_plus_sign() {
    let m = DicomAcqMatrix::parse(" 0 \\ +64\\64 \\0").unwrap();
    assert_eq!(m.extract_pair(), (64, 64));
}

#[test]
fn parse_all_zero_uses_second_and_third() {
    let m = DicomAcqMatrix::parse("0\\0\\0\\0").unwrap();
    assert_eq!(m.extract_pair(), (0, 0));
}
