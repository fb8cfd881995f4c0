use colour_ls::size::{format_bytes, FormatBoundsError};

const UNITS: [&str; 5] = ["B", "KiB", "MiB", "GiB", "TiB"];

#[test]
fn zero_bytes_uses_first_unit() {
    assert_eq!(format_bytes(0, 1024, &UNITS), Ok("0.0000 B".to_string()));
}

#[test]
fn size_equal_to_base_keeps_first_unit() {
    assert_eq!(format_bytes(1024, 1024, &UNITS), Ok("1024.0000 B".to_string()));
}

#[test]
fn size_above_base_moves_to_next_unit() {
    assert_eq!(format_bytes(1025, 1024, &UNITS), Ok("1.0000 KiB".to_string()));
    assert_eq!(format_bytes(1536, 1024, &UNITS), Ok("1.0000 KiB".to_string()));
    assert_eq!(format_bytes(2047, 1024, &UNITS), Ok("1.0000 KiB".to_string()));
}

#[test]
fn integer_division_truncates() {
    assert_eq!(
        format_bytes(5 * 1024 * 1024 + 1, 1024, &UNITS),
        Ok("5.0000 MiB".to_string())
    );
    assert_eq!(format_bytes(999, 1000, &UNITS), Ok("999.0000 B".to_string()));
    assert_eq!(format_bytes(99_999, 10, &UNITS), Ok("9.0000 TiB".to_string()));
    assert_eq!(format_bytes(123_456, 10, &UNITS), Err(FormatBoundsError));
}

#[test]
fn too_few_units_is_an_error() {
    assert_eq!(format_bytes(u64::MAX, 1024, &UNITS), Err(FormatBoundsError));
    assert_eq!(format_bytes(2000, 1024, &["B"]), Err(FormatBoundsError));
    assert_eq!(format_bytes(0, 1024, &[]), Err(FormatBoundsError));
    assert_eq!(format_bytes(1024, 1024, &["B"]), Ok("1024.0000 B".to_string()));
}
