use rig::formatting::{format_duration, format_table_row, format_table_separator};

#[test]
fn test_format_duration() {
    assert_eq!(format_duration(30), "30s");
    assert_eq!(format_duration(90), "1m 30s");
    assert_eq!(format_duration(3661), "1h 1m");
    assert_eq!(format_duration(90061), "1d 1h");
}

#[test]
fn test_format_duration_boundaries() {
    assert_eq!(format_duration(0), "0s");
    assert_eq!(format_duration(59), "59s");
    assert_eq!(format_duration(60), "1m 0s");
    assert_eq!(format_duration(3599), "59m 59s");
    assert_eq!(format_duration(3600), "1h 0m");
    assert_eq!(format_duration(86399), "23h 59m");
    assert_eq!(format_duration(86400), "1d 0h");
}

#[test]
fn test_format_table_row() {
    assert_eq!(format_table_row(&["ab", "c"], &[4, 3]), "ab   | c  ");
    assert_eq!(format_table_row(&["name", "x"], &[2, 1]), "name | x");
    assert_eq!(format_table_row(&[], &[3]), "");
    assert_eq!(format_table_row(&["a"], &[]), "");
    assert_eq!(format_table_row(&["solo"], &[6]), "solo  ");
}

#[test]
fn test_format_table_separator() {
    assert_eq!(format_table_separator(&[2, 3]), "---+----");
    assert_eq!(format_table_separator(&[1]), "-");
    assert_eq!(format_table_separator(&[]), "");
    assert_eq!(format_table_separator(&[0, 0]), "-+-");
}
