use ttml_processor::timestamp::{format_timestamp, parse_timestamp};

#[test]
fn test_format_timestamp() {
    assert_eq!(format_timestamp(1152), "1.152");
    assert_eq!(format_timestamp(46), "0.046");
    assert_eq!(format_timestamp(10254), "10.254");
    assert_eq!(format_timestamp(0), "0.000");
    assert_eq!(format_timestamp(1000), "1.000");
    assert_eq!(format_timestamp(500), "0.500");
    assert_eq!(format_timestamp(10), "0.010");
    assert_eq!(format_timestamp(100), "0.100");

    assert_eq!(format_timestamp(216_120), "3:36.120");
    assert_eq!(format_timestamp(60000), "1:00.000");

    assert_eq!(format_timestamp(3_816_120), "1:03:36.120");
}

#[test]
fn test_parse_timestamp() {
    assert_eq!(parse_timestamp(b"1.152").unwrap(), 1152);
    assert_eq!(parse_timestamp(b"0.046").unwrap(), 46);
    assert_eq!(parse_timestamp(b"10.254").unwrap(), 10254);

    assert_eq!(parse_timestamp(b"3:36.120").unwrap(), 216_120);
    assert_eq!(parse_timestamp(b"1:00").unwrap(), 60000);

    assert_eq!(parse_timestamp(b"1:03:36.120").unwrap(), 3_816_120);

    assert!(parse_timestamp(b"invalid").is_none());
}
