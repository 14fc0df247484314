use server::range::{parse_single_range, ByteRange, RangeParseError, MAX_RANGE_HEADER_BYTES};

#[test]
fn parses_the_three_range_forms() {
    assert_eq!(parse_single_range("bytes=0-99"), Ok(ByteRange::Closed { start: 0, end: 99 }));
    assert_eq!(parse_single_range("bytes=100-"), Ok(ByteRange::OpenEnded { start: 100 }));
    assert_eq!(parse_single_range("bytes=-500"), Ok(ByteRange::Suffix { length: 500 }));
    assert_eq!(parse_single_range("bytes=7-7"), Ok(ByteRange::Closed { start: 7, end: 7 }));
}

#[test]
fn refuses_each_kind_of_bad_range() {
    assert_eq!(parse_single_range(""), Err(RangeParseError::Empty));
    assert_eq!(parse_single_range("bytes="), Err(RangeParseError::Empty));
    assert_eq!(parse_single_range("bytes=-"), Err(RangeParseError::Empty));
    let long = format!("bytes=0-{}", "9".repeat(MAX_RANGE_HEADER_BYTES));
    assert_eq!(parse_single_range(&long), Err(RangeParseError::TooLong));
    assert_eq!(parse_single_range("items=0-1"), Err(RangeParseError::UnsupportedUnit));
    assert_eq!(parse_single_range("bytes=0-1,4-5"), Err(RangeParseError::MultipleRanges));
    assert_eq!(parse_single_range("bytes0-1"), Err(RangeParseError::InvalidSyntax));
    assert_eq!(parse_single_range("bytes=12"), Err(RangeParseError::InvalidSyntax));
    assert_eq!(parse_single_range("bytes=a-1"), Err(RangeParseError::NonDigit));
    assert_eq!(parse_single_range("bytes=+1-2"), Err(RangeParseError::NonDigit));
    assert_eq!(
        parse_single_range("bytes=18446744073709551616-"),
        Err(RangeParseError::Overflow)
    );
    assert_eq!(parse_single_range("bytes=9-3"), Err(RangeParseError::Reversed));
    assert_eq!(parse_single_range("bytes=-0"), Err(RangeParseError::ZeroSuffix));
}

#[test]
fn largest_position_is_accepted() {
    assert_eq!(
        parse_single_range("bytes=18446744073709551615-"),
        Ok(ByteRange::OpenEnded { start: u64::MAX })
    );
}

#[test]
fn range_header_round_trips() {
    for range in [
        ByteRange::Closed { start: 0, end: 99 },
        ByteRange::OpenEnded { start: 42 },
        ByteRange::Suffix { length: 1 },
        ByteRange::Closed { start: u64::MAX, end: u64::MAX },
    ] {
        assert_eq!(parse_single_range(&range.to_string()), Ok(range));
    }
    assert_eq!(ByteRange::Closed { start: 5, end: 10 }.to_string(), "bytes=5-10");
    assert_eq!(ByteRange::OpenEnded { start: 5 }.to_string(), "bytes=5-");
    assert_eq!(ByteRange::Suffix { length: 5 }.to_string(), "bytes=-5");
}
