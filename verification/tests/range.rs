use vod2pod_rss::range::{parse_range_header, range_bounds, RangeError};

#[test]
fn test_get_start_and_end_start_to_end() {
    let content_range_str = "bytes=0-99";
    let bytes_count = 100;
    let (start, end, expected) = parse_range_header(content_range_str, bytes_count).unwrap();
    assert_eq!((start, end, expected), (0, 99, 100));
}

#[test]
fn test_get_start_and_end_middle1_to_middle2() {
    let content_range_str = "bytes=50-199";
    let bytes_count = 200;
    let (start, end, expected) = parse_range_header(content_range_str, bytes_count).unwrap();
    assert_eq!((start, end, expected), (50, 199, 150));
}

#[test]
fn test_get_start_and_end_middle_to_undefined() {
    let content_range_str = "bytes=100-";
    let bytes_count = 200;
    let (start, end, expected) = parse_range_header(content_range_str, bytes_count).unwrap();
    assert_eq!((start, end, expected), (100, 199, 100));
}

#[test]
fn test_get_start_and_end_start_to_undefined() {
    let content_range_str = "bytes=0-";
    let bytes_count = 200;
    let (start, end, expected) = parse_range_header(content_range_str, bytes_count).unwrap();
    assert_eq!((start, end, expected), (0, 199, 200));
}

#[test]
fn range_without_a_number_is_refused() {
    assert_eq!(parse_range_header("bytes=", 10), Err(RangeError::NoRange));
    assert_eq!(RangeError::NoRange.message(), "content range regex failed");
}

#[test]
fn range_with_a_huge_number_is_refused() {
    let header = "bytes=99999999999999999999-";
    assert_eq!(range_bounds(header, 10), Err(RangeError::TooLarge));
    assert_eq!(range_bounds("bytes=1-99999999999999999999", 10), Err(RangeError::TooLarge));
    assert_eq!(
        RangeError::TooLarge.message(),
        "99999999999999999999".parse::<u64>().unwrap_err().to_string()
    );
}

#[test]
fn range_of_an_empty_stream_is_refused() {
    let refused = Err(RangeError::Empty("bytes=0-5".to_string()));
    assert_eq!(parse_range_header("bytes=0-5", 0), refused);
    assert_eq!(
        RangeError::Empty("bytes=0-5".to_string()).message(),
        "The requested Rage header with a length of 0 is invalid: bytes=0-5"
    );
}

#[test]
fn range_of_one_byte_is_refused() {
    assert_eq!(parse_range_header("bytes=5-5", 10), Err(RangeError::Empty("bytes=5-5".to_string())));
    assert_eq!(parse_range_header("bytes=9-", 10), Err(RangeError::Empty("bytes=9-".to_string())));
}

#[test]
fn range_digits_split_as_the_expression_captures_them() {
    // Twenty digits are the first number; what follows directly is the second one.
    assert_eq!(range_bounds("0000000000000000000712", 100), Ok((7, 12)));
    assert_eq!(range_bounds("x 3 - 8", 100), Ok((3, 99)));
    assert_eq!(range_bounds("3-8-9", 100), Ok((3, 8)));
    assert_eq!(range_bounds("bytes=70-60", 100), Ok((70, 60)));
}
