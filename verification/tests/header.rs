use seismology::error::{NameSyntaxError, StationError};
use seismology::header::parse_header;

#[test]
fn test_parse_header() {
    let header_text = "Foo bar=\"1\" test=\"2\"";
    let map = parse_header(header_text).unwrap();
    assert_eq!(map.len(), 2);
    assert_eq!(map.get("bar").map(|s| s.as_str()), Some("1"));
    assert_eq!(map.get("test").map(|s| s.as_str()), Some("2"));
}

#[test]
fn header_without_attributes_is_empty() {
    assert_eq!(parse_header("Station").unwrap().len(), 0);
}

#[test]
fn header_allows_spaces_around_equals() {
    let map = parse_header("Tag  a = \"x y\"").unwrap();
    assert_eq!(map.get("a").map(|s| s.as_str()), Some("x y"));
}

#[test]
fn header_later_attribute_replaces_earlier() {
    let map = parse_header("Tag a=\"1\" a=\"2\"").unwrap();
    assert_eq!(map.len(), 1);
    assert_eq!(map.get("a").map(|s| s.as_str()), Some("2"));
}

#[test]
fn header_missing_equals_is_an_error() {
    match parse_header("Tag a b=\"1\"") {
        Err(StationError::InvalidNameSyntax(NameSyntaxError::ExpectedEquals { got })) => {
            assert_eq!(got, 'b')
        }
        _ => panic!("expected a missing '='"),
    }
}

#[test]
fn header_unquoted_value_is_an_error() {
    assert!(matches!(
        parse_header("Tag a=1"),
        Err(StationError::NeedNameQuotes)
    ));
}

#[test]
fn a_written_header_reads_back() {
    let map = parse_header("Channel code=\"BHZ\" locationCode=\"\" code=\"BHN\"").unwrap();
    assert_eq!(map.len(), 2);
    assert_eq!(map.get("code").map(|s| s.as_str()), Some("BHN"));
    assert_eq!(map.get("locationCode").map(|s| s.as_str()), Some(""));
}
