use osuparse::{parse_version_string, ParseState};

#[test]
fn test_parse_version_string() {
    let mut state = ParseState::new(r"osu file format v14");

    let version = parse_version_string(&mut state).unwrap();

    assert_eq!(version, 14)
}
