use ws_auth_header::authorization::Authorization;
use ws_auth_header::headers::HeaderCollection;
use ws_auth_header::text::{decode_lossy, join_fragments_exec};
use ws_auth_header::typed::{ParseError, TypedHeader};

#[test]
fn test_header_authorization() {
    let authorization = Authorization("Bearer SomeValue".to_string());
    let mut headers = HeaderCollection::new();
    headers.set(authorization);
    assert_eq!(
        &headers.to_string()[..],
        "Authorization: Bearer SomeValue\r\n"
    );
}

#[test]
fn format_returns_payload() {
    let a = Authorization::new("Basic dXNlcjpwYXNz");
    assert_eq!(a.fmt_header(), "Basic dXNlcjpwYXNz");
    assert_eq!(a.to_string(), "Basic dXNlcjpwYXNz");
}

#[test]
fn parse_of_formatted_gives_value_back() {
    let a = Authorization::new("Bearer été");
    let raw = vec![a.fmt_header().into_bytes()];
    assert_eq!(Authorization::parse_header(&raw), Ok(a));
}

#[test]
fn empty_payload_formats_as_empty_line() {
    let a = Authorization::new("");
    assert_eq!(a.fmt_header(), "");
    let mut headers = HeaderCollection::new();
    headers.set(a);
    assert_eq!(headers.to_string(), "Authorization: \r\n");
}

#[test]
fn join_keeps_fragment_order() {
    let raw = vec![b"a".to_vec(), b"b".to_vec()];
    assert_eq!(join_fragments_exec(&raw), b"a, b".to_vec());
    let parsed = Authorization::parse_header(&raw).unwrap();
    assert_eq!(&parsed[..], "a, b");
}

#[test]
fn join_of_one_and_none() {
    let one = vec![b"only".to_vec()];
    assert_eq!(join_fragments_exec(&one), b"only".to_vec());
    let none: Vec<Vec<u8>> = Vec::new();
    assert_eq!(join_fragments_exec(&none), Vec::<u8>::new());
}

#[test]
fn multi_fragment_parse() {
    let raw = vec![b"tokenA".to_vec(), b"tokenB".to_vec()];
    let parsed = Authorization::parse_header(&raw).unwrap();
    assert_eq!(parsed, Authorization::new("tokenA, tokenB"));
}

#[test]
fn parse_without_fragments_is_absent() {
    let raw: Vec<Vec<u8>> = Vec::new();
    assert_eq!(Authorization::parse_header(&raw), Err(ParseError::Absent));
}

#[test]
fn equality_follows_payload() {
    assert!(Authorization::new("x") == Authorization::new("x"));
    assert!(Authorization::new("x") != Authorization::new("y"));
    assert!(Authorization::new("x") != Authorization::new("X"));
}

#[test]
fn name_does_not_depend_on_payload() {
    assert_eq!(Authorization::header_name(), "Authorization");
    let mut headers = HeaderCollection::new();
    headers.set(Authorization::new("other"));
    assert!(headers.to_string().starts_with("Authorization: "));
}

#[test]
fn lossy_decoding_replaces_and_repeats() {
    let bytes = [0x61u8, 0xff, 0x62];
    let first = decode_lossy(&bytes);
    let second = decode_lossy(&bytes);
    assert_eq!(first, "a\u{FFFD}b");
    assert_eq!(first, second);
    assert_eq!(decode_lossy(b"plain"), "plain");
}

#[test]
fn parse_decodes_malformed_bytes_lossily() {
    let raw = vec![vec![0x74u8, 0xc3], vec![0x28u8]];
    let parsed = Authorization::parse_header(&raw).unwrap();
    assert_eq!(&parsed[..], "t\u{FFFD}, (");
}

#[test]
fn from_str_keeps_text() {
    let a: Authorization = "Bearer abc".parse().unwrap();
    assert_eq!(a, Authorization::new("Bearer abc"));
    assert_eq!(a.as_string(), "Bearer abc");
}

#[test]
fn set_twice_replaces_field() {
    let mut headers = HeaderCollection::new();
    headers.set(Authorization::new("first"));
    headers.set(Authorization::new("second"));
    assert_eq!(headers.to_string(), "Authorization: second\r\n");
}

#[test]
fn line_breaks_in_payload_render_as_spaces() {
    let mut headers = HeaderCollection::new();
    headers.set(Authorization::new("a\r\nb"));
    assert_eq!(headers.to_string(), "Authorization: a  b\r\n");
}

#[test]
fn empty_collection_renders_nothing() {
    let headers = HeaderCollection::new();
    assert_eq!(headers.to_string(), "");
}

#[test]
fn from_str_accepts_any_text_unchanged() {
    let a: Authorization = "Bearer SomeValue".parse().unwrap();
    assert_eq!(a, Authorization("Bearer SomeValue".to_string()));
    for s in ["", "a, b", "x\r\ny", "  padded  "] {
        let parsed: Result<Authorization, ParseError> = s.parse();
        assert_eq!(parsed, Ok(Authorization(s.to_string())));
    }
}

#[test]
fn from_str_of_displayed_text_gives_value_back() {
    let a = Authorization::new("Digest realm=x");
    let again: Authorization = a.to_string().parse().unwrap();
    assert_eq!(again, a);
}

#[test]
fn deref_gives_payload() {
    let a: Authorization = "Bearer t".parse().unwrap();
    let s: &String = &a;
    assert_eq!(s, "Bearer t");
    assert!(std::ptr::eq(s, &a.0));
}
