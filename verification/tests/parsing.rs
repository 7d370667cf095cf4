use loadgen::request::Method;
use loadgen::request::ParseError;
use loadgen::request::parse_request;

#[test]
fn parse_minimal_request() {
    let req = parse_request(&b"GET /x\n\n".to_vec()).unwrap();
    assert_eq!(req.method, Method::Get);
    assert_eq!(req.url, b"/x".to_vec());
    assert!(req.headers.is_empty());
    assert!(req.body.is_empty());
}

#[test]
fn parse_full_request() {
    let bytes = b"POST /api/v1\nHost: example.test\nAccept: */*\n\nhello".to_vec();
    let req = parse_request(&bytes).unwrap();
    assert_eq!(req.method, Method::Post);
    assert_eq!(req.url, b"/api/v1".to_vec());
    assert_eq!(req.headers.len(), 2);
    assert_eq!(req.headers[0].0, b"Host".to_vec());
    assert_eq!(req.headers[0].1, b"example.test".to_vec());
    assert_eq!(req.headers[1].0, b"Accept".to_vec());
    assert_eq!(req.headers[1].1, b"*/*".to_vec());
    assert_eq!(req.body, b"hello".to_vec());
}

#[test]
fn parse_keeps_body_verbatim() {
    let bytes = b"PUT /upload\n\nline one\nline two\n".to_vec();
    let req = parse_request(&bytes).unwrap();
    assert_eq!(req.method, Method::Put);
    assert_eq!(req.body, b"line one\nline two\n".to_vec());
}

#[test]
fn parse_every_method_token() {
    let cases: Vec<(&[u8], Method)> = vec![
        (b"GET /a\n\n", Method::Get),
        (b"POST /a\n\n", Method::Post),
        (b"PUT /a\n\n", Method::Put),
        (b"DELETE /a\n\n", Method::Delete),
        (b"HEAD /a\n\n", Method::Head),
        (b"PATCH /a\n\n", Method::Patch),
    ];
    for (bytes, method) in cases {
        let req = parse_request(&bytes.to_vec()).unwrap();
        assert_eq!(req.method, method);
    }
}

#[test]
fn parse_header_value_may_hold_colons() {
    let req = parse_request(&b"GET /x\nReferer: http://a/b\n\n".to_vec()).unwrap();
    assert_eq!(req.headers[0].1, b"http://a/b".to_vec());
}

#[test]
fn empty_input_is_rejected() {
    assert!(matches!(parse_request(&Vec::new()), Err(ParseError::EmptyInput)));
}

#[test]
fn unknown_method_is_rejected() {
    assert!(matches!(parse_request(&b"FETCH /x\n\n".to_vec()), Err(ParseError::BadMethod)));
    assert!(matches!(parse_request(&b"get /x\n\n".to_vec()), Err(ParseError::BadMethod)));
}

#[test]
fn missing_url_is_rejected() {
    assert!(matches!(parse_request(&b"GET\n\n".to_vec()), Err(ParseError::BadUrl)));
    assert!(matches!(parse_request(&b"GET \n\n".to_vec()), Err(ParseError::BadUrl)));
}

#[test]
fn url_with_space_is_rejected() {
    assert!(matches!(parse_request(&b"GET /a b\n\n".to_vec()), Err(ParseError::BadUrl)));
}

#[test]
fn header_without_colon_is_rejected() {
    assert!(matches!(parse_request(&b"GET /x\nbroken\n\n".to_vec()), Err(ParseError::BadHeader)));
}

#[test]
fn header_without_space_after_colon_is_rejected() {
    assert!(matches!(parse_request(&b"GET /x\nHost:example\n\n".to_vec()), Err(ParseError::BadHeader)));
}

#[test]
fn header_with_empty_name_is_rejected() {
    assert!(matches!(parse_request(&b"GET /x\n: v\n\n".to_vec()), Err(ParseError::BadHeader)));
}

#[test]
fn duplicate_header_is_rejected() {
    let bytes = b"GET /x\nHost: a\nHost: b\n\n".to_vec();
    assert!(matches!(parse_request(&bytes), Err(ParseError::DuplicateHeader)));
}

#[test]
fn missing_blank_line_is_rejected() {
    assert!(matches!(parse_request(&b"GET /x\nHost: a".to_vec()), Err(ParseError::MissingBlankLine)));
    assert!(matches!(parse_request(&b"GET /x\nHost: a\n".to_vec()), Err(ParseError::MissingBlankLine)));
    assert!(matches!(parse_request(&b"GET /x".to_vec()), Err(ParseError::MissingBlankLine)));
}
