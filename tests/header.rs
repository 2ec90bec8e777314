use tiny_http_common::{Header, HeaderError};

#[test]
fn test_parse_header() {
    let header: Header = "Content-Type: text/html".parse().unwrap();

    assert_eq!(header.field(), http::header::CONTENT_TYPE.as_str());
    assert_eq!(header.value(), b"text/html");

    assert!("hello world".parse::<Header>().is_err());
}

#[test]
fn test_parse_header_with_doublecolon() {
    let header: Header = "Time: 20: 34".parse().unwrap();

    assert_eq!(header.field(), "time");
    assert_eq!(std::str::from_utf8(header.value()).unwrap(), "20: 34");
}

#[test]
fn test_strict_headers() {
    assert!("Transfer-Encoding : chunked".parse::<Header>().is_err());
    assert!(" Transfer-Encoding: chunked".parse::<Header>().is_err());
    assert!("Transfer Encoding: chunked".parse::<Header>().is_err());
    assert!(" Transfer\tEncoding : chunked".parse::<Header>().is_err());
    assert!("Transfer-Encoding: chunked".parse::<Header>().is_ok());
    assert!("Transfer-Encoding: chunked ".parse::<Header>().is_ok());
    assert!("Transfer-Encoding:   chunked ".parse::<Header>().is_ok());
}

#[test]
fn whitespace_around_name_is_refused() {
    assert_eq!(Header::from_line("Name : value"), Err(HeaderError::InvalidHeader));
    assert_eq!(Header::from_line("Na me: value"), Err(HeaderError::InvalidHeader));
    assert_eq!(Header::from_line(" Name\tmore: value"), Err(HeaderError::InvalidHeader));
}

#[test]
fn transfer_encoding_values_are_trimmed() {
    for line in ["Transfer-Encoding: chunked", "Transfer-Encoding: chunked ", "Transfer-Encoding:   chunked "] {
        let h = Header::from_line(line).unwrap();
        assert_eq!(h.field(), "transfer-encoding");
        assert_eq!(h.value(), b"chunked");
    }
}

#[test]
fn line_without_colon_is_refused() {
    assert_eq!(Header::from_line("hello world"), Err(HeaderError::InvalidHeader));
    assert_eq!(Header::from_line(""), Err(HeaderError::InvalidHeader));
}

#[test]
fn name_is_lower_cased() {
    let h = Header::from_line("X-Custom-HEADER: Some Value").unwrap();
    assert_eq!(h.field(), "x-custom-header");
    assert_eq!(h.value(), b"Some Value");
}

#[test]
fn inner_whitespace_of_value_is_kept() {
    let h = Header::from_line("Accept:\t text/html,\tapplication/xml \r").unwrap();
    assert_eq!(h.field(), "accept");
    assert_eq!(h.value(), b"text/html,\tapplication/xml");
}

#[test]
fn empty_value_is_accepted() {
    let h = Header::from_line("X-Empty:   ").unwrap();
    assert_eq!(h.field(), "x-empty");
    assert!(h.value().is_empty());
}

#[test]
fn empty_name_is_refused() {
    assert_eq!(Header::from_line(": value"), Err(HeaderError::InvalidHeader));
}

#[test]
fn non_ascii_value_is_refused() {
    assert_eq!(Header::from_line("Name: caf\u{e9}"), Err(HeaderError::InvalidHeader));
    assert_eq!(Header::from_bytes(b"Name", b"caf\xe9"), Err(HeaderError::InvalidHeader));
}

#[test]
fn control_bytes_in_value_are_refused() {
    assert_eq!(Header::from_bytes(b"Name", b"a\nb"), Err(HeaderError::InvalidHeader));
    assert_eq!(Header::from_bytes(b"Name", b"a\x7fb"), Err(HeaderError::InvalidHeader));
    assert_eq!(Header::from_line("Name: a\x00b"), Err(HeaderError::InvalidHeader));
}

#[test]
fn from_bytes_builds_header() {
    let h = Header::from_bytes(&b"Content-Type"[..], &b"text/plain"[..]).unwrap();
    assert_eq!(h.field(), "content-type");
    assert_eq!(h.value(), b"text/plain");
}

#[test]
fn from_bytes_does_not_trim() {
    let h = Header::from_bytes(b"Host", b" example.org ").unwrap();
    assert_eq!(h.value(), b" example.org ");
}

#[test]
fn from_bytes_refuses_bad_names() {
    assert_eq!(Header::from_bytes(b"", b"x"), Err(HeaderError::InvalidHeader));
    assert_eq!(Header::from_bytes(b"Bad Name", b"x"), Err(HeaderError::InvalidHeader));
    assert_eq!(Header::from_bytes(b"Bad:Name", b"x"), Err(HeaderError::InvalidHeader));
    assert_eq!(Header::from_bytes(b"Bad(Name)", b"x"), Err(HeaderError::InvalidHeader));
}

#[test]
fn name_length_limit() {
    let longest = vec![b'a'; 65535];
    assert!(Header::from_bytes(&longest, b"x").is_ok());
    let too_long = vec![b'a'; 65536];
    assert_eq!(Header::from_bytes(&too_long, b"x"), Err(HeaderError::InvalidHeader));
}

#[test]
fn all_token_punctuation_is_accepted() {
    let h = Header::from_line("!#$%&'*+-.^_`|~09AZaz: v").unwrap();
    assert_eq!(h.field(), "!#$%&'*+-.^_`|~09azaz");
}

#[test]
fn unicode_whitespace_around_value_is_trimmed() {
    let h = Header::from_line("X: b\u{a0}").unwrap();
    assert_eq!(h.value(), b"b");
    let h = Header::from_line("X:\u{3000}\u{85} v w\u{2000}\u{200a}\u{2028}\u{2029}\u{202f}\u{205f}\u{1680}\t").unwrap();
    assert_eq!(h.value(), b"v w");
    let h = Header::from_line("X: \u{a0}").unwrap();
    assert!(h.value().is_empty());
}

#[test]
fn unicode_whitespace_inside_value_is_refused() {
    assert_eq!(Header::from_line("X: a\u{a0}b"), Err(HeaderError::InvalidHeader));
    assert_eq!(Header::from_line("X: a\u{2001}"), Ok(Header::from_bytes(b"X", b"a").unwrap()));
}

#[test]
fn clone_keeps_header() {
    let h = Header::from_line("Host: example.org").unwrap();
    assert_eq!(h.clone(), h);
}
