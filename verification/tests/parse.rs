use http_server::message::{HttpMethod, HttpRequest, ParseError};
use http_server::parse::{pending, Pending};

fn read(input: &[u8]) -> (HttpRequest, usize) {
    match HttpRequest::from_bytes(input) {
        Ok(found) => found,
        Err(error) => panic!("unexpected error: {:?}", error),
    }
}

fn fault(input: &[u8]) -> ParseError {
    match HttpRequest::from_bytes(input) {
        Ok(_) => panic!("unexpected success"),
        Err(error) => error,
    }
}

fn header<'a>(req: &'a HttpRequest, name: &str) -> Option<&'a str> {
    req.headers().get(name).map(|value| value.as_str())
}

#[test]
fn request_without_headers_and_body() {
    let input = b"GET / HTTP/1.1\r\n\r\n";
    let (req, used) = read(input);
    assert_eq!(*req.method(), HttpMethod::Get);
    assert_eq!(req.path(), "/");
    assert_eq!(req.version(), "HTTP/1.1");
    assert_eq!(req.headers().len(), 0);
    assert_eq!(req.body(), "");
    assert_eq!(used, input.len());
}

#[test]
fn request_with_headers_and_body() {
    let input = b"POST /echo HTTP/1.1\r\nHost: localhost:8000\r\nContent-Length: 5\r\n\r\nhello";
    let (req, used) = read(input);
    assert_eq!(*req.method(), HttpMethod::Post);
    assert_eq!(req.path(), "/echo");
    assert_eq!(req.version(), "HTTP/1.1");
    assert_eq!(req.headers().len(), 2);
    assert_eq!(req.headers().key(0), "Host");
    assert_eq!(req.headers().key(1), "Content-Length");
    assert_eq!(header(&req, "Host"), Some("localhost:8000"));
    assert_eq!(header(&req, "Content-Length"), Some("5"));
    assert_eq!(req.body(), "hello");
    assert_eq!(used, input.len());
}

#[test]
fn exactly_the_announced_bytes_are_taken() {
    let head = b"POST /x HTTP/1.1\r\nContent-Length: 5\r\n\r\n";
    let mut input = head.to_vec();
    input.extend_from_slice(b"helloGET /next HTTP/1.1\r\n\r\n");
    let (req, used) = read(&input);
    assert_eq!(req.body(), "hello");
    assert_eq!(used, head.len() + 5);
    let (next, rest) = read(&input[used..]);
    assert_eq!(next.path(), "/next");
    assert_eq!(rest, input.len() - used);
}

#[test]
fn what_follows_the_request_changes_nothing() {
    let input = b"POST /x HTTP/1.1\r\nContent-Length: 3\r\n\r\nabc";
    let (alone, used) = read(input);
    for tail in [&b""[..], &b"\r\n"[..], &b"defgh"[..], &b"\xff\xfe"[..]] {
        let mut longer = input.to_vec();
        longer.extend_from_slice(tail);
        let (req, taken) = read(&longer);
        assert_eq!(taken, used);
        assert_eq!(req.body(), alone.body());
        assert_eq!(req.path(), alone.path());
    }
}

#[test]
fn no_announced_length_means_no_body() {
    let input = b"GET /a HTTP/1.1\r\nHost: h\r\n\r\nleft over";
    let (req, used) = read(input);
    assert_eq!(req.body(), "");
    assert_eq!(used, input.len() - "left over".len());
}

#[test]
fn zero_length_body() {
    let input = b"POST /a HTTP/1.1\r\nContent-Length: 0\r\n\r\nrest";
    let (req, used) = read(input);
    assert_eq!(req.body(), "");
    assert_eq!(used, input.len() - 4);
}

#[test]
fn header_value_may_be_empty() {
    let (req, _) = read(b"GET / HTTP/1.1\r\nX-Empty: \r\n\r\n");
    assert_eq!(header(&req, "X-Empty"), Some(""));
}

#[test]
fn header_is_split_at_the_first_separator() {
    let (req, _) = read(b"GET / HTTP/1.1\r\nX-Note: a: b: c\r\nTime:12: 30\r\n\r\n");
    assert_eq!(header(&req, "X-Note"), Some("a: b: c"));
    assert_eq!(header(&req, "Time:12"), Some("30"));
}

#[test]
fn header_text_is_kept_as_it_came() {
    let (req, _) = read(b"GET / HTTP/1.1\r\n Padded :  two  \r\n\r\n");
    assert_eq!(req.headers().key(0), " Padded ");
    assert_eq!(header(&req, " Padded "), Some(" two  "));
}

#[test]
fn later_header_replaces_earlier_one() {
    let (req, _) = read(b"GET / HTTP/1.1\r\nA: 1\r\nB: 2\r\nA: 3\r\n\r\n");
    assert_eq!(req.headers().len(), 2);
    assert_eq!(header(&req, "A"), Some("3"));
    assert_eq!(header(&req, "B"), Some("2"));
    assert_eq!(req.headers().key(0), "A");
}

#[test]
fn later_length_replaces_earlier_one() {
    let input = b"POST / HTTP/1.1\r\nContent-Length: 9\r\nContent-Length: 2\r\n\r\nhi!";
    let (req, used) = read(input);
    assert_eq!(req.body(), "hi");
    assert_eq!(used, input.len() - 1);
    assert_eq!(used, 59);
}

#[test]
fn header_names_are_case_sensitive() {
    let input = b"POST / HTTP/1.1\r\ncontent-length: 5\r\n\r\nhello";
    let (req, used) = read(input);
    assert_eq!(header(&req, "content-length"), Some("5"));
    assert_eq!(header(&req, "Content-Length"), None);
    assert_eq!(req.body(), "");
    assert_eq!(used, input.len() - 5);
}

#[test]
fn path_is_not_decoded_or_normalized() {
    let (req, _) = read(b"GET /a/../b%20c//?q=1#f HTTP/1.1\r\n\r\n");
    assert_eq!(req.path(), "/a/../b%20c//?q=1#f");
}

#[test]
fn tokens_are_split_on_runs_of_space() {
    let (req, _) = read(b"  GET \t /p   HTTP/1.0 \r\n\r\n");
    assert_eq!(*req.method(), HttpMethod::Get);
    assert_eq!(req.path(), "/p");
    assert_eq!(req.version(), "HTTP/1.0");
}

#[test]
fn start_line_needs_three_tokens() {
    assert!(matches!(fault(b"GET /\r\n\r\n"), ParseError::MalformedStartLine));
    assert!(matches!(fault(b"GET / HTTP/1.1 extra\r\n\r\n"), ParseError::MalformedStartLine));
    assert!(matches!(fault(b"\r\n\r\n"), ParseError::MalformedStartLine));
    assert!(matches!(fault(b""), ParseError::MalformedStartLine));
    assert!(matches!(fault(b"GET"), ParseError::MalformedStartLine));
}

#[test]
fn start_line_fault_comes_before_any_other() {
    assert!(matches!(fault(b"BREW /\r\nno separator\r\n\r\n"), ParseError::MalformedStartLine));
}

#[test]
fn header_needs_the_separator() {
    assert!(matches!(fault(b"GET / HTTP/1.1\r\nHost\r\n\r\n"), ParseError::MalformedHeader));
    assert!(matches!(fault(b"GET / HTTP/1.1\r\nHost:x\r\n\r\n"), ParseError::MalformedHeader));
    assert!(matches!(fault(b"GET / HTTP/1.1\r\nHost :x\r\n\r\n"), ParseError::MalformedHeader));
    assert!(matches!(fault(b"GET / HTTP/1.1\r\nA: 1\r\nB\r\n\r\n"), ParseError::MalformedHeader));
}

#[test]
fn head_must_end_with_an_empty_line() {
    assert!(matches!(fault(b"GET / HTTP/1.1"), ParseError::MalformedHeader));
    assert!(matches!(fault(b"GET / HTTP/1.1\r\n"), ParseError::MalformedHeader));
    assert!(matches!(fault(b"GET / HTTP/1.1\r\nHost: h"), ParseError::MalformedHeader));
    assert!(matches!(fault(b"GET / HTTP/1.1\r\nHost: h\r\n"), ParseError::MalformedHeader));
    assert!(matches!(fault(b"GET / HTTP/1.1\r\nHost: h\r\n\r"), ParseError::MalformedHeader));
}

#[test]
fn lines_end_with_cr_lf_only() {
    assert!(matches!(fault(b"GET / HTTP/1.1\n\n"), ParseError::MalformedHeader));
    let (req, _) = read(b"GET / HTTP/1.1\r\nA: x\ny\r\n\r\n");
    assert_eq!(header(&req, "A"), Some("x\ny"));
}

#[test]
fn length_must_be_a_number() {
    for value in ["abc", "", "5 ", " 5", "-1", "0x10", "1.5", "99999999999999999999999999"] {
        let input = format!("POST / HTTP/1.1\r\nContent-Length: {}\r\n\r\nhello", value);
        assert!(
            matches!(fault(input.as_bytes()), ParseError::MalformedContentLength),
            "value {:?}",
            value
        );
    }
}

#[test]
fn length_may_carry_a_plus_sign_and_zeros() {
    let (req, _) = read(b"POST / HTTP/1.1\r\nContent-Length: +005\r\n\r\nhello");
    assert_eq!(req.body(), "hello");
}

#[test]
fn body_shorter_than_announced() {
    assert!(matches!(
        fault(b"POST / HTTP/1.1\r\nContent-Length: 5\r\n\r\nhell"),
        ParseError::TruncatedBody
    ));
    assert!(matches!(
        fault(b"POST / HTTP/1.1\r\nContent-Length: 1\r\n\r\n"),
        ParseError::TruncatedBody
    ));
    let huge = format!("POST / HTTP/1.1\r\nContent-Length: {}\r\n\r\nx", usize::MAX);
    assert!(matches!(fault(huge.as_bytes()), ParseError::TruncatedBody));
}

#[test]
fn unknown_method_is_reported_with_its_token() {
    match fault(b"BREW /pot HTTP/1.1\r\n\r\n") {
        ParseError::UnknownMethod(token) => assert_eq!(token, "BREW"),
        other => panic!("unexpected: {:?}", other),
    }
    assert!(matches!(fault(b"get / HTTP/1.1\r\n\r\n"), ParseError::UnknownMethod(_)));
}

#[test]
fn unknown_method_is_reported_last() {
    assert!(matches!(fault(b"BREW / HTTP/1.1\r\nbad\r\n\r\n"), ParseError::MalformedHeader));
    assert!(matches!(
        fault(b"BREW / HTTP/1.1\r\nContent-Length: x\r\n\r\n"),
        ParseError::MalformedContentLength
    ));
    assert!(matches!(
        fault(b"BREW / HTTP/1.1\r\nContent-Length: 4\r\n\r\nabc"),
        ParseError::TruncatedBody
    ));
}

#[test]
fn body_is_decoded_leniently() {
    let (req, used) = read(b"POST / HTTP/1.1\r\nContent-Length: 4\r\n\r\na\xffb\xfe");
    assert_eq!(req.body(), "a\u{fffd}b\u{fffd}");
    assert_eq!(used, 42);
    let (utf8, _) = read(b"POST / HTTP/1.1\r\nContent-Length: 6\r\n\r\nh\xc3\xa9llo");
    assert_eq!(utf8.body(), "h\u{e9}llo");
}

#[test]
fn head_keeps_text_that_is_not_ascii() {
    let (req, _) = read(b"GET /caf\xc3\xa9 HTTP/1.1\r\nX-N\xc3\xa4me: v\xc3\xa9\r\n\r\n");
    assert_eq!(req.path(), "/caf\u{e9}");
    assert_eq!(header(&req, "X-N\u{e4}me"), Some("v\u{e9}"));
}

#[test]
fn head_must_be_valid_text() {
    assert!(matches!(fault(b"GET /\xff HTTP/1.1\r\n\r\n"), ParseError::MalformedStartLine));
    assert!(matches!(fault(b"\xc3 / HTTP/1.1\r\n\r\n"), ParseError::MalformedStartLine));
    assert!(matches!(
        fault(b"GET / HTTP/1.1\r\nX-\xff: v\r\n\r\n"),
        ParseError::MalformedHeader
    ));
    assert!(matches!(
        fault(b"GET / HTTP/1.1\r\nA: 1\r\nB: \xe2\x82\r\n\r\n"),
        ParseError::MalformedHeader
    ));
    assert!(matches!(
        fault(b"BREW /\xff HTTP/1.1\r\n\r\n"),
        ParseError::MalformedStartLine
    ));
}

#[test]
fn tokens_are_split_on_every_white_space() {
    let (req, _) = read(b"GET\xc2\xa0/\xc2\xa0HTTP/1.1\r\n\r\n");
    assert_eq!(*req.method(), HttpMethod::Get);
    assert_eq!(req.path(), "/");
    assert_eq!(req.version(), "HTTP/1.1");
    let spaces = [
        "\u{9}", "\u{a}", "\u{b}", "\u{c}", "\u{d}", "\u{20}", "\u{85}", "\u{a0}", "\u{1680}",
        "\u{2000}", "\u{2001}", "\u{2002}", "\u{2003}", "\u{2004}", "\u{2005}", "\u{2006}",
        "\u{2007}", "\u{2008}", "\u{2009}", "\u{200a}", "\u{2028}", "\u{2029}", "\u{202f}",
        "\u{205f}", "\u{3000}",
    ];
    for space in spaces {
        let input = format!("{0}POST{0}{0}/p{0}HTTP/1.1{0}\r\n\r\n", space);
        let (req, used) = read(input.as_bytes());
        assert_eq!(*req.method(), HttpMethod::Post, "space {:?}", space);
        assert_eq!(req.path(), "/p");
        assert_eq!(req.version(), "HTTP/1.1");
        assert_eq!(used, input.len());
    }
}

#[test]
fn what_is_no_white_space_stays_in_the_token() {
    for inner in ["\u{200b}", "\u{feff}", "\u{180e}", "\u{2060}", "\u{1f}", "\u{0}", "\u{e9}"] {
        let input = format!("GET /a{}b HTTP/1.1\r\n\r\n", inner);
        let (req, _) = read(input.as_bytes());
        assert_eq!(req.path(), &format!("/a{}b", inner));
    }
}

#[test]
fn header_text_keeps_its_white_space() {
    let (req, _) = read(b"GET / HTTP/1.1\r\nA\xc2\xa0B:\xc2\xa0x: \xe3\x80\x80y\t\r\n\r\n");
    assert_eq!(req.headers().key(0), "A\u{a0}B:\u{a0}x");
    assert_eq!(header(&req, "A\u{a0}B:\u{a0}x"), Some("\u{3000}y\t"));
}

#[test]
fn reading_back_a_written_request() {
    let input = b"POST /submit HTTP/1.1\r\nHost: example.org\r\nContent-Length: 7\r\n\r\npayload";
    let (req, _) = read(input);
    assert_eq!(req.serialize().as_bytes(), &input[..]);
}

#[test]
fn pending_asks_for_lines_until_the_head_ends() {
    assert_eq!(pending(b""), Pending::Line);
    assert_eq!(pending(b"GET / HT"), Pending::Line);
    assert_eq!(pending(b"GET / HTTP/1.1\r"), Pending::Line);
    assert_eq!(pending(b"GET / HTTP/1.1\r\n"), Pending::Line);
    assert_eq!(pending(b"GET / HTTP/1.1\r\nHost: h"), Pending::Line);
    assert_eq!(pending(b"GET / HTTP/1.1\r\nHost"), Pending::Line);
    assert_eq!(pending(b"GET / HTTP/1.1\r\nHost: h\r\n"), Pending::Line);
    assert_eq!(pending(b"GET / HTTP/1.1\r\nHost: h\r\n\r"), Pending::Line);
    assert_eq!(pending(b"GET / HTTP/1.1\r\nHost: h\r\n\r\n"), Pending::Nothing);
}

#[test]
fn pending_asks_for_the_missing_body() {
    assert_eq!(pending(b"POST / HTTP/1.1\r\nContent-Length: 5\r\n\r\n"), Pending::Body(5));
    assert_eq!(pending(b"POST / HTTP/1.1\r\nContent-Length: 5\r\n\r\nhe"), Pending::Body(3));
    assert_eq!(pending(b"POST / HTTP/1.1\r\nContent-Length: 5\r\n\r\nhello"), Pending::Nothing);
    assert_eq!(pending(b"POST / HTTP/1.1\r\nContent-Length: 5\r\n\r\nhello!"), Pending::Nothing);
}

#[test]
fn pending_stops_at_a_fault() {
    assert_eq!(pending(b"GET /\r\n"), Pending::Nothing);
    assert_eq!(pending(b"GET / HTTP/1.1\r\nHost\r\n"), Pending::Nothing);
    assert_eq!(pending(b"POST / HTTP/1.1\r\nContent-Length: x\r\n\r\n"), Pending::Nothing);
    assert_eq!(pending(b"BREW / HTTP/1.1\r\n\r\n"), Pending::Nothing);
    assert_eq!(pending(b"GET /\xff HTTP/1.1\r\n"), Pending::Nothing);
    assert_eq!(pending(b"GET / HTTP/1.1\r\nA: \xff\r\n"), Pending::Nothing);
}

#[test]
fn pending_waits_for_the_rest_of_a_character() {
    assert_eq!(pending(b"GET /caf\xc3"), Pending::Line);
    assert_eq!(pending(b"GET / HTTP/1.1\r\nA: caf\xc3"), Pending::Line);
    assert_eq!(pending(b"GET / HTTP/1.1\r\nA: caf\xc3\xa9\r\n\r\n"), Pending::Nothing);
}
