use siren::error::ProxyError;
use siren::proxy::http_connect::{
    check_reply, check_status, connect_request, connect_request_checked, write_connect,
    HeaderProgress, ReplyHeader,
};

fn some(s: &str) -> Option<String> {
    Some(s.to_string())
}

#[test]
fn request_without_credentials() {
    let expected = "CONNECT example.com:443 HTTP/1.1\r\nHost: example.com:443\r\n\
                    Proxy-Connection: Keep-Alive\r\n\r\n";
    assert_eq!(connect_request("example.com", 443, &None, &None), expected);
    assert_eq!(connect_request("example.com", 443, &some("user"), &None), expected);
    assert_eq!(connect_request("example.com", 443, &None, &some("pass")), expected);
}

#[test]
fn request_with_credentials() {
    let expected = "CONNECT example.com:443 HTTP/1.1\r\nHost: example.com:443\r\n\
                    Proxy-Authorization: Basic dXNlcjpwYXNz\r\n\
                    Proxy-Connection: Keep-Alive\r\n\r\n";
    assert_eq!(connect_request("example.com", 443, &some("user"), &some("pass")), expected);
    assert_eq!(
        connect_request_checked("example.com", 443, &some("user"), &some("pass")),
        some(expected)
    );
    assert_eq!(write_connect("example.com", 443, &some("dXNlcjpwYXNz")), expected);
}

#[test]
fn credentials_use_the_standard_alphabet() {
    let r = connect_request("h", 1, &some("ü?>"), &some("pä~~"));
    assert!(r.contains("Proxy-Authorization: Basic w7w/Pjpww6R+fg==\r\n"));
}

#[test]
fn credentials_are_padded() {
    for (pass, code) in [("", "dTo="), ("a", "dTph"), ("ab", "dTphYg=="), ("abc", "dTphYmM=")] {
        let r = connect_request("h", 1, &some("u"), &some(pass));
        assert!(r.contains(&format!("Basic {}\r\n", code)));
    }
}

fn read(bytes: &[u8]) -> (HeaderProgress, usize) {
    let mut header = ReplyHeader::new();
    let mut last = HeaderProgress::More;
    for (i, b) in bytes.iter().enumerate() {
        last = header.push(*b);
        if last != HeaderProgress::More {
            return (last, i + 1);
        }
    }
    (last, bytes.len())
}

#[test]
fn header_ends_at_the_first_blank_line() {
    let text = b"HTTP/1.1 200 OK\r\nA: b\r\n\r\nrest\r\n\r\n";
    assert_eq!(read(text), (HeaderProgress::Complete, 25));
    assert_eq!(read(b"\r\n\r\n"), (HeaderProgress::Complete, 4));
    assert_eq!(read(b"\n\n\r\n"), (HeaderProgress::More, 4));
}

#[test]
fn header_that_does_not_end_is_too_long() {
    let long = vec![b'a'; 10000];
    assert_eq!(read(&long), (HeaderProgress::TooLong, 8193));
    let mut at_limit = vec![b'a'; 8189];
    at_limit.extend_from_slice(b"\r\n\r\n");
    assert_eq!(read(&at_limit), (HeaderProgress::Complete, 8193));
    let mut over = vec![b'a'; 8190];
    over.extend_from_slice(b"\r\n\r\n");
    assert_eq!(read(&over), (HeaderProgress::TooLong, 8193));
}

#[test]
fn success_is_a_second_word_that_starts_with_two() {
    assert_eq!(check_status("HTTP/1.1 200 OK\r\n\r\n"), Ok(()));
    assert_eq!(check_status("HTTP/1.0 299\r\n\r\n"), Ok(()));
    assert_eq!(check_status("  HTTP/1.1 \t 2\r\n\r\n"), Ok(()));
    assert_eq!(check_status("HTTP/1.1\u{2003}204 x\n"), Ok(()));
}

fn refused(line: &str) -> Result<(), ProxyError> {
    Err(ProxyError::HttpRefused(line.to_string()))
}

#[test]
fn everything_else_is_refused_with_its_status_line() {
    assert_eq!(
        check_status("HTTP/1.1 407 Proxy Authentication Required\r\nA: 2 2\r\n\r\n"),
        refused("HTTP/1.1 407 Proxy Authentication Required")
    );
    assert_eq!(check_status("200\r\n\r\n"), refused("200"));
    assert_eq!(check_status("\r\n\r\n"), refused(""));
    assert_eq!(check_status(""), refused(""));
    assert_eq!(check_status("\nHTTP/1.1 200 OK\r\n\r\n"), refused(""));
}

#[test]
fn lines_end_as_in_the_standard_library() {
    for s in ["a 2\r\r\nb", "a 3\r\nb", "x\r 5\ny", "q w\n"] {
        match check_status(s) {
            Ok(()) => assert!(s.lines().next().unwrap().split_whitespace().nth(1).unwrap().starts_with('2')),
            Err(e) => assert_eq!(e, ProxyError::HttpRefused(s.lines().next().unwrap().to_string())),
        }
    }
}

#[test]
fn reply_bytes_are_decoded_lossily() {
    assert_eq!(check_reply(b"HTTP/1.1 200 \xff\r\n\r\n"), Ok(()));
    assert_eq!(check_reply(b"\xff 500 \xc3\xa9\r\n\r\n"), refused("\u{fffd} 500 é"));
}
