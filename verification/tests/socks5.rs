use siren::config::Config;
use siren::error::ProxyError;
use siren::proxy::conn::ProxyStream;
use siren::proxy::socks5::{v4_of, Socks5Handshake, Socks5Phase, Socks5Step};

fn to_domain(target: &str, port: u16) -> Socks5Handshake {
    Socks5Handshake {
        user: None,
        pass: None,
        v4: None,
        v6: None,
        target: target.to_string(),
        port,
    }
}

fn with_credentials(user: &str, pass: &str) -> Socks5Handshake {
    Socks5Handshake {
        user: Some(user.to_string()),
        pass: Some(pass.to_string()),
        v4: Some([10, 0, 0, 1]),
        v6: None,
        target: "10.0.0.1".to_string(),
        port: 443,
    }
}

fn exchange(send: Vec<u8>, phase: Socks5Phase) -> Socks5Step {
    Socks5Step::Exchange { send, phase }
}

#[test]
fn greeting_without_credentials() {
    assert_eq!(to_domain("a.b", 80).start(), exchange(vec![5, 1, 0], Socks5Phase::Method));
}

#[test]
fn half_credentials_are_none() {
    let mut h = to_domain("a.b", 80);
    h.user = Some("me".to_string());
    assert_eq!(h.start(), exchange(vec![5, 1, 0], Socks5Phase::Method));
    assert_eq!(
        h.step(Socks5Phase::Method, &[5, 2]),
        Socks5Step::Fail(ProxyError::Socks5CredentialsMissing)
    );
}

#[test]
fn handshake_with_credentials_runs_to_the_end() {
    let h = with_credentials("me", "secret");
    assert_eq!(h.start(), exchange(vec![5, 2, 0, 2], Socks5Phase::Method));
    assert_eq!(
        h.step(Socks5Phase::Method, &[5, 2]),
        exchange(vec![1, 2, 109, 101, 6, 115, 101, 99, 114, 101, 116], Socks5Phase::Auth)
    );
    assert_eq!(
        h.step(Socks5Phase::Auth, &[1, 0]),
        exchange(vec![5, 1, 0, 1, 10, 0, 0, 1, 1, 187], Socks5Phase::Head)
    );
    assert_eq!(h.step(Socks5Phase::Head, &[5, 0, 0, 1]), exchange(vec![], Socks5Phase::Bound(6)));
    assert_eq!(h.step(Socks5Phase::Bound(6), &[0; 6]), Socks5Step::Done);
}

#[test]
fn credentials_are_not_sent_unasked() {
    let h = with_credentials("me", "secret");
    assert_eq!(
        h.step(Socks5Phase::Method, &[5, 0]),
        exchange(vec![5, 1, 0, 1, 10, 0, 0, 1, 1, 187], Socks5Phase::Head)
    );
}

#[test]
fn domain_request_is_counted() {
    assert_eq!(
        to_domain("a.b", 80).step(Socks5Phase::Method, &[5, 0]),
        exchange(vec![5, 1, 0, 3, 3, 97, 46, 98, 0, 80], Socks5Phase::Head)
    );
}

#[test]
fn six_octet_groups_come_after_four() {
    let mut h = to_domain("::1", 1);
    let mut octets = [0u8; 16];
    octets[15] = 1;
    h.v6 = Some(octets);
    let mut expected = vec![5, 1, 0, 4];
    expected.extend_from_slice(&octets);
    expected.extend_from_slice(&[0, 1]);
    assert_eq!(h.step(Socks5Phase::Auth, &[1, 0]), exchange(expected, Socks5Phase::Head));
    h.v4 = Some([1, 2, 3, 4]);
    assert_eq!(
        h.step(Socks5Phase::Auth, &[1, 0]),
        exchange(vec![5, 1, 0, 1, 1, 2, 3, 4, 0, 1], Socks5Phase::Head)
    );
}

#[test]
fn longest_domain_fits_and_one_more_does_not() {
    let fits = to_domain(&"a".repeat(255), 80);
    match fits.step(Socks5Phase::Method, &[5, 0]) {
        Socks5Step::Exchange { send, .. } => assert_eq!(send.len(), 5 + 255 + 2),
        other => panic!("{:?}", other),
    }
    assert_eq!(
        to_domain(&"a".repeat(256), 80).step(Socks5Phase::Method, &[5, 0]),
        Socks5Step::Fail(ProxyError::Socks5DomainTooLong)
    );
}

#[test]
fn domain_is_measured_in_bytes() {
    assert_eq!(
        to_domain(&"é".repeat(128), 80).step(Socks5Phase::Method, &[5, 0]),
        Socks5Step::Fail(ProxyError::Socks5DomainTooLong)
    );
}

#[test]
fn long_credentials_wrap_their_length_byte() {
    let h = with_credentials(&"u".repeat(256), &"p".repeat(257));
    match h.step(Socks5Phase::Method, &[5, 2]) {
        Socks5Step::Exchange { send, phase } => {
            assert_eq!(phase, Socks5Phase::Auth);
            assert_eq!(send[0], 1);
            assert_eq!(send[1], 0);
            assert_eq!(send[2 + 256], 1);
            assert_eq!(send.len(), 3 + 256 + 257);
        },
        other => panic!("{:?}", other),
    }
}

#[test]
fn every_refusal_has_its_error() {
    let h = with_credentials("me", "secret");
    let fail = |e: ProxyError| Socks5Step::Fail(e);
    assert_eq!(h.step(Socks5Phase::Method, &[4, 0]), fail(ProxyError::Socks5Version));
    assert_eq!(h.step(Socks5Phase::Method, &[5, 255]), fail(ProxyError::Socks5NoMethod));
    assert_eq!(h.step(Socks5Phase::Method, &[5, 1]), fail(ProxyError::Socks5UnknownMethod(1)));
    assert_eq!(h.step(Socks5Phase::Auth, &[1, 1]), fail(ProxyError::Socks5AuthFailed));
    assert_eq!(h.step(Socks5Phase::Head, &[4, 0, 0, 1]), fail(ProxyError::Socks5ReplyVersion));
    assert_eq!(h.step(Socks5Phase::Head, &[5, 3, 0, 1]), fail(ProxyError::Socks5Refused(3)));
    assert_eq!(h.step(Socks5Phase::Head, &[5, 0, 0, 2]), fail(ProxyError::Socks5AddressType(2)));
}

#[test]
fn bound_address_is_read_to_its_end() {
    let h = to_domain("a.b", 80);
    assert_eq!(h.step(Socks5Phase::Head, &[5, 0, 0, 4]), exchange(vec![], Socks5Phase::Bound(18)));
    assert_eq!(
        h.step(Socks5Phase::Head, &[5, 0, 0, 3]),
        exchange(vec![], Socks5Phase::BoundLength)
    );
    assert_eq!(
        h.step(Socks5Phase::BoundLength, &[255]),
        exchange(vec![], Socks5Phase::Bound(257))
    );
}

#[test]
fn phases_tell_the_length_of_their_reply() {
    assert_eq!(Socks5Phase::Method.reply_len(), 2);
    assert_eq!(Socks5Phase::Auth.reply_len(), 2);
    assert_eq!(Socks5Phase::Head.reply_len(), 4);
    assert_eq!(Socks5Phase::BoundLength.reply_len(), 1);
    assert_eq!(Socks5Phase::Bound(18).reply_len(), 18);
}

#[test]
fn address_of_a_request_looks_like_shadowsocks() {
    let stream =
        ProxyStream::new(Config::new("", String::new(), String::new(), String::new()));
    for (h, like) in [
        (to_domain("a.b", 80), true),
        (to_domain("a.b", 0), false),
        (with_credentials("me", "secret"), true),
    ] {
        match h.step(Socks5Phase::Auth, &[1, 0]) {
            Socks5Step::Exchange { send, .. } => {
                assert_eq!(stream.is_shadowsocks(&send[3..]), like);
            },
            other => panic!("{:?}", other),
        }
    }
}

#[test]
fn addresses_are_read_from_their_text() {
    assert_eq!(v4_of("0.0.0.0"), Some([0, 0, 0, 0]));
    assert_eq!(v4_of("255.1.20.100"), Some([255, 1, 20, 100]));
    for text in [
        "", "1.2.3", "1.2.3.4.5", "256.1.1.1", "01.2.3.4", "1.2.3.04", "+1.2.3.4", "1..2.3", "1.2.3.",
        " 1.2.3.4", "1.2.3.4 ", "a.b.c.d", "0x1.2.3.4", "::1", "1.2.3.-4", "00.0.0.0", "1.2.3.1000",
    ] {
        assert_eq!(v4_of(text), None, "{}", text);
    }
}

#[test]
fn handshake_reads_its_target() {
    let h = Socks5Handshake::to_target(None, None, "10.0.0.1".to_string(), 443, None);
    assert_eq!(h.v4, Some([10, 0, 0, 1]));
    assert_eq!(
        h.step(Socks5Phase::Method, &[5, 0]),
        exchange(vec![5, 1, 0, 1, 10, 0, 0, 1, 1, 187], Socks5Phase::Head)
    );
    let h = Socks5Handshake::to_target(None, None, "a.b".to_string(), 80, None);
    assert_eq!(h.v4, None);
    let h = Socks5Handshake::to_target(None, None, "::".to_string(), 80, Some([0; 16]));
    assert_eq!((h.v4, h.v6), (None, Some([0; 16])));
}
