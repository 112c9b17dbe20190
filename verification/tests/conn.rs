use siren::config::Config;
use siren::error::ProxyError;
use siren::proxy::conn::{
    FillStep, PollEvent, Protocol, ProxyStream, ReadStep, SocketEvent, MAX_BUFFER_SIZE,
    MAX_WEBSOCKET_SIZE, PEEK_LEN,
};

fn stream() -> ProxyStream {
    ProxyStream::new(Config::new("", String::new(), String::new(), String::new()))
}

fn message(data: &[u8]) -> Option<SocketEvent> {
    Some(SocketEvent::Message(Some(data.to_vec())))
}

fn received(data: &[u8]) -> ProxyStream {
    let mut s = stream();
    s.fill_buffer_until(data.len(), message(data));
    s
}

#[test]
fn new_stream_holds_nothing() {
    assert_eq!(stream().peek_buffer(10), &[] as &[u8]);
}

#[test]
fn buffer_is_filled_until_enough() {
    let mut s = stream();
    assert_eq!(s.fill_buffer_until(5, None), FillStep::Wait);
    assert_eq!(s.fill_buffer_until(5, message(&[1, 2])), FillStep::Wait);
    assert_eq!(s.fill_buffer_until(5, Some(SocketEvent::Message(None))), FillStep::Wait);
    assert_eq!(s.fill_buffer_until(5, message(&[3, 4, 5, 6])), FillStep::Done);
    assert_eq!(s.peek_buffer(100), &[1, 2, 3, 4, 5, 6]);
    assert_eq!(s.peek_buffer(4), &[1, 2, 3, 4]);
    assert_eq!(s.fill_buffer_until(6, None), FillStep::Done);
    assert_eq!(s.fill_buffer_until(7, None), FillStep::Wait);
}

#[test]
fn filling_ends_with_the_socket() {
    let mut s = stream();
    assert_eq!(s.fill_buffer_until(5, Some(SocketEvent::Close)), FillStep::Done);
    assert_eq!(s.fill_buffer_until(5, Some(SocketEvent::End)), FillStep::Done);
    assert_eq!(
        s.fill_buffer_until(5, Some(SocketEvent::Failed("gone".to_string()))),
        FillStep::Fail(ProxyError::Io("gone".to_string()))
    );
    assert_eq!(s.peek_buffer(5), &[] as &[u8]);
}

#[test]
fn too_few_bytes_tell_no_protocol() {
    assert_eq!(received(&[0; 30]).process(), Err(ProxyError::NotEnoughBuffer));
    assert_eq!(stream().process(), Err(ProxyError::NotEnoughBuffer));
    assert_eq!(received(&[0; 31]).process(), Ok(Protocol::Vless));
}

fn front(start: &[u8], len: usize) -> Vec<u8> {
    let mut v = start.to_vec();
    v.resize(len, 7);
    v
}

#[test]
fn protocols_are_told_by_their_first_bytes() {
    assert_eq!(received(&front(&[0], 62)).process(), Ok(Protocol::Vless));
    assert_eq!(
        received(&front(&[1, 8, 8, 8, 8, 0, 53], 40)).process(),
        Ok(Protocol::Shadowsocks)
    );
    assert_eq!(
        received(&front(&[3, 3, b'a', b'.', b'b', 1, 187], 40)).process(),
        Ok(Protocol::Shadowsocks)
    );
    let mut v6 = vec![4];
    v6.extend_from_slice(&[0; 16]);
    v6.extend_from_slice(&[1, 0]);
    assert_eq!(received(&front(&v6, 40)).process(), Ok(Protocol::Shadowsocks));
    let mut trojan = vec![b'a'; 56];
    trojan.extend_from_slice(&[13, 10]);
    assert_eq!(received(&trojan).process(), Ok(Protocol::Trojan));
    assert_eq!(received(&front(&trojan, 100)).process(), Ok(Protocol::Trojan));
    assert_eq!(received(&[b'a'; 62]).process(), Ok(Protocol::Vmess));
}

#[test]
fn order_of_the_protocols_decides() {
    let mut both = front(&[1, 8, 8, 8, 8, 0, 53], 56);
    both.extend_from_slice(&[13, 10]);
    assert_eq!(received(&both).process(), Ok(Protocol::Shadowsocks));
    let mut no_port = front(&[1, 8, 8, 8, 8, 0, 0], 56);
    no_port.extend_from_slice(&[13, 10]);
    assert_eq!(received(&no_port).process(), Ok(Protocol::Trojan));
}

#[test]
fn shadowsocks_needs_an_address_and_a_port() {
    let s = stream();
    assert!(s.is_shadowsocks(&[1, 0, 0, 0, 0, 0, 1]));
    assert!(s.is_shadowsocks(&[1, 0, 0, 0, 0, 1, 0]));
    assert!(!s.is_shadowsocks(&[1, 0, 0, 0, 0, 0, 0]));
    assert!(!s.is_shadowsocks(&[1, 0, 0, 0, 0, 1]));
    assert!(s.is_shadowsocks(&[3, 0, 0, 80]));
    assert!(!s.is_shadowsocks(&[3, 0, 0]));
    assert!(!s.is_shadowsocks(&[3]));
    assert!(!s.is_shadowsocks(&[3, 255, 1, 1]));
    assert!(!s.is_shadowsocks(&[4; 18]));
    assert!(s.is_shadowsocks(&[4; 19]));
    assert!(!s.is_shadowsocks(&[2; 40]));
}

#[test]
fn domain_beyond_what_is_looked_at_is_not_detected() {
    let mut b = vec![3, 59];
    b.extend_from_slice(&[b'a'; 59]);
    b.extend_from_slice(&[1, 187]);
    assert_eq!(received(&b).process(), Ok(Protocol::Vmess));
    let mut b = vec![3, 58];
    b.extend_from_slice(&[b'a'; 58]);
    b.extend_from_slice(&[1, 187]);
    assert_eq!(b.len(), PEEK_LEN);
    assert_eq!(received(&b).process(), Ok(Protocol::Shadowsocks));
}

#[test]
fn single_detections() {
    let s = stream();
    assert!(s.is_vless(&[0]) && !s.is_vless(&[1]));
    assert!(s.is_vmess(&[1]) && !s.is_vmess(&[]));
    assert!(!s.is_trojan(&[13; 57]));
}

#[test]
fn buffered_bytes_are_read_first_and_in_order() {
    let mut s = received(&[1, 2, 3, 4, 5]);
    assert_eq!(s.poll_read(2, PollEvent::Start), ReadStep::Deliver(vec![1, 2]));
    assert_eq!(
        s.poll_read(2, PollEvent::Message(Some(vec![6]))),
        ReadStep::Deliver(vec![3, 4])
    );
    assert_eq!(s.poll_read(100, PollEvent::Start), ReadStep::Deliver(vec![5, 6]));
    assert_eq!(s.poll_read(100, PollEvent::Start), ReadStep::Poll);
    assert_eq!(s.poll_read(100, PollEvent::Message(None)), ReadStep::Poll);
    assert_eq!(s.poll_read(100, PollEvent::Message(Some(vec![]))), ReadStep::Poll);
    assert_eq!(
        s.poll_read(100, PollEvent::Message(Some(vec![9]))),
        ReadStep::Deliver(vec![9])
    );
}

#[test]
fn reader_without_room_gets_nothing() {
    let mut s = received(&[1]);
    assert_eq!(s.poll_read(0, PollEvent::Start), ReadStep::Poll);
    assert_eq!(s.peek_buffer(9), &[1]);
}

#[test]
fn reading_reports_what_the_socket_reports() {
    let mut s = stream();
    assert_eq!(s.poll_read(10, PollEvent::Pending), ReadStep::Pending);
    assert_eq!(s.poll_read(10, PollEvent::Over), ReadStep::End);
}

#[test]
fn long_message_is_an_error() {
    let mut s = stream();
    let long = vec![0u8; MAX_WEBSOCKET_SIZE + 1];
    assert_eq!(
        s.poll_read(10, PollEvent::Message(Some(long))),
        ReadStep::Fail(ProxyError::WebsocketTooLong)
    );
    let longest = vec![1u8; MAX_WEBSOCKET_SIZE];
    assert_eq!(
        s.poll_read(2, PollEvent::Message(Some(longest))),
        ReadStep::Deliver(vec![1, 1])
    );
}

#[test]
fn buffer_stays_bounded() {
    let mut s = stream();
    let half = vec![1u8; MAX_WEBSOCKET_SIZE];
    assert_eq!(s.poll_read(0, PollEvent::Message(Some(half.clone()))), ReadStep::Poll);
    assert_eq!(s.poll_read(0, PollEvent::Message(Some(half))), ReadStep::Poll);
    assert_eq!(s.peek_buffer(usize::MAX).len(), MAX_BUFFER_SIZE);
    assert_eq!(s.poll_read(0, PollEvent::Message(Some(vec![2]))), ReadStep::Pending);
    assert_eq!(s.peek_buffer(usize::MAX).len(), MAX_BUFFER_SIZE);
    assert_eq!(MAX_WEBSOCKET_SIZE, 524288);
    assert_eq!(MAX_BUFFER_SIZE, 1048576);
}

#[test]
fn reader_with_room_loses_nothing() {
    let mut s = received(&[1, 2, 3]);
    let mut out = vec![];
    let mut messages = vec![vec![9u8; MAX_WEBSOCKET_SIZE], vec![], vec![5, 6], vec![4]];
    let mut all = vec![1, 2, 3];
    for m in messages.iter().rev() {
        all.extend_from_slice(m);
    }
    let mut event = PollEvent::Start;
    loop {
        event = match s.poll_read(1000, event) {
            ReadStep::Deliver(data) => {
                out.extend_from_slice(&data);
                PollEvent::Start
            },
            ReadStep::Poll => match messages.pop() {
                Some(m) => PollEvent::Message(Some(m)),
                None => PollEvent::Over,
            },
            ReadStep::End => break,
            other => panic!("{:?}", other),
        };
    }
    assert!(out == all);
}

#[test]
fn buffer_that_was_longer_takes_nothing_in() {
    let mut s = received(&vec![1u8; MAX_BUFFER_SIZE + 5]);
    assert_eq!(s.poll_read(0, PollEvent::Message(Some(vec![2]))), ReadStep::Pending);
    assert_eq!(s.peek_buffer(usize::MAX).len(), MAX_BUFFER_SIZE + 5);
}

#[test]
fn shadowsocks_looks_at_its_front_only() {
    for tail in [[0u8; 40], [13; 40], [255; 40]] {
        let mut b = vec![1, 8, 8, 8, 8, 0, 53];
        b.extend_from_slice(&tail);
        assert_eq!(received(&b).process(), Ok(Protocol::Shadowsocks));
        b[6] = 0;
        assert!(!stream().is_shadowsocks(&b));
    }
}
