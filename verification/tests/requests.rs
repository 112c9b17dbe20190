use siren::config::Config;
use siren::error::ProxyError;
use siren::proxy::conn::ProxyStream;
use siren::proxy::header::{AddrKind, HeaderAction, HeaderEvent};
use siren::proxy::shadowsocks::{ShadowsocksPhase, ShadowsocksStep};
use siren::proxy::trojan::{TrojanPhase, TrojanStep};
use siren::proxy::udp::{UdpEvent, UdpPhase, UdpStep, MAX_DATAGRAM};
use siren::proxy::vless::{VlessPhase, VlessStep};

const ID: &str = "550e8400-e29b-41d4-a716-446655440000";
const HASH: &str = "ed26ba21463510346459c2551dd80a0557a221d29db28db61b0c1b5e";

fn stream() -> ProxyStream {
    ProxyStream::new(Config::new(ID, String::new(), String::new(), String::new()))
}

fn id_bytes() -> Vec<u8> {
    vec![0x55, 0x0e, 0x84, 0x00, 0xe2, 0x9b, 0x41, 0xd4, 0xa7, 0x16, 0x44, 0x66, 0x55, 0x44, 0, 0]
}

fn addr() -> String {
    "example.com".to_string()
}

/// Runs a VLESS request over the outcomes; the actions, and how it ended.
fn run_vless(events: Vec<HeaderEvent>) -> (Vec<HeaderAction>, VlessStep) {
    let s = stream();
    let mut actions = vec![];
    let mut step = VlessStep::Next(VlessPhase::Version);
    for event in events {
        match step {
            VlessStep::Next(phase) => {
                actions.push(phase.action());
                step = s.process_vless(phase, event);
            },
            ended => return (actions, ended),
        }
    }
    (actions, step)
}

fn vless_request(id: Vec<u8>, network: u8) -> Vec<HeaderEvent> {
    vec![
        HeaderEvent::Byte(0),
        HeaderEvent::Bytes(id),
        HeaderEvent::Byte(3),
        HeaderEvent::Bytes(vec![9, 9, 9]),
        HeaderEvent::Byte(network),
        HeaderEvent::Port(443),
        HeaderEvent::Addr(addr()),
        HeaderEvent::Done,
        HeaderEvent::Done,
    ]
}

#[test]
fn vless_over_tcp_is_answered_and_tunnelled() {
    let (actions, end) = run_vless(vless_request(id_bytes(), 1));
    assert_eq!(end, VlessStep::Finish);
    assert_eq!(
        actions,
        vec![
            HeaderAction::ReadByte,
            HeaderAction::ReadBytes(16),
            HeaderAction::ReadByte,
            HeaderAction::ReadBytes(3),
            HeaderAction::ReadByte,
            HeaderAction::ParsePort,
            HeaderAction::ParseAddr(AddrKind::VlessVmess),
            HeaderAction::Write(vec![0, 0]),
            HeaderAction::Outbound { addr: addr(), port: 443 },
        ]
    );
}

#[test]
fn vless_over_another_network_is_a_datagram() {
    for network in [0, 2, 255] {
        let (actions, end) = run_vless(vless_request(id_bytes(), network));
        assert_eq!(end, VlessStep::Finish);
        assert_eq!(actions.len(), 8);
        assert_eq!(actions[7], HeaderAction::Udp);
    }
}

#[test]
fn vless_with_another_id_is_refused() {
    let mut other = id_bytes();
    other[15] = 1;
    let (actions, end) = run_vless(vless_request(other, 1));
    assert_eq!(end, VlessStep::Fail(ProxyError::InvalidUuid));
    assert_eq!(actions, vec![HeaderAction::ReadByte, HeaderAction::ReadBytes(16)]);
}

#[test]
fn vless_failures_end_the_request_but_for_the_datagram() {
    let s = stream();
    let failed = || HeaderEvent::Failed("eof".to_string());
    let io = || VlessStep::Fail(ProxyError::Io("eof".to_string()));
    assert_eq!(s.process_vless(VlessPhase::Version, failed()), io());
    assert_eq!(s.process_vless(VlessPhase::UserId, failed()), io());
    assert_eq!(s.process_vless(VlessPhase::Outbound { addr: addr(), port: 1 }, failed()), io());
    assert_eq!(s.process_vless(VlessPhase::Udp, failed()), VlessStep::Finish);
}

/// Runs a Trojan request over the outcomes; the actions, and how it ended.
fn run_trojan(events: Vec<HeaderEvent>) -> (Vec<HeaderAction>, TrojanStep) {
    let s = stream();
    let mut actions = vec![];
    let mut step = TrojanStep::Next(TrojanPhase::Password);
    for event in events {
        match step {
            TrojanStep::Next(phase) => {
                actions.push(phase.action());
                step = s.process_trojan(phase, event);
            },
            ended => return (actions, ended),
        }
    }
    (actions, step)
}

fn trojan_request(hash: &str, network: u8) -> Vec<HeaderEvent> {
    vec![
        HeaderEvent::Bytes(hash.as_bytes().to_vec()),
        HeaderEvent::Word(0x0d0a),
        HeaderEvent::Byte(network),
        HeaderEvent::Addr(addr()),
        HeaderEvent::Port(80),
        HeaderEvent::Word(0x0d0a),
        HeaderEvent::Done,
    ]
}

#[test]
fn trojan_key_is_the_hash_of_the_id() {
    assert_eq!(stream().trojan_key(), HASH.as_bytes());
}

#[test]
fn trojan_over_tcp_is_tunnelled() {
    let (actions, end) = run_trojan(trojan_request(HASH, 1));
    assert_eq!(end, TrojanStep::Finish);
    assert_eq!(
        actions,
        vec![
            HeaderAction::ReadBytes(56),
            HeaderAction::ReadWord,
            HeaderAction::ReadByte,
            HeaderAction::ParseAddr(AddrKind::Socks5Like),
            HeaderAction::ParsePort,
            HeaderAction::ReadWord,
            HeaderAction::Outbound { addr: addr(), port: 80 },
        ]
    );
}

#[test]
fn trojan_over_another_network_is_a_datagram() {
    let (actions, end) = run_trojan(trojan_request(HASH, 3));
    assert_eq!(end, TrojanStep::Finish);
    assert_eq!(actions[6], HeaderAction::Udp);
}

#[test]
fn trojan_with_another_hash_is_refused() {
    let upper = HASH.to_uppercase();
    let (actions, end) = run_trojan(trojan_request(&upper, 1));
    assert_eq!(end, TrojanStep::Fail(ProxyError::InvalidPassword));
    assert_eq!(actions.len(), 1);
}

#[test]
fn trojan_phase_compares_with_the_given_key() {
    assert_eq!(
        TrojanPhase::Password.next(b"key", HeaderEvent::Bytes(vec![0; 56])),
        TrojanStep::Fail(ProxyError::InvalidPassword)
    );
    assert_eq!(
        TrojanPhase::Password.next(&[7; 56], HeaderEvent::Bytes(vec![7; 56])),
        TrojanStep::Next(TrojanPhase::FirstLineEnd)
    );
}

#[test]
fn trojan_failures_end_the_request_but_for_the_datagram() {
    let s = stream();
    let failed = || HeaderEvent::Failed("eof".to_string());
    assert_eq!(
        s.process_trojan(TrojanPhase::Password, failed()),
        TrojanStep::Fail(ProxyError::Io("eof".to_string()))
    );
    assert_eq!(s.process_trojan(TrojanPhase::Udp, failed()), TrojanStep::Finish);
}

#[test]
fn trojan_client_is_detected() {
    let mut s = stream();
    let mut b = s.trojan_key();
    b.extend_from_slice(b"\r\n\x01\x01");
    s.fill_buffer_until(62, Some(siren::proxy::conn::SocketEvent::Message(Some(b))));
    assert_eq!(s.process(), Ok(siren::proxy::conn::Protocol::Trojan));
}

#[test]
fn shadowsocks_is_tunnelled_to_its_target() {
    let s = stream();
    let phase = ShadowsocksPhase::Addr;
    assert_eq!(phase.action(), HeaderAction::ParseAddr(AddrKind::Socks5Like));
    let phase = ShadowsocksPhase::Port { addr: addr() };
    assert_eq!(
        s.process_shadowsocks(ShadowsocksPhase::Addr, HeaderEvent::Addr(addr())),
        ShadowsocksStep::Next(ShadowsocksPhase::Port { addr: addr() })
    );
    assert_eq!(phase.action(), HeaderAction::ParsePort);
    let phase = ShadowsocksPhase::Outbound { addr: addr(), port: 8443 };
    assert_eq!(
        s.process_shadowsocks(
            ShadowsocksPhase::Port { addr: addr() },
            HeaderEvent::Port(8443)
        ),
        ShadowsocksStep::Next(ShadowsocksPhase::Outbound { addr: addr(), port: 8443 })
    );
    assert_eq!(phase.action(), HeaderAction::Outbound { addr: addr(), port: 8443 });
    assert_eq!(s.process_shadowsocks(phase, HeaderEvent::Done), ShadowsocksStep::Finish);
    assert_eq!(
        s.process_shadowsocks(ShadowsocksPhase::Addr, HeaderEvent::Failed("bad".to_string())),
        ShadowsocksStep::Fail(ProxyError::Io("bad".to_string()))
    );
}

#[test]
fn datagram_is_echoed_when_resolved() {
    let s = stream();
    let data = vec![1, 2, 3];
    assert_eq!(
        s.handle_udp_outbound(UdpPhase::Read, UdpEvent::Data(data.clone())),
        UdpStep::Next(UdpPhase::Resolve(data.clone()))
    );
    assert_eq!(
        s.handle_udp_outbound(UdpPhase::Resolve(data.clone()), UdpEvent::Resolved(true)),
        UdpStep::Next(UdpPhase::Reply(data.clone()))
    );
    assert_eq!(
        s.handle_udp_outbound(UdpPhase::Reply(data), UdpEvent::Written),
        UdpStep::Finish
    );
}

#[test]
fn unresolved_datagram_is_dropped() {
    let s = stream();
    assert_eq!(
        s.handle_udp_outbound(UdpPhase::Resolve(vec![1]), UdpEvent::Resolved(false)),
        UdpStep::Finish
    );
    assert_eq!(
        s.handle_udp_outbound(UdpPhase::Read, UdpEvent::Failed("eof".to_string())),
        UdpStep::Fail(ProxyError::Io("eof".to_string()))
    );
    assert_eq!(
        s.handle_udp_outbound(UdpPhase::Reply(vec![]), UdpEvent::Failed("eof".to_string())),
        UdpStep::Fail(ProxyError::Io("eof".to_string()))
    );
    assert_eq!(MAX_DATAGRAM, 65535);
}

#[test]
fn vless_version_and_options_do_not_matter() {
    let plain = run_vless(vless_request(id_bytes(), 1));
    let mut other = vless_request(id_bytes(), 1);
    other[0] = HeaderEvent::Byte(255);
    other[2] = HeaderEvent::Byte(0);
    other[3] = HeaderEvent::Bytes(vec![]);
    let other = run_vless(other);
    assert_eq!(plain.1, other.1);
    assert_eq!(plain.0[4..], other.0[4..]);
}
