use siren::config::{Config, ProxyMode};
use siren::error::ProxyError;
use siren::proxy::conn::ProxyStream;
use siren::proxy::outbound::{
    record_url, record_usage, Dial, OutboundAction, OutboundEvent, OutboundPhase, OutboundStep, Way,
};

fn text(s: &str) -> String {
    s.to_string()
}

fn config() -> Config {
    let mut c = Config::new("", text("own.example"), String::new(), String::new());
    c.proxy_addr = text("relay.example");
    c.proxy_port = 8443;
    c
}

fn race() -> OutboundPhase {
    OutboundPhase::Race { addr: text("target.example"), port: 80 }
}

fn settled(way: Way, ok: bool) -> OutboundEvent {
    OutboundEvent::Settled { way, ok }
}

#[test]
fn direct_way_connects_to_the_target() {
    let plain = Dial::Plain { addr: text("target.example"), port: 80 };
    let mut c = config();
    assert_eq!(c.dial(Way::Direct, "target.example", 80), plain);
    c.proxy_mode = ProxyMode::Http { host: text("p"), port: 1, user: None, pass: None };
    assert_eq!(c.dial(Way::Direct, "target.example", 80), plain);
}

#[test]
fn fallback_goes_over_the_relay_or_the_proxy() {
    let mut c = config();
    assert_eq!(
        c.dial(Way::Fallback, "target.example", 80),
        Dial::Plain { addr: text("relay.example"), port: 8443 }
    );
    c.proxy_mode = ProxyMode::Socks5 {
        host: text("p"),
        port: 1080,
        user: Some(text("u")),
        pass: Some(text("w")),
    };
    assert_eq!(
        c.dial(Way::Fallback, "target.example", 80),
        Dial::Socks5 {
            host: text("p"),
            port: 1080,
            user: Some(text("u")),
            pass: Some(text("w")),
            target_addr: text("target.example"),
            target_port: 80,
        }
    );
    c.proxy_mode = ProxyMode::Http { host: text("q"), port: 3128, user: None, pass: None };
    assert_eq!(
        c.dial(Way::Fallback, "target.example", 80),
        Dial::Http {
            host: text("q"),
            port: 3128,
            user: None,
            pass: None,
            target_addr: text("target.example"),
            target_port: 80,
        }
    );
}

#[test]
fn actions_of_a_tunnel() {
    let s = ProxyStream::new(config());
    assert_eq!(
        s.outbound_action(&race()),
        OutboundAction::Race {
            direct: Dial::Plain { addr: text("target.example"), port: 80 },
            fallback: Dial::Plain { addr: text("relay.example"), port: 8443 },
            timeout_secs: 1,
        }
    );
    assert_eq!(
        s.outbound_action(&OutboundPhase::Wait(Way::Fallback)),
        OutboundAction::Wait(Way::Fallback)
    );
    assert_eq!(
        s.outbound_action(&OutboundPhase::Copy(Way::Direct)),
        OutboundAction::Copy { way: Way::Direct, size: 524288 }
    );
    assert_eq!(
        s.outbound_action(&OutboundPhase::Record { up: 3, down: 40 }),
        OutboundAction::Record { url: text("https://stats.internal/record?up=3&down=40") }
    );
}

#[test]
fn first_way_that_stands_is_used() {
    let s = ProxyStream::new(config());
    for way in [Way::Direct, Way::Fallback] {
        assert_eq!(
            s.handle_outbound(race(), settled(way, true)),
            OutboundStep::Next(OutboundPhase::Copy(way))
        );
    }
}

#[test]
fn other_way_is_waited_for() {
    let s = ProxyStream::new(config());
    for (failed, other) in [(Way::Direct, Way::Fallback), (Way::Fallback, Way::Direct)] {
        assert_eq!(
            s.handle_outbound(race(), settled(failed, false)),
            OutboundStep::Next(OutboundPhase::Wait(other))
        );
        assert_eq!(
            s.handle_outbound(OutboundPhase::Wait(other), settled(other, true)),
            OutboundStep::Next(OutboundPhase::Copy(other))
        );
        assert_eq!(
            s.handle_outbound(OutboundPhase::Wait(other), settled(other, false)),
            OutboundStep::Finish
        );
    }
}

#[test]
fn traffic_is_reported_once() {
    let s = ProxyStream::new(config());
    assert_eq!(
        s.handle_outbound(
            OutboundPhase::Copy(Way::Direct),
            OutboundEvent::Copied { up: 5, down: 6 }
        ),
        OutboundStep::Next(OutboundPhase::Record { up: 5, down: 6 })
    );
    assert_eq!(
        s.handle_outbound(OutboundPhase::Record { up: 5, down: 6 }, OutboundEvent::Recorded),
        OutboundStep::Finish
    );
    assert_eq!(
        s.handle_outbound(
            OutboundPhase::Copy(Way::Direct),
            OutboundEvent::Failed(text("reset"))
        ),
        OutboundStep::Fail(ProxyError::Io(text("reset")))
    );
}

#[test]
fn report_is_judged_by_its_status() {
    assert_eq!(record_usage(200, text("ok")), Ok(()));
    assert_eq!(
        record_usage(201, text("why")),
        Err(ProxyError::RecordFailed { status: 201, body: text("why") })
    );
    assert_eq!(
        record_url(0, u64::MAX),
        "https://stats.internal/record?up=0&down=18446744073709551615"
    );
}
