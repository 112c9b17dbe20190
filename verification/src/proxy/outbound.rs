//! Reaching the target of a request: two ways are tried at once, the first that
//! stands is used, and the traffic over it is reported.
use crate::config::{option_view, Config, ConfigView, EndpointView, ModeView, ProxyMode};
use crate::error::ProxyError;
use crate::proxy::conn::{ProxyStream, MAX_WEBSOCKET_SIZE};
use crate::text::{decimal, push_decimal};
use vstd::prelude::*;
use vstd::string::StringExecFns;

verus! {

/// How many seconds a way may take until it stands.
pub const OUTBOUND_HANDSHAKE_TIMEOUT_SECS: u64 = 1;

/// The two ways to a target.
#[derive(Clone, Copy, Debug, PartialEq, Eq)]
pub enum Way {
    Direct,
    Fallback,
}

/// The other way.
pub open spec fn other_way(way: Way) -> Way {
    match way {
        Way::Direct => Way::Fallback,
        Way::Fallback => Way::Direct,
    }
}

/// How a way is opened.
#[derive(Debug, PartialEq, Eq)]
pub enum Dial {
    /// Connect to this address.
    Plain { addr: String, port: u16 },
    /// Connect to the SOCKS5 proxy and ask it for the target.
    Socks5 {
        host: String,
        port: u16,
        user: Option<String>,
        pass: Option<String>,
        target_addr: String,
        target_port: u16,
    },
    /// Connect to the HTTP proxy and ask it for the target.
    Http {
        host: String,
        port: u16,
        user: Option<String>,
        pass: Option<String>,
        target_addr: String,
        target_port: u16,
    },
}

/// [`Dial`] over mathematical values.
pub ghost enum DialView {
    Plain { addr: Seq<char>, port: u16 },
    Socks5 { proxy: EndpointView, target_addr: Seq<char>, target_port: u16 },
    Http { proxy: EndpointView, target_addr: Seq<char>, target_port: u16 },
}

impl View for Dial {
    type V = DialView;

    open spec fn view(&self) -> DialView {
        match *self {
            Dial::Plain { addr, port } => DialView::Plain { addr: addr@, port },
            Dial::Socks5 { host, port, user, pass, target_addr, target_port } => DialView::Socks5 {
                proxy: EndpointView {
                    host: host@,
                    port,
                    user: option_view(user),
                    pass: option_view(pass),
                },
                target_addr: target_addr@,
                target_port,
            },
            Dial::Http { host, port, user, pass, target_addr, target_port } => DialView::Http {
                proxy: EndpointView {
                    host: host@,
                    port,
                    user: option_view(user),
                    pass: option_view(pass),
                },
                target_addr: target_addr@,
                target_port,
            },
        }
    }
}

/// How a way to the target is opened. The direct way connects to the target; the
/// fallback connects to the relay instead, or asks the configured proxy.
pub open spec fn dial_of(config: ConfigView, way: Way, addr: Seq<char>, port: u16) -> DialView {
    match way {
        Way::Direct => DialView::Plain { addr, port },
        Way::Fallback => match config.proxy_mode {
            ModeView::Direct => DialView::Plain {
                addr: config.proxy_addr,
                port: config.proxy_port,
            },
            ModeView::Socks5(proxy) => DialView::Socks5 {
                proxy,
                target_addr: addr,
                target_port: port,
            },
            ModeView::Http(proxy) => DialView::Http {
                proxy,
                target_addr: addr,
                target_port: port,
            },
        },
    }
}

/// A copy of an optional text.
fn copy_option(s: &Option<String>) -> (r: Option<String>)
    ensures
        option_view(r) == option_view(*s),
{
    match s {
        Some(t) => Some(t.clone()),
        None => None,
    }
}

impl Config {
    /// How a way to the target is opened.
    pub fn dial(&self, way: Way, addr: &str, port: u16) -> (r: Dial)
        ensures
            r@ == dial_of(self@, way, addr@, port),
            way == Way::Direct ==> (r matches Dial::Plain { addr: a, port: p } && a@ == addr@ && p
                == port),
            (way == Way::Fallback && self.proxy_mode is Direct) ==> (r matches Dial::Plain {
                addr: a,
                port: p,
            } && a@ == self.proxy_addr@ && p == self.proxy_port),
            (way == Way::Fallback && self.proxy_mode is Socks5) ==> (r matches Dial::Socks5 {
                host: h,
                port: p,
                user: u,
                pass: w,
                target_addr: a,
                target_port: t,
            } && h@ == self.proxy_mode->Socks5_host@ && p == self.proxy_mode->Socks5_port
                && option_view(u) == option_view(self.proxy_mode->Socks5_user) && option_view(w)
                == option_view(self.proxy_mode->Socks5_pass) && a@ == addr@ && t == port),
            (way == Way::Fallback && self.proxy_mode is Http) ==> (r matches Dial::Http {
                host: h,
                port: p,
                user: u,
                pass: w,
                target_addr: a,
                target_port: t,
            } && h@ == self.proxy_mode->Http_host@ && p == self.proxy_mode->Http_port
                && option_view(u) == option_view(self.proxy_mode->Http_user) && option_view(w)
                == option_view(self.proxy_mode->Http_pass) && a@ == addr@ && t == port),
    {
        match way {
            Way::Direct => Dial::Plain { addr: addr.to_owned(), port },
            Way::Fallback => match &self.proxy_mode {
                ProxyMode::Direct => Dial::Plain {
                    addr: self.proxy_addr.clone(),
                    port: self.proxy_port,
                },
                ProxyMode::Socks5 { host, port: proxy_port, user, pass } => Dial::Socks5 {
                    host: host.clone(),
                    port: *proxy_port,
                    user: copy_option(user),
                    pass: copy_option(pass),
                    target_addr: addr.to_owned(),
                    target_port: port,
                },
                ProxyMode::Http { host, port: proxy_port, user, pass } => Dial::Http {
                    host: host.clone(),
                    port: *proxy_port,
                    user: copy_option(user),
                    pass: copy_option(pass),
                    target_addr: addr.to_owned(),
                    target_port: port,
                },
            },
        }
    }
}

/// How far a tunnel has got.
#[derive(Debug, PartialEq, Eq)]
pub enum OutboundPhase {
    /// Both ways are being opened.
    Race { addr: String, port: u16 },
    /// The other way failed, this one is still being opened.
    Wait(Way),
    /// This way stands and carries the traffic.
    Copy(Way),
    /// The traffic is over and is being reported.
    Record { up: u64, down: u64 },
}

/// What the caller does in a phase.
#[derive(Debug, PartialEq, Eq)]
pub enum OutboundAction {
    /// Open both ways at once, each within this many seconds, until one settles.
    Race { direct: Dial, fallback: Dial, timeout_secs: u64 },
    /// Go on opening this way until it settles.
    Wait(Way),
    /// Carry the traffic over this way, with buffers of this size.
    Copy { way: Way, size: usize },
    /// Report the traffic by calling this URL.
    Record { url: String },
}

/// [`OutboundAction`] over mathematical values.
pub ghost enum OutboundActionView {
    Race { direct: DialView, fallback: DialView, timeout_secs: u64 },
    Wait(Way),
    Copy { way: Way, size: usize },
    Record { url: Seq<char> },
}

impl View for OutboundAction {
    type V = OutboundActionView;

    open spec fn view(&self) -> OutboundActionView {
        match *self {
            OutboundAction::Race { direct, fallback, timeout_secs } => OutboundActionView::Race {
                direct: direct@,
                fallback: fallback@,
                timeout_secs,
            },
            OutboundAction::Wait(w) => OutboundActionView::Wait(w),
            OutboundAction::Copy { way, size } => OutboundActionView::Copy { way, size },
            OutboundAction::Record { url } => OutboundActionView::Record { url: url@ },
        }
    }
}

/// How an action ended.
#[derive(Debug, PartialEq, Eq)]
pub enum OutboundEvent {
    /// A way stands, or it failed.
    Settled { way: Way, ok: bool },
    /// So many bytes went up and down.
    Copied { up: u64, down: u64 },
    /// Carrying the traffic failed with this message.
    Failed(String),
    /// The report was made, or was tried in vain.
    Recorded,
}

/// Where a tunnel has got to.
#[derive(Debug, PartialEq, Eq)]
pub enum OutboundStep {
    Next(OutboundPhase),
    Finish,
    Fail(ProxyError),
}

/// The pairs of the query in which traffic is reported.
pub open spec fn record_pairs(up: u64, down: u64) -> Seq<(Seq<char>, Seq<char>)> {
    seq![("up"@, decimal(up as nat)), ("down"@, decimal(down as nat))]
}

/// The query of two pairs of plain words.
pub open spec fn query_of(pairs: Seq<(Seq<char>, Seq<char>)>) -> Seq<char> {
    pairs[0].0 + "="@ + pairs[0].1 + "&"@ + pairs[1].0 + "="@ + pairs[1].1
}

/// The URL by which traffic is reported.
pub open spec fn record_url_of(up: u64, down: u64) -> Seq<char> {
    "https://stats.internal/record?"@ + query_of(record_pairs(up, down))
}

/// The URL by which traffic is reported.
pub fn record_url(up: u64, down: u64) -> (r: String)
    ensures
        r@ == record_url_of(up, down),
{
    let mut r = String::from_str("https://stats.internal/record?");
    r.append("up");
    r.append("=");
    push_decimal(&mut r, up);
    r.append("&");
    r.append("down");
    r.append("=");
    push_decimal(&mut r, down);
    assert(r@ =~= record_url_of(up, down));
    r
}

/// What an answer to a report comes to.
pub open spec fn record_verdict(status: u16, body: String) -> Result<(), ProxyError> {
    if status == 200 {
        Ok(())
    } else {
        Err(ProxyError::RecordFailed { status, body })
    }
}

/// Judges the answer to a report: only status 200 will do. The body is looked at
/// only to tell what went wrong.
pub fn record_usage(status: u16, body: String) -> (r: Result<(), ProxyError>)
    ensures
        r == (if status == 200 {
            Ok(())
        } else {
            Err(ProxyError::RecordFailed { status, body })
        }),
        r == record_verdict(status, body),
{
    if status != 200 {
        return Err(ProxyError::RecordFailed { status, body });
    }
    Ok(())
}

/// What is done in a phase.
pub open spec fn outbound_action(config: ConfigView, phase: OutboundPhase) -> OutboundActionView {
    match phase {
        OutboundPhase::Race { addr, port } => OutboundActionView::Race {
            direct: dial_of(config, Way::Direct, addr@, port),
            fallback: dial_of(config, Way::Fallback, addr@, port),
            timeout_secs: OUTBOUND_HANDSHAKE_TIMEOUT_SECS,
        },
        OutboundPhase::Wait(way) => OutboundActionView::Wait(way),
        OutboundPhase::Copy(way) => OutboundActionView::Copy { way, size: MAX_WEBSOCKET_SIZE },
        OutboundPhase::Record { up, down } => OutboundActionView::Record {
            url: record_url_of(up, down),
        },
    }
}

/// Whether an event is how the action of a phase can end.
pub open spec fn settles(phase: OutboundPhase, event: OutboundEvent) -> bool {
    match phase {
        OutboundPhase::Race { addr, port } => event is Settled,
        OutboundPhase::Wait(w) => event matches OutboundEvent::Settled { way, ok } && way == w,
        OutboundPhase::Copy(way) => event is Copied || event is Failed,
        OutboundPhase::Record { up, down } => event is Recorded,
    }
}

/// What follows how the action of a phase ended. The request is given up without
/// an error where both ways failed.
pub open spec fn outbound_next(phase: OutboundPhase, event: OutboundEvent) -> OutboundStep {
    match event {
        OutboundEvent::Settled { way, ok } => if ok {
            OutboundStep::Next(OutboundPhase::Copy(way))
        } else if phase is Race {
            OutboundStep::Next(OutboundPhase::Wait(other_way(way)))
        } else {
            OutboundStep::Finish
        },
        OutboundEvent::Copied { up, down } => OutboundStep::Next(
            OutboundPhase::Record { up, down },
        ),
        OutboundEvent::Failed(m) => OutboundStep::Fail(ProxyError::Io(m)),
        OutboundEvent::Recorded => OutboundStep::Finish,
    }
}

impl ProxyStream {
    /// What is done in a phase of a tunnel.
    pub fn outbound_action(&self, phase: &OutboundPhase) -> (r: OutboundAction)
        ensures
            r@ == outbound_action(self.config@, *phase),
    {
        match phase {
            OutboundPhase::Race { addr, port } => OutboundAction::Race {
                direct: self.config.dial(Way::Direct, addr.as_str(), *port),
                fallback: self.config.dial(Way::Fallback, addr.as_str(), *port),
                timeout_secs: OUTBOUND_HANDSHAKE_TIMEOUT_SECS,
            },
            OutboundPhase::Wait(way) => OutboundAction::Wait(*way),
            OutboundPhase::Copy(way) => OutboundAction::Copy {
                way: *way,
                size: MAX_WEBSOCKET_SIZE,
            },
            OutboundPhase::Record { up, down } => OutboundAction::Record {
                url: record_url(*up, *down),
            },
        }
    }

    /// Decides what follows how the action of a phase ended; a tunnel begins with
    /// [`OutboundPhase::Race`].
    pub fn handle_outbound(&self, phase: OutboundPhase, event: OutboundEvent) -> (r: OutboundStep)
        requires
            settles(phase, event),
        ensures
            r == outbound_next(phase, event),
    {
        match event {
            OutboundEvent::Settled { way, ok } => {
                if ok {
                    return OutboundStep::Next(OutboundPhase::Copy(way));
                }
                match phase {
                    OutboundPhase::Race { .. } => {
                        let other = match way {
                            Way::Direct => Way::Fallback,
                            Way::Fallback => Way::Direct,
                        };
                        OutboundStep::Next(OutboundPhase::Wait(other))
                    },
                    _ => OutboundStep::Finish,
                }
            },
            OutboundEvent::Copied { up, down } => OutboundStep::Next(
                OutboundPhase::Record { up, down },
            ),
            OutboundEvent::Failed(m) => OutboundStep::Fail(ProxyError::Io(m)),
            OutboundEvent::Recorded => OutboundStep::Finish,
        }
    }
}

/// Where a tunnel has got to after the first `n` events.
pub open spec fn outbound_after(start: OutboundPhase, events: Seq<OutboundEvent>, n: nat) -> OutboundStep
    decreases n,
{
    if n == 0 {
        OutboundStep::Next(start)
    } else {
        match outbound_after(start, events, (n - 1) as nat) {
            OutboundStep::Next(phase) => outbound_next(phase, events[n - 1]),
            s => s,
        }
    }
}

/// Whether the events are those of one tunnel.
pub open spec fn is_outbound_run(start: OutboundPhase, events: Seq<OutboundEvent>) -> bool {
    forall|n: nat|
        n < events.len() ==> (#[trigger] outbound_after(start, events, n) matches OutboundStep::Next(
            phase,
        ) && settles(phase, events[n as int]))
}

/// Law: a tunnel carries traffic over a way exactly when that way stands and is
/// the first to do so; it is given up exactly when both ways failed.
pub proof fn law_first_way_that_stands_is_used(start: OutboundPhase, events: Seq<OutboundEvent>)
    requires
        start is Race,
        is_outbound_run(start, events),
        events.len() >= 1,
    ensures
        events[0] matches OutboundEvent::Settled { way, ok } && {
            &&& ok ==> outbound_after(start, events, 1) == OutboundStep::Next(
                OutboundPhase::Copy(way),
            )
            &&& (!ok && events.len() >= 2) ==> (events[1] matches OutboundEvent::Settled {
                way: second,
                ok: second_ok,
            } && second == other_way(way) && outbound_after(start, events, 2) == (if second_ok {
                OutboundStep::Next(OutboundPhase::Copy(second))
            } else {
                OutboundStep::Finish
            }))
        },
{
    reveal_with_fuel(outbound_after, 3);
    assert(outbound_after(start, events, 0) is Next);
    if events.len() >= 2 {
        assert(outbound_after(start, events, 1) is Next);
    }
}

/// Law: what is reported is what was carried, once, after the traffic is over.
pub proof fn law_reports_what_was_carried(
    start: OutboundPhase,
    events: Seq<OutboundEvent>,
    n: nat,
)
    requires
        start is Race,
        is_outbound_run(start, events),
        n < events.len(),
        events[n as int] is Copied,
    ensures
        outbound_after(start, events, n + 1) == OutboundStep::Next(
            OutboundPhase::Record {
                up: events[n as int]->Copied_up,
                down: events[n as int]->Copied_down,
            },
        ),
        events.len() >= n + 2 ==> outbound_after(start, events, n + 2) is Finish && events.len()
            == n + 2,
{
    reveal_with_fuel(outbound_after, 3);
    assert(outbound_after(start, events, n) is Next);
    if events.len() >= n + 2 {
        assert(outbound_after(start, events, n + 1) is Next);
        if events.len() > n + 2 {
            assert(outbound_after(start, events, n + 2) is Next);
        }
    }
}

/// Law: a tunnel to an address and a port opens as its direct way a plain connection
/// to exactly that address and that port. Its fallback is a plain connection to the
/// relay, or names the configured proxy, with its host, port and credentials, and the
/// same address and port as the target. Each may take one second.
pub proof fn law_race_is_for_the_target(config: ConfigView, addr: String, port: u16)
    ensures
        outbound_action(config, OutboundPhase::Race { addr, port })
            matches OutboundActionView::Race { direct, fallback, timeout_secs } && {
            &&& timeout_secs == 1
            &&& direct matches DialView::Plain { addr: a, port: p } && a == addr@ && p == port
            &&& config.proxy_mode is Direct ==> (fallback matches DialView::Plain {
                addr: a,
                port: p,
            } && a == config.proxy_addr && p == config.proxy_port)
            &&& (config.proxy_mode matches ModeView::Socks5(e) ==> (fallback
                matches DialView::Socks5 { proxy, target_addr, target_port } && proxy.host
                == e.host && proxy.port == e.port && proxy.user == e.user && proxy.pass == e.pass
                && target_addr == addr@ && target_port == port))
            &&& (config.proxy_mode matches ModeView::Http(e) ==> (fallback
                matches DialView::Http { proxy, target_addr, target_port } && proxy.host == e.host
                && proxy.port == e.port && proxy.user == e.user && proxy.pass == e.pass
                && target_addr == addr@ && target_port == port))
        },
{
}

/// Law: the direct way does not depend on the configuration, the fallback over a
/// relay does not depend on the target, and over a proxy two targets are dialled
/// alike exactly when they are the same.
pub proof fn law_ways_depend_on_what_they_reach(
    a: ConfigView,
    b: ConfigView,
    addr: Seq<char>,
    port: u16,
    other: Seq<char>,
    other_port: u16,
)
    ensures
        dial_of(a, Way::Direct, addr, port) == dial_of(b, Way::Direct, addr, port),
        dial_of(a, Way::Direct, addr, port) == dial_of(a, Way::Direct, other, other_port) <==> addr
            == other && port == other_port,
        a.proxy_mode is Direct ==> dial_of(a, Way::Fallback, addr, port) == dial_of(
            a,
            Way::Fallback,
            other,
            other_port,
        ),
        a.proxy_mode !is Direct ==> (dial_of(a, Way::Fallback, addr, port) == dial_of(
            a,
            Way::Fallback,
            other,
            other_port,
        ) <==> addr == other && port == other_port),
{
}

/// Law: what is done in the later phases: the way that is still being opened is waited
/// for, the way that stands carries the traffic in pieces of 524288 bytes, and the
/// traffic is reported in decimal.
pub proof fn law_later_phases_act_on_their_way(config: ConfigView, way: Way, up: u64, down: u64)
    ensures
        outbound_action(config, OutboundPhase::Wait(way)) == OutboundActionView::Wait(way),
        outbound_action(config, OutboundPhase::Copy(way)) == (OutboundActionView::Copy {
            way,
            size: 524288,
        }),
        outbound_action(config, OutboundPhase::Record { up, down })
            matches OutboundActionView::Record { url } && url
            == "https://stats.internal/record?up="@ + decimal(up as nat) + "&down="@ + decimal(
            down as nat,
        ),
{
    reveal_strlit("https://stats.internal/record?up=");
    reveal_strlit("https://stats.internal/record?");
    reveal_strlit("up");
    reveal_strlit("=");
    reveal_strlit("&");
    reveal_strlit("down");
    reveal_strlit("&down=");
    assert(record_url_of(up, down) =~= "https://stats.internal/record?up="@ + decimal(up as nat)
        + "&down="@ + decimal(down as nat));
}

/// Law: a tunnel from its race to its end. Whichever way stands first carries the
/// traffic; where the first to settle failed, the other one is waited for, and where
/// that failed too, the tunnel ends without an error. Traffic that was carried is
/// reported as it was carried; a failure to carry it ends with its own message.
pub proof fn law_tunnel_step_by_step(
    addr: String,
    port: u16,
    way: Way,
    up: u64,
    down: u64,
    m: String,
)
    ensures
        ({
            let race = OutboundPhase::Race { addr, port };
            let other = if way == Way::Direct { Way::Fallback } else { Way::Direct };
            &&& settles(race, OutboundEvent::Settled { way, ok: true })
            &&& settles(race, OutboundEvent::Settled { way, ok: false })
            &&& settles(
                OutboundPhase::Wait(other),
                OutboundEvent::Settled { way: other, ok: true },
            )
            &&& settles(
                OutboundPhase::Wait(other),
                OutboundEvent::Settled { way: other, ok: false },
            )
            &&& settles(OutboundPhase::Copy(way), OutboundEvent::Copied { up, down })
            &&& settles(OutboundPhase::Copy(way), OutboundEvent::Failed(m))
            &&& settles(OutboundPhase::Record { up, down }, OutboundEvent::Recorded)
            &&& outbound_next(race, OutboundEvent::Settled { way, ok: true }) == OutboundStep::Next(
                OutboundPhase::Copy(way),
            )
            &&& outbound_next(race, OutboundEvent::Settled { way, ok: false })
                == OutboundStep::Next(OutboundPhase::Wait(other))
            &&& outbound_next(
                OutboundPhase::Wait(other),
                OutboundEvent::Settled { way: other, ok: true },
            ) == OutboundStep::Next(OutboundPhase::Copy(other))
            &&& outbound_next(
                OutboundPhase::Wait(other),
                OutboundEvent::Settled { way: other, ok: false },
            ) is Finish
            &&& outbound_next(OutboundPhase::Copy(way), OutboundEvent::Copied { up, down })
                == OutboundStep::Next(OutboundPhase::Record { up, down })
            &&& outbound_next(OutboundPhase::Copy(way), OutboundEvent::Failed(m))
                == OutboundStep::Fail(ProxyError::Io(m))
            &&& outbound_next(OutboundPhase::Record { up, down }, OutboundEvent::Recorded) is Finish
        }),
{
}

/// Law: a report is taken for made exactly where the answer has status 200; otherwise
/// the status and the body are what is told.
pub proof fn law_report_needs_status_ok(status: u16, body: String)
    ensures
        record_verdict(status, body) is Ok <==> status == 200,
        record_verdict(status, body) matches Err(e) ==> e == (ProxyError::RecordFailed {
            status,
            body,
        }),
{
}

/// Law: what contracts say of an action, they say of its own fields.
pub proof fn law_outbound_action_is_seen_whole(
    direct: Dial,
    fallback: Dial,
    timeout_secs: u64,
    way: Way,
    size: usize,
    url: String,
    addr: String,
    port: u16,
)
    ensures
        (OutboundAction::Race { direct, fallback, timeout_secs })@ == (OutboundActionView::Race {
            direct: direct@,
            fallback: fallback@,
            timeout_secs,
        }),
        OutboundAction::Wait(way)@ == OutboundActionView::Wait(way),
        (OutboundAction::Copy { way, size })@ == (OutboundActionView::Copy { way, size }),
        (OutboundAction::Record { url })@ == (OutboundActionView::Record { url: url@ }),
        (Dial::Plain { addr, port })@ == (DialView::Plain { addr: addr@, port }),
{
}

} // verus!
