//! The Shadowsocks request: address and port, always over TCP.
use crate::error::ProxyError;
use crate::proxy::conn::ProxyStream;
use crate::proxy::header::{answers, ActionView, AddrKind, HeaderAction, HeaderEvent, Reached};
use vstd::prelude::*;

verus! {

/// Which part of a request is due.
#[derive(Debug, PartialEq, Eq)]
pub enum ShadowsocksPhase {
    Addr,
    Port { addr: String },
    Outbound { addr: String, port: u16 },
}

/// [`ShadowsocksPhase`] over mathematical values.
pub ghost enum ShadowsocksView {
    Addr,
    Port { addr: Seq<char> },
    Outbound { addr: Seq<char>, port: u16 },
}

impl View for ShadowsocksPhase {
    type V = ShadowsocksView;

    open spec fn view(&self) -> ShadowsocksView {
        match *self {
            ShadowsocksPhase::Addr => ShadowsocksView::Addr,
            ShadowsocksPhase::Port { addr } => ShadowsocksView::Port { addr: addr@ },
            ShadowsocksPhase::Outbound { addr, port } => ShadowsocksView::Outbound {
                addr: addr@,
                port,
            },
        }
    }
}

/// Where the reading of a request has got to.
#[derive(Debug, PartialEq, Eq)]
pub enum ShadowsocksStep {
    Next(ShadowsocksPhase),
    Finish,
    Fail(ProxyError),
}

impl View for ShadowsocksStep {
    type V = Reached<ShadowsocksView>;

    open spec fn view(&self) -> Reached<ShadowsocksView> {
        match *self {
            ShadowsocksStep::Next(p) => Reached::Next(p@),
            ShadowsocksStep::Finish => Reached::Finish,
            ShadowsocksStep::Fail(e) => Reached::Fail(e),
        }
    }
}

/// What is done in a phase.
pub open spec fn shadowsocks_action(phase: ShadowsocksView) -> ActionView {
    match phase {
        ShadowsocksView::Addr => ActionView::ParseAddr(AddrKind::Socks5Like),
        ShadowsocksView::Port { addr } => ActionView::ParsePort,
        ShadowsocksView::Outbound { addr, port } => ActionView::Outbound { addr, port },
    }
}

/// What follows how the action of a phase ended. A failure ends the request.
pub open spec fn shadowsocks_next(phase: ShadowsocksView, event: HeaderEvent) -> Reached<
    ShadowsocksView,
> {
    match event {
        HeaderEvent::Failed(m) => Reached::Fail(ProxyError::Io(m)),
        _ => match phase {
            ShadowsocksView::Addr => Reached::Next(
                ShadowsocksView::Port { addr: event->Addr_0@ },
            ),
            ShadowsocksView::Port { addr } => Reached::Next(
                ShadowsocksView::Outbound { addr, port: event->Port_0 },
            ),
            ShadowsocksView::Outbound { addr, port } => Reached::Finish,
        },
    }
}

impl ShadowsocksPhase {
    /// What is done in this phase.
    pub fn action(&self) -> (r: HeaderAction)
        ensures
            r@ == shadowsocks_action(self@),
            *self matches ShadowsocksPhase::Outbound { addr, port } ==> (r matches HeaderAction::Outbound {
                addr: a,
                port: p,
            } && a@ == addr@ && p == port),
    {
        match self {
            ShadowsocksPhase::Addr => HeaderAction::ParseAddr(AddrKind::Socks5Like),
            ShadowsocksPhase::Port { .. } => HeaderAction::ParsePort,
            ShadowsocksPhase::Outbound { addr, port } => HeaderAction::Outbound {
                addr: addr.clone(),
                port: *port,
            },
        }
    }
}

impl ProxyStream {
    /// Decides what follows how the action of a phase ended; a request begins
    /// with [`ShadowsocksPhase::Addr`].
    pub fn process_shadowsocks(&self, phase: ShadowsocksPhase, event: HeaderEvent) -> (r:
        ShadowsocksStep)
        requires
            answers(shadowsocks_action(phase@), event),
        ensures
            r@ == shadowsocks_next(phase@, event),
    {
        match (phase, event) {
            (_, HeaderEvent::Failed(m)) => ShadowsocksStep::Fail(ProxyError::Io(m)),
            (ShadowsocksPhase::Addr, HeaderEvent::Addr(addr)) => ShadowsocksStep::Next(
                ShadowsocksPhase::Port { addr },
            ),
            (ShadowsocksPhase::Port { addr }, HeaderEvent::Port(port)) => ShadowsocksStep::Next(
                ShadowsocksPhase::Outbound { addr, port },
            ),
            _ => ShadowsocksStep::Finish,
        }
    }
}

/// Where a request has got to after the first `n` outcomes.
pub open spec fn shadowsocks_after(events: Seq<HeaderEvent>, n: nat) -> Reached<ShadowsocksView>
    decreases n,
{
    if n == 0 {
        Reached::Next(ShadowsocksView::Addr)
    } else {
        match shadowsocks_after(events, (n - 1) as nat) {
            Reached::Next(phase) => shadowsocks_next(phase, events[n - 1]),
            s => s,
        }
    }
}

/// Law: a request is tunnelled to the address and port that it starts with, and
/// to no other.
pub proof fn law_shadowsocks_serves_the_target(events: Seq<HeaderEvent>)
    requires
        events.len() >= 2,
        events[0] is Addr,
        events[1] is Port,
    ensures
        shadowsocks_after(events, 2) == Reached::Next(
            ShadowsocksView::Outbound { addr: events[0]->Addr_0@, port: events[1]->Port_0 },
        ),
{
    reveal_with_fuel(shadowsocks_after, 3);
}

/// Law: what is done for a request, from its first byte to its end: the address and
/// the port are read, and these are what is connected.
pub proof fn law_shadowsocks_action_by_action(addr: String, port: u16)
    ensures
        ({
            let events = seq![
                HeaderEvent::Addr(addr),
                HeaderEvent::Port(port),
                HeaderEvent::Done,
            ];
            let first = shadowsocks_after(events, 0);
            let second = shadowsocks_after(events, 1);
            let third = shadowsocks_after(events, 2);
            &&& first is Next && second is Next && third is Next
            &&& shadowsocks_action(first->Next_0) == ActionView::ParseAddr(AddrKind::Socks5Like)
            &&& shadowsocks_action(second->Next_0) == ActionView::ParsePort
            &&& shadowsocks_action(third->Next_0) == (ActionView::Outbound { addr: addr@, port })
            &&& answers(shadowsocks_action(first->Next_0), events[0])
            &&& answers(shadowsocks_action(second->Next_0), events[1])
            &&& answers(shadowsocks_action(third->Next_0), events[2])
            &&& shadowsocks_after(events, 3) is Finish
        }),
{
    reveal_with_fuel(shadowsocks_after, 4);
}

/// Law: a failure of any action ends the request with its own message. Every action
/// may fail.
pub proof fn law_shadowsocks_failure_ends_the_request(phase: ShadowsocksView, m: String)
    ensures
        answers(shadowsocks_action(phase), HeaderEvent::Failed(m)),
        shadowsocks_next(phase, HeaderEvent::Failed(m)) == Reached::<ShadowsocksView>::Fail(
            ProxyError::Io(m),
        ),
{
}

/// Law: what contracts say of a phase and of a step, they say of their own fields.
pub proof fn law_shadowsocks_phase_is_seen_whole(
    port: u16,
    addr: String,
    phase: ShadowsocksPhase,
    e: ProxyError,
)
    ensures
        ShadowsocksPhase::Addr@ is Addr,
        (ShadowsocksPhase::Port { addr })@ == (ShadowsocksView::Port { addr: addr@ }),
        (ShadowsocksPhase::Outbound { addr, port })@ == (ShadowsocksView::Outbound {
            addr: addr@,
            port,
        }),
        ShadowsocksStep::Next(phase)@ == Reached::Next(phase@),
        ShadowsocksStep::Finish@ is Finish,
        ShadowsocksStep::Fail(e)@ == Reached::<ShadowsocksView>::Fail(e),
{
}

} // verus!
