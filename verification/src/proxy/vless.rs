//! The VLESS request: version, user id, options, network, port, address.
use crate::error::ProxyError;
use crate::proxy::conn::ProxyStream;
use crate::proxy::header::{answers, ActionView, AddrKind, HeaderAction, HeaderEvent, Reached};
use crate::text::same_bytes;
use vstd::prelude::*;

verus! {

/// Which part of a request is due.
#[derive(Debug, PartialEq, Eq)]
pub enum VlessPhase {
    Version,
    UserId,
    OptionsLen,
    Options(u8),
    Network,
    Port { tcp: bool },
    Addr { tcp: bool, port: u16 },
    Reply { addr: String, port: u16 },
    Outbound { addr: String, port: u16 },
    Udp,
}

/// [`VlessPhase`] over mathematical values.
pub ghost enum VlessView {
    Version,
    UserId,
    OptionsLen,
    Options(u8),
    Network,
    Port { tcp: bool },
    Addr { tcp: bool, port: u16 },
    Reply { addr: Seq<char>, port: u16 },
    Outbound { addr: Seq<char>, port: u16 },
    Udp,
}

impl View for VlessPhase {
    type V = VlessView;

    open spec fn view(&self) -> VlessView {
        match *self {
            VlessPhase::Version => VlessView::Version,
            VlessPhase::UserId => VlessView::UserId,
            VlessPhase::OptionsLen => VlessView::OptionsLen,
            VlessPhase::Options(n) => VlessView::Options(n),
            VlessPhase::Network => VlessView::Network,
            VlessPhase::Port { tcp } => VlessView::Port { tcp },
            VlessPhase::Addr { tcp, port } => VlessView::Addr { tcp, port },
            VlessPhase::Reply { addr, port } => VlessView::Reply { addr: addr@, port },
            VlessPhase::Outbound { addr, port } => VlessView::Outbound { addr: addr@, port },
            VlessPhase::Udp => VlessView::Udp,
        }
    }
}

/// Where the reading of a request has got to.
#[derive(Debug, PartialEq, Eq)]
pub enum VlessStep {
    Next(VlessPhase),
    Finish,
    Fail(ProxyError),
}

impl View for VlessStep {
    type V = Reached<VlessView>;

    open spec fn view(&self) -> Reached<VlessView> {
        match *self {
            VlessStep::Next(p) => Reached::Next(p@),
            VlessStep::Finish => Reached::Finish,
            VlessStep::Fail(e) => Reached::Fail(e),
        }
    }
}

/// What is done in a phase.
pub open spec fn vless_action(phase: VlessView) -> ActionView {
    match phase {
        VlessView::Version => ActionView::ReadByte,
        VlessView::UserId => ActionView::ReadBytes(16),
        VlessView::OptionsLen => ActionView::ReadByte,
        VlessView::Options(n) => ActionView::ReadBytes(n as nat),
        VlessView::Network => ActionView::ReadByte,
        VlessView::Port { tcp } => ActionView::ParsePort,
        VlessView::Addr { tcp, port } => ActionView::ParseAddr(AddrKind::VlessVmess),
        VlessView::Reply { addr, port } => ActionView::Write(seq![0u8, 0]),
        VlessView::Outbound { addr, port } => ActionView::Outbound { addr, port },
        VlessView::Udp => ActionView::Udp,
    }
}

/// What follows how the action of a phase ended. The version and the options are
/// read and not looked at; network 1 is TCP, every other one is answered as a
/// datagram. A failure ends the request, but for one of the datagram.
pub open spec fn vless_next(uuid: Seq<u8>, phase: VlessView, event: HeaderEvent) -> Reached<
    VlessView,
> {
    match event {
        HeaderEvent::Failed(m) => if phase is Udp {
            Reached::Finish
        } else {
            Reached::Fail(ProxyError::Io(m))
        },
        _ => match phase {
            VlessView::Version => Reached::Next(VlessView::UserId),
            VlessView::UserId => if event->Bytes_0@ == uuid {
                Reached::Next(VlessView::OptionsLen)
            } else {
                Reached::Fail(ProxyError::InvalidUuid)
            },
            VlessView::OptionsLen => Reached::Next(VlessView::Options(event->Byte_0)),
            VlessView::Options(n) => Reached::Next(VlessView::Network),
            VlessView::Network => Reached::Next(VlessView::Port { tcp: event->Byte_0 == 1 }),
            VlessView::Port { tcp } => Reached::Next(
                VlessView::Addr { tcp, port: event->Port_0 },
            ),
            VlessView::Addr { tcp, port } => if tcp {
                Reached::Next(VlessView::Reply { addr: event->Addr_0@, port })
            } else {
                Reached::Next(VlessView::Udp)
            },
            VlessView::Reply { addr, port } => Reached::Next(VlessView::Outbound { addr, port }),
            VlessView::Outbound { addr, port } => Reached::Finish,
            VlessView::Udp => Reached::Finish,
        },
    }
}

impl VlessPhase {
    /// What is done in this phase.
    pub fn action(&self) -> (r: HeaderAction)
        ensures
            r@ == vless_action(self@),
            *self matches VlessPhase::Outbound { addr, port } ==> (r matches HeaderAction::Outbound {
                addr: a,
                port: p,
            } && a@ == addr@ && p == port),
    {
        match self {
            VlessPhase::Version => HeaderAction::ReadByte,
            VlessPhase::UserId => HeaderAction::ReadBytes(16),
            VlessPhase::OptionsLen => HeaderAction::ReadByte,
            VlessPhase::Options(n) => HeaderAction::ReadBytes(*n as usize),
            VlessPhase::Network => HeaderAction::ReadByte,
            VlessPhase::Port { .. } => HeaderAction::ParsePort,
            VlessPhase::Addr { .. } => HeaderAction::ParseAddr(AddrKind::VlessVmess),
            VlessPhase::Reply { .. } => {
                let reply: Vec<u8> = vec![0u8, 0];
                assert(reply@ =~= seq![0u8, 0]);
                HeaderAction::Write(reply)
            },
            VlessPhase::Outbound { addr, port } => HeaderAction::Outbound {
                addr: addr.clone(),
                port: *port,
            },
            VlessPhase::Udp => HeaderAction::Udp,
        }
    }
}

impl ProxyStream {
    /// Decides what follows how the action of a phase ended; a request begins
    /// with [`VlessPhase::Version`].
    pub fn process_vless(&self, phase: VlessPhase, event: HeaderEvent) -> (r: VlessStep)
        requires
            answers(vless_action(phase@), event),
        ensures
            r@ == vless_next(self.config@.uuid, phase@, event),
    {
        match (phase, event) {
            (VlessPhase::Udp, _) => VlessStep::Finish,
            (_, HeaderEvent::Failed(m)) => VlessStep::Fail(ProxyError::Io(m)),
            (VlessPhase::Version, _) => VlessStep::Next(VlessPhase::UserId),
            (VlessPhase::UserId, HeaderEvent::Bytes(id)) => {
                if same_bytes(id.as_slice(), self.config.uuid.as_slice()) {
                    VlessStep::Next(VlessPhase::OptionsLen)
                } else {
                    VlessStep::Fail(ProxyError::InvalidUuid)
                }
            },
            (VlessPhase::OptionsLen, HeaderEvent::Byte(n)) => VlessStep::Next(
                VlessPhase::Options(n),
            ),
            (VlessPhase::Options(_), _) => VlessStep::Next(VlessPhase::Network),
            (VlessPhase::Network, HeaderEvent::Byte(n)) => VlessStep::Next(
                VlessPhase::Port { tcp: n == 1 },
            ),
            (VlessPhase::Port { tcp }, HeaderEvent::Port(port)) => VlessStep::Next(
                VlessPhase::Addr { tcp, port },
            ),
            (VlessPhase::Addr { tcp, port }, HeaderEvent::Addr(addr)) => {
                if tcp {
                    VlessStep::Next(VlessPhase::Reply { addr, port })
                } else {
                    VlessStep::Next(VlessPhase::Udp)
                }
            },
            (VlessPhase::Reply { addr, port }, _) => VlessStep::Next(
                VlessPhase::Outbound { addr, port },
            ),
            _ => VlessStep::Finish,
        }
    }
}

/// Where a request has got to after the first `n` outcomes.
pub open spec fn vless_after(uuid: Seq<u8>, events: Seq<HeaderEvent>, n: nat) -> Reached<VlessView>
    decreases n,
{
    if n == 0 {
        Reached::Next(VlessView::Version)
    } else {
        match vless_after(uuid, events, (n - 1) as nat) {
            Reached::Next(phase) => vless_next(uuid, phase, events[n - 1]),
            s => s,
        }
    }
}

/// Whether the outcomes are those of one request: each is of an action that was
/// due.
pub open spec fn is_vless_run(uuid: Seq<u8>, events: Seq<HeaderEvent>) -> bool {
    forall|n: nat|
        n < events.len() ==> (#[trigger] vless_after(uuid, events, n) matches Reached::Next(
            phase,
        ) && answers(vless_action(phase), events[n as int]))
}

/// Law: a request with another user id is refused right there, before anything
/// else is read, sent or connected.
pub proof fn law_vless_refuses_other_user(uuid: Seq<u8>, events: Seq<HeaderEvent>)
    requires
        is_vless_run(uuid, events),
        events.len() >= 2,
        events[1] matches HeaderEvent::Bytes(id) && id@ != uuid,
    ensures
        events.len() == 2,
        vless_after(uuid, events, 2) == Reached::<VlessView>::Fail(ProxyError::InvalidUuid),
{
    reveal_with_fuel(vless_after, 3);
    assert(vless_after(uuid, events, 0) is Next);
    assert(vless_after(uuid, events, 1) is Next);
    if events.len() > 2 {
        assert(vless_after(uuid, events, 2) is Next);
    }
}

/// Law: whatever goes on after the user id was read did so for a request that
/// carries the configured one.
pub proof fn law_vless_serves_only_the_user(uuid: Seq<u8>, events: Seq<HeaderEvent>, n: nat)
    requires
        is_vless_run(uuid, events),
        2 <= n <= events.len(),
        !(vless_after(uuid, events, n) is Fail),
    ensures
        events[1] matches HeaderEvent::Bytes(id) && id@ == uuid,
{
    reveal_with_fuel(vless_after, 3);
    assert(vless_after(uuid, events, 0) is Next);
    assert(vless_after(uuid, events, 1) is Next);
    if n > 2 {
        assert(vless_after(uuid, events, 2) is Next);
    }
}

/// Law: a request with the configured user id is served: over TCP it is answered
/// with two zero bytes and tunnelled to the target that it names, otherwise its
/// datagram is answered.
pub proof fn law_vless_serves_the_user(uuid: Seq<u8>, events: Seq<HeaderEvent>)
    requires
        is_vless_run(uuid, events),
        events.len() >= 7,
        forall|i: int| 0 <= i < 7 ==> !(#[trigger] events[i] is Failed),
    ensures
        events[1] matches HeaderEvent::Bytes(id) && id@ == uuid,
        events[2] matches HeaderEvent::Byte(len) && (events[3] matches HeaderEvent::Bytes(o)
            && o@.len() == len),
        events[4] matches HeaderEvent::Byte(network) && (events[5] matches HeaderEvent::Port(port)
            && (events[6] matches HeaderEvent::Addr(addr) && vless_after(uuid, events, 7)
            == Reached::Next(
            if network == 1 {
                VlessView::Reply { addr: addr@, port }
            } else {
                VlessView::Udp
            },
        ) && ((network == 1 && events.len() >= 8 && !(events[7] is Failed)) ==> vless_after(
            uuid,
            events,
            8,
        ) == Reached::Next(VlessView::Outbound { addr: addr@, port })))),
{
    reveal_with_fuel(vless_after, 9);
    assert(vless_after(uuid, events, 0) is Next && !(events[0] is Failed));
    assert(vless_after(uuid, events, 1) is Next && !(events[1] is Failed));
    assert(vless_after(uuid, events, 2) is Next && !(events[2] is Failed));
    assert(vless_after(uuid, events, 3) is Next && !(events[3] is Failed));
    assert(vless_after(uuid, events, 4) is Next && !(events[4] is Failed));
    assert(vless_after(uuid, events, 5) is Next && !(events[5] is Failed));
    assert(vless_after(uuid, events, 6) is Next && !(events[6] is Failed));
}

/// Law: the version and the options never matter. Two requests that differ in
/// these alone have got to the same place after the options, and ever after.
pub proof fn law_vless_ignores_version_and_options(
    uuid: Seq<u8>,
    a: Seq<HeaderEvent>,
    b: Seq<HeaderEvent>,
    n: nat,
)
    requires
        is_vless_run(uuid, a),
        is_vless_run(uuid, b),
        a.len() == b.len(),
        4 <= n <= a.len(),
        a[0] is Byte && b[0] is Byte,
        a[1] == b[1],
        a[2] is Byte && b[2] is Byte,
        a[3] is Bytes && b[3] is Bytes,
        forall|i: int| 4 <= i < a.len() ==> #[trigger] a[i] == b[i],
    ensures
        vless_after(uuid, a, n) == vless_after(uuid, b, n),
    decreases n,
{
    if n == 4 {
        reveal_with_fuel(vless_after, 5);
        assert(vless_after(uuid, a, 0) is Next && vless_after(uuid, b, 0) is Next);
        assert(vless_after(uuid, a, 1) is Next && vless_after(uuid, b, 1) is Next);
        assert(vless_after(uuid, a, 2) is Next && vless_after(uuid, b, 2) is Next);
        assert(vless_after(uuid, a, 3) is Next && vless_after(uuid, b, 3) is Next);
    } else {
        law_vless_ignores_version_and_options(uuid, a, b, (n - 1) as nat);
        assert(a[n - 1] == b[n - 1]);
    }
}

/// What is done after the first `n` outcomes of a request, where it goes on.
pub open spec fn vless_due(uuid: Seq<u8>, events: Seq<HeaderEvent>, n: nat) -> Option<ActionView> {
    match vless_after(uuid, events, n) {
        Reached::Next(phase) => Some(vless_action(phase)),
        _ => None,
    }
}

/// Law: what is done for a request over TCP that carries the configured user id, from
/// its first byte to its end. The target that is connected is the address and the
/// port that were read, once the client was sent two zero bytes.
pub proof fn law_vless_tcp_action_by_action(
    uuid: Seq<u8>,
    version: u8,
    id: Vec<u8>,
    len: u8,
    options: Vec<u8>,
    port: u16,
    addr: String,
)
    requires
        uuid.len() == 16,
        id@ == uuid,
        options@.len() == len,
    ensures
        ({
            let events = seq![
                HeaderEvent::Byte(version),
                HeaderEvent::Bytes(id),
                HeaderEvent::Byte(len),
                HeaderEvent::Bytes(options),
                HeaderEvent::Byte(1),
                HeaderEvent::Port(port),
                HeaderEvent::Addr(addr),
                HeaderEvent::Done,
                HeaderEvent::Done,
            ];
            &&& is_vless_run(uuid, events)
            &&& vless_due(uuid, events, 0) == Some(ActionView::ReadByte)
            &&& vless_due(uuid, events, 1) == Some(ActionView::ReadBytes(16))
            &&& vless_due(uuid, events, 2) == Some(ActionView::ReadByte)
            &&& vless_due(uuid, events, 3) == Some(ActionView::ReadBytes(len as nat))
            &&& vless_due(uuid, events, 4) == Some(ActionView::ReadByte)
            &&& vless_due(uuid, events, 5) == Some(ActionView::ParsePort)
            &&& vless_due(uuid, events, 6) == Some(ActionView::ParseAddr(AddrKind::VlessVmess))
            &&& vless_due(uuid, events, 7) == Some(ActionView::Write(seq![0u8, 0u8]))
            &&& vless_due(uuid, events, 8) == Some(ActionView::Outbound { addr: addr@, port })
            &&& vless_after(uuid, events, 9) is Finish
        }),
{
    reveal_with_fuel(vless_after, 10);
    let events = seq![
        HeaderEvent::Byte(version),
        HeaderEvent::Bytes(id),
        HeaderEvent::Byte(len),
        HeaderEvent::Bytes(options),
        HeaderEvent::Byte(1),
        HeaderEvent::Port(port),
        HeaderEvent::Addr(addr),
        HeaderEvent::Done,
        HeaderEvent::Done,
    ];
    assert(vless_due(uuid, events, 4) == Some(ActionView::ReadByte));
    assert(vless_due(uuid, events, 8) == Some(ActionView::Outbound { addr: addr@, port }));
    assert(vless_after(uuid, events, 9) is Finish);
    assert forall|n: nat| n < events.len() implies (#[trigger] vless_after(uuid, events, n)
        matches Reached::Next(phase) && answers(vless_action(phase), events[n as int])) by {
        assert(n == 0 || n == 1 || n == 2 || n == 3 || n == 4 || n == 5 || n == 6 || n == 7 || n
            == 8);
    }
}

/// Law: what is done for a request over any other network that carries the configured
/// user id: nothing is sent or connected, and one datagram is answered, whether that
/// succeeds or not.
pub proof fn law_vless_datagram_action_by_action(
    uuid: Seq<u8>,
    version: u8,
    id: Vec<u8>,
    len: u8,
    options: Vec<u8>,
    network: u8,
    port: u16,
    addr: String,
    end: HeaderEvent,
)
    requires
        uuid.len() == 16,
        id@ == uuid,
        options@.len() == len,
        network != 1,
        end is Done || end is Failed,
    ensures
        ({
            let events = seq![
                HeaderEvent::Byte(version),
                HeaderEvent::Bytes(id),
                HeaderEvent::Byte(len),
                HeaderEvent::Bytes(options),
                HeaderEvent::Byte(network),
                HeaderEvent::Port(port),
                HeaderEvent::Addr(addr),
                end,
            ];
            &&& is_vless_run(uuid, events)
            &&& vless_due(uuid, events, 5) == Some(ActionView::ParsePort)
            &&& vless_due(uuid, events, 6) == Some(ActionView::ParseAddr(AddrKind::VlessVmess))
            &&& vless_due(uuid, events, 7) == Some(ActionView::Udp)
            &&& vless_after(uuid, events, 8) is Finish
        }),
{
    reveal_with_fuel(vless_after, 9);
    let events = seq![
        HeaderEvent::Byte(version),
        HeaderEvent::Bytes(id),
        HeaderEvent::Byte(len),
        HeaderEvent::Bytes(options),
        HeaderEvent::Byte(network),
        HeaderEvent::Port(port),
        HeaderEvent::Addr(addr),
        end,
    ];
    assert(vless_due(uuid, events, 4) == Some(ActionView::ReadByte));
    assert(vless_due(uuid, events, 7) == Some(ActionView::Udp));
    assert(vless_after(uuid, events, 8) is Finish);
    assert forall|n: nat| n < events.len() implies (#[trigger] vless_after(uuid, events, n)
        matches Reached::Next(phase) && answers(vless_action(phase), events[n as int])) by {
        assert(n == 0 || n == 1 || n == 2 || n == 3 || n == 4 || n == 5 || n == 6 || n == 7);
    }
}

/// Law: a failure of any action ends the request with its own message, but for one
/// of the datagram, which ends it in peace. Every action may fail.
pub proof fn law_vless_failure_ends_the_request(uuid: Seq<u8>, phase: VlessView, m: String)
    ensures
        answers(vless_action(phase), HeaderEvent::Failed(m)),
        vless_action(phase) is Udp ==> vless_next(uuid, phase, HeaderEvent::Failed(m)) is Finish,
        vless_action(phase) !is Udp ==> vless_next(uuid, phase, HeaderEvent::Failed(m))
            == Reached::<VlessView>::Fail(ProxyError::Io(m)),
{
}

/// Law: in every request over TCP in which nothing fails, what is done once the
/// client was answered is to tunnel to exactly the address and the port that were
/// read.
pub proof fn law_vless_tunnels_to_what_was_read(uuid: Seq<u8>, events: Seq<HeaderEvent>)
    requires
        is_vless_run(uuid, events),
        events.len() >= 8,
        forall|i: int| 0 <= i < 8 ==> !(#[trigger] events[i] is Failed),
        events[4] == HeaderEvent::Byte(1),
    ensures
        events[5] is Port,
        events[6] is Addr,
        vless_due(uuid, events, 7) == Some(ActionView::Write(seq![0u8, 0u8])),
        vless_due(uuid, events, 8) == Some(
            ActionView::Outbound { addr: events[6]->Addr_0@, port: events[5]->Port_0 },
        ),
{
    law_vless_serves_the_user(uuid, events);
    assert(vless_after(uuid, events, 7) is Next && !(events[7] is Failed));
}

/// Law: what contracts say of a phase and of a step, they say of their own fields.
pub proof fn law_vless_phase_is_seen_whole(
    n: u8,
    tcp: bool,
    port: u16,
    addr: String,
    phase: VlessPhase,
    e: ProxyError,
)
    ensures
        VlessPhase::Options(n)@ == VlessView::Options(n),
        (VlessPhase::Port { tcp })@ == (VlessView::Port { tcp }),
        (VlessPhase::Addr { tcp, port })@ == (VlessView::Addr { tcp, port }),
        (VlessPhase::Reply { addr, port })@ == (VlessView::Reply { addr: addr@, port }),
        (VlessPhase::Outbound { addr, port })@ == (VlessView::Outbound { addr: addr@, port }),
        VlessPhase::Version@ is Version,
        VlessPhase::UserId@ is UserId,
        VlessPhase::OptionsLen@ is OptionsLen,
        VlessPhase::Network@ is Network,
        VlessPhase::Udp@ is Udp,
        VlessStep::Next(phase)@ == Reached::Next(phase@),
        VlessStep::Finish@ is Finish,
        VlessStep::Fail(e)@ == Reached::<VlessView>::Fail(e),
{
}

} // verus!
