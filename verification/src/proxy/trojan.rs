//! The Trojan request: password hash, line end, network, address, port, line end.
use crate::codec::{digest_sha224, hyphenated, sha224, uuid_text};
use crate::error::ProxyError;
use crate::proxy::conn::{detected, share, Protocol, ProxyStream, PEEK_LEN};
use crate::proxy::header::{answers, ActionView, AddrKind, HeaderAction, HeaderEvent, Reached};
use crate::text::{hex, hex_text, same_bytes};
use vstd::prelude::*;
use vstd::utf8::encode_utf8;

verus! {

/// Which part of a request is due.
#[derive(Debug, PartialEq, Eq)]
pub enum TrojanPhase {
    Password,
    FirstLineEnd,
    Network,
    Addr { tcp: bool },
    Port { tcp: bool, addr: String },
    SecondLineEnd { tcp: bool, addr: String, port: u16 },
    Outbound { addr: String, port: u16 },
    Udp,
}

/// [`TrojanPhase`] over mathematical values.
pub ghost enum TrojanView {
    Password,
    FirstLineEnd,
    Network,
    Addr { tcp: bool },
    Port { tcp: bool, addr: Seq<char> },
    SecondLineEnd { tcp: bool, addr: Seq<char>, port: u16 },
    Outbound { addr: Seq<char>, port: u16 },
    Udp,
}

impl View for TrojanPhase {
    type V = TrojanView;

    open spec fn view(&self) -> TrojanView {
        match *self {
            TrojanPhase::Password => TrojanView::Password,
            TrojanPhase::FirstLineEnd => TrojanView::FirstLineEnd,
            TrojanPhase::Network => TrojanView::Network,
            TrojanPhase::Addr { tcp } => TrojanView::Addr { tcp },
            TrojanPhase::Port { tcp, addr } => TrojanView::Port { tcp, addr: addr@ },
            TrojanPhase::SecondLineEnd { tcp, addr, port } => TrojanView::SecondLineEnd {
                tcp,
                addr: addr@,
                port,
            },
            TrojanPhase::Outbound { addr, port } => TrojanView::Outbound { addr: addr@, port },
            TrojanPhase::Udp => TrojanView::Udp,
        }
    }
}

/// Where the reading of a request has got to.
#[derive(Debug, PartialEq, Eq)]
pub enum TrojanStep {
    Next(TrojanPhase),
    Finish,
    Fail(ProxyError),
}

impl View for TrojanStep {
    type V = Reached<TrojanView>;

    open spec fn view(&self) -> Reached<TrojanView> {
        match *self {
            TrojanStep::Next(p) => Reached::Next(p@),
            TrojanStep::Finish => Reached::Finish,
            TrojanStep::Fail(e) => Reached::Fail(e),
        }
    }
}

/// The password hash that a request must carry: the SHA-224 digest of the
/// hyphenated user id, in hexadecimal.
pub open spec fn trojan_key(uuid: Seq<u8>) -> Seq<u8> {
    encode_utf8(hex(sha224(encode_utf8(hyphenated(uuid)))))
}

/// What is done in a phase.
pub open spec fn trojan_action(phase: TrojanView) -> ActionView {
    match phase {
        TrojanView::Password => ActionView::ReadBytes(56),
        TrojanView::FirstLineEnd => ActionView::ReadWord,
        TrojanView::Network => ActionView::ReadByte,
        TrojanView::Addr { tcp } => ActionView::ParseAddr(AddrKind::Socks5Like),
        TrojanView::Port { tcp, addr } => ActionView::ParsePort,
        TrojanView::SecondLineEnd { tcp, addr, port } => ActionView::ReadWord,
        TrojanView::Outbound { addr, port } => ActionView::Outbound { addr, port },
        TrojanView::Udp => ActionView::Udp,
    }
}

/// What follows how the action of a phase ended, where the hash `key` is wanted.
/// The line ends are read and not looked at; network 1 is TCP, every other one is
/// answered as a datagram. A failure ends the request, but for one of the
/// datagram.
pub open spec fn trojan_next(key: Seq<u8>, phase: TrojanView, event: HeaderEvent) -> Reached<
    TrojanView,
> {
    match event {
        HeaderEvent::Failed(m) => if phase is Udp {
            Reached::Finish
        } else {
            Reached::Fail(ProxyError::Io(m))
        },
        _ => match phase {
            TrojanView::Password => if event->Bytes_0@ == key {
                Reached::Next(TrojanView::FirstLineEnd)
            } else {
                Reached::Fail(ProxyError::InvalidPassword)
            },
            TrojanView::FirstLineEnd => Reached::Next(TrojanView::Network),
            TrojanView::Network => Reached::Next(TrojanView::Addr { tcp: event->Byte_0 == 1 }),
            TrojanView::Addr { tcp } => Reached::Next(
                TrojanView::Port { tcp, addr: event->Addr_0@ },
            ),
            TrojanView::Port { tcp, addr } => Reached::Next(
                TrojanView::SecondLineEnd { tcp, addr, port: event->Port_0 },
            ),
            TrojanView::SecondLineEnd { tcp, addr, port } => if tcp {
                Reached::Next(TrojanView::Outbound { addr, port })
            } else {
                Reached::Next(TrojanView::Udp)
            },
            TrojanView::Outbound { addr, port } => Reached::Finish,
            TrojanView::Udp => Reached::Finish,
        },
    }
}

impl TrojanPhase {
    /// What is done in this phase.
    pub fn action(&self) -> (r: HeaderAction)
        ensures
            r@ == trojan_action(self@),
            *self matches TrojanPhase::Outbound { addr, port } ==> (r matches HeaderAction::Outbound {
                addr: a,
                port: p,
            } && a@ == addr@ && p == port),
    {
        match self {
            TrojanPhase::Password => HeaderAction::ReadBytes(56),
            TrojanPhase::FirstLineEnd => HeaderAction::ReadWord,
            TrojanPhase::Network => HeaderAction::ReadByte,
            TrojanPhase::Addr { .. } => HeaderAction::ParseAddr(AddrKind::Socks5Like),
            TrojanPhase::Port { .. } => HeaderAction::ParsePort,
            TrojanPhase::SecondLineEnd { .. } => HeaderAction::ReadWord,
            TrojanPhase::Outbound { addr, port } => HeaderAction::Outbound {
                addr: addr.clone(),
                port: *port,
            },
            TrojanPhase::Udp => HeaderAction::Udp,
        }
    }

    /// Decides what follows how the action of this phase ended, where the hash
    /// `key` is wanted.
    pub fn next(self, key: &[u8], event: HeaderEvent) -> (r: TrojanStep)
        requires
            answers(trojan_action(self@), event),
        ensures
            r@ == trojan_next(key@, self@, event),
    {
        match (self, event) {
            (TrojanPhase::Udp, _) => TrojanStep::Finish,
            (_, HeaderEvent::Failed(m)) => TrojanStep::Fail(ProxyError::Io(m)),
            (TrojanPhase::Password, HeaderEvent::Bytes(hash)) => {
                if same_bytes(hash.as_slice(), key) {
                    TrojanStep::Next(TrojanPhase::FirstLineEnd)
                } else {
                    TrojanStep::Fail(ProxyError::InvalidPassword)
                }
            },
            (TrojanPhase::FirstLineEnd, _) => TrojanStep::Next(TrojanPhase::Network),
            (TrojanPhase::Network, HeaderEvent::Byte(n)) => TrojanStep::Next(
                TrojanPhase::Addr { tcp: n == 1 },
            ),
            (TrojanPhase::Addr { tcp }, HeaderEvent::Addr(addr)) => TrojanStep::Next(
                TrojanPhase::Port { tcp, addr },
            ),
            (TrojanPhase::Port { tcp, addr }, HeaderEvent::Port(port)) => TrojanStep::Next(
                TrojanPhase::SecondLineEnd { tcp, addr, port },
            ),
            (TrojanPhase::SecondLineEnd { tcp, addr, port }, _) => {
                if tcp {
                    TrojanStep::Next(TrojanPhase::Outbound { addr, port })
                } else {
                    TrojanStep::Next(TrojanPhase::Udp)
                }
            },
            _ => TrojanStep::Finish,
        }
    }
}

impl ProxyStream {
    /// The password hash that a request must carry.
    pub fn trojan_key(&self) -> (r: Vec<u8>)
        ensures
            r@ == trojan_key(self.config@.uuid),
            r@.len() == 56,
    {
        let id = uuid_text(&self.config.uuid);
        let digest = digest_sha224(id.as_str().as_bytes());
        let text = hex_text(digest.as_slice());
        proof {
            lemma_hex_bytes(digest@);
        }
        vstd::slice::slice_to_vec(text.as_str().as_bytes())
    }

    /// Decides what follows how the action of a phase ended; a request begins
    /// with [`TrojanPhase::Password`].
    pub fn process_trojan(&self, phase: TrojanPhase, event: HeaderEvent) -> (r: TrojanStep)
        requires
            answers(trojan_action(phase@), event),
        ensures
            r@ == trojan_next(trojan_key(self.config@.uuid), phase@, event),
    {
        let key = self.trojan_key();
        phase.next(key.as_slice(), event)
    }
}

/// Hexadecimal text takes one byte for each character, and none of them is a
/// control byte.
proof fn lemma_hex_bytes(b: Seq<u8>)
    ensures
        encode_utf8(hex(b)).len() == 2 * b.len(),
        forall|i: int| 0 <= i < 2 * b.len() ==> #[trigger] encode_utf8(hex(b))[i] >= 48,
        forall|i: int| 0 <= i < 2 * b.len() ==> encode_utf8(hex(b))[i] == #[trigger] hex(b)[i] as u8,
{
    let s = hex(b);
    assert(vstd::utf8::is_ascii_chars(s)) by {
        assert forall|i: int| 0 <= i < s.len() implies '\0' <= #[trigger] s[i] <= '\u{7f}' by {
            assert(0 <= b[i / 2] as int / 16 < 16);
            assert(0 <= b[i / 2] as int % 16 < 16);
        }
    }
    vstd::utf8::is_ascii_chars_encode_utf8(s);
    assert forall|i: int| 0 <= i < 2 * b.len() implies #[trigger] encode_utf8(s)[i] >= 48 by {
        assert(0 <= b[i / 2] as int / 16 < 16);
        assert(0 <= b[i / 2] as int % 16 < 16);
        assert(s[i] as u8 == encode_utf8(s)[i]);
    }
}

/// Law: a client that starts with a password hash, in hexadecimal and ended by a
/// line end, is taken for a Trojan client, whatever follows.
pub proof fn law_trojan_client_is_detected(digest: Seq<u8>, tail: Seq<u8>)
    requires
        digest.len() == 28,
    ensures
        detected(encode_utf8(hex(digest)) + seq![13u8, 10] + tail) == Ok::<Protocol, ProxyError>(
            Protocol::Trojan,
        ),
{
    lemma_hex_bytes(digest);
    let key = encode_utf8(hex(digest));
    let b = key + seq![13u8, 10] + tail;
    let seen = b.take(share(b.len(), PEEK_LEN as nat) as int);
    assert(seen[0] == key[0]);
    assert(seen[56] == 13 && seen[57] == 10);
}

/// Where a request has got to after the first `n` outcomes.
pub open spec fn trojan_after(key: Seq<u8>, events: Seq<HeaderEvent>, n: nat) -> Reached<TrojanView>
    decreases n,
{
    if n == 0 {
        Reached::Next(TrojanView::Password)
    } else {
        match trojan_after(key, events, (n - 1) as nat) {
            Reached::Next(phase) => trojan_next(key, phase, events[n - 1]),
            s => s,
        }
    }
}

/// Whether the outcomes are those of one request: each is of an action that was
/// due.
pub open spec fn is_trojan_run(key: Seq<u8>, events: Seq<HeaderEvent>) -> bool {
    forall|n: nat|
        n < events.len() ==> (#[trigger] trojan_after(key, events, n) matches Reached::Next(phase)
            && answers(trojan_action(phase), events[n as int]))
}

/// Law: a request with another password hash is refused right there, before
/// anything else is read, sent or connected.
pub proof fn law_trojan_refuses_other_password(key: Seq<u8>, events: Seq<HeaderEvent>)
    requires
        is_trojan_run(key, events),
        events.len() >= 1,
        events[0] matches HeaderEvent::Bytes(hash) && hash@ != key,
    ensures
        events.len() == 1,
        trojan_after(key, events, 1) == Reached::<TrojanView>::Fail(ProxyError::InvalidPassword),
{
    reveal_with_fuel(trojan_after, 2);
    assert(trojan_after(key, events, 0) is Next);
    if events.len() > 1 {
        assert(trojan_after(key, events, 1) is Next);
    }
}

/// Law: whatever goes on after the password hash was read did so for a request
/// that carries the wanted one.
pub proof fn law_trojan_serves_only_the_user(key: Seq<u8>, events: Seq<HeaderEvent>, n: nat)
    requires
        is_trojan_run(key, events),
        1 <= n <= events.len(),
        !(trojan_after(key, events, n) is Fail),
    ensures
        events[0] matches HeaderEvent::Bytes(hash) && hash@ == key,
{
    reveal_with_fuel(trojan_after, 2);
    assert(trojan_after(key, events, 0) is Next);
    if n > 1 {
        assert(trojan_after(key, events, 1) is Next);
    }
}

/// Law: a request with the wanted password hash is served: over TCP it is
/// tunnelled to the target that it names, otherwise its datagram is answered.
pub proof fn law_trojan_serves_the_user(key: Seq<u8>, events: Seq<HeaderEvent>)
    requires
        is_trojan_run(key, events),
        events.len() >= 6,
        forall|i: int| 0 <= i < 6 ==> !(#[trigger] events[i] is Failed),
    ensures
        events[0] matches HeaderEvent::Bytes(hash) && hash@ == key,
        events[2] matches HeaderEvent::Byte(network) && (events[3] matches HeaderEvent::Addr(addr)
            && (events[4] matches HeaderEvent::Port(port) && trojan_after(key, events, 6)
            == Reached::Next(
            if network == 1 {
                TrojanView::Outbound { addr: addr@, port }
            } else {
                TrojanView::Udp
            },
        ))),
{
    reveal_with_fuel(trojan_after, 7);
    assert(trojan_after(key, events, 0) is Next && !(events[0] is Failed));
    assert(trojan_after(key, events, 1) is Next && !(events[1] is Failed));
    assert(trojan_after(key, events, 2) is Next && !(events[2] is Failed));
    assert(trojan_after(key, events, 3) is Next && !(events[3] is Failed));
    assert(trojan_after(key, events, 4) is Next && !(events[4] is Failed));
    assert(trojan_after(key, events, 5) is Next && !(events[5] is Failed));
}

/// What is done after the first `n` outcomes of a request, where it goes on.
pub open spec fn trojan_due(key: Seq<u8>, events: Seq<HeaderEvent>, n: nat) -> Option<ActionView> {
    match trojan_after(key, events, n) {
        Reached::Next(phase) => Some(trojan_action(phase)),
        _ => None,
    }
}

/// Law: what is done for a request that carries the wanted password hash, from its
/// first byte to its end. Over TCP the target that is connected is the address and
/// the port that were read; over any other network one datagram is answered.
pub proof fn law_trojan_action_by_action(
    key: Seq<u8>,
    hash: Vec<u8>,
    first: u16,
    network: u8,
    addr: String,
    port: u16,
    second: u16,
)
    requires
        key.len() == 56,
        hash@ == key,
    ensures
        ({
            let events = seq![
                HeaderEvent::Bytes(hash),
                HeaderEvent::Word(first),
                HeaderEvent::Byte(network),
                HeaderEvent::Addr(addr),
                HeaderEvent::Port(port),
                HeaderEvent::Word(second),
                HeaderEvent::Done,
            ];
            &&& is_trojan_run(key, events)
            &&& trojan_due(key, events, 0) == Some(ActionView::ReadBytes(56))
            &&& trojan_due(key, events, 1) == Some(ActionView::ReadWord)
            &&& trojan_due(key, events, 2) == Some(ActionView::ReadByte)
            &&& trojan_due(key, events, 3) == Some(ActionView::ParseAddr(AddrKind::Socks5Like))
            &&& trojan_due(key, events, 4) == Some(ActionView::ParsePort)
            &&& trojan_due(key, events, 5) == Some(ActionView::ReadWord)
            &&& network == 1 ==> trojan_due(key, events, 6) == Some(
                ActionView::Outbound { addr: addr@, port },
            )
            &&& network != 1 ==> trojan_due(key, events, 6) == Some(ActionView::Udp)
            &&& trojan_after(key, events, 7) is Finish
        }),
{
    reveal_with_fuel(trojan_after, 8);
    let events = seq![
        HeaderEvent::Bytes(hash),
        HeaderEvent::Word(first),
        HeaderEvent::Byte(network),
        HeaderEvent::Addr(addr),
        HeaderEvent::Port(port),
        HeaderEvent::Word(second),
        HeaderEvent::Done,
    ];
    assert(trojan_due(key, events, 3) == Some(ActionView::ParseAddr(AddrKind::Socks5Like)));
    assert(trojan_after(key, events, 7) is Finish);
    assert forall|n: nat| n < events.len() implies (#[trigger] trojan_after(key, events, n)
        matches Reached::Next(phase) && answers(trojan_action(phase), events[n as int])) by {
        assert(n == 0 || n == 1 || n == 2 || n == 3 || n == 4 || n == 5 || n == 6);
    }
}

/// Law: in every request over TCP in which nothing fails, what is done once it was
/// read is to tunnel to exactly the address and the port that were read.
pub proof fn law_trojan_tunnels_to_what_was_read(key: Seq<u8>, events: Seq<HeaderEvent>)
    requires
        is_trojan_run(key, events),
        events.len() >= 6,
        forall|i: int| 0 <= i < 6 ==> !(#[trigger] events[i] is Failed),
        events[2] == HeaderEvent::Byte(1),
    ensures
        events[3] is Addr,
        events[4] is Port,
        trojan_due(key, events, 6) == Some(
            ActionView::Outbound { addr: events[3]->Addr_0@, port: events[4]->Port_0 },
        ),
{
    law_trojan_serves_the_user(key, events);
}

/// Law: a failure of any action ends the request with its own message, but for one
/// of the datagram, which ends it in peace. Every action may fail.
pub proof fn law_trojan_failure_ends_the_request(key: Seq<u8>, phase: TrojanView, m: String)
    ensures
        answers(trojan_action(phase), HeaderEvent::Failed(m)),
        trojan_action(phase) is Udp ==> trojan_next(key, phase, HeaderEvent::Failed(m)) is Finish,
        trojan_action(phase) !is Udp ==> trojan_next(key, phase, HeaderEvent::Failed(m))
            == Reached::<TrojanView>::Fail(ProxyError::Io(m)),
{
}

/// Law: the wanted password hash reads back as the digest of the user id's text: two
/// lower-case hexadecimal digits in ASCII for each of its bytes.
pub proof fn law_trojan_key_reads_back(uuid: Seq<u8>, i: int)
    requires
        0 <= i < sha224(encode_utf8(hyphenated(uuid))).len(),
    ensures
        trojan_key(uuid).len() == 2 * sha224(encode_utf8(hyphenated(uuid))).len(),
        ({
            let x = trojan_key(uuid)[2 * i] as int;
            let y = trojan_key(uuid)[2 * i + 1] as int;
            let high = if x <= 57 { x - 48 } else { x - 87 };
            let low = if y <= 57 { y - 48 } else { y - 87 };
            &&& 48 <= x <= 57 || 97 <= x <= 102
            &&& 48 <= y <= 57 || 97 <= y <= 102
            &&& 16 * high + low == sha224(encode_utf8(hyphenated(uuid)))[i]
        }),
{
    let digest = sha224(encode_utf8(hyphenated(uuid)));
    lemma_hex_bytes(digest);
    crate::text::law_hex_reads_back(digest, i);
    let s = hex(digest);
    assert(trojan_key(uuid)[2 * i] == s[2 * i] as u8);
    assert(trojan_key(uuid)[2 * i + 1] == s[2 * i + 1] as u8);
}

/// Law: what contracts say of a phase and of a step, they say of their own fields.
pub proof fn law_trojan_phase_is_seen_whole(
    tcp: bool,
    port: u16,
    addr: String,
    phase: TrojanPhase,
    e: ProxyError,
)
    ensures
        (TrojanPhase::Addr { tcp })@ == (TrojanView::Addr { tcp }),
        (TrojanPhase::Port { tcp, addr })@ == (TrojanView::Port { tcp, addr: addr@ }),
        (TrojanPhase::SecondLineEnd { tcp, addr, port })@ == (TrojanView::SecondLineEnd {
            tcp,
            addr: addr@,
            port,
        }),
        (TrojanPhase::Outbound { addr, port })@ == (TrojanView::Outbound { addr: addr@, port }),
        TrojanPhase::Password@ is Password,
        TrojanPhase::FirstLineEnd@ is FirstLineEnd,
        TrojanPhase::Network@ is Network,
        TrojanPhase::Udp@ is Udp,
        TrojanStep::Next(phase)@ == Reached::Next(phase@),
        TrojanStep::Finish@ is Finish,
        TrojanStep::Fail(e)@ == Reached::<TrojanView>::Fail(e),
{
}

} // verus!
