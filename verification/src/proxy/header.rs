//! What the request header of a protocol is read with: the actions that a
//! reader performs on the connection, and their outcomes.
use crate::error::ProxyError;
use vstd::prelude::*;

verus! {

/// How an address is encoded.
#[derive(Clone, Copy, Debug, PartialEq, Eq)]
pub enum AddrKind {
    /// As in SOCKS5: Shadowsocks and Trojan.
    Socks5Like,
    /// As in VLESS and VMess.
    VlessVmess,
}

/// What the caller does next.
#[derive(Debug, PartialEq, Eq)]
pub enum HeaderAction {
    /// Read one byte.
    ReadByte,
    /// Read exactly this many bytes.
    ReadBytes(usize),
    /// Read two bytes as one number.
    ReadWord,
    /// Read a port.
    ParsePort,
    /// Read an address.
    ParseAddr(AddrKind),
    /// Send these bytes to the client.
    Write(Vec<u8>),
    /// Connect to the target and tunnel to it.
    Outbound { addr: String, port: u16 },
    /// Answer one datagram.
    Udp,
}

/// How an action ended.
#[derive(Debug, PartialEq, Eq)]
pub enum HeaderEvent {
    Byte(u8),
    Bytes(Vec<u8>),
    Word(u16),
    Port(u16),
    Addr(String),
    /// Something was written, tunnelled or answered.
    Done,
    /// The action failed with this message.
    Failed(String),
}

/// [`HeaderAction`] over mathematical values.
pub ghost enum ActionView {
    ReadByte,
    ReadBytes(nat),
    ReadWord,
    ParsePort,
    ParseAddr(AddrKind),
    Write(Seq<u8>),
    Outbound { addr: Seq<char>, port: u16 },
    Udp,
}

impl View for HeaderAction {
    type V = ActionView;

    open spec fn view(&self) -> ActionView {
        match *self {
            HeaderAction::ReadByte => ActionView::ReadByte,
            HeaderAction::ReadBytes(n) => ActionView::ReadBytes(n as nat),
            HeaderAction::ReadWord => ActionView::ReadWord,
            HeaderAction::ParsePort => ActionView::ParsePort,
            HeaderAction::ParseAddr(k) => ActionView::ParseAddr(k),
            HeaderAction::Write(b) => ActionView::Write(b@),
            HeaderAction::Outbound { addr, port } => ActionView::Outbound { addr: addr@, port },
            HeaderAction::Udp => ActionView::Udp,
        }
    }
}

/// Whether an event is how an action can end.
pub open spec fn answers(action: ActionView, event: HeaderEvent) -> bool {
    ||| event is Failed
    ||| match action {
        ActionView::ReadByte => event is Byte,
        ActionView::ReadBytes(n) => event matches HeaderEvent::Bytes(b) && b@.len() == n,
        ActionView::ReadWord => event is Word,
        ActionView::ParsePort => event is Port,
        ActionView::ParseAddr(_) => event is Addr,
        ActionView::Write(_) => event is Done,
        ActionView::Outbound { addr, port } => event is Done,
        ActionView::Udp => event is Done,
    }
}

/// Where the reading of a header has got to, over mathematical values: it goes on
/// in phase `P`, it is finished, or it failed.
pub ghost enum Reached<P> {
    Next(P),
    Finish,
    Fail(ProxyError),
}

/// Law: what contracts say of an action, they say of its own fields.
pub proof fn law_action_is_seen_whole(n: usize, kind: AddrKind, data: Vec<u8>, addr: String, port: u16)
    ensures
        HeaderAction::ReadByte@ is ReadByte,
        HeaderAction::ReadBytes(n)@ == ActionView::ReadBytes(n as nat),
        HeaderAction::ReadWord@ is ReadWord,
        HeaderAction::ParsePort@ is ParsePort,
        HeaderAction::ParseAddr(kind)@ == ActionView::ParseAddr(kind),
        HeaderAction::Write(data)@ == ActionView::Write(data@),
        (HeaderAction::Outbound { addr, port })@ == (ActionView::Outbound { addr: addr@, port }),
        HeaderAction::Udp@ is Udp,
{
}

} // verus!
