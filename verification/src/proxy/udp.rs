//! Answering one datagram: it is resolved over HTTPS, and sent back to the client
//! where that succeeds.
use crate::error::ProxyError;
use crate::proxy::conn::ProxyStream;
use vstd::prelude::*;

verus! {

/// The longest datagram.
pub const MAX_DATAGRAM: usize = 65535;

/// How far a datagram has got; also what is done.
#[derive(Debug, PartialEq, Eq)]
pub enum UdpPhase {
    /// Read at most [`MAX_DATAGRAM`] bytes from the client.
    Read,
    /// Resolve the query.
    Resolve(Vec<u8>),
    /// Send these bytes to the client.
    Reply(Vec<u8>),
}

/// How an action ended.
#[derive(Debug, PartialEq, Eq)]
pub enum UdpEvent {
    /// These bytes were read.
    Data(Vec<u8>),
    /// The query was resolved, or not.
    Resolved(bool),
    /// The bytes were sent.
    Written,
    /// Reading or sending failed with this message.
    Failed(String),
}

/// Where a datagram has got to.
#[derive(Debug, PartialEq, Eq)]
pub enum UdpStep {
    Next(UdpPhase),
    Finish,
    Fail(ProxyError),
}

/// Whether an event is how the action of a phase can end.
pub open spec fn udp_answers(phase: UdpPhase, event: UdpEvent) -> bool {
    match phase {
        UdpPhase::Read => event is Data || event is Failed,
        UdpPhase::Resolve(query) => event is Resolved,
        UdpPhase::Reply(data) => event is Written || event is Failed,
    }
}

/// What follows how the action of a phase ended.
pub open spec fn udp_next(phase: UdpPhase, event: UdpEvent) -> UdpStep {
    match event {
        UdpEvent::Data(data) => UdpStep::Next(UdpPhase::Resolve(data)),
        UdpEvent::Resolved(ok) => if ok {
            UdpStep::Next(UdpPhase::Reply(phase->Resolve_0))
        } else {
            UdpStep::Finish
        },
        UdpEvent::Written => UdpStep::Finish,
        UdpEvent::Failed(m) => UdpStep::Fail(ProxyError::Io(m)),
    }
}

impl ProxyStream {
    /// Decides what follows how the action of a phase ended; a datagram begins
    /// with [`UdpPhase::Read`].
    pub fn handle_udp_outbound(&self, phase: UdpPhase, event: UdpEvent) -> (r: UdpStep)
        requires
            udp_answers(phase, event),
        ensures
            r == udp_next(phase, event),
    {
        match (phase, event) {
            (_, UdpEvent::Data(data)) => UdpStep::Next(UdpPhase::Resolve(data)),
            (UdpPhase::Resolve(query), UdpEvent::Resolved(true)) => UdpStep::Next(
                UdpPhase::Reply(query),
            ),
            (_, UdpEvent::Failed(m)) => UdpStep::Fail(ProxyError::Io(m)),
            _ => UdpStep::Finish,
        }
    }
}

/// Law: the client is sent exactly the datagram that it sent, and only where that
/// was resolved.
pub proof fn law_datagram_is_echoed_when_resolved(data: Vec<u8>, ok: bool)
    ensures
        udp_next(UdpPhase::Read, UdpEvent::Data(data)) == UdpStep::Next(UdpPhase::Resolve(data)),
        udp_next(UdpPhase::Resolve(data), UdpEvent::Resolved(ok)) == (if ok {
            UdpStep::Next(UdpPhase::Reply(data))
        } else {
            UdpStep::Finish
        }),
        udp_next(UdpPhase::Reply(data), UdpEvent::Written) is Finish,
{
}

/// Law: a failure to read or to send ends with its own message. Every outcome of
/// resolving a query is an answer, and so is every datagram.
pub proof fn law_datagram_failure_is_reported(data: Vec<u8>, ok: bool, m: String)
    ensures
        udp_next(UdpPhase::Read, UdpEvent::Failed(m)) == UdpStep::Fail(ProxyError::Io(m)),
        udp_next(UdpPhase::Reply(data), UdpEvent::Failed(m)) == UdpStep::Fail(ProxyError::Io(m)),
        udp_answers(UdpPhase::Read, UdpEvent::Data(data)),
        udp_answers(UdpPhase::Read, UdpEvent::Failed(m)),
        udp_answers(UdpPhase::Resolve(data), UdpEvent::Resolved(ok)),
        udp_answers(UdpPhase::Reply(data), UdpEvent::Written),
        udp_answers(UdpPhase::Reply(data), UdpEvent::Failed(m)),
{
}

} // verus!
