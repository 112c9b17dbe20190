//! A client connection: its buffer, and what the first bytes say about the
//! protocol.
use crate::config::Config;
use crate::error::ProxyError;
use crate::proxy::buffer::{as_slice, contents, empty_buffer, put_slice, split_to};
use bytes::BytesMut;
use vstd::prelude::*;

verus! {

/// The longest WebSocket message that is taken while tunnelling.
pub const MAX_WEBSOCKET_SIZE: usize = 512 * 1024;

/// The most bytes that wait in the buffer while tunnelling.
pub const MAX_BUFFER_SIZE: usize = 1024 * 1024;

/// How many bytes are looked at to tell the protocol.
pub const PEEK_LEN: usize = 62;

/// A client connection.
pub struct ProxyStream {
    pub config: Config,
    pub buffer: BytesMut,
}

/// What the WebSocket brought.
#[derive(Debug, PartialEq, Eq)]
pub enum SocketEvent {
    /// A message; its bytes, where it has some.
    Message(Option<Vec<u8>>),
    /// The client closed.
    Close,
    /// The socket failed with this message.
    Failed(String),
    /// There are no more events.
    End,
}

/// The bytes that an event adds to the buffer.
pub open spec fn payload(event: SocketEvent) -> Seq<u8> {
    match event {
        SocketEvent::Message(Some(data)) => data@,
        _ => Seq::<u8>::empty(),
    }
}

/// What filling the buffer does next.
#[derive(Debug, PartialEq, Eq)]
pub enum FillStep {
    /// Wait for an event.
    Wait,
    /// Enough was read, or there is no more.
    Done,
    /// The socket failed.
    Fail(ProxyError),
}

/// What follows an event when the buffer then holds `len` bytes, `n` are wanted.
pub open spec fn fill_step(len: nat, n: nat, event: Option<SocketEvent>) -> FillStep {
    match event {
        Some(SocketEvent::Close) => FillStep::Done,
        Some(SocketEvent::End) => FillStep::Done,
        Some(SocketEvent::Failed(m)) => FillStep::Fail(ProxyError::Io(m)),
        _ => if len < n {
            FillStep::Wait
        } else {
            FillStep::Done
        },
    }
}

/// The protocols that a client may speak.
#[derive(Clone, Copy, Debug, PartialEq, Eq)]
pub enum Protocol {
    Vless,
    Shadowsocks,
    Trojan,
    Vmess,
}

/// The port in the two bytes from `i` on, high byte first.
pub open spec fn port_at(b: Seq<u8>, i: int) -> int {
    b[i] * 256 + b[i + 1]
}

/// The length of the SOCKS-like address at the front of `b`: type byte, then four
/// octets, sixteen octets, or a counted domain.
pub open spec fn address_len(b: Seq<u8>) -> Option<int> {
    if b[0] == 1 {
        Some(5)
    } else if b[0] == 4 {
        Some(17)
    } else if b[0] == 3 && b.len() >= 2 {
        Some(2 + b[1])
    } else {
        None
    }
}

/// A VLESS request starts with version zero.
pub open spec fn vless_like(b: Seq<u8>) -> bool {
    b[0] == 0
}

/// A Shadowsocks request starts with an address and a port other than zero.
pub open spec fn shadowsocks_like(b: Seq<u8>) -> bool {
    match address_len(b) {
        Some(n) => b.len() >= n + 2 && port_at(b, n) != 0,
        None => false,
    }
}

/// A Trojan request has a line end after its 56 characters of password hash.
pub open spec fn trojan_like(b: Seq<u8>) -> bool {
    b.len() > 57 && b[56] == 13 && b[57] == 10
}

/// The protocol of a client whose first bytes are `b`; whatever looks like none
/// of the others is taken for VMess.
pub open spec fn protocol_of(b: Seq<u8>) -> Protocol {
    if vless_like(b) {
        Protocol::Vless
    } else if shadowsocks_like(b) {
        Protocol::Shadowsocks
    } else if trojan_like(b) {
        Protocol::Trojan
    } else {
        Protocol::Vmess
    }
}

/// What a filled buffer tells of the protocol: only its first [`PEEK_LEN`] bytes
/// are looked at, and fewer than half as many do not do.
pub open spec fn detected(b: Seq<u8>) -> Result<Protocol, ProxyError> {
    if b.len() < PEEK_LEN / 2 {
        Err(ProxyError::NotEnoughBuffer)
    } else {
        Ok(protocol_of(b.take(share(b.len(), PEEK_LEN as nat) as int)))
    }
}

/// Law: what follows the address and port at the front of a request never changes
/// whether it is taken for Shadowsocks. One that is, is taken for nothing else.
pub proof fn law_shadowsocks_looks_at_its_front_only(b: Seq<u8>, tail: Seq<u8>)
    requires
        b.len() > 0,
        address_len(b) matches Some(n) && b.len() >= n + 2,
    ensures
        shadowsocks_like(b + tail) <==> shadowsocks_like(b),
        shadowsocks_like(b) ==> !vless_like(b + tail) && protocol_of(b + tail)
            == Protocol::Shadowsocks,
        (shadowsocks_like(b) && b.len() <= PEEK_LEN && b.len() + tail.len() >= PEEK_LEN / 2)
            ==> detected(b + tail) == Ok::<Protocol, ProxyError>(Protocol::Shadowsocks),
{
    let n = address_len(b)->0;
    let all = b + tail;
    assert(all[0] == b[0]);
    assert(all[1] == b[1]);
    assert(all[n] == b[n] && all[n + 1] == b[n + 1]);
    let seen = all.take(share(all.len(), PEEK_LEN as nat) as int);
    if b.len() <= PEEK_LEN {
        assert(seen[0] == b[0]);
        assert(seen[1] == b[1]);
        assert(seen[n] == b[n] && seen[n + 1] == b[n + 1]);
    }
}

/// What reading hears from the socket.
#[derive(Debug, PartialEq, Eq)]
pub enum PollEvent {
    /// The read begins.
    Start,
    /// A message; its bytes, where it has some.
    Message(Option<Vec<u8>>),
    /// There is no event yet.
    Pending,
    /// The client closed, the socket failed, or there are no more events.
    Over,
}

/// What reading does next.
#[derive(Debug, PartialEq, Eq)]
pub enum ReadStep {
    /// Hand these bytes to the reader.
    Deliver(Vec<u8>),
    /// Ask the socket for an event.
    Poll,
    /// Report that nothing is ready.
    Pending,
    /// Report the end of the stream.
    End,
    /// Report a failure.
    Fail(ProxyError),
}

/// [`ReadStep`] over mathematical values.
pub ghost enum ReadView {
    Deliver(Seq<u8>),
    Poll,
    Pending,
    End,
    Fail(ProxyError),
}

impl View for ReadStep {
    type V = ReadView;

    open spec fn view(&self) -> ReadView {
        match *self {
            ReadStep::Deliver(b) => ReadView::Deliver(b@),
            ReadStep::Poll => ReadView::Poll,
            ReadStep::Pending => ReadView::Pending,
            ReadStep::End => ReadView::End,
            ReadStep::Fail(e) => ReadView::Fail(e),
        }
    }
}

/// How many bytes a reader with room for `room` gets from a buffer of `len`.
pub open spec fn share(len: nat, room: nat) -> nat {
    if len < room {
        len
    } else {
        room
    }
}

/// The buffer after an event was taken in, before anything is handed out. A
/// message that is too long, or that would overfill the buffer, is not taken in.
pub open spec fn taken_in(b: Seq<u8>, event: PollEvent) -> Seq<u8> {
    match event {
        PollEvent::Message(Some(data)) => if data@.len() <= MAX_WEBSOCKET_SIZE && b.len()
            + data@.len() <= MAX_BUFFER_SIZE {
            b + data@
        } else {
            b
        },
        _ => b,
    }
}

/// What reading does once it has taken an event in.
pub open spec fn read_step(b: Seq<u8>, room: nat, event: PollEvent) -> ReadView {
    let n = share(taken_in(b, event).len(), room);
    match event {
        PollEvent::Pending => ReadView::Pending,
        PollEvent::Over => ReadView::End,
        PollEvent::Message(Some(data)) if data@.len() > MAX_WEBSOCKET_SIZE => ReadView::Fail(
            ProxyError::WebsocketTooLong,
        ),
        PollEvent::Message(Some(data)) if b.len() + data@.len() > MAX_BUFFER_SIZE =>
            ReadView::Pending,
        _ => if n > 0 {
            ReadView::Deliver(taken_in(b, event).take(n as int))
        } else {
            ReadView::Poll
        },
    }
}

/// The buffer once the step is done.
pub open spec fn read_rest(b: Seq<u8>, room: nat, event: PollEvent) -> Seq<u8> {
    match read_step(b, room, event) {
        ReadView::Deliver(out) => taken_in(b, event).skip(out.len() as int),
        _ => taken_in(b, event),
    }
}

impl ProxyStream {
    /// The bytes that were received and not yet read.
    pub open spec fn pending(&self) -> Seq<u8> {
        contents(self.buffer)
    }

    /// A connection of which nothing was received yet.
    pub fn new(config: Config) -> (r: Self)
        ensures
            r.config == config,
            r.pending() == Seq::<u8>::empty(),
    {
        ProxyStream { config, buffer: empty_buffer(8 * 1024) }
    }

    /// Takes an event of the socket into the buffer, which is being filled until
    /// it holds `n` bytes; `None` begins. Says whether to go on.
    pub fn fill_buffer_until(&mut self, n: usize, event: Option<SocketEvent>) -> (r: FillStep)
        requires
            event matches Some(e) ==> old(self).pending().len() + payload(e).len() <= isize::MAX,
        ensures
            final(self).config == old(self).config,
            final(self).pending() == old(self).pending() + (match event {
                Some(e) => payload(e),
                None => Seq::<u8>::empty(),
            }),
            r == fill_step(final(self).pending().len(), n as nat, event),
            (event matches Some(SocketEvent::Message(Some(data))) ==> final(self).pending()
                == old(self).pending() + data@),
            (event is None || event->0 !is Message || (event->0)->Message_0 is None)
                ==> final(self).pending() == old(self).pending(),
            r is Wait <==> (event is None || event->0 is Message) && final(self).pending().len()
                < n,
    {
        let ghost before = self.pending();
        assert(before + Seq::<u8>::empty() =~= before);
        match event {
            Some(SocketEvent::Close) => FillStep::Done,
            Some(SocketEvent::End) => FillStep::Done,
            Some(SocketEvent::Failed(m)) => FillStep::Fail(ProxyError::Io(m)),
            Some(SocketEvent::Message(Some(data))) => {
                put_slice(&mut self.buffer, data.as_slice());
                if as_slice(&self.buffer).len() < n {
                    FillStep::Wait
                } else {
                    FillStep::Done
                }
            },
            Some(SocketEvent::Message(None)) | None => {
                if as_slice(&self.buffer).len() < n {
                    FillStep::Wait
                } else {
                    FillStep::Done
                }
            },
        }
    }

    /// The first `n` bytes of the buffer, or all of it where it holds fewer.
    pub fn peek_buffer(&self, n: usize) -> (r: &[u8])
        ensures
            r@ == self.pending().take(share(self.pending().len(), n as nat) as int),
            r@.is_prefix_of(self.pending()),
            r@.len() == n || (r@.len() < n && r@ == self.pending()),
    {
        let all = as_slice(&self.buffer);
        let len: usize = if all.len() < n { all.len() } else { n };
        vstd::slice::slice_subrange(all, 0, len)
    }

    /// Tells the protocol from the buffer, once it was filled until [`PEEK_LEN`].
    pub fn process(&self) -> (r: Result<Protocol, ProxyError>)
        ensures
            r == detected(self.pending()),
    {
        let peeked = self.peek_buffer(PEEK_LEN);
        if peeked.len() < PEEK_LEN / 2 {
            return Err(ProxyError::NotEnoughBuffer);
        }
        if self.is_vless(peeked) {
            Ok(Protocol::Vless)
        } else if self.is_shadowsocks(peeked) {
            Ok(Protocol::Shadowsocks)
        } else if self.is_trojan(peeked) {
            Ok(Protocol::Trojan)
        } else if self.is_vmess(peeked) {
            Ok(Protocol::Vmess)
        } else {
            Err(ProxyError::ProtocolNotImplemented)
        }
    }

    /// Whether the bytes start like a VLESS request.
    pub fn is_vless(&self, buffer: &[u8]) -> (r: bool)
        requires
            buffer@.len() > 0,
        ensures
            r == vless_like(buffer@),
    {
        buffer[0] == 0
    }

    /// Whether the bytes start like a Shadowsocks request.
    pub fn is_shadowsocks(&self, buffer: &[u8]) -> (r: bool)
        requires
            buffer@.len() > 0,
        ensures
            r == shadowsocks_like(buffer@),
    {
        match buffer[0] {
            1 => {
                if buffer.len() < 7 {
                    return false;
                }
                buffer[5] != 0 || buffer[6] != 0
            },
            3 => {
                if buffer.len() < 2 {
                    return false;
                }
                let domain_len: usize = buffer[1] as usize;
                if buffer.len() < 2 + domain_len + 2 {
                    return false;
                }
                buffer[2 + domain_len] != 0 || buffer[2 + domain_len + 1] != 0
            },
            4 => {
                if buffer.len() < 19 {
                    return false;
                }
                buffer[17] != 0 || buffer[18] != 0
            },
            _ => false,
        }
    }

    /// Whether the bytes start like a Trojan request.
    pub fn is_trojan(&self, buffer: &[u8]) -> (r: bool)
        ensures
            r == trojan_like(buffer@),
    {
        buffer.len() > 57 && buffer[56] == 13 && buffer[57] == 10
    }

    /// Whether the bytes may be a VMess request: all but none may.
    pub fn is_vmess(&self, buffer: &[u8]) -> (r: bool)
        ensures
            r == (buffer@.len() > 0),
    {
        buffer.len() > 0
    }

    /// Hands out what the buffer holds, up to `room` bytes.
    fn deliver(&mut self, room: usize) -> (r: ReadStep)
        ensures
            final(self).config == old(self).config,
            r@ == (if share(old(self).pending().len(), room as nat) > 0 {
                ReadView::Deliver(
                    old(self).pending().take(share(old(self).pending().len(), room as nat) as int),
                )
            } else {
                ReadView::Poll
            }),
            final(self).pending() == old(self).pending().skip(
                share(old(self).pending().len(), room as nat) as int,
            ),
    {
        let len = as_slice(&self.buffer).len();
        let size: usize = if len < room { len } else { room };
        if size > 0 {
            ReadStep::Deliver(split_to(&mut self.buffer, size))
        } else {
            assert(self.pending().skip(0) =~= self.pending());
            ReadStep::Poll
        }
    }

    /// One step of reading into a reader that has room for `room` bytes.
    pub fn poll_read(&mut self, room: usize, event: PollEvent) -> (r: ReadStep)
        ensures
            final(self).config == old(self).config,
            r@ == read_step(old(self).pending(), room as nat, event),
            final(self).pending() == read_rest(old(self).pending(), room as nat, event),
    {
        let ghost before = self.pending();
        assert(before.skip(0) =~= before);
        match event {
            PollEvent::Pending => ReadStep::Pending,
            PollEvent::Over => ReadStep::End,
            PollEvent::Message(Some(data)) => {
                if data.len() > MAX_WEBSOCKET_SIZE {
                    return ReadStep::Fail(ProxyError::WebsocketTooLong);
                }
                let len = as_slice(&self.buffer).len();
                if len > MAX_BUFFER_SIZE || data.len() > MAX_BUFFER_SIZE - len {
                    return ReadStep::Pending;
                }
                put_slice(&mut self.buffer, data.as_slice());
                assert((before + data@).skip(0) =~= before + data@);
                self.deliver(room)
            },
            _ => self.deliver(room),
        }
    }
}

/// The buffer after the first `k` of the events, each taken in while filling.
pub open spec fn filled_after(b: Seq<u8>, events: Seq<SocketEvent>, k: nat) -> Seq<u8>
    decreases k,
{
    if k == 0 {
        b
    } else {
        filled_after(b, events, (k - 1) as nat) + payload(events[k - 1])
    }
}

/// Whether the events are those of one filling until `n`: it went on before each
/// of them.
pub open spec fn is_filling(b: Seq<u8>, n: nat, events: Seq<SocketEvent>) -> bool {
    &&& events.len() > 0 ==> b.len() < n
    &&& forall|k: nat|
        0 < k < events.len() ==> fill_step(
            (#[trigger] filled_after(b, events, k)).len(),
            n,
            Some(events[k - 1]),
        ) is Wait
}

/// Law: filling goes on exactly while the buffer holds too little and the socket
/// brings messages. It loses nothing: what was in the buffer stays in front.
pub proof fn law_fill_stops_when_full_or_over(b: Seq<u8>, n: nat, events: Seq<SocketEvent>)
    requires
        is_filling(b, n, events),
        events.len() > 0,
    ensures
        b.is_prefix_of(filled_after(b, events, events.len())),
        forall|k: int| 0 <= k < events.len() - 1 ==> #[trigger] events[k] is Message,
        fill_step(
            filled_after(b, events, events.len()).len(),
            n,
            Some(events.last()),
        ) is Wait <==> events.last() is Message && filled_after(b, events, events.len()).len() < n,
        fill_step(
            filled_after(b, events, events.len()).len(),
            n,
            Some(events.last()),
        ) is Fail <==> events.last() is Failed,
{
    lemma_filled_prefix(b, events, events.len());
    assert forall|k: int| 0 <= k < events.len() - 1 implies #[trigger] events[k] is Message by {
        assert(fill_step(
            filled_after(b, events, (k + 1) as nat).len(),
            n,
            Some(events[k + 1 - 1]),
        ) is Wait);
    }
}

/// Law: once the buffer was filled to what is looked at, a protocol is told; only
/// where the client stopped before that can there be too little.
pub proof fn law_filled_buffer_tells_a_protocol(b: Seq<u8>, event: Option<SocketEvent>)
    requires
        fill_step(b.len(), PEEK_LEN as nat, event) is Done,
    ensures
        event is None || event->0 is Message ==> detected(b) is Ok,
        detected(b) is Err ==> event == Some(SocketEvent::Close) || event == Some(
            SocketEvent::End,
        ),
{
}

/// Filling keeps the buffer in front.
proof fn lemma_filled_prefix(b: Seq<u8>, events: Seq<SocketEvent>, k: nat)
    ensures
        b.is_prefix_of(filled_after(b, events, k)),
    decreases k,
{
    if k > 0 {
        lemma_filled_prefix(b, events, (k - 1) as nat);
        let f = filled_after(b, events, (k - 1) as nat);
        assert(filled_after(b, events, k).subrange(0, b.len() as int) =~= f.subrange(
            0,
            b.len() as int,
        ));
    }
}

/// The buffer after the first `k` steps of a reader; a step is the room that the
/// reader has, and the event.
pub open spec fn rest_after(b: Seq<u8>, steps: Seq<(nat, PollEvent)>, k: nat) -> Seq<u8>
    decreases k,
{
    if k == 0 {
        b
    } else {
        let (room, event) = steps[k - 1];
        read_rest(rest_after(b, steps, (k - 1) as nat), room, event)
    }
}

/// All that was handed out in the first `k` steps.
pub open spec fn delivered_after(b: Seq<u8>, steps: Seq<(nat, PollEvent)>, k: nat) -> Seq<u8>
    decreases k,
{
    if k == 0 {
        Seq::<u8>::empty()
    } else {
        let (room, event) = steps[k - 1];
        let before = rest_after(b, steps, (k - 1) as nat);
        delivered_after(b, steps, (k - 1) as nat) + (match read_step(before, room, event) {
            ReadView::Deliver(out) => out,
            _ => Seq::<u8>::empty(),
        })
    }
}

/// All that was taken in during the first `k` steps.
pub open spec fn received_after(b: Seq<u8>, steps: Seq<(nat, PollEvent)>, k: nat) -> Seq<u8>
    decreases k,
{
    if k == 0 {
        Seq::<u8>::empty()
    } else {
        let before = rest_after(b, steps, (k - 1) as nat);
        received_after(b, steps, (k - 1) as nat) + taken_in(before, steps[k - 1].1).skip(
            before.len() as int,
        )
    }
}

/// Law: reading hands out the bytes in the order in which they came, each once:
/// what was handed out, followed by what is left, is what the buffer held at
/// first followed by what was taken in.
pub proof fn law_read_keeps_order(b: Seq<u8>, steps: Seq<(nat, PollEvent)>, k: nat)
    requires
        k <= steps.len(),
    ensures
        delivered_after(b, steps, k) + rest_after(b, steps, k) == b + received_after(b, steps, k),
    decreases k,
{
    if k == 0 {
        assert(delivered_after(b, steps, k) + rest_after(b, steps, k) =~= b + received_after(
            b,
            steps,
            k,
        ));
    } else {
        let j = (k - 1) as nat;
        law_read_keeps_order(b, steps, j);
        let before = rest_after(b, steps, j);
        let (room, event) = steps[k - 1];
        let mid = taken_in(before, event);
        assert(mid =~= before + mid.skip(before.len() as int));
        let out = match read_step(before, room, event) {
            ReadView::Deliver(out) => out,
            _ => Seq::<u8>::empty(),
        };
        assert(out + read_rest(before, room, event) =~= mid);
        assert(delivered_after(b, steps, k) + rest_after(b, steps, k) =~= delivered_after(
            b,
            steps,
            j,
        ) + (out + read_rest(before, room, event)));
        assert(b + received_after(b, steps, k) =~= (b + received_after(b, steps, j)) + mid.skip(
            before.len() as int,
        ));
        assert(delivered_after(b, steps, j) + mid =~= (delivered_after(b, steps, j) + before)
            + mid.skip(before.len() as int));
    }
}

/// Law: reading never lets the buffer grow over its limit, or over its length at
/// first where that is longer.
pub proof fn law_read_keeps_buffer_bounded(b: Seq<u8>, steps: Seq<(nat, PollEvent)>, k: nat)
    requires
        k <= steps.len(),
    ensures
        rest_after(b, steps, k).len() <= MAX_BUFFER_SIZE || rest_after(b, steps, k).len()
            <= b.len(),
    decreases k,
{
    if k > 0 {
        law_read_keeps_buffer_bounded(b, steps, (k - 1) as nat);
    }
}

/// The bytes that an event of the socket brings to a reader.
pub open spec fn polled(event: PollEvent) -> Seq<u8> {
    match event {
        PollEvent::Message(Some(data)) => data@,
        _ => Seq::<u8>::empty(),
    }
}

/// All that the socket brought during the first `k` steps.
pub open spec fn polled_after(steps: Seq<(nat, PollEvent)>, k: nat) -> Seq<u8>
    decreases k,
{
    if k == 0 {
        Seq::<u8>::empty()
    } else {
        polled_after(steps, (k - 1) as nat) + polled(steps[k - 1].1)
    }
}

/// What the step `i` of a reader came to.
pub open spec fn step_at(b: Seq<u8>, steps: Seq<(nat, PollEvent)>, i: nat) -> ReadView {
    read_step(rest_after(b, steps, i), steps[i as int].0, steps[i as int].1)
}

/// Whether the steps are those of reads with room: the socket is asked only by a
/// step that says so, hence a message comes only right after one.
pub open spec fn is_reading(b: Seq<u8>, steps: Seq<(nat, PollEvent)>) -> bool {
    &&& forall|i: int| 0 <= i < steps.len() ==> (#[trigger] steps[i]).0 > 0
    &&& forall|i: int|
        0 <= i < steps.len() && (#[trigger] steps[i]).1 is Message ==> i > 0 && step_at(
            b,
            steps,
            (i - 1) as nat,
        ) is Poll
}

/// Law: a reader with room loses nothing. As long as no message is too long, all
/// that the socket brings is taken in, and what was handed out, followed by what
/// is left, is what the buffer held at first followed by all that the socket
/// brought.
pub proof fn law_read_loses_nothing(b: Seq<u8>, steps: Seq<(nat, PollEvent)>, k: nat)
    requires
        k <= steps.len(),
        is_reading(b, steps),
        forall|i: nat| i < k ==> !(#[trigger] step_at(b, steps, i) is Fail),
    ensures
        received_after(b, steps, k) == polled_after(steps, k),
        delivered_after(b, steps, k) + rest_after(b, steps, k) == b + polled_after(steps, k),
    decreases k,
{
    law_read_keeps_order(b, steps, k);
    if k > 0 {
        let j = (k - 1) as nat;
        law_read_loses_nothing(b, steps, j);
        let before = rest_after(b, steps, j);
        let event = steps[j as int].1;
        assert(!(step_at(b, steps, j) is Fail));
        if event is Message {
            let i = (j - 1) as nat;
            assert(step_at(b, steps, i) is Poll);
            assert(steps[i as int].0 > 0);
            assert(before.len() == 0);
        }
        assert(taken_in(before, event).skip(before.len() as int) =~= polled(event));
    }
}

/// Law: a VLESS client, which starts with version zero and its user id, is taken
/// for one, whatever the id is and whatever follows, once enough was sent to look
/// at.
pub proof fn law_vless_client_is_detected(id: Seq<u8>, tail: Seq<u8>)
    requires
        id.len() == 16,
        17 + tail.len() >= PEEK_LEN / 2,
    ensures
        detected(seq![0u8] + id + tail) == Ok::<Protocol, ProxyError>(Protocol::Vless),
{
    let b = seq![0u8] + id + tail;
    assert(b.take(share(b.len(), PEEK_LEN as nat) as int)[0] == 0);
}

/// Law: which protocol is told, byte by byte. Thirty-one bytes are needed, and at
/// most sixty-two are looked at. A zero tells VLESS; one of the three address types
/// with a port other than zero behind the address tells Shadowsocks; a line end
/// after fifty-six bytes tells Trojan; all else is VMess.
pub proof fn law_protocol_is_told_byte_by_byte(b: Seq<u8>)
    ensures
        b.len() < 31 ==> detected(b) == Err::<Protocol, ProxyError>(ProxyError::NotEnoughBuffer),
        b.len() >= 31 ==> {
            let seen: int = if b.len() < 62 { b.len() as int } else { 62 };
            let octets4 = b[0] == 1 && (b[5] != 0 || b[6] != 0);
            let octets16 = b[0] == 4 && (b[17] != 0 || b[18] != 0);
            let domain = b[0] == 3 && b[1] + 4 <= seen && (b[b[1] + 2] != 0 || b[b[1] + 3] != 0);
            let line_end = seen >= 58 && b[56] == 13 && b[57] == 10;
            detected(b) == Ok::<Protocol, ProxyError>(
                if b[0] == 0 {
                    Protocol::Vless
                } else if octets4 || octets16 || domain {
                    Protocol::Shadowsocks
                } else if line_end {
                    Protocol::Trojan
                } else {
                    Protocol::Vmess
                },
            )
        },
{
    if b.len() >= 31 {
        let seen = b.take(share(b.len(), PEEK_LEN as nat) as int);
        assert(forall|i: int| 0 <= i < seen.len() ==> seen[i] == b[i]);
        assert(seen.len() == if b.len() < 62 { b.len() as int } else { 62 });
        if b[0] == 3 && b[1] + 4 <= seen.len() {
            assert(seen[b[1] + 2] == b[b[1] + 2] && seen[b[1] + 3] == b[b[1] + 3]);
        }
    }
}

/// Law: a message adds all its bytes to a buffer that is being filled, and nothing
/// else adds any; filling waits exactly while too little is there and the socket
/// may bring more, and fails exactly with the socket's own message.
pub proof fn law_fill_takes_messages_whole(len: nat, n: nat, data: Vec<u8>, m: String)
    ensures
        payload(SocketEvent::Message(Some(data))) == data@,
        payload(SocketEvent::Message(None)).len() == 0,
        payload(SocketEvent::Close).len() == 0,
        payload(SocketEvent::End).len() == 0,
        payload(SocketEvent::Failed(m)).len() == 0,
        fill_step(len, n, None) is Wait <==> len < n,
        fill_step(len, n, None) is Done <==> len >= n,
        fill_step(len, n, Some(SocketEvent::Message(Some(data)))) == fill_step(len, n, None),
        fill_step(len, n, Some(SocketEvent::Message(None))) == fill_step(len, n, None),
        fill_step(len, n, Some(SocketEvent::Close)) is Done,
        fill_step(len, n, Some(SocketEvent::End)) is Done,
        fill_step(len, n, Some(SocketEvent::Failed(m))) == FillStep::Fail(ProxyError::Io(m)),
{
}

/// Law: one step of reading, by what comes of it. A message of more than 524288
/// bytes fails, one that would make the buffer longer than 1048576 bytes waits, and
/// neither changes the buffer. Otherwise, where there are bytes and room, the front
/// of what is there is handed out, as much as there is room for, and the rest is
/// kept; where there are none, the socket is asked.
pub proof fn law_read_step_by_step(b: Seq<u8>, room: nat, event: PollEvent, data: Vec<u8>)
    ensures
        ({
            let event = PollEvent::Message(Some(data));
            let there = b + data@;
            let too_long = data@.len() > 524288;
            let too_much = b.len() + data@.len() > 1048576;
            &&& read_step(b, room, event) is Fail <==> too_long
            &&& too_long ==> read_step(b, room, event) == ReadView::Fail(
                ProxyError::WebsocketTooLong,
            )
            &&& read_step(b, room, event) is Pending <==> !too_long && too_much
            &&& (too_long || too_much) ==> read_rest(b, room, event) == b
            &&& read_step(b, room, event) is Deliver <==> !too_long && !too_much && there.len() > 0
                && room > 0
            &&& read_step(b, room, event) is Poll ==> read_rest(b, room, event) == there
            &&& (read_step(b, room, event) matches ReadView::Deliver(out) ==> out + read_rest(
                b,
                room,
                event,
            ) == there && out.len() > 0 && out.len() <= room && (out.len() == room || read_rest(
                b,
                room,
                event,
            ).len() == 0))
        }),
        event == PollEvent::Start || event == PollEvent::Message(None) ==> {
            &&& read_step(b, room, event) is Deliver <==> b.len() > 0 && room > 0
            &&& read_step(b, room, event) is Poll <==> b.len() == 0 || room == 0
            &&& read_step(b, room, event) is Poll ==> read_rest(b, room, event) == b
            &&& (read_step(b, room, event) matches ReadView::Deliver(out) ==> out + read_rest(
                b,
                room,
                event,
            ) == b && out.len() <= room && (out.len() == room || read_rest(b, room, event).len()
                == 0))
        },
        event is Pending ==> read_step(b, room, event) is Pending && read_rest(b, room, event) == b,
        event is Over ==> read_step(b, room, event) is End && read_rest(b, room, event) == b,
{
    let e = PollEvent::Message(Some(data));
    assert(taken_in(b, e).take(share(taken_in(b, e).len(), room) as int) + taken_in(b, e).skip(
        share(taken_in(b, e).len(), room) as int,
    ) =~= taken_in(b, e));
    assert(b.take(share(b.len(), room) as int) + b.skip(share(b.len(), room) as int) =~= b);
}

/// Law: what contracts say of a step of reading, they say of its own fields.
pub proof fn law_read_step_is_seen_whole(data: Vec<u8>, e: ProxyError)
    ensures
        ReadStep::Deliver(data)@ == ReadView::Deliver(data@),
        ReadStep::Poll@ is Poll,
        ReadStep::Pending@ is Pending,
        ReadStep::End@ is End,
        ReadStep::Fail(e)@ == ReadView::Fail(e),
{
}

} // verus!
