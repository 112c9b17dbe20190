//! The client side of a SOCKS5 handshake, as decisions on what the proxy answers.
//!
//! The handshake alternates one write and one read. [`Socks5Handshake`] says
//! what to send and how many bytes to wait for; the caller performs it and
//! hands the reply back.
use crate::config::option_view;
use crate::error::ProxyError;
use crate::proxy::conn::{detected, shadowsocks_like, share, Protocol, PEEK_LEN};
use crate::text::{
    decimal, law_decimal_read_back, law_split_join, lemma_decimal_free, lemma_decimal_value,
    lemma_split_four, parse_unsigned, push_decimal, same_text, split,
    split_text,
};
use vstd::prelude::*;
use vstd::utf8::encode_utf8;

verus! {

/// Where a handshake stands: which reply it waits for.
#[derive(Clone, Copy, Debug, PartialEq, Eq)]
pub enum Socks5Phase {
    /// The answer to the greeting.
    Method,
    /// The answer to the credentials.
    Auth,
    /// The first four bytes of the answer to the request.
    Head,
    /// The length of the bound domain.
    BoundLength,
    /// The bound address and port, this many bytes.
    Bound(usize),
}

/// What the caller does next.
#[derive(Debug, PartialEq, Eq)]
pub enum Socks5Step {
    /// Send these bytes, then wait for the reply of `phase`.
    Exchange { send: Vec<u8>, phase: Socks5Phase },
    /// The tunnel stands.
    Done,
    /// The handshake failed.
    Fail(ProxyError),
}

/// [`Socks5Step`] over mathematical values.
pub ghost enum StepView {
    Exchange { send: Seq<u8>, phase: Socks5Phase },
    Done,
    Fail(ProxyError),
}

impl View for Socks5Step {
    type V = StepView;

    open spec fn view(&self) -> StepView {
        match *self {
            Socks5Step::Exchange { send, phase } => StepView::Exchange { send: send@, phase },
            Socks5Step::Done => StepView::Done,
            Socks5Step::Fail(e) => StepView::Fail(e),
        }
    }
}

/// How many bytes the reply of a phase has.
pub open spec fn reply_len(phase: Socks5Phase) -> nat {
    match phase {
        Socks5Phase::Method => 2,
        Socks5Phase::Auth => 2,
        Socks5Phase::Head => 4,
        Socks5Phase::BoundLength => 1,
        Socks5Phase::Bound(n) => n as nat,
    }
}

impl Socks5Phase {
    /// How many bytes the reply has.
    pub fn reply_len(&self) -> (n: usize)
        ensures
            n == reply_len(*self),
    {
        match self {
            Socks5Phase::Method => 2,
            Socks5Phase::Auth => 2,
            Socks5Phase::Head => 4,
            Socks5Phase::BoundLength => 1,
            Socks5Phase::Bound(n) => *n,
        }
    }
}

/// What a handshake is about, over mathematical values.
pub ghost struct HandshakeView {
    pub user: Option<Seq<char>>,
    pub pass: Option<Seq<char>>,
    pub v4: Option<Seq<u8>>,
    pub v6: Option<Seq<u8>>,
    pub target: Seq<char>,
    pub port: u16,
}

impl HandshakeView {
    /// Credentials count only where both halves are there.
    pub open spec fn has_credentials(self) -> bool {
        self.user is Some && self.pass is Some
    }
}

/// A handshake with a SOCKS5 proxy towards one target.
///
/// `v4` and `v6` hold the octets of the target where its text is an address of
/// that family.
pub struct Socks5Handshake {
    pub user: Option<String>,
    pub pass: Option<String>,
    pub v4: Option<[u8; 4]>,
    pub v6: Option<[u8; 16]>,
    pub target: String,
    pub port: u16,
}

impl View for Socks5Handshake {
    type V = HandshakeView;

    open spec fn view(&self) -> HandshakeView {
        HandshakeView {
            user: option_view(self.user),
            pass: option_view(self.pass),
            v4: match self.v4 {
                Some(o) => Some(o@),
                None => None,
            },
            v6: match self.v6 {
                Some(o) => Some(o@),
                None => None,
            },
            target: self.target@,
            port: self.port,
        }
    }
}

/// An IPv4 address in text: its octets in decimal, with dots between them.
pub open spec fn dotted(o: Seq<u8>) -> Seq<char> {
    decimal(o[0] as nat) + "."@ + decimal(o[1] as nat) + "."@ + decimal(o[2] as nat) + "."@
        + decimal(o[3] as nat)
}

/// The octets of the IPv4 address that a text is, where it is one.
pub open spec fn octets_of(text: Seq<char>) -> Option<Seq<u8>> {
    if exists|o: Seq<u8>| o.len() == 4 && text == #[trigger] dotted(o) {
        Some(choose|o: Seq<u8>| o.len() == 4 && text == #[trigger] dotted(o))
    } else {
        None
    }
}

/// A number in decimal holds no dot.
proof fn lemma_no_dot(n: nat)
    ensures
        !decimal(n).contains('.'),
{
    lemma_decimal_free(n, '.');
}

/// An IPv4 address splits at its dots into its octets in decimal.
proof fn lemma_dotted_split(o: Seq<u8>)
    ensures
        split(dotted(o), '.') == seq![
            decimal(o[0] as nat),
            decimal(o[1] as nat),
            decimal(o[2] as nat),
            decimal(o[3] as nat),
        ],
{
    let a = decimal(o[0] as nat);
    let b = decimal(o[1] as nat);
    let c = decimal(o[2] as nat);
    let d = decimal(o[3] as nat);
    lemma_no_dot(o[0] as nat);
    lemma_no_dot(o[1] as nat);
    lemma_no_dot(o[2] as nat);
    lemma_no_dot(o[3] as nat);
    lemma_split_four(a, b, c, d, '.');
    reveal_strlit(".");
    assert("."@ =~= seq!['.']);
    assert(dotted(o) =~= a.push('.') + (b.push('.') + (c.push('.') + d)));
}

/// Law: no text is two different IPv4 addresses.
pub proof fn law_dotted_is_unambiguous(a: Seq<u8>, b: Seq<u8>)
    requires
        a.len() == 4,
        b.len() == 4,
        dotted(a) == dotted(b),
    ensures
        a == b,
{
    lemma_dotted_split(a);
    lemma_dotted_split(b);
    let s = split(dotted(a), '.');
    assert forall|i: int| 0 <= i < 4 implies a[i] == b[i] by {
        assert(s[i] == decimal(a[i] as nat));
        assert(s[i] == decimal(b[i] as nat));
        lemma_decimal_value(a[i] as nat);
        lemma_decimal_value(b[i] as nat);
    }
    assert(a =~= b);
}

/// Reads an octet in decimal, without a sign and without leading zeros.
fn octet_of(text: &str) -> (r: Option<u8>)
    ensures
        match r {
            Some(n) => text@ == decimal(n as nat),
            None => forall|n: u8| text@ != #[trigger] decimal(n as nat),
        },
{
    let parsed = parse_unsigned(text, 255);
    proof {
        assert forall|n: u8| text@ == #[trigger] decimal(n as nat) implies parsed == Some(
            n as u64,
        ) by {
            law_decimal_read_back(n as nat, 255);
        }
    }
    match parsed {
        Some(n) => {
            let mut usual = String::new();
            push_decimal(&mut usual, n);
            assert(usual@ =~= decimal(n as nat));
            if same_text(text, usual.as_str()) {
                Some(n as u8)
            } else {
                None
            }
        },
        None => None,
    }
}

/// Reads the octets of the IPv4 address that a text is.
pub fn v4_of(text: &str) -> (r: Option<[u8; 4]>)
    ensures
        match r {
            Some(o) => text@ == dotted(o@) && octets_of(text@) == Some(o@),
            None => octets_of(text@) is None && forall|o: Seq<u8>|
                o.len() == 4 ==> text@ != #[trigger] dotted(o),
        },
{
    let pieces = split_text(text, '.');
    let ghost s = split(text@, '.');
    proof {
        assert forall|o: Seq<u8>| o.len() == 4 && text@ == #[trigger] dotted(o) implies s == seq![
            decimal(o[0] as nat),
            decimal(o[1] as nat),
            decimal(o[2] as nat),
            decimal(o[3] as nat),
        ] by {
            lemma_dotted_split(o);
        }
    }
    assert(s.len() == pieces.len());
    if pieces.len() != 4 {
        return None;
    }
    assert(s[0] == pieces[0]@ && s[1] == pieces[1]@ && s[2] == pieces[2]@ && s[3] == pieces[3]@);
    let a = octet_of(pieces[0].as_str());
    let b = octet_of(pieces[1].as_str());
    let c = octet_of(pieces[2].as_str());
    let d = octet_of(pieces[3].as_str());
    if let (Some(a), Some(b), Some(c), Some(d)) = (a, b, c, d) {
        let o: [u8; 4] = [a, b, c, d];
        proof {
            lemma_dotted_split(o@);
            assert(s =~= split(dotted(o@), '.'));
            law_split_join(text@, '.');
            law_split_join(dotted(o@), '.');
            law_dotted_is_unambiguous(
                o@,
                choose|o: Seq<u8>| o.len() == 4 && text@ == #[trigger] dotted(o),
            );
        }
        Some(o)
    } else {
        None
    }
}

/// A handshake towards a target, over mathematical values: whether the target is an
/// IPv4 address is read from its text.
pub open spec fn towards(
    user: Option<Seq<char>>,
    pass: Option<Seq<char>>,
    target: Seq<char>,
    port: u16,
    v6: Option<Seq<u8>>,
) -> HandshakeView {
    HandshakeView { user, pass, v4: octets_of(target), v6, target, port }
}

/// The two bytes of a port, high byte first.
pub open spec fn port_bytes(port: u16) -> Seq<u8> {
    seq![(port / 256) as u8, (port % 256) as u8]
}

/// The greeting: version, number of methods, methods. The method for
/// credentials is offered only where there are some.
pub open spec fn greeting(credentials: bool) -> Seq<u8> {
    if credentials {
        seq![5u8, 2, 0, 2]
    } else {
        seq![5u8, 1, 0]
    }
}

/// A text in the form of the credentials message: its length in bytes, reduced
/// to one byte, then its bytes.
pub open spec fn counted(s: Seq<char>) -> Seq<u8> {
    seq![(encode_utf8(s).len() % 256) as u8] + encode_utf8(s)
}

/// The credentials message.
pub open spec fn auth_message(user: Seq<char>, pass: Seq<char>) -> Seq<u8> {
    seq![1u8] + counted(user) + counted(pass)
}

/// The target address as it stands in a request: an IPv4 address where the text
/// is one, else an IPv6 address where it is one, else the domain with its
/// length. A domain of more than 255 bytes has no such form.
pub open spec fn address_bytes(h: HandshakeView) -> Option<Seq<u8>> {
    let domain = encode_utf8(h.target);
    if h.v4 is Some {
        Some(seq![1u8] + h.v4->0)
    } else if h.v6 is Some {
        Some(seq![4u8] + h.v6->0)
    } else if domain.len() <= 255 {
        Some(seq![3u8, domain.len() as u8] + domain)
    } else {
        None
    }
}

/// The request to connect: version, command, reserved byte, address, port.
pub open spec fn connect_request(h: HandshakeView) -> Option<Seq<u8>> {
    match address_bytes(h) {
        Some(a) => Some(seq![5u8, 1, 0] + a + port_bytes(h.port)),
        None => None,
    }
}

/// The step in which the request is sent.
pub open spec fn request_step(h: HandshakeView) -> StepView {
    match connect_request(h) {
        Some(send) => StepView::Exchange { send, phase: Socks5Phase::Head },
        None => StepView::Fail(ProxyError::Socks5DomainTooLong),
    }
}

/// The step that waits for `n` more bytes and sends nothing.
pub open spec fn wait_step(phase: Socks5Phase) -> StepView {
    StepView::Exchange { send: Seq::<u8>::empty(), phase }
}

/// What follows the reply of a phase.
pub open spec fn next_step(h: HandshakeView, phase: Socks5Phase, reply: Seq<u8>) -> StepView {
    match phase {
        Socks5Phase::Method => if reply[0] != 5 {
            StepView::Fail(ProxyError::Socks5Version)
        } else if reply[1] == 0 {
            request_step(h)
        } else if reply[1] == 2 {
            if h.has_credentials() {
                StepView::Exchange {
                    send: auth_message(h.user->0, h.pass->0),
                    phase: Socks5Phase::Auth,
                }
            } else {
                StepView::Fail(ProxyError::Socks5CredentialsMissing)
            }
        } else if reply[1] == 255 {
            StepView::Fail(ProxyError::Socks5NoMethod)
        } else {
            StepView::Fail(ProxyError::Socks5UnknownMethod(reply[1]))
        },
        Socks5Phase::Auth => if reply[1] != 0 {
            StepView::Fail(ProxyError::Socks5AuthFailed)
        } else {
            request_step(h)
        },
        Socks5Phase::Head => if reply[0] != 5 {
            StepView::Fail(ProxyError::Socks5ReplyVersion)
        } else if reply[1] != 0 {
            StepView::Fail(ProxyError::Socks5Refused(reply[1]))
        } else if reply[3] == 1 {
            wait_step(Socks5Phase::Bound(6))
        } else if reply[3] == 4 {
            wait_step(Socks5Phase::Bound(18))
        } else if reply[3] == 3 {
            wait_step(Socks5Phase::BoundLength)
        } else {
            StepView::Fail(ProxyError::Socks5AddressType(reply[3]))
        },
        Socks5Phase::BoundLength => wait_step(Socks5Phase::Bound((reply[0] + 2) as usize)),
        Socks5Phase::Bound(n) => StepView::Done,
    }
}

/// The first step: the greeting.
pub open spec fn first_step(h: HandshakeView) -> StepView {
    StepView::Exchange { send: greeting(h.has_credentials()), phase: Socks5Phase::Method }
}

/// Appends the length of `s` in bytes, reduced to one byte, then its bytes.
fn push_counted(out: &mut Vec<u8>, s: &str)
    ensures
        final(out)@ == old(out)@ + counted(s@),
{
    let bytes = s.as_bytes();
    out.push((bytes.len() % 256) as u8);
    out.extend_from_slice(bytes);
    assert(out@ =~= old(out)@ + counted(s@));
}

impl Socks5Handshake {
    /// A handshake towards a target. Whether the target is an IPv4 address is read
    /// from its text; `v6` holds its octets where it is an IPv6 address.
    pub fn to_target(
        user: Option<String>,
        pass: Option<String>,
        target: String,
        port: u16,
        v6: Option<[u8; 16]>,
    ) -> (r: Self)
        ensures
            r@ == (HandshakeView {
                user: option_view(user),
                pass: option_view(pass),
                v4: octets_of(target@),
                v6: match v6 {
                    Some(o) => Some(o@),
                    None => None,
                },
                target: target@,
                port,
            }),
            r@ == towards(
                option_view(user),
                option_view(pass),
                target@,
                port,
                match v6 {
                    Some(o) => Some(o@),
                    None => None,
                },
            ),
    {
        let v4 = v4_of(target.as_str());
        Socks5Handshake { user, pass, v4, v6, target, port }
    }

    /// Begins the handshake, once the proxy is connected.
    pub fn start(&self) -> (r: Socks5Step)
        ensures
            r@ == first_step(self@),
    {
        let credentials = self.user.is_some() && self.pass.is_some();
        let send: Vec<u8> = if credentials {
            vec![5u8, 2, 0, 2]
        } else {
            vec![5u8, 1, 0]
        };
        assert(send@ =~= greeting(self@.has_credentials()));
        Socks5Step::Exchange { send, phase: Socks5Phase::Method }
    }

    /// The request for the target, or the failure where it has no form.
    fn request(&self) -> (r: Socks5Step)
        ensures
            r@ == request_step(self@),
            r matches Socks5Step::Exchange { send, phase } ==> phase is Head && send@.len() >= 7
                && send@[send@.len() - 2] * 256 + send@[send@.len() - 1] == self.port,
    {
        let mut send: Vec<u8> = vec![5u8, 1, 0];
        if let Some(octets) = &self.v4 {
            send.push(1);
            send.extend_from_slice(octets.as_slice());
        } else if let Some(octets) = &self.v6 {
            send.push(4);
            send.extend_from_slice(octets.as_slice());
        } else {
            let domain = self.target.as_str().as_bytes();
            if domain.len() > 255 {
                return Socks5Step::Fail(ProxyError::Socks5DomainTooLong);
            }
            send.push(3);
            send.push(domain.len() as u8);
            send.extend_from_slice(domain);
        }
        send.push((self.port / 256) as u8);
        send.push((self.port % 256) as u8);
        assert(send@ =~= connect_request(self@)->0);
        Socks5Step::Exchange { send, phase: Socks5Phase::Head }
    }

    /// Decides what follows the reply of a phase.
    pub fn step(&self, phase: Socks5Phase, reply: &[u8]) -> (r: Socks5Step)
        requires
            reply@.len() == reply_len(phase),
        ensures
            r@ == next_step(self@, phase, reply@),
            r matches Socks5Step::Exchange { send, phase: Socks5Phase::Head } ==> send@.len() >= 7
                && send@[send@.len() - 2] * 256 + send@[send@.len() - 1] == self.port,
    {
        match phase {
            Socks5Phase::Method => {
                if reply[0] != 5 {
                    return Socks5Step::Fail(ProxyError::Socks5Version);
                }
                if reply[1] == 0 {
                    self.request()
                } else if reply[1] == 2 {
                    match (&self.user, &self.pass) {
                        (Some(u), Some(p)) => {
                            let mut send: Vec<u8> = vec![1u8];
                            push_counted(&mut send, u.as_str());
                            push_counted(&mut send, p.as_str());
                            assert(send@ =~= auth_message(u@, p@));
                            Socks5Step::Exchange { send, phase: Socks5Phase::Auth }
                        },
                        _ => Socks5Step::Fail(ProxyError::Socks5CredentialsMissing),
                    }
                } else if reply[1] == 255 {
                    Socks5Step::Fail(ProxyError::Socks5NoMethod)
                } else {
                    Socks5Step::Fail(ProxyError::Socks5UnknownMethod(reply[1]))
                }
            },
            Socks5Phase::Auth => {
                if reply[1] != 0 {
                    Socks5Step::Fail(ProxyError::Socks5AuthFailed)
                } else {
                    self.request()
                }
            },
            Socks5Phase::Head => {
                if reply[0] != 5 {
                    Socks5Step::Fail(ProxyError::Socks5ReplyVersion)
                } else if reply[1] != 0 {
                    Socks5Step::Fail(ProxyError::Socks5Refused(reply[1]))
                } else if reply[3] == 1 {
                    wait(Socks5Phase::Bound(6))
                } else if reply[3] == 4 {
                    wait(Socks5Phase::Bound(18))
                } else if reply[3] == 3 {
                    wait(Socks5Phase::BoundLength)
                } else {
                    Socks5Step::Fail(ProxyError::Socks5AddressType(reply[3]))
                }
            },
            Socks5Phase::BoundLength => wait(Socks5Phase::Bound(reply[0] as usize + 2)),
            Socks5Phase::Bound(_) => Socks5Step::Done,
        }
    }
}

/// Waits for the reply of `phase` and sends nothing.
fn wait(phase: Socks5Phase) -> (r: Socks5Step)
    ensures
        r@ == wait_step(phase),
{
    let send: Vec<u8> = Vec::new();
    assert(send@ =~= Seq::<u8>::empty());
    Socks5Step::Exchange { send, phase }
}

/// The step that a handshake has reached after the first `n` of the replies.
pub open spec fn step_after(h: HandshakeView, replies: Seq<Seq<u8>>, n: nat) -> StepView
    decreases n,
{
    if n == 0 {
        first_step(h)
    } else {
        match step_after(h, replies, (n - 1) as nat) {
            StepView::Exchange { send, phase } => next_step(h, phase, replies[n - 1]),
            s => s,
        }
    }
}

/// Whether the replies are those of one handshake: each was waited for, and has
/// the length that was waited for.
pub open spec fn is_transcript(h: HandshakeView, replies: Seq<Seq<u8>>) -> bool {
    forall|i: nat|
        i < replies.len() ==> (#[trigger] step_after(h, replies, i) matches StepView::Exchange {
            send,
            phase,
        } && replies[i as int].len() == reply_len(phase))
}

/// How many replies the proxy spent on letting the client in: one where it asks
/// for no credentials, two where it asks for them and accepts them.
pub open spec fn admitted_after(h: HandshakeView, replies: Seq<Seq<u8>>) -> Option<int> {
    if replies.len() >= 1 && replies[0] == seq![5u8, 0] {
        Some(1)
    } else if replies.len() >= 2 && replies[0] == seq![5u8, 2] && h.has_credentials()
        && replies[1][1] == 0 {
        Some(2)
    } else {
        None
    }
}

/// Whether the proxy let the client in, the target has a form in a request, and
/// the proxy granted the request with a complete answer.
pub open spec fn is_granted(h: HandshakeView, replies: Seq<Seq<u8>>) -> bool {
    match admitted_after(h, replies) {
        Some(k) => {
            &&& connect_request(h) is Some
            &&& replies.len() > k
            &&& replies[k][0] == 5
            &&& replies[k][1] == 0
            &&& ((replies[k][3] == 1 || replies[k][3] == 4) && replies.len() == k + 2)
                || (replies[k][3] == 3 && replies.len() == k + 3)
        },
        None => false,
    }
}

/// Law: a handshake is done exactly when the proxy let the client in and granted
/// the request.
pub proof fn law_done_iff_granted(h: HandshakeView, replies: Seq<Seq<u8>>)
    requires
        is_transcript(h, replies),
    ensures
        step_after(h, replies, replies.len()) is Done <==> is_granted(h, replies),
{
    reveal_with_fuel(step_after, 7);
    let n = replies.len();
    assert(n >= 1 ==> step_after(h, replies, 0) is Exchange && replies[0].len() == 2);
    assert(n >= 1 ==> (replies[0] == seq![5u8, 0] <==> replies[0][0] == 5 && replies[0][1] == 0))
        by {
        if n >= 1 && replies[0][0] == 5 && replies[0][1] == 0 {
            assert(replies[0] =~= seq![5u8, 0]);
        }
    }
    assert(n >= 1 ==> (replies[0] == seq![5u8, 2] <==> replies[0][0] == 5 && replies[0][1] == 2))
        by {
        if n >= 1 && replies[0][0] == 5 && replies[0][1] == 2 {
            assert(replies[0] =~= seq![5u8, 2]);
        }
    }
    assert(n > 1 ==> step_after(h, replies, 1) is Exchange);
    assert(n > 2 ==> step_after(h, replies, 2) is Exchange);
    assert(n > 3 ==> step_after(h, replies, 3) is Exchange);
    assert(n > 4 ==> step_after(h, replies, 4) is Exchange);
    assert(n > 5 ==> step_after(h, replies, 5) is Exchange);
}

/// Law: the credentials are sent only where there are some, and only as the
/// answer to a proxy that asked for them.
pub proof fn law_credentials_only_when_asked(h: HandshakeView, replies: Seq<Seq<u8>>, n: nat)
    requires
        is_transcript(h, replies),
        n <= replies.len(),
        step_after(h, replies, n) matches StepView::Exchange { send, phase } && phase
            == Socks5Phase::Auth,
    ensures
        n == 1,
        h.has_credentials(),
        replies[0] == seq![5u8, 2],
        step_after(h, replies, n)->send == auth_message(h.user->0, h.pass->0),
{
    reveal_with_fuel(step_after, 2);
    assert(step_after(h, replies, 0) is Exchange);
    if n >= 2 {
        let m = (n - 1) as nat;
        assert(step_after(h, replies, m) is Exchange);
        assert(step_after(h, replies, m)->phase == Socks5Phase::Method);
        lemma_method_only_first(h, replies, m);
    } else {
        assert(replies[0] =~= seq![5u8, 2]);
    }
}

/// Only the first reply is the answer to the greeting.
proof fn lemma_method_only_first(h: HandshakeView, replies: Seq<Seq<u8>>, n: nat)
    requires
        n > 0,
    ensures
        step_after(h, replies, n) matches StepView::Exchange { send, phase } ==> phase
            != Socks5Phase::Method,
    decreases n,
{
    reveal_with_fuel(step_after, 2);
    if n > 1 {
        lemma_method_only_first(h, replies, (n - 1) as nat);
    }
}

/// Law: the address and port of a request are themselves taken for the start of
/// a Shadowsocks request, unless the port is zero.
pub proof fn law_request_address_is_shadowsocks_like(h: HandshakeView)
    requires
        h.v4 matches Some(o) ==> o.len() == 4,
        h.v6 matches Some(o) ==> o.len() == 16,
        address_bytes(h) is Some,
    ensures
        shadowsocks_like(address_bytes(h)->0 + port_bytes(h.port)) <==> h.port != 0,
{
    let a = address_bytes(h)->0;
    let b = a + port_bytes(h.port);
    assert(b[0] == a[0]);
    assert(b[a.len() as int] == h.port / 256);
    assert(b[a.len() as int + 1] == h.port % 256);
    if h.v4 is None && h.v6 is None {
        assert(b[1] == a[1]);
    }
}

/// Law: a client that starts with a SOCKS5 address and a port other than zero is
/// taken for a Shadowsocks client, whatever follows, as long as both lie in what
/// is looked at and enough was sent to look at.
pub proof fn law_shadowsocks_client_is_detected(h: HandshakeView, tail: Seq<u8>)
    requires
        h.v4 matches Some(o) ==> o.len() == 4,
        h.v6 matches Some(o) ==> o.len() == 16,
        address_bytes(h) is Some,
        address_bytes(h)->0.len() + 2 <= PEEK_LEN,
        address_bytes(h)->0.len() + 2 + tail.len() >= PEEK_LEN / 2,
        h.port != 0,
    ensures
        detected(address_bytes(h)->0 + port_bytes(h.port) + tail) == Ok::<Protocol, ProxyError>(
            Protocol::Shadowsocks,
        ),
{
    law_request_address_is_shadowsocks_like(h);
    let a = address_bytes(h)->0;
    let front = a + port_bytes(h.port);
    let b = front + tail;
    let seen = b.take(share(b.len(), PEEK_LEN as nat) as int);
    assert(forall|i: int| 0 <= i < front.len() ==> seen[i] == front[i]);
    assert(seen[0] == a[0]);
    assert(seen[1] == a[1]);
    assert(seen[a.len() as int] == front[a.len() as int]);
    assert(seen[a.len() as int + 1] == front[a.len() as int + 1]);
}

/// Law: the request to connect reads back as what it was made of. Its last two
/// bytes, high byte first, are the port; before them stand the version, the command
/// and a zero, then the type of the address and the address itself. There is no
/// request exactly where the target is no address and its text has more than 255
/// bytes.
pub proof fn law_request_reads_back(h: HandshakeView)
    requires
        h.v4 matches Some(o) ==> o.len() == 4,
        h.v6 matches Some(o) ==> o.len() == 16,
    ensures
        connect_request(h) is None <==> h.v4 is None && h.v6 is None && encode_utf8(h.target).len()
            > 255,
        connect_request(h) matches Some(r) ==> {
            let n = r.len() as int;
            let address = r.subrange(3, n - 2);
            &&& n >= 7
            &&& r[0] == 5 && r[1] == 1 && r[2] == 0
            &&& r[n - 2] * 256 + r[n - 1] == h.port
            &&& (h.v4 matches Some(o) ==> address[0] == 1 && address.skip(1) == o)
            &&& (h.v4 is None ==> (h.v6 matches Some(o) ==> address[0] == 4 && address.skip(1)
                == o))
            &&& (h.v4 is None && h.v6 is None) ==> address[0] == 3 && address[1] == encode_utf8(
                h.target,
            ).len() && address.skip(2) == encode_utf8(h.target)
        },
{
    if let Some(r) = connect_request(h) {
        let n = r.len() as int;
        let a = address_bytes(h)->0;
        assert(r.subrange(3, n - 2) =~= a);
        if h.v4 is Some {
            assert(a.skip(1) =~= h.v4->0);
        } else if h.v6 is Some {
            assert(a.skip(1) =~= h.v6->0);
        } else {
            assert(a.skip(2) =~= encode_utf8(h.target));
        }
    }
}

/// Law: the credentials message reads back as the credentials: a one, then each of
/// the two texts in bytes with its length, reduced to one byte, before it.
pub proof fn law_credentials_read_back(user: Seq<char>, pass: Seq<char>)
    ensures
        ({
            let m = auth_message(user, pass);
            let u = encode_utf8(user);
            let p = encode_utf8(pass);
            let k = 2 + u.len() as int;
            &&& m.len() == 3 + u.len() + p.len()
            &&& m[0] == 1
            &&& m[1] == u.len() % 256
            &&& m.subrange(2, k) == u
            &&& m[k] == p.len() % 256
            &&& m.skip(k + 1) == p
        }),
{
    let m = auth_message(user, pass);
    let u = encode_utf8(user);
    let p = encode_utf8(pass);
    let k = 2 + u.len() as int;
    assert(m.subrange(2, k) =~= u);
    assert(m.skip(k + 1) =~= p);
}

/// Law: the greeting offers to go without credentials, and to take some only where
/// both halves are there.
pub proof fn law_greeting_offers_what_there_is(h: HandshakeView)
    ensures
        first_step(h) matches StepView::Exchange { send, phase } && phase == Socks5Phase::Method
            && send[0] == 5 && send[1] == send.len() - 2 && send[2] == 0 && (h.user is Some
            && h.pass is Some ==> send.len() == 4 && send[3] == 2) && (h.user is None
            || h.pass is None ==> send.len() == 3),
{
}

/// Law: what follows each answer to the greeting and to the credentials. The request
/// is sent right after the proxy let the client in; every refusal has its own reason.
pub proof fn law_admission_by_reply(h: HandshakeView, version: u8, method: u8)
    ensures
        ({
            let asked = next_step(h, Socks5Phase::Method, seq![version, method]);
            let both = h.user is Some && h.pass is Some;
            &&& version != 5 ==> asked == StepView::Fail(ProxyError::Socks5Version)
            &&& (version == 5 && method == 2 && !both) ==> asked == StepView::Fail(
                ProxyError::Socks5CredentialsMissing,
            )
            &&& (version == 5 && method == 2 && both) ==> asked == (StepView::Exchange {
                send: auth_message(h.user->0, h.pass->0),
                phase: Socks5Phase::Auth,
            })
            &&& (version == 5 && method == 255) ==> asked == StepView::Fail(
                ProxyError::Socks5NoMethod,
            )
            &&& (version == 5 && method != 0 && method != 2 && method != 255) ==> asked
                == StepView::Fail(ProxyError::Socks5UnknownMethod(method))
            &&& (version == 5 && method == 0) ==> (match connect_request(h) {
                Some(r) => asked == (StepView::Exchange { send: r, phase: Socks5Phase::Head }),
                None => asked == StepView::Fail(ProxyError::Socks5DomainTooLong),
            })
        }),
        ({
            let told = next_step(h, Socks5Phase::Auth, seq![version, method]);
            &&& method != 0 ==> told == StepView::Fail(ProxyError::Socks5AuthFailed)
            &&& method == 0 ==> (match connect_request(h) {
                Some(r) => told == (StepView::Exchange { send: r, phase: Socks5Phase::Head }),
                None => told == StepView::Fail(ProxyError::Socks5DomainTooLong),
            })
        }),
{
}

/// Law: what follows each answer to the request. A granted one is read to its end,
/// and nothing more is sent: after the head come four or sixteen octets and two
/// bytes of port, or a length, a domain of that length and two bytes of port.
pub proof fn law_answer_is_read_to_its_end(
    h: HandshakeView,
    head: Seq<u8>,
    len: u8,
    rest: Seq<u8>,
)
    requires
        head.len() == 4,
    ensures
        ({
            let told = next_step(h, Socks5Phase::Head, head);
            let granted = head[0] == 5 && head[1] == 0;
            &&& head[0] != 5 ==> told == StepView::Fail(ProxyError::Socks5ReplyVersion)
            &&& (head[0] == 5 && head[1] != 0) ==> told == StepView::Fail(
                ProxyError::Socks5Refused(head[1]),
            )
            &&& (granted && head[3] != 1 && head[3] != 3 && head[3] != 4) ==> told
                == StepView::Fail(ProxyError::Socks5AddressType(head[3]))
            &&& (granted && (head[3] == 1 || head[3] == 3 || head[3] == 4)) ==> (told
                matches StepView::Exchange { send, phase } && send.len() == 0 && reply_len(phase)
                == (if head[3] == 1 {
                6nat
            } else if head[3] == 4 {
                18nat
            } else {
                1nat
            }) && (head[3] == 3 ==> phase == Socks5Phase::BoundLength) && (head[3] != 3 ==> phase
                is Bound))
        }),
        next_step(h, Socks5Phase::BoundLength, seq![len]) matches StepView::Exchange { send, phase }
            && send.len() == 0 && phase is Bound && reply_len(phase) == len + 2,
        next_step(h, Socks5Phase::Bound(rest.len() as usize), rest) is Done,
        reply_len(Socks5Phase::Method) == 2,
        reply_len(Socks5Phase::Auth) == 2,
        reply_len(Socks5Phase::Head) == 4,
        reply_len(Socks5Phase::BoundLength) == 1,
{
}

/// Law: the text of an IPv4 address, its four numbers with dots between them, is read
/// as that address, and nothing else is read as one.
pub proof fn law_dotted_text_is_read(text: Seq<char>, a: u8, b: u8, c: u8, d: u8)
    ensures
        octets_of(
            decimal(a as nat) + "."@ + decimal(b as nat) + "."@ + decimal(c as nat) + "."@
                + decimal(d as nat),
        ) == Some(seq![a, b, c, d]),
        octets_of(text) matches Some(o) ==> o.len() == 4 && text == decimal(o[0] as nat) + "."@
            + decimal(o[1] as nat) + "."@ + decimal(o[2] as nat) + "."@ + decimal(o[3] as nat),
{
    let o = seq![a, b, c, d];
    let t = decimal(a as nat) + "."@ + decimal(b as nat) + "."@ + decimal(c as nat) + "."@
        + decimal(d as nat);
    assert(t == dotted(o));
    law_dotted_is_unambiguous(o, choose|x: Seq<u8>| x.len() == 4 && t == #[trigger] dotted(x));
}

/// Law: a target is asked for as what its text is: an IPv4 address by its octets; else,
/// where octets of an IPv6 address are given, by these; else by its text. The port is
/// asked for as it is, and the credentials are those given.
pub proof fn law_target_is_asked_for_as_it_is(
    user: Option<Seq<char>>,
    pass: Option<Seq<char>>,
    target: Seq<char>,
    port: u16,
    v6: Option<Seq<u8>>,
    a: u8,
    b: u8,
    c: u8,
    d: u8,
)
    ensures
        ({
            let h = towards(user, pass, target, port, v6);
            let dotted_text = decimal(a as nat) + "."@ + decimal(b as nat) + "."@ + decimal(
                c as nat,
            ) + "."@ + decimal(d as nat);
            let high = (port / 256) as u8;
            let low = (port % 256) as u8;
            &&& h.user == user && h.pass == pass && h.port == port && h.target == target && h.v6
                == v6
            &&& connect_request(towards(user, pass, dotted_text, port, v6)) == Some(
                seq![5u8, 1, 0, 1, a, b, c, d, high, low],
            )
            &&& (octets_of(target) is None ==> (v6 matches Some(o) ==> connect_request(h) == Some(
                seq![5u8, 1, 0, 4] + o + seq![high, low],
            )))
            &&& (octets_of(target) is None && v6 is None && encode_utf8(target).len() <= 255) ==> (
            connect_request(h) == Some(
                seq![5u8, 1, 0, 3, encode_utf8(target).len() as u8] + encode_utf8(target) + seq![
                    high,
                    low,
                ],
            ))
        }),
{
    law_dotted_text_is_read(target, a, b, c, d);
    let h = towards(user, pass, target, port, v6);
    let dotted_text = decimal(a as nat) + "."@ + decimal(b as nat) + "."@ + decimal(c as nat) + "."@
        + decimal(d as nat);
    let high = (port / 256) as u8;
    let low = (port % 256) as u8;
    assert(connect_request(towards(user, pass, dotted_text, port, v6))->0 =~= seq![
        5u8,
        1,
        0,
        1,
        a,
        b,
        c,
        d,
        high,
        low,
    ]);
    if octets_of(target) is None {
        if v6 is Some {
            assert(connect_request(h)->0 =~= seq![5u8, 1, 0, 4] + v6->0 + seq![high, low]);
        } else if encode_utf8(target).len() <= 255 {
            assert(connect_request(h)->0 =~= seq![5u8, 1, 0, 3, encode_utf8(target).len() as u8]
                + encode_utf8(target) + seq![high, low]);
        }
    }
}

/// Law: what contracts say of a handshake and of its steps, they say of their own
/// fields.
pub proof fn law_handshake_is_seen_whole(h: Socks5Handshake, send: Vec<u8>, phase: Socks5Phase, e: ProxyError)
    ensures
        h@.user == option_view(h.user),
        h@.pass == option_view(h.pass),
        h@.v4 is Some <==> h.v4 is Some,
        h.v4 matches Some(o) ==> h@.v4 == Some(o@),
        h@.v6 is Some <==> h.v6 is Some,
        h.v6 matches Some(o) ==> h@.v6 == Some(o@),
        h@.target == h.target@,
        h@.port == h.port,
        (Socks5Step::Exchange { send, phase })@ == (StepView::Exchange { send: send@, phase }),
        Socks5Step::Done@ is Done,
        Socks5Step::Fail(e)@ == StepView::Fail(e),
{
}

} // verus!
