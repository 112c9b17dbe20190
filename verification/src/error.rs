//! What can go wrong while a tunnel is set up, and how it is reported.
use crate::text::{decimal, push_decimal};
use vstd::prelude::*;
use vstd::string::StringExecFns;

verus! {

/// The errors of the tunnel.
#[derive(Debug, PartialEq, Eq)]
pub enum ProxyError {
    /// The platform failed to connect, read or write; its own message.
    Io(String),
    /// The client closed before it sent enough to tell the protocol.
    NotEnoughBuffer,
    /// No known protocol starts like this.
    ProtocolNotImplemented,
    /// A VLESS request carries another user id.
    InvalidUuid,
    /// A Trojan request carries another password hash.
    InvalidPassword,
    /// A connection took longer than this many seconds.
    Timeout(u64),
    /// A WebSocket message is longer than a message may be.
    WebsocketTooLong,
    /// The SOCKS5 proxy answered the greeting with another version.
    Socks5Version,
    /// The SOCKS5 proxy wants credentials, and there are none.
    Socks5CredentialsMissing,
    /// The SOCKS5 proxy rejected the credentials.
    Socks5AuthFailed,
    /// The SOCKS5 proxy accepts none of the offered methods.
    Socks5NoMethod,
    /// The SOCKS5 proxy chose a method that was not offered.
    Socks5UnknownMethod(u8),
    /// The domain does not fit the length byte of a SOCKS5 request.
    Socks5DomainTooLong,
    /// The SOCKS5 proxy answered the request with another version.
    Socks5ReplyVersion,
    /// The SOCKS5 proxy refused the connection with this code.
    Socks5Refused(u8),
    /// The SOCKS5 proxy answered with this unknown address type.
    Socks5AddressType(u8),
    /// The reply header of the HTTP proxy does not end in time.
    HttpHeaderTooLong,
    /// The HTTP proxy refused the tunnel with this status line.
    HttpRefused(String),
    /// The statistics store answered with this status and body.
    RecordFailed { status: u16, body: String },
}

/// The text in which an error is reported.
pub open spec fn message_of(e: ProxyError) -> Seq<char> {
    match e {
        ProxyError::Io(m) => m@,
        ProxyError::NotEnoughBuffer => "not enough buffer"@,
        ProxyError::ProtocolNotImplemented => "protocol not implemented"@,
        ProxyError::InvalidUuid => "invalid uuid"@,
        ProxyError::InvalidPassword => "invalid password"@,
        ProxyError::Timeout(secs) => "timeout setelah "@ + decimal(secs as nat) + " detik"@,
        ProxyError::WebsocketTooLong => "websocket buffer too long"@,
        ProxyError::Socks5Version => "versi SOCKS5 tidak valid dari proxy"@,
        ProxyError::Socks5CredentialsMissing =>
            "proxy SOCKS5 minta autentikasi, tapi user/pass tidak diisi"@,
        ProxyError::Socks5AuthFailed => "autentikasi SOCKS5 gagal"@,
        ProxyError::Socks5NoMethod => "proxy SOCKS5 menolak semua metode auth"@,
        ProxyError::Socks5UnknownMethod(m) => "metode auth SOCKS5 tidak didukung: "@ + decimal(
            m as nat,
        ),
        ProxyError::Socks5DomainTooLong => "domain terlalu panjang untuk SOCKS5"@,
        ProxyError::Socks5ReplyVersion => "versi SOCKS5 tidak valid pada balasan"@,
        ProxyError::Socks5Refused(c) => "proxy SOCKS5 menolak koneksi, kode "@ + decimal(
            c as nat,
        ),
        ProxyError::Socks5AddressType(t) =>
            "tipe alamat SOCKS5 tidak dikenal pada balasan: "@ + decimal(t as nat),
        ProxyError::HttpHeaderTooLong => "header balasan HTTP proxy kepanjangan"@,
        ProxyError::HttpRefused(line) => "HTTP proxy menolak CONNECT: "@ + line@,
        ProxyError::RecordFailed { status, body } => "DO /record balas status "@ + decimal(
            status as nat,
        ) + ": "@ + body@,
    }
}

/// `prefix` followed by a number in decimal.
fn with_number(prefix: &str, n: u64) -> (r: String)
    ensures
        r@ == prefix@ + decimal(n as nat),
{
    let mut r = String::from_str(prefix);
    push_decimal(&mut r, n);
    r
}

impl ProxyError {
    /// The text in which the error is reported.
    pub fn message(&self) -> (r: String)
        ensures
            r@ == message_of(*self),
    {
        match self {
            ProxyError::Io(m) => m.clone(),
            ProxyError::NotEnoughBuffer => String::from_str("not enough buffer"),
            ProxyError::ProtocolNotImplemented => String::from_str("protocol not implemented"),
            ProxyError::InvalidUuid => String::from_str("invalid uuid"),
            ProxyError::InvalidPassword => String::from_str("invalid password"),
            ProxyError::Timeout(secs) => with_number("timeout setelah ", *secs).concat(" detik"),
            ProxyError::WebsocketTooLong => String::from_str("websocket buffer too long"),
            ProxyError::Socks5Version => String::from_str("versi SOCKS5 tidak valid dari proxy"),
            ProxyError::Socks5CredentialsMissing => String::from_str(
                "proxy SOCKS5 minta autentikasi, tapi user/pass tidak diisi",
            ),
            ProxyError::Socks5AuthFailed => String::from_str("autentikasi SOCKS5 gagal"),
            ProxyError::Socks5NoMethod => String::from_str(
                "proxy SOCKS5 menolak semua metode auth",
            ),
            ProxyError::Socks5UnknownMethod(m) => with_number(
                "metode auth SOCKS5 tidak didukung: ",
                *m as u64,
            ),
            ProxyError::Socks5DomainTooLong => String::from_str(
                "domain terlalu panjang untuk SOCKS5",
            ),
            ProxyError::Socks5ReplyVersion => String::from_str(
                "versi SOCKS5 tidak valid pada balasan",
            ),
            ProxyError::Socks5Refused(c) => with_number(
                "proxy SOCKS5 menolak koneksi, kode ",
                *c as u64,
            ),
            ProxyError::Socks5AddressType(t) => with_number(
                "tipe alamat SOCKS5 tidak dikenal pada balasan: ",
                *t as u64,
            ),
            ProxyError::HttpHeaderTooLong => String::from_str(
                "header balasan HTTP proxy kepanjangan",
            ),
            ProxyError::HttpRefused(line) => String::from_str(
                "HTTP proxy menolak CONNECT: ",
            ).concat(line.as_str()),
            ProxyError::RecordFailed { status, body } => with_number(
                "DO /record balas status ",
                *status as u64,
            ).concat(": ").concat(body.as_str()),
        }
    }
}

/// Law: a report holds what the error holds, whole, between the fixed words of its
/// kind: the platform's message, a number in decimal, a status line, a body.
pub proof fn law_messages_hold_what_the_errors_hold(m: String, n: u64, c: u8, status: u16)
    ensures
        message_of(ProxyError::Io(m)) == m@,
        message_of(ProxyError::Timeout(n)) == "timeout setelah "@ + decimal(n as nat) + " detik"@,
        message_of(ProxyError::Socks5UnknownMethod(c)) == "metode auth SOCKS5 tidak didukung: "@
            + decimal(c as nat),
        message_of(ProxyError::Socks5Refused(c)) == "proxy SOCKS5 menolak koneksi, kode "@
            + decimal(c as nat),
        message_of(ProxyError::Socks5AddressType(c))
            == "tipe alamat SOCKS5 tidak dikenal pada balasan: "@ + decimal(c as nat),
        message_of(ProxyError::HttpRefused(m)) == "HTTP proxy menolak CONNECT: "@ + m@,
        message_of(ProxyError::RecordFailed { status, body: m }) == "DO /record balas status "@
            + decimal(status as nat) + ": "@ + m@,
{
}

} // verus!
