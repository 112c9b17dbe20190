use siren::error::ProxyError;

#[test]
fn messages_are_the_reported_texts() {
    let cases = vec![
        (ProxyError::Io("reset".to_string()), "reset"),
        (ProxyError::NotEnoughBuffer, "not enough buffer"),
        (ProxyError::ProtocolNotImplemented, "protocol not implemented"),
        (ProxyError::InvalidUuid, "invalid uuid"),
        (ProxyError::InvalidPassword, "invalid password"),
        (ProxyError::Timeout(1), "timeout setelah 1 detik"),
        (ProxyError::WebsocketTooLong, "websocket buffer too long"),
        (ProxyError::Socks5Version, "versi SOCKS5 tidak valid dari proxy"),
        (
            ProxyError::Socks5CredentialsMissing,
            "proxy SOCKS5 minta autentikasi, tapi user/pass tidak diisi",
        ),
        (ProxyError::Socks5AuthFailed, "autentikasi SOCKS5 gagal"),
        (ProxyError::Socks5NoMethod, "proxy SOCKS5 menolak semua metode auth"),
        (ProxyError::Socks5UnknownMethod(7), "metode auth SOCKS5 tidak didukung: 7"),
        (ProxyError::Socks5DomainTooLong, "domain terlalu panjang untuk SOCKS5"),
        (ProxyError::Socks5ReplyVersion, "versi SOCKS5 tidak valid pada balasan"),
        (ProxyError::Socks5Refused(5), "proxy SOCKS5 menolak koneksi, kode 5"),
        (ProxyError::Socks5AddressType(9), "tipe alamat SOCKS5 tidak dikenal pada balasan: 9"),
        (ProxyError::HttpHeaderTooLong, "header balasan HTTP proxy kepanjangan"),
        (
            ProxyError::HttpRefused("HTTP/1.1 407 Auth".to_string()),
            "HTTP proxy menolak CONNECT: HTTP/1.1 407 Auth",
        ),
        (
            ProxyError::RecordFailed { status: 500, body: "oops".to_string() },
            "DO /record balas status 500: oops",
        ),
    ];
    for (error, text) in cases {
        assert_eq!(error.message(), text);
    }
}
