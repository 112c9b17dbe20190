//! The tunnel itself.
pub mod buffer;
pub mod conn;
pub mod header;
pub mod http_connect;
pub mod outbound;
pub mod shadowsocks;
pub mod socks5;
pub mod trojan;
pub mod udp;
pub mod vless;
