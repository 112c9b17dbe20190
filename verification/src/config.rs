//! What a tunnel is configured with.
use crate::codec::{hyphenated, law_hyphenated_is_read_back, parse_uuid, parsed_uuid};
use vstd::prelude::*;

verus! {

/// Which way a connection takes when the target cannot be reached directly.
#[derive(Clone, Debug, PartialEq, Eq)]
pub enum ProxyMode {
    /// Through a plain relay at the proxy address.
    Direct,
    /// Through a SOCKS5 proxy.
    Socks5 { host: String, port: u16, user: Option<String>, pass: Option<String> },
    /// Through an HTTP proxy.
    Http { host: String, port: u16, user: Option<String>, pass: Option<String> },
}

/// A proxy of either kind, over mathematical values.
pub ghost struct EndpointView {
    pub host: Seq<char>,
    pub port: u16,
    pub user: Option<Seq<char>>,
    pub pass: Option<Seq<char>>,
}

/// [`ProxyMode`] over mathematical values.
pub ghost enum ModeView {
    Direct,
    Socks5(EndpointView),
    Http(EndpointView),
}

/// The characters of an optional text.
pub open spec fn option_view(s: Option<String>) -> Option<Seq<char>> {
    match s {
        Some(t) => Some(t@),
        None => None,
    }
}

impl View for ProxyMode {
    type V = ModeView;

    open spec fn view(&self) -> ModeView {
        match *self {
            ProxyMode::Direct => ModeView::Direct,
            ProxyMode::Socks5 { host, port, user, pass } => ModeView::Socks5(
                EndpointView {
                    host: host@,
                    port,
                    user: option_view(user),
                    pass: option_view(pass),
                },
            ),
            ProxyMode::Http { host, port, user, pass } => ModeView::Http(
                EndpointView {
                    host: host@,
                    port,
                    user: option_view(user),
                    pass: option_view(pass),
                },
            ),
        }
    }
}

/// The configuration of one request.
#[derive(Debug)]
pub struct Config {
    /// The sixteen bytes of the user id that clients must present.
    pub uuid: [u8; 16],
    pub host: String,
    pub proxy_addr: String,
    pub proxy_port: u16,
    pub proxy_mode: ProxyMode,
    pub main_page_url: String,
    pub sub_page_url: String,
}

/// [`Config`] over mathematical values.
pub ghost struct ConfigView {
    pub uuid: Seq<u8>,
    pub host: Seq<char>,
    pub proxy_addr: Seq<char>,
    pub proxy_port: u16,
    pub proxy_mode: ModeView,
    pub main_page_url: Seq<char>,
    pub sub_page_url: Seq<char>,
}

impl View for Config {
    type V = ConfigView;

    open spec fn view(&self) -> ConfigView {
        ConfigView {
            uuid: self.uuid@,
            host: self.host@,
            proxy_addr: self.proxy_addr@,
            proxy_port: self.proxy_port,
            proxy_mode: self.proxy_mode@,
            main_page_url: self.main_page_url@,
            sub_page_url: self.sub_page_url@,
        }
    }
}

/// Sixteen zero bytes, the nil UUID.
pub open spec fn nil_uuid() -> Seq<u8> {
    Seq::new(16, |i: int| 0u8)
}

/// The configuration of a request before its path is looked at.
pub open spec fn initial_config(
    uuid: Option<Seq<u8>>,
    host: Seq<char>,
    main_page_url: Seq<char>,
    sub_page_url: Seq<char>,
) -> ConfigView {
    ConfigView {
        uuid: match uuid {
            Some(b) => b,
            None => nil_uuid(),
        },
        host,
        proxy_addr: host,
        proxy_port: 443,
        proxy_mode: ModeView::Direct,
        main_page_url,
        sub_page_url,
    }
}

impl Config {
    /// The configuration of a request before its path is looked at: the relay is
    /// the worker's own host on port 443. Without a user id, the nil UUID counts.
    pub fn with_uuid(
        uuid: Option<[u8; 16]>,
        host: String,
        main_page_url: String,
        sub_page_url: String,
    ) -> (r: Self)
        ensures
            r@ == initial_config(
                match uuid {
                    Some(b) => Some(b@),
                    None => None,
                },
                host@,
                main_page_url@,
                sub_page_url@,
            ),
    {
        let bytes: [u8; 16] = match uuid {
            Some(b) => b,
            None => [0u8; 16],
        };
        assert(uuid is None ==> bytes@ =~= nil_uuid());
        Config {
            uuid: bytes,
            host: host.clone(),
            proxy_addr: host,
            proxy_port: 443,
            proxy_mode: ProxyMode::Direct,
            main_page_url,
            sub_page_url,
        }
    }

    /// The same, with the user id in text. One that is no UUID counts as none.
    pub fn new(uuid: &str, host: String, main_page_url: String, sub_page_url: String) -> (r: Self)
        ensures
            r@ == initial_config(parsed_uuid(uuid@), host@, main_page_url@, sub_page_url@),
            forall|b: Seq<u8>|
                b.len() == 16 && uuid@ == #[trigger] hyphenated(b) ==> r@.uuid == b,
    {
        proof {
            assert forall|b: Seq<u8>|
                b.len() == 16 && uuid@ == #[trigger] hyphenated(b) implies parsed_uuid(uuid@)
                == Some(b) by {
                law_hyphenated_is_read_back(b);
            }
        }
        Config::with_uuid(parse_uuid(uuid), host, main_page_url, sub_page_url)
    }
}

/// Law: a request starts without a proxy of its own, with its own host on port 443 as
/// the relay, and with the user id and pages that it was given; without a user id,
/// sixteen zero bytes count.
pub proof fn law_request_starts_at_its_own_host(
    uuid: Seq<u8>,
    host: Seq<char>,
    main_page_url: Seq<char>,
    sub_page_url: Seq<char>,
    i: int,
)
    requires
        0 <= i < 16,
    ensures
        ({
            let c = initial_config(Some(uuid), host, main_page_url, sub_page_url);
            let none = initial_config(None, host, main_page_url, sub_page_url);
            &&& c.uuid == uuid
            &&& c.host == host && c.proxy_addr == host && c.proxy_port == 443
            &&& c.proxy_mode is Direct
            &&& c.main_page_url == main_page_url && c.sub_page_url == sub_page_url
            &&& none.uuid.len() == 16 && none.uuid[i] == 0
            &&& none == ConfigView { uuid: none.uuid, ..c }
        }),
{
}

/// Law: what contracts say of a mode, they say of its own fields.
pub proof fn law_mode_is_seen_whole(
    host: String,
    port: u16,
    user: Option<String>,
    pass: Option<String>,
    text: String,
)
    ensures
        ProxyMode::Direct@ is Direct,
        (ProxyMode::Socks5 { host, port, user, pass })@ matches ModeView::Socks5(e) && e.host
            == host@ && e.port == port && e.user == option_view(user) && e.pass == option_view(pass),
        (ProxyMode::Http { host, port, user, pass })@ matches ModeView::Http(e) && e.host == host@
            && e.port == port && e.user == option_view(user) && e.pass == option_view(pass),
        option_view(Some(text)) == Some(text@),
        option_view(None) is None,
{
}

/// Law: what contracts say of a configuration, they say of its own fields.
pub proof fn law_config_is_seen_whole(c: Config)
    ensures
        c@.uuid == c.uuid@,
        c@.host == c.host@,
        c@.proxy_addr == c.proxy_addr@,
        c@.proxy_port == c.proxy_port,
        c@.proxy_mode == c.proxy_mode@,
        c@.main_page_url == c.main_page_url@,
        c@.sub_page_url == c.sub_page_url@,
{
}

} // verus!
