use siren::config::{Config, ProxyMode};
use siren::route::{
    check_list_status, choose_path, draw_number, list_status_message, number_of_draw, pick_relay,
    resolve_relay, stored_lists, ListAction, ListEvent, ListPhase, ListStep,
    PathChoice, RouteError, LIST_TTL_SECS,
};

fn text(s: &str) -> String {
    s.to_string()
}

fn texts(v: &[&str]) -> Vec<String> {
    v.iter().map(|s| s.to_string()).collect()
}

fn config() -> Config {
    Config::new("", text("own.example"), String::new(), String::new())
}

fn socks(host: &str, port: u16, creds: Option<(&str, &str)>) -> PathChoice {
    PathChoice::Mode(ProxyMode::Socks5 {
        host: text(host),
        port,
        user: creds.map(|c| text(c.0)),
        pass: creds.map(|c| text(c.1)),
    })
}

fn http(host: &str, port: u16, creds: Option<(&str, &str)>) -> PathChoice {
    PathChoice::Mode(ProxyMode::Http {
        host: text(host),
        port,
        user: creds.map(|c| text(c.0)),
        pass: creds.map(|c| text(c.1)),
    })
}

#[test]
fn socks_paths_are_read() {
    assert_eq!(choose_path("socks=1.2.3.4-1080"), socks("1.2.3.4", 1080, None));
    assert_eq!(choose_path("socks5=1.2.3.4-1080"), socks("1.2.3.4", 1080, None));
    assert_eq!(choose_path("socks5=u:p@a-b.c-65535"), socks("a-b.c", 65535, Some(("u", "p"))));
    assert_eq!(choose_path("socks=u:p:q@h-0"), socks("h", 0, Some(("u", "p:q"))));
    assert_eq!(choose_path("socks=[::1]-007"), socks("[::1]", 7, None));
    assert_eq!(choose_path("socks=a-1-2"), socks("a-1", 2, None));
}

#[test]
fn http_paths_are_read() {
    assert_eq!(choose_path("http=proxy.example-8080"), http("proxy.example", 8080, None));
    assert_eq!(choose_path("http=u:p@proxy-80"), http("proxy", 80, Some(("u", "p"))));
}

#[test]
fn proxy_without_a_port_changes_nothing() {
    assert_eq!(choose_path("socks=h-65536"), PathChoice::Keep);
    assert_eq!(choose_path("http=h-99999999999999999999"), PathChoice::Keep);
    assert_eq!(choose_path("socks=h-\u{663}"), PathChoice::Keep);
}

#[test]
fn other_paths_change_nothing() {
    for p in [
        "", "socks=h", "socks=-1", "socks4=h-1", "socks=u@h-1", "socks=u:@h-1", "socks=:p@h-1",
        "socks=a/b-1", "http=h-1x", "https=h-1", "xsocks=h-1", "1.2.3.4-443", "sG", "S",
    ] {
        assert_eq!(choose_path(p), PathChoice::Keep, "{}", p);
    }
}

#[test]
fn country_codes_are_looked_up() {
    assert_eq!(choose_path("SG"), PathChoice::Lookup(texts(&["SG"])));
    assert_eq!(choose_path("SG,ID,JP"), PathChoice::Lookup(texts(&["SG", "ID", "JP"])));
    assert_eq!(choose_path("SGxyz"), PathChoice::Lookup(texts(&["SGxyz"])));
}

#[test]
fn path_is_taken_into_the_configuration() {
    let mut c = config();
    assert_eq!(c.read_path("SG,ID"), Some(texts(&["SG", "ID"])));
    assert_eq!(c.read_path("1.2.3.4-443"), None);
    assert_eq!(c.proxy_mode, ProxyMode::Direct);
    assert_eq!(c.read_path("socks=h-1"), None);
    assert_eq!(PathChoice::Mode(c.proxy_mode.clone()), socks("h", 1, None));
    assert_eq!(c.read_path("http=h-70000"), None);
    assert_eq!(PathChoice::Mode(c.proxy_mode.clone()), socks("h", 1, None));
}

#[test]
fn stored_lists_are_used_unless_empty() {
    assert_eq!(stored_lists(None), None);
    assert_eq!(stored_lists(Some(String::new())), None);
    assert_eq!(stored_lists(Some(text("{}"))), Some(text("{}")));
    assert_eq!(LIST_TTL_SECS, 86400);
}

#[test]
fn lists_come_with_status_two_hundred_only() {
    assert!(check_list_status(200).is_ok());
    assert!(matches!(check_list_status(204), Err(RouteError::ListStatus(204))));
    assert!(matches!(check_list_status(404), Err(RouteError::ListStatus(404))));
    assert_eq!(list_status_message(404), "error getting proxy kv: 404");
}

#[test]
fn numbers_are_drawn() {
    let first = draw_number().unwrap();
    let mut others = 0;
    for _ in 0..200 {
        if draw_number().unwrap() != first {
            others += 1;
        }
    }
    assert!(others > 0);
}

#[test]
fn first_byte_of_a_draw_is_the_number() {
    assert!(matches!(number_of_draw(Ok([7, 9])), Ok(7)));
    assert!(matches!(number_of_draw(Ok([0, 255])), Ok(0)));
    match number_of_draw(Err(getrandom::Error::UNSUPPORTED)) {
        Err(RouteError::Random(e)) => assert_eq!(e, getrandom::Error::UNSUPPORTED),
        other => panic!("{:?}", other),
    }
}

const LISTS: &str = "{\"SG\": [\"1.1.1.1:443\", \"2.2.2.2:8443\"], \"ID\": [\"3.3.3.3:80\"], \
                     \"XX\": [], \"V6\": [\"[::1]:443\"]}";

#[test]
fn relay_is_picked_by_the_number() {
    let ids = texts(&["SG", "ID"]);
    let relay = |n: u8| resolve_relay(&ids, LISTS, n).unwrap();
    assert_eq!(relay(0), Some(text("1.1.1.1-443")));
    assert_eq!(relay(1), Some(text("3.3.3.3-80")));
    assert_eq!(relay(2), Some(text("1.1.1.1-443")));
    assert_eq!(relay(255), Some(text("3.3.3.3-80")));
    let one = texts(&["SG"]);
    assert_eq!(resolve_relay(&one, LISTS, 0).unwrap(), Some(text("1.1.1.1-443")));
    assert_eq!(resolve_relay(&one, LISTS, 255).unwrap(), Some(text("2.2.2.2-8443")));
}

#[test]
fn every_colon_of_a_relay_is_rewritten() {
    assert_eq!(
        resolve_relay(&texts(&["V6"]), LISTS, 3).unwrap(),
        Some(text("[--1]-443"))
    );
}

#[test]
fn name_without_a_relay_gives_none() {
    assert_eq!(resolve_relay(&texts(&["ZZ"]), LISTS, 0).unwrap(), None);
    assert_eq!(resolve_relay(&texts(&["XX"]), LISTS, 0).unwrap(), None);
    assert_eq!(resolve_relay(&texts(&["SG", "ZZ"]), LISTS, 1).unwrap(), None);
}

#[test]
fn lists_in_another_form_are_an_error() {
    for t in ["", "[]", "{\"SG\": 1}", "{\"SG\": [1]}", "{\"SG\": [\"a\"]"] {
        assert!(matches!(resolve_relay(&texts(&["SG"]), t, 0), Err(RouteError::Json(_))));
    }
}

#[test]
fn last_of_two_lists_counts() {
    let t = "{\"SG\": [\"a:1\"], \"SG\": [\"b:2\"]}";
    assert_eq!(resolve_relay(&texts(&["SG"]), t, 7).unwrap(), Some(text("b-2")));
}

#[test]
fn relay_is_picked_from_given_lists() {
    let lists = vec![(text("A"), texts(&["x:1"])), (text("B"), texts(&["y:2", "z:3", "w:4"]))];
    let ids = texts(&["B", "A", "B"]);
    assert_eq!(pick_relay(&ids, &lists, 0), "y-2");
    assert_eq!(pick_relay(&ids, &lists, 4), "x-1");
    assert_eq!(pick_relay(&ids, &lists, 5), "w-4");
}

#[test]
fn picked_relay_is_always_listed() {
    let ids = texts(&["SG", "ID"]);
    for n in 0..=255u8 {
        let relay = resolve_relay(&ids, LISTS, n).unwrap().unwrap();
        assert!(["1.1.1.1-443", "2.2.2.2-8443", "3.3.3.3-80"].contains(&relay.as_str()));
    }
}

#[test]
fn relay_path_is_tunnelled_over_that_relay() {
    let mut c = config();
    assert!(c.tunnel("websocket", "1.2.3.4-8443"));
    assert_eq!(c.proxy_addr, "1.2.3.4");
    assert_eq!(c.proxy_port, 8443);
}

#[test]
fn relay_is_split_at_its_first_hyphen() {
    for p in ["my-host-443", "a-b", "h-65536", "[--1]-443"] {
        let mut c = config();
        assert_eq!(c.tunnel("websocket", p), p != "a-b");
        assert_eq!(c.proxy_addr, "own.example");
        assert_eq!(c.proxy_port, 443);
    }
}

#[test]
fn plain_request_is_not_tunnelled() {
    for (upgrade, path) in [
        ("", "1.2.3.4-443"),
        ("WebSocket", "1.2.3.4-443"),
        ("websocket", "1.2.3.4"),
        ("websocket", "-443"),
        ("websocket", "h-"),
        ("websocket", "h-443 "),
        ("websocket", "a\nb-1"),
    ] {
        let mut c = config();
        assert!(!c.tunnel(upgrade, path));
        assert_eq!(c.proxy_addr, "own.example");
    }
}

#[test]
fn proxy_path_is_tunnelled_and_keeps_the_relay() {
    for p in ["socks=1.2.3.4-1080", "http=u:p@h-1", "socks5=h-2"] {
        let mut c = config();
        assert_eq!(c.read_path(p), None);
        assert!(c.tunnel("websocket", p));
        assert_eq!(c.proxy_addr, "own.example");
        assert_eq!(c.proxy_port, 443);
        assert_ne!(c.proxy_mode, ProxyMode::Direct);
    }
}

#[test]
fn digits_of_other_scripts_count_as_a_number_of_a_relay() {
    let mut c = config();
    assert!(c.tunnel("websocket", "h-\u{663}"));
    assert_eq!(c.proxy_addr, "own.example");
}

#[test]
fn picked_relay_is_the_one_that_is_used() {
    let mut c = config();
    let relay = resolve_relay(&texts(&["SG"]), LISTS, 1).unwrap().unwrap();
    assert!(c.tunnel("websocket", &relay));
    assert_eq!(c.proxy_addr, "2.2.2.2");
    assert_eq!(c.proxy_port, 8443);
}

#[test]
fn stored_lists_are_used_without_fetching() {
    match ListPhase::Read.next(ListEvent::Found(Some(text("{}")))) {
        ListStep::Use(t) => assert_eq!(t, "{}"),
        other => panic!("{:?}", other),
    }
}

#[test]
fn missing_lists_are_fetched_stored_and_used() {
    assert_eq!(ListPhase::Read.action(), ListAction::Get { key: text("proxy_kv") });
    for stored in [None, Some(String::new())] {
        let phase = match ListPhase::Read.next(ListEvent::Found(stored)) {
            ListStep::Next(phase) => phase,
            other => panic!("{:?}", other),
        };
        assert_eq!(
            phase.action(),
            ListAction::Fetch {
                url: text("https://raw.githubusercontent.com/FoolVPN-ID/Nautica/refs/heads/main/kvProxyList.json")
            }
        );
        let phase = match phase.next(ListEvent::Answered { status: 200, text: text("{ }") }) {
            ListStep::Next(phase) => phase,
            other => panic!("{:?}", other),
        };
        assert_eq!(
            phase.action(),
            ListAction::Put { key: text("proxy_kv"), text: text("{ }"), ttl_secs: 86400 }
        );
        match phase.next(ListEvent::Stored) {
            ListStep::Use(t) => assert_eq!(t, "{ }"),
            other => panic!("{:?}", other),
        }
    }
}

#[test]
fn bad_answer_is_not_stored() {
    for status in [201, 304, 404, 500] {
        let step = ListPhase::Fetch.next(ListEvent::Answered { status, text: text("{}") });
        assert!(matches!(step, ListStep::Fail(RouteError::ListStatus(s)) if s == status));
    }
}
