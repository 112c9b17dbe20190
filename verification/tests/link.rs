use siren::codec::fits_base64;
use siren::config::Config;
use siren::link::{vmess_json, write_links};

const ID: &str = "550e8400-e29b-41d4-a716-446655440000";

fn config(host: &str) -> Config {
    Config::new(ID, host.to_string(), String::new(), String::new())
}

#[test]
fn vmess_settings_are_written_in_the_order_of_their_names() {
    assert_eq!(
        vmess_json("tunnel.example", ID),
        "{\"add\":\"tunnel.example\",\"aid\":\"0\",\"alpn\":\"\",\"host\":\"tunnel.example\",\
         \"id\":\"550e8400-e29b-41d4-a716-446655440000\",\"net\":\"ws\",\"path\":\"/SG\",\
         \"port\":\"443\",\"ps\":\"siren vmess\",\"scy\":\"zero\",\"sni\":\"tunnel.example\",\
         \"tls\":\"tls\",\"type\":\"none\",\"v\":\"2\"}"
    );
}

#[test]
fn vmess_settings_are_escaped() {
    let s = vmess_json("a\"b\\c\n\t\r\u{8}\u{c}\u{1}\u{1f}\u{7f}/é", "x");
    assert!(s.contains(
        "\"add\":\"a\\\"b\\\\c\\n\\t\\r\\b\\f\\u0001\\u001f\u{7f}/é\",\"aid\""
    ));
}

#[test]
fn page_has_one_link_on_each_line() {
    let vmess = "vmess://eyJhZGQiOiJ0dW5uZWwuZXhhbXBsZSIsImFpZCI6IjAiLCJhbHBuIjoiIiwiaG9zdCI6InR1bm5lbC5leGFtcGxlIiwiaWQiOiI1NTBlODQwMC1lMjliLTQxZDQtYTcxNi00NDY2NTU0NDAwMDAiLCJuZXQiOiJ3cyIsInBhdGgiOiIvU0ciLCJwb3J0IjoiNDQzIiwicHMiOiJzaXJlbiB2bWVzcyIsInNjeSI6Inplcm8iLCJzbmkiOiJ0dW5uZWwuZXhhbXBsZSIsInRscyI6InRscyIsInR5cGUiOiJub25lIiwidiI6IjIifQ==";
    let vless = "vless://550e8400-e29b-41d4-a716-446655440000@tunnel.example:443?encryption=none&type=ws&host=tunnel.example&path=%2FSG&security=tls&sni=tunnel.example#siren vless";
    let trojan = "trojan://550e8400-e29b-41d4-a716-446655440000@tunnel.example:443?encryption=none&type=ws&host=tunnel.example&path=%2FSG&security=tls&sni=tunnel.example#siren trojan";
    let ss = "ss://bm9uZTo1NTBlODQwMC1lMjliLTQxZDQtYTcxNi00NDY2NTU0NDAwMDA=@tunnel.example:443?plugin=v2ray-plugin%3Btls%3Bmux%3D0%3Bmode%3Dwebsocket%3Bpath%3D%2FSG%3Bhost%3Dtunnel.example#siren ss";
    let page = config("tunnel.example").link();
    assert_eq!(page.split('\n').collect::<Vec<_>>(), vec![vmess, vless, trojan, ss]);
    assert_eq!(config("tunnel.example").link_checked(), Some(page));
}

#[test]
fn codes_use_the_alphabet_of_urls() {
    let page = config("\u{fbff}~~?>").link();
    let code = page.lines().next().unwrap();
    assert!(!code[8..].contains('+') && !code[8..].contains('/'));
    assert!(code.contains('-') || code.contains('_'));
}

#[test]
fn links_are_written_from_their_parts() {
    assert_eq!(
        write_links("h", "i", "V", "S"),
        "vmess://V\n\
         vless://i@h:443?encryption=none&type=ws&host=h&path=%2FSG&security=tls&sni=h#siren vless\n\
         trojan://i@h:443?encryption=none&type=ws&host=h&path=%2FSG&security=tls&sni=h#siren trojan\n\
         ss://S@h:443?plugin=v2ray-plugin%3Btls%3Bmux%3D0%3Bmode%3Dwebsocket%3Bpath%3D%2FSG%3Bhost%3Dh#siren ss"
    );
}

#[test]
fn only_what_fits_into_memory_is_encoded() {
    let limit = isize::MAX as usize / 4 * 3;
    assert!(fits_base64(0));
    assert!(fits_base64(1000));
    assert!(fits_base64(limit));
    assert!(!fits_base64(limit + 1));
    assert!(!fits_base64(usize::MAX));
}
