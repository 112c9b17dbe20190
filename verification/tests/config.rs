use siren::config::{Config, ProxyMode};

const ID: &str = "550e8400-e29b-41d4-a716-446655440000";
const BYTES: [u8; 16] =
    [0x55, 0x0e, 0x84, 0x00, 0xe2, 0x9b, 0x41, 0xd4, 0xa7, 0x16, 0x44, 0x66, 0x55, 0x44, 0, 0];

fn config(uuid: &str) -> Config {
    Config::new(
        uuid,
        "tunnel.example".to_string(),
        "https://main".to_string(),
        "https://sub".to_string(),
    )
}

#[test]
fn request_starts_without_a_proxy() {
    let c = config(ID);
    assert_eq!(c.uuid, BYTES);
    assert_eq!(c.host, "tunnel.example");
    assert_eq!(c.proxy_addr, "tunnel.example");
    assert_eq!(c.proxy_port, 443);
    assert_eq!(c.proxy_mode, ProxyMode::Direct);
    assert_eq!(c.main_page_url, "https://main");
    assert_eq!(c.sub_page_url, "https://sub");
}

#[test]
fn user_id_is_read_in_other_forms_too() {
    assert_eq!(config("550E8400E29B41D4A716446655440000").uuid, BYTES);
    assert_eq!(config("{550e8400-e29b-41d4-a716-446655440000}").uuid, BYTES);
    assert_eq!(config("urn:uuid:550e8400-e29b-41d4-a716-446655440000").uuid, BYTES);
    assert_eq!(config("URN:Uuid:550E8400-E29B-41d4-a716-446655440000").uuid, BYTES);
}

#[test]
fn what_is_no_user_id_counts_as_the_nil_one() {
    assert_eq!(config("").uuid, [0; 16]);
    assert_eq!(config("not a uuid").uuid, [0; 16]);
    assert_eq!(config("{550e8400e29b41d4a716446655440000}").uuid, [0; 16]);
    assert_eq!(config("550e8400-e29b-41d4-a716-44665544000g").uuid, [0; 16]);
    assert_eq!(config("550e8400e-29b-41d4-a716-446655440000").uuid, [0; 16]);
    assert_eq!(config(" 550e8400-e29b-41d4-a716-446655440000").uuid, [0; 16]);
    assert_eq!(
        Config::with_uuid(None, String::new(), String::new(), String::new()).uuid,
        [0; 16]
    );
}
