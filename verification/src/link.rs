//! The links by which a client is set up.
use crate::codec::{
    base64_fits, base64_url_safe, comes_before, encode_url_safe, hyphenated, is_ordered,
    fits_base64, json_object, lemma_base64_chars, render_object, uuid_text,
};
use crate::config::{Config, ConfigView};
use crate::text::{hex, lemma_free_concat, lemma_split_four, split};
use vstd::prelude::*;
use vstd::string::StringExecFns;
use vstd::utf8::encode_utf8;

verus! {

/// The settings of a VMess client, in the order of their names.
pub open spec fn vmess_entries(host: Seq<char>, id: Seq<char>) -> Seq<(Seq<char>, Seq<char>)> {
    seq![
        ("add"@, host),
        ("aid"@, "0"@),
        ("alpn"@, ""@),
        ("host"@, host),
        ("id"@, id),
        ("net"@, "ws"@),
        ("path"@, "/SG"@),
        ("port"@, "443"@),
        ("ps"@, "siren vmess"@),
        ("scy"@, "zero"@),
        ("sni"@, host),
        ("tls"@, "tls"@),
        ("type"@, "none"@),
        ("v"@, "2"@),
    ]
}

/// The settings of a VMess client as bytes: a JSON object.
pub open spec fn vmess_settings(host: Seq<char>, id: Seq<char>) -> Seq<u8> {
    encode_utf8(json_object(vmess_entries(host, id)))
}

/// The credentials of a Shadowsocks client as bytes: no cipher, and the user id.
pub open spec fn ss_credentials(id: Seq<char>) -> Seq<u8> {
    encode_utf8("none:"@ + id)
}

/// The VMess link, `code` being its settings in base64.
pub open spec fn vmess_link(code: Seq<char>) -> Seq<char> {
    "vmess://"@ + code
}

/// What a VLESS or Trojan link says after the user id.
pub open spec fn plain_tail(host: Seq<char>) -> Seq<char> {
    "@"@ + host + ":443?encryption=none&type=ws&host="@ + host + "&path=%2FSG&security=tls&sni="@
        + host
}

/// The VLESS link.
pub open spec fn vless_link(host: Seq<char>, id: Seq<char>) -> Seq<char> {
    "vless://"@ + id + plain_tail(host) + "#siren vless"@
}

/// The Trojan link.
pub open spec fn trojan_link(host: Seq<char>, id: Seq<char>) -> Seq<char> {
    "trojan://"@ + id + plain_tail(host) + "#siren trojan"@
}

/// The Shadowsocks link, `code` being its credentials in base64.
pub open spec fn ss_link(host: Seq<char>, code: Seq<char>) -> Seq<char> {
    "ss://"@ + code + "@"@ + host
        + ":443?plugin=v2ray-plugin%3Btls%3Bmux%3D0%3Bmode%3Dwebsocket%3Bpath%3D%2FSG%3Bhost%3D"@
        + host + "#siren ss"@
}

/// The four links.
pub open spec fn links(
    host: Seq<char>,
    id: Seq<char>,
    vmess_code: Seq<char>,
    ss_code: Seq<char>,
) -> Seq<Seq<char>> {
    seq![
        vmess_link(vmess_code),
        vless_link(host, id),
        trojan_link(host, id),
        ss_link(host, ss_code),
    ]
}

/// The four links, one on each line.
pub open spec fn page_of(l: Seq<Seq<char>>) -> Seq<char> {
    l[0] + "\n"@ + l[1] + "\n"@ + l[2] + "\n"@ + l[3]
}

/// The four links of a configuration.
pub open spec fn config_links(config: ConfigView) -> Seq<Seq<char>> {
    let host = config.host;
    let id = hyphenated(config.uuid);
    links(
        host,
        id,
        base64_url_safe(vmess_settings(host, id)),
        base64_url_safe(ss_credentials(id)),
    )
}

/// A named setting.
fn setting(name: &str, value: &str) -> (r: (String, String))
    ensures
        r.0@ == name@,
        r.1@ == value@,
{
    (String::from_str(name), String::from_str(value))
}

/// The names of the settings are in order.
proof fn lemma_settings_ordered(host: Seq<char>, id: Seq<char>)
    ensures
        is_ordered(vmess_entries(host, id)),
{
    let e = vmess_entries(host, id);
    reveal_with_fuel(comes_before, 4);
    reveal_strlit("add");
    reveal_strlit("aid");
    reveal_strlit("alpn");
    reveal_strlit("host");
    reveal_strlit("id");
    reveal_strlit("net");
    reveal_strlit("path");
    reveal_strlit("port");
    reveal_strlit("ps");
    reveal_strlit("scy");
    reveal_strlit("sni");
    reveal_strlit("tls");
    reveal_strlit("type");
    reveal_strlit("v");
    assert(comes_before(e[0].0, e[1].0));
    assert(comes_before(e[1].0, e[2].0));
    assert(comes_before(e[2].0, e[3].0));
    assert(comes_before(e[3].0, e[4].0));
    assert(comes_before(e[4].0, e[5].0));
    assert(comes_before(e[5].0, e[6].0));
    assert(comes_before(e[6].0, e[7].0));
    assert(comes_before(e[7].0, e[8].0));
    assert(comes_before(e[8].0, e[9].0));
    assert(comes_before(e[9].0, e[10].0));
    assert(comes_before(e[10].0, e[11].0));
    assert(comes_before(e[11].0, e[12].0));
    assert(comes_before(e[12].0, e[13].0));
}

/// Writes the settings of a VMess client.
pub fn vmess_json(host: &str, id: &str) -> (r: String)
    ensures
        r@ == json_object(vmess_entries(host@, id@)),
{
    let entries: Vec<(String, String)> = vec![
        setting("add", host),
        setting("aid", "0"),
        setting("alpn", ""),
        setting("host", host),
        setting("id", id),
        setting("net", "ws"),
        setting("path", "/SG"),
        setting("port", "443"),
        setting("ps", "siren vmess"),
        setting("scy", "zero"),
        setting("sni", host),
        setting("tls", "tls"),
        setting("type", "none"),
        setting("v", "2"),
    ];
    assert(entries.deep_view() =~= vmess_entries(host@, id@));
    proof {
        lemma_settings_ordered(host@, id@);
    }
    render_object(entries)
}

/// Appends what a VLESS or Trojan link says after the user id.
fn push_tail(out: &mut String, host: &str)
    ensures
        final(out)@ == old(out)@ + plain_tail(host@),
{
    out.append("@");
    out.append(host);
    out.append(":443?encryption=none&type=ws&host=");
    out.append(host);
    out.append("&path=%2FSG&security=tls&sni=");
    out.append(host);
    assert(out@ =~= old(out)@ + plain_tail(host@));
}

/// Writes the four links, one on each line, from their parts.
pub fn write_links(host: &str, id: &str, vmess_code: &str, ss_code: &str) -> (r: String)
    ensures
        r@ == page_of(links(host@, id@, vmess_code@, ss_code@)),
{
    let mut r = String::from_str("vmess://");
    r.append(vmess_code);
    r.append("\n");
    r.append("vless://");
    r.append(id);
    push_tail(&mut r, host);
    r.append("#siren vless");
    r.append("\n");
    r.append("trojan://");
    r.append(id);
    push_tail(&mut r, host);
    r.append("#siren trojan");
    r.append("\n");
    r.append("ss://");
    r.append(ss_code);
    r.append("@");
    r.append(host);
    r.append(":443?plugin=v2ray-plugin%3Btls%3Bmux%3D0%3Bmode%3Dwebsocket%3Bpath%3D%2FSG%3Bhost%3D");
    r.append(host);
    r.append("#siren ss");
    assert(r@ =~= page_of(links(host@, id@, vmess_code@, ss_code@)));
    r
}

impl Config {
    /// Writes the links by which a client is set up, one on each line.
    pub fn link(&self) -> (r: String)
        requires
            base64_fits(vmess_settings(self.host@, hyphenated(self.uuid@)).len()),
        ensures
            r@ == page_of(config_links(self@)),
            !self.host@.contains('\n') ==> split(r@, '\n') == config_links(self@),
    {
        let id = uuid_text(&self.uuid);
        let host = self.host.as_str();
        proof {
            lemma_id_text(self.uuid@);
            lemma_credentials_fit(id@);
        }
        let json = vmess_json(host, id.as_str());
        let vmess_code = encode_url_safe(json.as_str().as_bytes());
        let pair = String::from_str("none:").concat(id.as_str());
        let ss_code = encode_url_safe(pair.as_str().as_bytes());
        proof {
            if !self.host@.contains('\n') {
                lemma_base64_chars(vmess_settings(host@, id@), '-', '_');
                lemma_base64_chars(ss_credentials(id@), '-', '_');
                lemma_one_line(vmess_code@);
                lemma_one_line(ss_code@);
                law_links_stand_on_their_lines(self.host@, id@, vmess_code@, ss_code@);
            }
        }
        write_links(host, id.as_str(), vmess_code.as_str(), ss_code.as_str())
    }
}

impl Config {
    /// Writes the links, unless the settings of the VMess client are too long to be
    /// encoded.
    pub fn link_checked(&self) -> (r: Option<String>)
        ensures
            match r {
                Some(page) => page@ == page_of(config_links(self@)) && (!self.host@.contains('\n')
                    ==> split(page@, '\n') == config_links(self@)),
                None => !base64_fits(vmess_settings(self.host@, hyphenated(self.uuid@)).len()),
            },
    {
        let id = uuid_text(&self.uuid);
        let json = vmess_json(self.host.as_str(), id.as_str());
        if fits_base64(json.as_str().as_bytes().len()) {
            Some(self.link())
        } else {
            None
        }
    }
}

/// Law: the four links can be told apart again by their lines, as long as no part
/// of them holds a line end.
pub proof fn law_links_stand_on_their_lines(
    host: Seq<char>,
    id: Seq<char>,
    vmess_code: Seq<char>,
    ss_code: Seq<char>,
)
    requires
        !host.contains('\n'),
        !id.contains('\n'),
        !vmess_code.contains('\n'),
        !ss_code.contains('\n'),
    ensures
        split(page_of(links(host, id, vmess_code, ss_code)), '\n') == links(
            host,
            id,
            vmess_code,
            ss_code,
        ),
{
    lemma_fixed_texts();
    let host_param = ":443?encryption=none&type=ws&host="@;
    let sni_param = "&path=%2FSG&security=tls&sni="@;
    let plugin =
        ":443?plugin=v2ray-plugin%3Btls%3Bmux%3D0%3Bmode%3Dwebsocket%3Bpath%3D%2FSG%3Bhost%3D"@;
    lemma_one_line_concat("vmess://"@, vmess_code);
    let t = "@"@ + host;
    lemma_one_line_concat("@"@, host);
    lemma_one_line_concat(t, host_param);
    lemma_one_line_concat(t + host_param, host);
    lemma_one_line_concat(t + host_param + host, sni_param);
    lemma_one_line_concat(t + host_param + host + sni_param, host);
    let tail = plain_tail(host);
    lemma_one_line_concat("vless://"@, id);
    lemma_one_line_concat("vless://"@ + id, tail);
    lemma_one_line_concat("vless://"@ + id + tail, "#siren vless"@);
    lemma_one_line_concat("trojan://"@, id);
    lemma_one_line_concat("trojan://"@ + id, tail);
    lemma_one_line_concat("trojan://"@ + id + tail, "#siren trojan"@);
    let s = "ss://"@ + ss_code;
    lemma_one_line_concat("ss://"@, ss_code);
    lemma_one_line_concat(s, "@"@);
    lemma_one_line_concat(s + "@"@, host);
    lemma_one_line_concat(s + "@"@ + host, plugin);
    lemma_one_line_concat(s + "@"@ + host + plugin, host);
    lemma_one_line_concat(s + "@"@ + host + plugin + host, "#siren ss"@);
    lemma_four_lines(
        vmess_link(vmess_code),
        vless_link(host, id),
        trojan_link(host, id),
        ss_link(host, ss_code),
    );
}

/// A text no character of which is a line end holds no line end.
proof fn lemma_one_line(s: Seq<char>)
    requires
        forall|i: int| 0 <= i < s.len() ==> #[trigger] s[i] != '\n',
    ensures
        !s.contains('\n'),
{
}

/// Texts without a line end make a text without one.
proof fn lemma_one_line_concat(a: Seq<char>, b: Seq<char>)
    requires
        !a.contains('\n'),
        !b.contains('\n'),
    ensures
        !(a + b).contains('\n'),
{
    lemma_free_concat(a, b, '\n');
}

/// The fixed texts of the links hold no line end.
proof fn lemma_fixed_texts()
    ensures
        !"vmess://"@.contains('\n'),
        !"vless://"@.contains('\n'),
        !"trojan://"@.contains('\n'),
        !"ss://"@.contains('\n'),
        !"@"@.contains('\n'),
        !":443?encryption=none&type=ws&host="@.contains('\n'),
        !"&path=%2FSG&security=tls&sni="@.contains('\n'),
        !"#siren vless"@.contains('\n'),
        !"#siren trojan"@.contains('\n'),
        !"#siren ss"@.contains('\n'),
        !":443?plugin=v2ray-plugin%3Btls%3Bmux%3D0%3Bmode%3Dwebsocket%3Bpath%3D%2FSG%3Bhost%3D"@.contains(
            '\n',
        ),
{
    reveal_strlit("vmess://");
    reveal_strlit("vless://");
    reveal_strlit("trojan://");
    reveal_strlit("ss://");
    reveal_strlit("@");
    reveal_strlit(":443?encryption=none&type=ws&host=");
    reveal_strlit("&path=%2FSG&security=tls&sni=");
    reveal_strlit("#siren vless");
    reveal_strlit("#siren trojan");
    reveal_strlit("#siren ss");
    reveal_strlit(
        ":443?plugin=v2ray-plugin%3Btls%3Bmux%3D0%3Bmode%3Dwebsocket%3Bpath%3D%2FSG%3Bhost%3D",
    );
}

/// Four lines split into the four lines.
proof fn lemma_four_lines(a: Seq<char>, b: Seq<char>, c: Seq<char>, d: Seq<char>)
    requires
        !a.contains('\n'),
        !b.contains('\n'),
        !c.contains('\n'),
        !d.contains('\n'),
    ensures
        split(a + "\n"@ + b + "\n"@ + c + "\n"@ + d, '\n') == seq![a, b, c, d],
{
    reveal_strlit("\n");
    assert("\n"@ =~= seq!['\n']);
    assert(a + "\n"@ + b + "\n"@ + c + "\n"@ + d =~= a.push('\n') + (b.push('\n') + (c.push('\n')
        + d)));
    lemma_split_four(a, b, c, d, '\n');
}

/// Hexadecimal text is made of visible ASCII characters.
proof fn lemma_hex_range(b: Seq<u8>)
    ensures
        forall|i: int| 0 <= i < hex(b).len() ==> 32 < #[trigger] hex(b)[i] as u32 <= 0x7f,
{
    assert forall|i: int| 0 <= i < hex(b).len() implies 32 < #[trigger] hex(b)[i] as u32
        <= 0x7f by {
        assert(0 <= b[i / 2] as int / 16 < 16);
        assert(0 <= b[i / 2] as int % 16 < 16);
    }
}

/// The text of a user id is ASCII, has 36 characters, and holds no line end.
proof fn lemma_id_text(uuid: Seq<u8>)
    requires
        uuid.len() == 16,
    ensures
        hyphenated(uuid).len() == 36,
        vstd::utf8::is_ascii_chars(hyphenated(uuid)),
        !hyphenated(uuid).contains('\n'),
{
    let s = hyphenated(uuid);
    assert forall|i: int| 0 <= i < s.len() implies 32 < #[trigger] s[i] as u32 <= 0x7f by {
        lemma_hex_range(uuid.subrange(0, 4));
        lemma_hex_range(uuid.subrange(4, 6));
        lemma_hex_range(uuid.subrange(6, 8));
        lemma_hex_range(uuid.subrange(8, 10));
        lemma_hex_range(uuid.subrange(10, 16));
    }
    assert forall|i: int| 0 <= i < s.len() implies '\0' <= #[trigger] s[i] <= '\u{7f}' by {
        assert(32 < s[i] as u32 <= 0x7f);
    }
}

/// The credentials of the Shadowsocks link are short.
proof fn lemma_credentials_fit(id: Seq<char>)
    requires
        id.len() == 36,
        vstd::utf8::is_ascii_chars(id),
    ensures
        base64_fits(ss_credentials(id).len()),
{
    reveal_strlit("none:");
    let s = "none:"@ + id;
    assert("none:"@.len() == 5);
    assert(vstd::utf8::is_ascii_chars(s)) by {
        assert forall|i: int| 0 <= i < s.len() implies '\0' <= #[trigger] s[i] <= '\u{7f}' by {
            if i >= 5 {
                assert(s[i] == id[i - 5]);
            }
        }
    }
    vstd::utf8::is_ascii_chars_encode_utf8(s);
}

/// Law: the four links, each written out with its host, its user id or its code.
pub proof fn law_links_are_written_out(
    host: Seq<char>,
    id: Seq<char>,
    vmess_code: Seq<char>,
    ss_code: Seq<char>,
)
    ensures
        ({
            let l = links(host, id, vmess_code, ss_code);
            &&& l.len() == 4
            &&& l[0] == "vmess://"@ + vmess_code
            &&& l[1] == "vless://"@ + id + "@"@ + host + ":443?encryption=none&type=ws&host="@
                + host + "&path=%2FSG&security=tls&sni="@ + host + "#siren vless"@
            &&& l[2] == "trojan://"@ + id + "@"@ + host + ":443?encryption=none&type=ws&host="@
                + host + "&path=%2FSG&security=tls&sni="@ + host + "#siren trojan"@
            &&& l[3] == "ss://"@ + ss_code + "@"@ + host
                + ":443?plugin=v2ray-plugin%3Btls%3Bmux%3D0%3Bmode%3Dwebsocket%3Bpath%3D%2FSG%3Bhost%3D"@
                + host + "#siren ss"@
            &&& page_of(l) == l[0] + "\n"@ + l[1] + "\n"@ + l[2] + "\n"@ + l[3]
        }),
{
    let l = links(host, id, vmess_code, ss_code);
    assert(l[1] =~= "vless://"@ + id + "@"@ + host + ":443?encryption=none&type=ws&host="@ + host
        + "&path=%2FSG&security=tls&sni="@ + host + "#siren vless"@);
    assert(l[2] =~= "trojan://"@ + id + "@"@ + host + ":443?encryption=none&type=ws&host="@ + host
        + "&path=%2FSG&security=tls&sni="@ + host + "#siren trojan"@);
}

/// Law: the links of a configuration carry its own host and its own user id: the
/// latter as hyphenated text, in the Shadowsocks link after `none:`, in base64.
pub proof fn law_links_carry_the_configuration(config: ConfigView)
    ensures
        ({
            let id = hyphenated(config.uuid);
            config_links(config) == links(
                config.host,
                id,
                base64_url_safe(encode_utf8(json_object(vmess_entries(config.host, id)))),
                base64_url_safe(encode_utf8("none:"@ + id)),
            )
        }),
{
}

/// Law: the settings of a VMess client, name by name.
pub proof fn law_vmess_settings_name_by_name(host: Seq<char>, id: Seq<char>)
    ensures
        ({
            let e = vmess_entries(host, id);
            &&& e.len() == 14
            &&& e.contains(("ps"@, "siren vmess"@))
            &&& e.contains(("v"@, "2"@))
            &&& e.contains(("add"@, host))
            &&& e.contains(("port"@, "443"@))
            &&& e.contains(("id"@, id))
            &&& e.contains(("aid"@, "0"@))
            &&& e.contains(("scy"@, "zero"@))
            &&& e.contains(("net"@, "ws"@))
            &&& e.contains(("type"@, "none"@))
            &&& e.contains(("host"@, host))
            &&& e.contains(("path"@, "/SG"@))
            &&& e.contains(("tls"@, "tls"@))
            &&& e.contains(("sni"@, host))
            &&& e.contains(("alpn"@, ""@))
            &&& is_ordered(e)
        }),
{
    let e = vmess_entries(host, id);
    lemma_settings_ordered(host, id);
    assert(e[8] == ("ps"@, "siren vmess"@));
    assert(e[13] == ("v"@, "2"@));
    assert(e[0] == ("add"@, host));
    assert(e[7] == ("port"@, "443"@));
    assert(e[4] == ("id"@, id));
    assert(e[1] == ("aid"@, "0"@));
    assert(e[9] == ("scy"@, "zero"@));
    assert(e[5] == ("net"@, "ws"@));
    assert(e[12] == ("type"@, "none"@));
    assert(e[3] == ("host"@, host));
    assert(e[6] == ("path"@, "/SG"@));
    assert(e[11] == ("tls"@, "tls"@));
    assert(e[10] == ("sni"@, host));
    assert(e[2] == ("alpn"@, ""@));
}

} // verus!
