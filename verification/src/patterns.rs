//! The patterns that a path is matched against, by the `regex` crate.
use crate::text::is_digit;
use regex::Regex;
use vstd::prelude::*;

verus! {

/// A relay: anything, a hyphen, and a number.
pub const PROXYIP_PATTERN: &'static str = r"^.+-\d+$";

/// A list of country codes: it starts with two capitals.
pub const PROXYKV_PATTERN: &'static str = r"^([A-Z]{2})";

/// A SOCKS5 proxy, with or without credentials.
pub const SOCKS_PATTERN: &'static str =
    r"^socks5?=(?:([^:@/]+):([^@/]+)@)?([^@/]+)-(\d+)$";

/// An HTTP proxy, with or without credentials.
pub const HTTP_PATTERN: &'static str = r"^http=(?:([^:@/]+):([^@/]+)@)?([^@/]+)-(\d+)$";

/// Whether the class `\d` of `regex` holds a character beyond ASCII.
pub uninterp spec fn is_other_decimal(c: char) -> bool;

/// Whether the class `\d` of `regex` holds a character.
pub open spec fn in_digit_class(c: char) -> bool {
    if c as u32 <= 0x7f {
        is_digit(c)
    } else {
        is_other_decimal(c)
    }
}

/// The parts of a proxy's spelling.
pub ghost struct Parts {
    pub user: Option<Seq<char>>,
    pub pass: Option<Seq<char>>,
    pub host: Seq<char>,
    pub port: Seq<char>,
}

/// The credentials as they stand before the host.
pub open spec fn userinfo(g: Parts) -> Seq<char> {
    if g.user is Some {
        g.user->0 + ":"@ + g.pass->0 + "@"@
    } else {
        Seq::<char>::empty()
    }
}

/// Whether the parts can be told apart again: the user holds none of `:`, `@`,
/// `/`, the password and the host neither `@` nor `/`, the port digits only, and
/// none of them is empty.
pub open spec fn well_formed(g: Parts) -> bool {
    &&& g.user is Some <==> g.pass is Some
    &&& g.user matches Some(u) ==> u.len() > 0 && !u.contains(':') && !u.contains('@')
        && !u.contains('/')
    &&& g.pass matches Some(p) ==> p.len() > 0 && !p.contains('@') && !p.contains('/')
    &&& g.host.len() > 0 && !g.host.contains('@') && !g.host.contains('/')
    &&& g.port.len() > 0
    &&& forall|i: int| 0 <= i < g.port.len() ==> in_digit_class(#[trigger] g.port[i])
}

/// Whether `text` spells the parts after `scheme`.
pub open spec fn spells(text: Seq<char>, scheme: Seq<char>, g: Parts) -> bool {
    &&& well_formed(g)
    &&& text == scheme + userinfo(g) + g.host + "-"@ + g.port
}

/// Whether a pattern for proxies matches `text` with these parts.
pub open spec fn captures(pattern: Seq<char>, text: Seq<char>, g: Parts) -> bool {
    ||| pattern == SOCKS_PATTERN@ && (spells(text, "socks="@, g) || spells(text, "socks5="@, g))
    ||| pattern == HTTP_PATTERN@ && spells(text, "http="@, g)
}

/// Whether `text` starts with two ASCII capitals.
pub open spec fn starts_with_capitals(text: Seq<char>) -> bool {
    &&& text.len() >= 2
    &&& 'A' as u32 <= text[0] as u32 <= 'Z' as u32
    &&& 'A' as u32 <= text[1] as u32 <= 'Z' as u32
}

/// Whether `text` is something without a line end, a hyphen at `i`, and a number.
pub open spec fn is_relay_at(text: Seq<char>, i: int) -> bool {
    &&& 0 < i < text.len() - 1
    &&& text[i] == '-'
    &&& !text.take(i).contains('\n')
    &&& forall|j: int| i < j < text.len() ==> in_digit_class(#[trigger] text[j])
}

/// Whether a pattern for paths matches `text`.
pub open spec fn is_matched(pattern: Seq<char>, text: Seq<char>) -> bool {
    ||| pattern == PROXYKV_PATTERN@ && starts_with_capitals(text)
    ||| pattern == PROXYIP_PATTERN@ && exists|i: int| is_relay_at(text, i)
}

/// The parts that four groups hold.
pub open spec fn parts_of(
    g: (Option<String>, Option<String>, Option<String>, Option<String>),
) -> Parts {
    Parts {
        user: crate::config::option_view(g.0),
        pass: crate::config::option_view(g.1),
        host: g.2->0@,
        port: g.3->0@,
    }
}

/// `Regex::captures` of `regex`, on one of the two patterns for proxies: the text
/// of the groups one to four where the pattern matches, else nothing. The last
/// two groups take part in every match.
#[verifier::external_body]
pub(crate) fn regex_captures(pattern: &str, text: &str) -> (r: Option<
    (Option<String>, Option<String>, Option<String>, Option<String>),
>)
    requires
        pattern@ == SOCKS_PATTERN@ || pattern@ == HTTP_PATTERN@,
    ensures
        match r {
            Some(g) => g.2 is Some && g.3 is Some && captures(pattern@, text@, parts_of(g)),
            None => forall|g: Parts| !captures(pattern@, text@, g),
        },
{
    Regex::new(pattern).unwrap().captures(text).map(
        |c|
            (
                c.get(1).map(|m| m.as_str().to_string()),
                c.get(2).map(|m| m.as_str().to_string()),
                c.get(3).map(|m| m.as_str().to_string()),
                c.get(4).map(|m| m.as_str().to_string()),
            ),
    )
}

/// `Regex::is_match` of `regex`, on one of the two patterns for paths. What
/// matches as a relay ends in a character of the class `\d`, which beyond ASCII is
/// not spelled out here.
#[verifier::external_body]
pub(crate) fn regex_is_match(pattern: &str, text: &str) -> (r: bool)
    requires
        pattern@ == PROXYKV_PATTERN@ || pattern@ == PROXYIP_PATTERN@,
    ensures
        r == is_matched(pattern@, text@),
        (r && pattern@ == PROXYIP_PATTERN@) ==> is_digit(text@.last()) || is_other_decimal(
            text@.last(),
        ),
{
    Regex::new(pattern).unwrap().is_match(text)
}

/// The rest of a text that spells parts after a scheme.
proof fn lemma_rest(text: Seq<char>, scheme: Seq<char>, g: Parts) -> (rest: Seq<char>)
    requires
        spells(text, scheme, g),
    ensures
        rest == text.skip(scheme.len() as int),
        rest == userinfo(g) + g.host + "-"@ + g.port,
        "-"@ == seq!['-'],
        ":"@ == seq![':'],
        "@"@ == seq!['@'],
{
    let rest = text.skip(scheme.len() as int);
    assert(rest =~= userinfo(g) + g.host + "-"@ + g.port);
    reveal_strlit("-");
    reveal_strlit(":");
    reveal_strlit("@");
    assert("-"@ =~= seq!['-']);
    assert(":"@ =~= seq![':']);
    assert("@"@ =~= seq!['@']);
    rest
}

/// The hyphen before the port is the last one.
proof fn lemma_last_hyphen(rest: Seq<char>, g: Parts)
    requires
        well_formed(g),
        rest == userinfo(g) + g.host + "-"@ + g.port,
        "-"@ == seq!['-'],
    ensures
        g.port.len() < rest.len(),
        rest[rest.len() - g.port.len() - 1] == '-',
        forall|i: int| rest.len() - g.port.len() <= i < rest.len() ==> rest[i] != '-',
{
    let n = rest.len() - g.port.len();
    assert forall|i: int| n <= i < rest.len() implies rest[i] != '-' by {
        assert(rest[i] == g.port[i - n]);
        assert(in_digit_class(g.port[i - n]));
    }
}

/// An `@` stands only between the credentials and the host.
proof fn lemma_at_sign(rest: Seq<char>, g: Parts)
    requires
        well_formed(g),
        rest == userinfo(g) + g.host + "-"@ + g.port,
        "-"@ == seq!['-'],
        ":"@ == seq![':'],
        "@"@ == seq!['@'],
    ensures
        g.user is None ==> forall|i: int| 0 <= i < rest.len() ==> rest[i] != '@',
        g.user matches Some(u) ==> {
            let n = u.len() + 1 + g.pass->0.len();
            &&& n < rest.len()
            &&& rest[n as int] == '@'
            &&& forall|i: int| 0 <= i < rest.len() && i != n ==> rest[i] != '@'
            &&& rest[u.len() as int] == ':'
            &&& forall|i: int| 0 <= i < u.len() ==> rest[i] != ':'
        },
{
    let ui = userinfo(g);
    let h = ui.len() as int;
    let d = h + g.host.len();
    assert forall|i: int| h <= i < rest.len() implies rest[i] != '@' by {
        if i < d {
            assert(rest[i] == g.host[i - h]);
        } else if i > d {
            assert(rest[i] == g.port[i - d - 1]);
            assert(in_digit_class(g.port[i - d - 1]));
        }
    }
    if g.user is Some {
        let u = g.user->0;
        let p = g.pass->0;
        let n = u.len() + 1 + p.len();
        assert(h == n + 1);
        assert(rest[n as int] == ui[n as int]);
        assert(rest[u.len() as int] == ui[u.len() as int]);
        assert forall|i: int| 0 <= i < rest.len() && i != n implies rest[i] != '@' by {
            if i < u.len() {
                assert(rest[i] == u[i]);
            } else if u.len() < i < n {
                assert(rest[i] == p[i - u.len() - 1]);
            }
        }
        assert forall|i: int| 0 <= i < u.len() implies rest[i] != ':' by {
            assert(rest[i] == u[i]);
        }
    }
}

/// What is spelled after one scheme can be read in one way only.
proof fn lemma_spelling_unique(text: Seq<char>, scheme: Seq<char>, a: Parts, b: Parts)
    requires
        spells(text, scheme, a),
        spells(text, scheme, b),
    ensures
        a == b,
{
    let rest = lemma_rest(text, scheme, a);
    let same = lemma_rest(text, scheme, b);
    lemma_last_hyphen(rest, a);
    lemma_last_hyphen(rest, b);
    lemma_at_sign(rest, a);
    lemma_at_sign(rest, b);
    let na = rest.len() - a.port.len();
    let nb = rest.len() - b.port.len();
    assert(rest[na - 1] == '-' && rest[nb - 1] == '-');
    assert(na == nb);
    assert(a.port =~= rest.skip(na));
    assert(b.port =~= rest.skip(nb));
    if a.user is Some {
        let x = a.user->0.len() + 1 + a.pass->0.len();
        assert(rest[x as int] == '@');
        assert(b.user is Some);
        let y = b.user->0.len() + 1 + b.pass->0.len();
        assert(x == y);
        let ua = a.user->0.len() as int;
        let ub = b.user->0.len() as int;
        assert(rest[ua] == ':' && rest[ub] == ':');
        assert(ua == ub);
        assert(a.user->0 =~= rest.take(ua));
        assert(b.user->0 =~= rest.take(ua));
        assert(a.pass->0 =~= rest.subrange(ua + 1, x as int));
        assert(b.pass->0 =~= rest.subrange(ua + 1, x as int));
        assert(a.host =~= rest.subrange(x as int + 1, na - 1));
        assert(b.host =~= rest.subrange(x as int + 1, na - 1));
    } else {
        if b.user is Some {
            let y = b.user->0.len() + 1 + b.pass->0.len();
            assert(rest[y as int] == '@');
        }
        assert(a.host =~= rest.subrange(0, na - 1));
        assert(b.host =~= rest.subrange(0, na - 1));
    }
}

/// The first characters of a text that spells something after a scheme.
proof fn lemma_scheme_prefix(text: Seq<char>, scheme: Seq<char>, g: Parts, i: int)
    requires
        spells(text, scheme, g),
        0 <= i < scheme.len(),
    ensures
        i < text.len(),
        text[i] == scheme[i],
{
}

/// The schemes, and that the patterns differ.
pub proof fn lemma_schemes()
    ensures
        "socks="@ == seq!['s', 'o', 'c', 'k', 's', '='],
        "socks5="@ == seq!['s', 'o', 'c', 'k', 's', '5', '='],
        "http="@ == seq!['h', 't', 't', 'p', '='],
        SOCKS_PATTERN@ != HTTP_PATTERN@,
{
    reveal_strlit("socks=");
    reveal_strlit("socks5=");
    reveal_strlit("http=");
    assert("socks="@ =~= seq!['s', 'o', 'c', 'k', 's', '=']);
    assert("socks5="@ =~= seq!['s', 'o', 'c', 'k', 's', '5', '=']);
    assert("http="@ =~= seq!['h', 't', 't', 'p', '=']);
    reveal_strlit(r"^socks5?=(?:([^:@/]+):([^@/]+)@)?([^@/]+)-(\d+)$");
    reveal_strlit(r"^http=(?:([^:@/]+):([^@/]+)@)?([^@/]+)-(\d+)$");
    assert(SOCKS_PATTERN@[1] == 's');
    assert(HTTP_PATTERN@[1] == 'h');
}

/// Law: the spelling of a proxy is unambiguous. No text matches both patterns,
/// and none matches one of them with two different sets of parts.
pub proof fn law_proxy_spelling_is_unambiguous(
    text: Seq<char>,
    p: Seq<char>,
    q: Seq<char>,
    a: Parts,
    b: Parts,
)
    requires
        captures(p, text, a),
        captures(q, text, b),
    ensures
        p == q,
        a == b,
{
    lemma_schemes();
    let sa = if spells(text, "http="@, a) {
        "http="@
    } else if spells(text, "socks="@, a) {
        "socks="@
    } else {
        "socks5="@
    };
    let sb = if spells(text, "http="@, b) {
        "http="@
    } else if spells(text, "socks="@, b) {
        "socks="@
    } else {
        "socks5="@
    };
    lemma_scheme_prefix(text, sa, a, 0);
    lemma_scheme_prefix(text, sb, b, 0);
    if sa != "http="@ {
        lemma_scheme_prefix(text, sa, a, 5);
        lemma_scheme_prefix(text, sb, b, 4);
        if sb != "http="@ {
            lemma_scheme_prefix(text, sb, b, 5);
        }
    }
    assert(sa == sb);
    lemma_spelling_unique(text, sa, a, b);
}

/// Law: the patterns are these, and no text matches a pattern for proxies but as a
/// scheme, the credentials where there are some, a host, a hyphen and a port.
pub proof fn law_patterns_spell_their_parts(text: Seq<char>, g: Parts)
    ensures
        PROXYIP_PATTERN@ == r"^.+-\d+$"@,
        PROXYKV_PATTERN@ == r"^([A-Z]{2})"@,
        SOCKS_PATTERN@ == r"^socks5?=(?:([^:@/]+):([^@/]+)@)?([^@/]+)-(\d+)$"@,
        HTTP_PATTERN@ == r"^http=(?:([^:@/]+):([^@/]+)@)?([^@/]+)-(\d+)$"@,
        captures(SOCKS_PATTERN@, text, g) <==> spells(text, "socks="@, g) || spells(
            text,
            "socks5="@,
            g,
        ),
        captures(HTTP_PATTERN@, text, g) <==> spells(text, "http="@, g),
{
    lemma_schemes();
}

} // verus!
