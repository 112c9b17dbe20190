//! Encodings and digests that come from other crates.
//!
//! The functions of this module that carry `external_body` are believed, not
//! proved: each makes one call into the crate that its comment names.
use base64::engine::general_purpose::{STANDARD, URL_SAFE};
use base64::Engine;
use crate::text::{hex, hex_char};
use sha2::{Digest, Sha224};
use uuid::Uuid;
use vstd::prelude::*;

verus! {

/// A base64 digit, the last two being `c62` and `c63`.
pub open spec fn base64_digit(d: int, c62: char, c63: char) -> char
    recommends
        0 <= d < 64,
{
    if d < 26 {
        ('A' as u32 + d) as char
    } else if d < 52 {
        ('a' as u32 + d - 26) as char
    } else if d < 62 {
        ('0' as u32 + d - 52) as char
    } else if d == 62 {
        c62
    } else {
        c63
    }
}

/// A byte, zero beyond the end.
pub open spec fn byte_or_zero(bytes: Seq<u8>, i: int) -> int {
    if i < bytes.len() {
        bytes[i] as int
    } else {
        0
    }
}

/// The character `i` of a base64 text: every three bytes are one number, written
/// in four digits, and digits that hold no bit of any byte are written `=`.
pub open spec fn base64_at(bytes: Seq<u8>, i: int, c62: char, c63: char) -> char {
    let first = i / 4 * 3;
    let number = byte_or_zero(bytes, first) * 65536 + byte_or_zero(bytes, first + 1) * 256
        + byte_or_zero(bytes, first + 2);
    if i % 4 > bytes.len() - first {
        '='
    } else if i % 4 == 0 {
        base64_digit(number / 262144, c62, c63)
    } else if i % 4 == 1 {
        base64_digit(number / 4096 % 64, c62, c63)
    } else if i % 4 == 2 {
        base64_digit(number / 64 % 64, c62, c63)
    } else {
        base64_digit(number % 64, c62, c63)
    }
}

/// The base64 text of some bytes, padded to a multiple of four characters.
pub open spec fn base64(bytes: Seq<u8>, c62: char, c63: char) -> Seq<char> {
    Seq::new((bytes.len() + 2) / 3 * 4, |i: int| base64_at(bytes, i, c62, c63))
}

/// The base64 text of some bytes in the standard alphabet.
pub open spec fn base64_standard(bytes: Seq<u8>) -> Seq<char> {
    base64(bytes, '+', '/')
}

/// The base64 text of some bytes in the alphabet for URLs.
pub open spec fn base64_url_safe(bytes: Seq<u8>) -> Seq<char> {
    base64(bytes, '-', '_')
}

/// Whether the base64 form of `n` bytes, four characters for every three bytes
/// begun, still fits into memory.
pub open spec fn base64_fits(n: nat) -> bool {
    (n + 2) / 3 * 4 <= isize::MAX
}

/// Decides whether the base64 form of `n` bytes still fits into memory.
pub fn fits_base64(n: usize) -> (r: bool)
    ensures
        r == base64_fits(n as nat),
{
    let limit: usize = isize::MAX as usize / 4;
    n / 3 < limit || (n / 3 == limit && n % 3 == 0)
}

/// The letters and digits, common to both base64 alphabets.
pub open spec fn is_alphanumeric(c: char) -> bool {
    ||| 'A' as u32 <= c as u32 <= 'Z' as u32
    ||| 'a' as u32 <= c as u32 <= 'z' as u32
    ||| '0' as u32 <= c as u32 <= '9' as u32
}

/// `Engine::encode` of `base64`, on its `STANDARD` engine: the standard base64 text
/// of the bytes. It panics where that does not fit into memory.
#[verifier::external_body]
pub(crate) fn encode_standard(bytes: &[u8]) -> (r: String)
    requires
        base64_fits(bytes@.len()),
    ensures
        r@ == base64_standard(bytes@),
{
    STANDARD.encode(bytes)
}

/// `Engine::encode` of `base64`, on its `URL_SAFE` engine: the base64 text of the
/// bytes in the alphabet for URLs. It panics where that does not fit into memory.
#[verifier::external_body]
pub(crate) fn encode_url_safe(bytes: &[u8]) -> (r: String)
    requires
        base64_fits(bytes@.len()),
    ensures
        r@ == base64_url_safe(bytes@),
{
    URL_SAFE.encode(bytes)
}

/// Base64 text holds only letters, digits, the two last digits of its alphabet and
/// the padding.
pub proof fn lemma_base64_chars(bytes: Seq<u8>, c62: char, c63: char)
    ensures
        forall|i: int|
            0 <= i < base64(bytes, c62, c63).len() ==> (is_alphanumeric(
                #[trigger] base64(bytes, c62, c63)[i],
            ) || base64(bytes, c62, c63)[i] == c62 || base64(bytes, c62, c63)[i] == c63
                || base64(bytes, c62, c63)[i] == '='),
{
    assert forall|i: int| 0 <= i < base64(bytes, c62, c63).len() implies (is_alphanumeric(
        #[trigger] base64(bytes, c62, c63)[i],
    ) || base64(bytes, c62, c63)[i] == c62 || base64(bytes, c62, c63)[i] == c63 || base64(
        bytes,
        c62,
        c63,
    )[i] == '=') by {
        let first = i / 4 * 3;
        let number = byte_or_zero(bytes, first) * 65536 + byte_or_zero(bytes, first + 1) * 256
            + byte_or_zero(bytes, first + 2);
        assert(0 <= number < 16777216);
        assert(base64(bytes, c62, c63)[i] == base64_at(bytes, i, c62, c63));
    }
}

/// The hyphenated text of a UUID: its bytes in lower-case hexadecimal, in groups
/// of four, two, two, two and six bytes.
pub open spec fn hyphenated(uuid: Seq<u8>) -> Seq<char> {
    hex(uuid.subrange(0, 4)).push('-') + hex(uuid.subrange(4, 6)).push('-') + hex(
        uuid.subrange(6, 8),
    ).push('-') + hex(uuid.subrange(8, 10)).push('-') + hex(uuid.subrange(10, 16))
}

/// `Uuid::to_string` of `uuid`: the hyphenated text of the sixteen bytes.
#[verifier::external_body]
pub(crate) fn uuid_text(uuid: &[u8; 16]) -> (r: String)
    ensures
        r@ == hyphenated(uuid@),
{
    Uuid::from_bytes(*uuid).to_string()
}

/// `s` with its ASCII capitals in lower case.
pub open spec fn lowered(s: Seq<char>) -> Seq<char> {
    s.map_values(
        |c: char|
            if 'A' as u32 <= c as u32 <= 'Z' as u32 {
                (c as u32 + 32) as char
            } else {
                c
            },
    )
}

/// Whether a text spells a UUID: plain or hyphenated, the latter also in braces or
/// as a URN, and in either case of the letters.
pub open spec fn spells_uuid(text: Seq<char>, uuid: Seq<u8>) -> bool {
    &&& uuid.len() == 16
    &&& {
        ||| lowered(text) == hex(uuid)
        ||| lowered(text) == hyphenated(uuid)
        ||| lowered(text) == "{"@ + hyphenated(uuid) + "}"@
        ||| lowered(text) == "urn:uuid:"@ + hyphenated(uuid)
    }
}

/// The UUID that a text spells, where it spells one.
pub open spec fn parsed_uuid(text: Seq<char>) -> Option<Seq<u8>> {
    if exists|uuid: Seq<u8>| spells_uuid(text, uuid) {
        Some(choose|uuid: Seq<u8>| spells_uuid(text, uuid))
    } else {
        None
    }
}

/// `Uuid::parse_str` of `uuid`: the bytes of the UUID that the text spells, or
/// nothing where it spells none.
#[verifier::external_body]
fn parse_str(text: &str) -> (r: Option<[u8; 16]>)
    ensures
        match r {
            Some(b) => spells_uuid(text@, b@),
            None => forall|uuid: Seq<u8>| !spells_uuid(text@, uuid),
        },
{
    Uuid::parse_str(text).ok().map(|u| u.into_bytes())
}

/// Reads the UUID that a text spells.
pub fn parse_uuid(text: &str) -> (r: Option<[u8; 16]>)
    ensures
        match r {
            Some(b) => parsed_uuid(text@) == Some(b@),
            None => parsed_uuid(text@) is None,
        },
{
    let r = parse_str(text);
    proof {
        if let Some(b) = r {
            assert(spells_uuid(text@, b@));
            law_uuid_spelling_is_unambiguous(
                text@,
                b@,
                choose|uuid: Seq<u8>| spells_uuid(text@, uuid),
            );
        }
    }
    r
}

/// The hexadecimal digits differ.
proof fn lemma_hex_char_unique(x: int, y: int)
    requires
        0 <= x < 16,
        0 <= y < 16,
        hex_char(x) == hex_char(y),
    ensures
        x == y,
{
    assert(hex_char(x) as u32 == if x < 10 { 48 + x } else { 87 + x });
    assert(hex_char(y) as u32 == if y < 10 { 48 + y } else { 87 + y });
}

/// Bytes with the same hexadecimal text are the same.
proof fn lemma_hex_unique(a: Seq<u8>, b: Seq<u8>)
    requires
        hex(a) == hex(b),
    ensures
        a == b,
{
    assert(hex(a).len() == 2 * a.len() && hex(b).len() == 2 * b.len());
    assert forall|i: int| 0 <= i < a.len() implies a[i] == b[i] by {
        let j = 2 * i;
        let k = 2 * i + 1;
        assert(j / 2 == i && k / 2 == i && j % 2 == 0 && k % 2 == 1);
        assert(hex(a)[j] == hex_char(a[j / 2] as int / 16));
        assert(hex(b)[j] == hex_char(b[j / 2] as int / 16));
        assert(hex(a)[k] == hex_char(a[k / 2] as int % 16));
        assert(hex(b)[k] == hex_char(b[k / 2] as int % 16));
        lemma_hex_char_unique(a[i] as int / 16, b[i] as int / 16);
        lemma_hex_char_unique(a[i] as int % 16, b[i] as int % 16);
    }
    assert(a =~= b);
}

/// UUIDs with the same hyphenated text are the same.
proof fn lemma_hyphenated_unique(a: Seq<u8>, b: Seq<u8>)
    requires
        a.len() == 16,
        b.len() == 16,
        hyphenated(a) == hyphenated(b),
    ensures
        a == b,
{
    lemma_hyphenated_groups(a);
    lemma_hyphenated_groups(b);
    lemma_hex_unique(a.subrange(0, 4), b.subrange(0, 4));
    lemma_hex_unique(a.subrange(4, 6), b.subrange(4, 6));
    lemma_hex_unique(a.subrange(6, 8), b.subrange(6, 8));
    lemma_hex_unique(a.subrange(8, 10), b.subrange(8, 10));
    lemma_hex_unique(a.subrange(10, 16), b.subrange(10, 16));
    assert(a =~= a.subrange(0, 4) + a.subrange(4, 6) + a.subrange(6, 8) + a.subrange(8, 10)
        + a.subrange(10, 16));
    assert(b =~= b.subrange(0, 4) + b.subrange(4, 6) + b.subrange(6, 8) + b.subrange(8, 10)
        + b.subrange(10, 16));
}

/// Where the groups of a hyphenated text stand.
proof fn lemma_hyphenated_groups(uuid: Seq<u8>)
    requires
        uuid.len() == 16,
    ensures
        hyphenated(uuid).len() == 36,
        hyphenated(uuid).subrange(0, 8) == hex(uuid.subrange(0, 4)),
        hyphenated(uuid).subrange(9, 13) == hex(uuid.subrange(4, 6)),
        hyphenated(uuid).subrange(14, 18) == hex(uuid.subrange(6, 8)),
        hyphenated(uuid).subrange(19, 23) == hex(uuid.subrange(8, 10)),
        hyphenated(uuid).subrange(24, 36) == hex(uuid.subrange(10, 16)),
{
    let s = hyphenated(uuid);
    assert(s.subrange(0, 8) =~= hex(uuid.subrange(0, 4)));
    assert(s.subrange(9, 13) =~= hex(uuid.subrange(4, 6)));
    assert(s.subrange(14, 18) =~= hex(uuid.subrange(6, 8)));
    assert(s.subrange(19, 23) =~= hex(uuid.subrange(8, 10)));
    assert(s.subrange(24, 36) =~= hex(uuid.subrange(10, 16)));
}

/// Law: no text spells two different UUIDs.
pub proof fn law_uuid_spelling_is_unambiguous(text: Seq<char>, a: Seq<u8>, b: Seq<u8>)
    requires
        spells_uuid(text, a),
        spells_uuid(text, b),
    ensures
        a == b,
{
    reveal_strlit("{");
    reveal_strlit("}");
    reveal_strlit("urn:uuid:");
    lemma_hyphenated_groups(a);
    lemma_hyphenated_groups(b);
    let s = lowered(text);
    assert(hex(a).len() == 32 && hex(b).len() == 32);
    assert(("{"@ + hyphenated(a) + "}"@).len() == 38);
    assert(("{"@ + hyphenated(b) + "}"@).len() == 38);
    assert(("urn:uuid:"@ + hyphenated(a)).len() == 45);
    assert(("urn:uuid:"@ + hyphenated(b)).len() == 45);
    if s.len() == 32 {
        lemma_hex_unique(a, b);
    } else {
        if s.len() == 36 {
            assert(hyphenated(a) == hyphenated(b));
        } else if s.len() == 38 {
            assert(hyphenated(a) =~= s.subrange(1, 37));
            assert(hyphenated(b) =~= s.subrange(1, 37));
        } else {
            assert(hyphenated(a) =~= s.subrange(9, 45));
            assert(hyphenated(b) =~= s.subrange(9, 45));
        }
        lemma_hyphenated_unique(a, b);
    }
}

/// Law: the hyphenated text of a UUID is read back as that UUID.
pub proof fn law_hyphenated_is_read_back(uuid: Seq<u8>)
    requires
        uuid.len() == 16,
    ensures
        parsed_uuid(hyphenated(uuid)) == Some(uuid),
{
    let s = hyphenated(uuid);
    assert forall|i: int| 0 <= i < s.len() implies lowered(s)[i] == #[trigger] s[i] by {
        lemma_hex_small(uuid.subrange(0, 4));
        lemma_hex_small(uuid.subrange(4, 6));
        lemma_hex_small(uuid.subrange(6, 8));
        lemma_hex_small(uuid.subrange(8, 10));
        lemma_hex_small(uuid.subrange(10, 16));
    }
    assert(lowered(s) =~= s);
    assert(spells_uuid(s, uuid));
    law_uuid_spelling_is_unambiguous(s, uuid, choose|b: Seq<u8>| spells_uuid(s, b));
}

/// Hexadecimal text holds no capitals.
proof fn lemma_hex_small(b: Seq<u8>)
    ensures
        forall|i: int|
            0 <= i < hex(b).len() ==> !('A' as u32 <= #[trigger] hex(b)[i] as u32 <= 'Z' as u32),
{
    assert forall|i: int| 0 <= i < hex(b).len() implies !('A' as u32 <= #[trigger] hex(b)[i] as u32
        <= 'Z' as u32) by {
        assert(0 <= b[i / 2] as int / 16 < 16);
        assert(0 <= b[i / 2] as int % 16 < 16);
    }
}

/// What `Sha224::digest` makes of some bytes.
pub uninterp spec fn sha224(bytes: Seq<u8>) -> Seq<u8>;

/// `Sha224::digest` of `sha2`. The result is a function of the bytes, and has 28
/// bytes.
#[verifier::external_body]
pub(crate) fn digest_sha224(bytes: &[u8]) -> (r: Vec<u8>)
    ensures
        r@ == sha224(bytes@),
        r@.len() == 28,
{
    Sha224::digest(bytes).to_vec()
}

/// A character as it stands inside a JSON string: quotes, backslashes and control
/// characters are escaped, everything else stands for itself.
pub open spec fn json_char(c: char) -> Seq<char> {
    if c == '"' || c == '\\' {
        seq!['\\', c]
    } else if c as u32 == 8 {
        seq!['\\', 'b']
    } else if c as u32 == 9 {
        seq!['\\', 't']
    } else if c as u32 == 10 {
        seq!['\\', 'n']
    } else if c as u32 == 12 {
        seq!['\\', 'f']
    } else if c as u32 == 13 {
        seq!['\\', 'r']
    } else if (c as u32) < 32 {
        seq!['\\', 'u', '0', '0'] + hex(seq![c as u8])
    } else {
        seq![c]
    }
}

/// The inside of a JSON string.
pub open spec fn json_chars(s: Seq<char>) -> Seq<char>
    decreases s.len(),
{
    if s.len() == 0 {
        Seq::<char>::empty()
    } else {
        json_chars(s.drop_last()) + json_char(s.last())
    }
}

/// A text as a JSON string.
pub open spec fn json_string(s: Seq<char>) -> Seq<char> {
    seq!['"'] + json_chars(s) + seq!['"']
}

/// The members of a JSON object, each a name and a text.
pub open spec fn json_members(entries: Seq<(Seq<char>, Seq<char>)>) -> Seq<char>
    decreases entries.len(),
{
    if entries.len() == 0 {
        Seq::<char>::empty()
    } else {
        let member = json_string(entries.last().0) + seq![':'] + json_string(entries.last().1);
        if entries.len() == 1 {
            member
        } else {
            json_members(entries.drop_last()) + seq![','] + member
        }
    }
}

/// A JSON object of texts, without white space.
pub open spec fn json_object(entries: Seq<(Seq<char>, Seq<char>)>) -> Seq<char> {
    seq!['{'] + json_members(entries) + seq!['}']
}

/// Whether one text comes before another, by their first characters that differ.
pub open spec fn comes_before(a: Seq<char>, b: Seq<char>) -> bool
    decreases a.len(),
{
    if b.len() == 0 {
        false
    } else if a.len() == 0 {
        true
    } else if a[0] == b[0] {
        comes_before(a.drop_first(), b.drop_first())
    } else {
        (a[0] as u32) < (b[0] as u32)
    }
}

/// Whether each name comes before the next.
pub open spec fn is_ordered(entries: Seq<(Seq<char>, Seq<char>)>) -> bool {
    forall|i: int|
        #![trigger entries[i]]
        0 <= i < entries.len() - 1 ==> comes_before(entries[i].0, entries[i + 1].0)
}

/// `Value::to_string` of `serde_json`, on an object of texts. It writes the
/// members in the order of their names, which is the order given here, and no
/// white space.
#[verifier::external_body]
pub(crate) fn render_object(entries: Vec<(String, String)>) -> (r: String)
    requires
        is_ordered(entries.deep_view()),
    ensures
        r@ == json_object(entries.deep_view()),
{
    serde_json::Value::Object(
        entries.into_iter().map(|(k, v)| (k, serde_json::Value::String(v))).collect(),
    ).to_string()
}

/// Law: base64 text fits exactly where it is no longer than the longest allocation.
pub proof fn law_base64_fits_its_length(bytes: Seq<u8>)
    ensures
        base64_fits(bytes.len()) <==> base64_standard(bytes).len() <= isize::MAX,
        base64_fits(bytes.len()) <==> base64_url_safe(bytes).len() <= isize::MAX,
        3 * base64_standard(bytes).len() >= 4 * bytes.len(),
        3 * base64_standard(bytes).len() <= 4 * bytes.len() + 8,
{
}

} // verus!
