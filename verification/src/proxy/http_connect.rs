//! The client side of an HTTP `CONNECT`: the request, and what the proxy's
//! reply header says.
use crate::codec::{base64_fits, base64_standard, encode_standard, fits_base64};
use crate::config::option_view;
use crate::error::ProxyError;
use crate::text::{
    chars_of, decimal, find_char, first_place, lemma_decimal_free, lemma_first_place_is,
    lemma_free_concat, lemma_split_front, lemma_split_one, push_decimal, split, text_of,
};
use vstd::prelude::*;
use vstd::string::StringExecFns;
use vstd::utf8::{decode_utf8, encode_utf8, valid_utf8};

verus! {

/// How many bytes a reply header may have without having ended.
pub const MAX_HEADER_SIZE: usize = 8192;

/// A user and a password as the `Basic` scheme joins them.
pub open spec fn basic_pair(user: Seq<char>, pass: Seq<char>) -> Seq<u8> {
    encode_utf8(user + ":"@ + pass)
}

/// The authorization header, which is there only where there are credentials.
pub open spec fn authorization(basic: Option<Seq<char>>) -> Seq<char> {
    match basic {
        Some(b) => "Proxy-Authorization: Basic "@ + b + "\r\n"@,
        None => Seq::<char>::empty(),
    }
}

/// The target as the request names it.
pub open spec fn authority(target: Seq<char>, port: u16) -> Seq<char> {
    target + ":"@ + decimal(port as nat)
}

/// The whole request, with the credentials in the form of the `Basic` scheme.
pub open spec fn connect_text(target: Seq<char>, port: u16, basic: Option<Seq<char>>) -> Seq<char> {
    "CONNECT "@ + authority(target, port) + " HTTP/1.1\r\nHost: "@ + authority(target, port)
        + "\r\n"@ + authorization(basic) + "Proxy-Connection: Keep-Alive\r\n\r\n"@
}

/// The credentials in the form of the `Basic` scheme; both halves must be there.
pub open spec fn basic_of(user: Option<Seq<char>>, pass: Option<Seq<char>>) -> Option<Seq<char>> {
    if user is Some && pass is Some {
        Some(base64_standard(basic_pair(user->0, pass->0)))
    } else {
        None
    }
}

/// Writes the request, with the credentials in the form of the `Basic` scheme.
pub fn write_connect(target: &str, port: u16, basic: &Option<String>) -> (r: String)
    ensures
        r@ == connect_text(target@, port, option_view(*basic)),
{
    let mut authority = String::from_str(target);
    authority.append(":");
    push_decimal(&mut authority, port as u64);
    let mut r = String::from_str("CONNECT ");
    r.append(authority.as_str());
    r.append(" HTTP/1.1\r\nHost: ");
    r.append(authority.as_str());
    r.append("\r\n");
    let ghost head = r@;
    if let Some(b) = basic {
        r.append("Proxy-Authorization: Basic ");
        r.append(b.as_str());
        r.append("\r\n");
    }
    assert(r@ =~= head + authorization(option_view(*basic)));
    r.append("Proxy-Connection: Keep-Alive\r\n\r\n");
    r
}

/// Writes the request that asks the proxy for a tunnel to the target.
pub fn connect_request(
    target: &str,
    port: u16,
    user: &Option<String>,
    pass: &Option<String>,
) -> (r: String)
    requires
        (user is Some && pass is Some) ==> base64_fits(basic_pair(user->0@, pass->0@).len()),
    ensures
        r@ == connect_text(target@, port, basic_of(option_view(*user), option_view(*pass))),
{
    let basic = if let (Some(u), Some(p)) = (user, pass) {
        let pair = u.clone().concat(":").concat(p.as_str());
        Some(encode_standard(pair.as_str().as_bytes()))
    } else {
        None
    };
    write_connect(target, port, &basic)
}

/// Writes the request, unless the credentials are too long to be encoded.
pub fn connect_request_checked(
    target: &str,
    port: u16,
    user: &Option<String>,
    pass: &Option<String>,
) -> (r: Option<String>)
    ensures
        match r {
            Some(text) => text@ == connect_text(
                target@,
                port,
                basic_of(option_view(*user), option_view(*pass)),
            ),
            None => user is Some && pass is Some && !base64_fits(
                basic_pair(user->0@, pass->0@).len(),
            ),
        },
{
    if let (Some(u), Some(p)) = (user, pass) {
        let pair = u.clone().concat(":").concat(p.as_str());
        if !fits_base64(pair.as_str().as_bytes().len()) {
            return None;
        }
    }
    Some(connect_request(target, port, user, pass))
}

/// Whether the bytes end with an empty line.
pub open spec fn ends_blank(b: Seq<u8>) -> bool {
    b.len() >= 4 && b.subrange(b.len() - 4, b.len() as int) == seq![13u8, 10, 13, 10]
}

/// What the reader of a reply header does next.
#[derive(Clone, Copy, Debug, PartialEq, Eq)]
pub enum HeaderProgress {
    /// Read one more byte.
    More,
    /// The header is complete.
    Complete,
    /// The header is too long.
    TooLong,
}

/// What follows once the bytes read so far are `b`.
pub open spec fn header_progress(b: Seq<u8>) -> HeaderProgress {
    if ends_blank(b) {
        HeaderProgress::Complete
    } else if b.len() > MAX_HEADER_SIZE {
        HeaderProgress::TooLong
    } else {
        HeaderProgress::More
    }
}

/// A reply header that is being read byte by byte.
pub struct ReplyHeader {
    pub bytes: Vec<u8>,
}

impl View for ReplyHeader {
    type V = Seq<u8>;

    open spec fn view(&self) -> Seq<u8> {
        self.bytes@
    }
}

impl ReplyHeader {
    /// Nothing read yet.
    pub fn new() -> (r: Self)
        ensures
            r@ == Seq::<u8>::empty(),
    {
        let bytes: Vec<u8> = Vec::new();
        assert(bytes@ =~= Seq::<u8>::empty());
        ReplyHeader { bytes }
    }

    /// Takes the next byte and says what follows.
    pub fn push(&mut self, byte: u8) -> (r: HeaderProgress)
        ensures
            final(self)@ == old(self)@.push(byte),
            r == header_progress(final(self)@),
    {
        self.bytes.push(byte);
        let n = self.bytes.len();
        if n >= 4 && self.bytes[n - 4] == 13 && self.bytes[n - 3] == 10 && self.bytes[n - 2] == 13
            && self.bytes[n - 1] == 10 {
            assert(self@.subrange(n - 4, n as int) =~= seq![13u8, 10, 13, 10]);
            return HeaderProgress::Complete;
        }
        assert(!ends_blank(self@)) by {
            if ends_blank(self@) {
                let t = self@.subrange(n - 4, n as int);
                assert(t[0] == 13 && t[1] == 10 && t[2] == 13 && t[3] == 10);
            }
        }
        if n > MAX_HEADER_SIZE {
            HeaderProgress::TooLong
        } else {
            HeaderProgress::More
        }
    }
}

/// Whether the reader took exactly the bytes `b`: it went on after every shorter
/// prefix.
pub open spec fn is_read(b: Seq<u8>) -> bool {
    forall|n: int|
        0 < n < b.len() ==> #[trigger] header_progress(b.take(n)) == HeaderProgress::More
}

/// Law: a complete header ends with its first empty line, and the reader never
/// holds more than one byte over the limit.
pub proof fn law_header_ends_at_first_blank_line(b: Seq<u8>)
    requires
        is_read(b),
        b.len() > 0,
    ensures
        b.len() <= MAX_HEADER_SIZE + 1,
        forall|n: int| 0 <= n < b.len() ==> !#[trigger] ends_blank(b.take(n)),
        header_progress(b) == HeaderProgress::Complete <==> ends_blank(b),
        header_progress(b) == HeaderProgress::TooLong <==> !ends_blank(b) && b.len()
            == MAX_HEADER_SIZE + 1,
{
    if b.len() > 1 {
        assert(header_progress(b.take(b.len() - 1)) == HeaderProgress::More);
    }
    assert forall|n: int| 0 <= n < b.len() implies !#[trigger] ends_blank(b.take(n)) by {
        if n > 0 {
            assert(header_progress(b.take(n)) == HeaderProgress::More);
        }
    }
}

/// What `String::from_utf8_lossy` makes of some bytes.
pub uninterp spec fn utf8_lossy(bytes: Seq<u8>) -> Seq<char>;

/// `String::from_utf8_lossy` of the standard library. The text is a function of
/// the bytes, and is the text that they encode where they are UTF-8.
#[verifier::external_body]
fn decode_lossy(bytes: &[u8]) -> (r: String)
    ensures
        r@ == utf8_lossy(bytes@),
        valid_utf8(bytes@) ==> r@ == decode_utf8(bytes@),
{
    String::from_utf8_lossy(bytes).into_owned()
}

/// Whether `c` has the Unicode property `White_Space`.
pub open spec fn is_white(c: char) -> bool {
    let u = c as u32;
    ||| 0x09 <= u <= 0x0d
    ||| u == 0x20
    ||| u == 0x85
    ||| u == 0xa0
    ||| u == 0x1680
    ||| 0x2000 <= u <= 0x200a
    ||| u == 0x2028
    ||| u == 0x2029
    ||| u == 0x202f
    ||| u == 0x205f
    ||| u == 0x3000
}

/// Decides whether `c` is white space.
fn white(c: char) -> (r: bool)
    ensures
        r == is_white(c),
{
    let u: u32 = c as u32;
    (0x09 <= u && u <= 0x0d) || u == 0x20 || u == 0x85 || u == 0xa0 || u == 0x1680 || (0x2000 <= u
        && u <= 0x200a) || u == 0x2028 || u == 0x2029 || u == 0x202f || u == 0x205f || u == 0x3000
}

/// The first line of a text, without its line ending.
pub open spec fn first_line(s: Seq<char>) -> Seq<char> {
    let n = first_place(s, '\n');
    if 0 < n < s.len() && s[n - 1] == '\r' {
        s.take(n - 1)
    } else {
        s.take(n)
    }
}

/// `s` without the leading characters that are white (`white`) or that are not
/// (`!white`).
pub open spec fn trim_front(s: Seq<char>, white: bool) -> Seq<char>
    decreases s.len(),
{
    if s.len() > 0 && is_white(s[0]) == white {
        trim_front(s.drop_first(), white)
    } else {
        s
    }
}

/// Whether the second word of a status line starts with `2`.
pub open spec fn is_success(line: Seq<char>) -> bool {
    let second = trim_front(trim_front(trim_front(line, true), false), true);
    second.len() > 0 && second[0] == '2'
}

/// The place from `from` on at which [`trim_front`] stops.
fn trim(v: &Vec<char>, from: usize, skip_white: bool) -> (r: usize)
    requires
        from <= v.len(),
    ensures
        from <= r <= v.len(),
        v@.skip(r as int) == trim_front(v@.skip(from as int), skip_white),
{
    let mut i: usize = from;
    while i < v.len() && white(v[i]) == skip_white
        invariant
            from <= i <= v.len(),
            trim_front(v@.skip(i as int), skip_white) == trim_front(
                v@.skip(from as int),
                skip_white,
            ),
        decreases v.len() - i,
    {
        assert(v@.skip(i as int).drop_first() =~= v@.skip(i + 1));
        i = i + 1;
    }
    i
}

/// Judges a reply header by its text.
pub fn check_status(header: &str) -> (r: Result<(), ProxyError>)
    ensures
        r is Ok <==> is_success(first_line(header@)),
        r matches Err(e) ==> (e matches ProxyError::HttpRefused(line) && line@ == first_line(
            header@,
        )),
{
    let v = chars_of(header);
    let n = find_char(&v, '\n');
    let end: usize = if 0 < n && n < v.len() && v[n - 1] == '\r' { n - 1 } else { n };
    let line = text_of(&v, 0, end);
    assert(line@ =~= first_line(header@));
    let w = chars_of(line.as_str());
    assert(w@.skip(0) =~= w@);
    let a = trim(&w, 0, true);
    let b = trim(&w, a, false);
    let c = trim(&w, b, true);
    if c < w.len() && w[c] == '2' {
        assert(w@.skip(c as int)[0] == w@[c as int]);
        Ok(())
    } else {
        Err(ProxyError::HttpRefused(line))
    }
}

/// Judges a complete reply header.
pub fn check_reply(header: &[u8]) -> (r: Result<(), ProxyError>)
    ensures
        r is Ok <==> is_success(first_line(utf8_lossy(header@))),
        valid_utf8(header@) ==> (r is Ok <==> is_success(first_line(decode_utf8(header@)))),
        valid_utf8(header@) ==> (r matches Err(ProxyError::HttpRefused(line)) ==> line@
            == first_line(decode_utf8(header@))),
        r matches Err(e) ==> (e matches ProxyError::HttpRefused(line) && line@ == first_line(
            utf8_lossy(header@),
        )),
{
    let text = decode_lossy(header);
    check_status(text.as_str())
}

/// Law: a reply header is complete exactly where it ends with two line ends, and too
/// long exactly where it then has more than 8192 bytes without having ended.
pub proof fn law_header_progress_by_its_end(b: Seq<u8>, front: Seq<u8>)
    ensures
        header_progress(front + seq![13u8, 10, 13, 10]) is Complete,
        header_progress(b) is Complete <==> b.len() >= 4 && b[b.len() - 4] == 13 && b[b.len() - 3]
            == 10 && b[b.len() - 2] == 13 && b[b.len() - 1] == 10,
        header_progress(b) is More ==> b.len() <= 8192,
        header_progress(b) is TooLong ==> b.len() > 8192,
{
    let whole = front + seq![13u8, 10, 13, 10];
    assert(whole.subrange(whole.len() - 4, whole.len() as int) =~= seq![13u8, 10, 13, 10]);
    if b.len() >= 4 {
        let t = b.subrange(b.len() - 4, b.len() as int);
        if b[b.len() - 4] == 13 && b[b.len() - 3] == 10 && b[b.len() - 2] == 13 && b[b.len() - 1]
            == 10 {
            assert(t =~= seq![13u8, 10, 13, 10]);
        }
        if ends_blank(b) {
            assert(t[0] == 13 && t[1] == 10 && t[2] == 13 && t[3] == 10);
        }
    }
}

/// Law: white space is what Unicode says it is: in ASCII the space and the five
/// controls from tab to carriage return, and nineteen characters beyond.
pub proof fn law_white_space(c: char)
    ensures
        c as u32 <= 127 ==> (is_white(c) <==> c as u32 == 32 || (9 <= c as u32 <= 13)),
        128 <= c as u32 <= 0x1fff ==> (is_white(c) <==> c as u32 == 133 || c as u32 == 160
            || c as u32 == 5760),
        0x2000 <= c as u32 <= 0x2027 ==> (is_white(c) <==> c as u32 <= 8202),
        c as u32 >= 0x2028 ==> (is_white(c) <==> c as u32 == 8232 || c as u32 == 8233 || c as u32
            == 8239 || c as u32 == 8287 || c as u32 == 12288),
{
}

/// Whether every character of `s` is white space (`white`), or none is.
pub open spec fn all_white(s: Seq<char>, white: bool) -> bool {
    forall|i: int| 0 <= i < s.len() ==> is_white(#[trigger] s[i]) == white
}

/// A front of one sort is trimmed away up to the first character of the other.
proof fn lemma_trim_front(front: Seq<char>, rest: Seq<char>, white: bool)
    requires
        all_white(front, white),
        rest.len() == 0 || is_white(rest[0]) != white,
    ensures
        trim_front(front + rest, white) == rest,
    decreases front.len(),
{
    let s = front + rest;
    if front.len() == 0 {
        assert(s =~= rest);
    } else {
        assert(s[0] == front[0]);
        assert(s.drop_first() =~= front.drop_first() + rest);
        assert forall|i: int| 0 <= i < front.drop_first().len() implies is_white(
            #[trigger] front.drop_first()[i],
        ) == white by {
            assert(front.drop_first()[i] == front[i + 1]);
        }
        lemma_trim_front(front.drop_first(), rest, white);
    }
}

/// Law: a status line is a success exactly where its second word starts with `2`,
/// whatever white space stands around its words and whatever follows them; with fewer
/// than two words it is none.
pub proof fn law_second_word_decides(
    before: Seq<char>,
    first: Seq<char>,
    gap: Seq<char>,
    second: Seq<char>,
    after: Seq<char>,
)
    requires
        all_white(before, true),
        all_white(first, false),
        all_white(gap, true),
        all_white(second, false),
        first.len() > 0,
        gap.len() > 0,
        second.len() > 0,
        after.len() == 0 || is_white(after[0]),
    ensures
        is_success(before + first + gap + second + after) <==> second[0] == '2',
        !is_success(before + first + gap),
        !is_success(before + first),
        !is_success(before),
{
    let r2 = second + after;
    let r1 = gap + r2;
    let r0 = first + r1;
    assert(before + first + gap + second + after =~= before + r0);
    assert(r0[0] == first[0] && r1[0] == gap[0] && r2[0] == second[0]);
    lemma_trim_front(before, r0, true);
    lemma_trim_front(first, r1, false);
    lemma_trim_front(gap, r2, true);
    let none = Seq::<char>::empty();
    assert(gap + none =~= gap && first + none =~= first && before + none =~= before);
    assert(before + first + gap =~= before + (first + gap));
    assert((first + gap)[0] == first[0]);
    lemma_trim_front(before, first + gap, true);
    lemma_trim_front(first, gap, false);
    lemma_trim_front(gap, none, true);
    lemma_trim_front(before, first, true);
    lemma_trim_front(first, none, false);
    lemma_trim_front(before, none, true);
    lemma_trim_front(none, none, true);
    lemma_trim_front(none, none, false);
    assert(none + none =~= none);
}

/// Law: the first line of a header is what stands before its first line end, one
/// carriage return before that left out.
pub proof fn law_first_line_ends_at_the_line_end(line: Seq<char>, rest: Seq<char>)
    requires
        !line.contains('\n'),
    ensures
        first_line(line + "\r\n"@ + rest) == line,
        (line.len() == 0 || line.last() != '\r') ==> first_line(line.push('\n') + rest) == line,
        first_line(line) == line,
{
    reveal_strlit("\r\n");
    let a = line + "\r\n"@ + rest;
    let n = line.len() as int;
    assert forall|i: int| 0 <= i < n + 1 implies a[i] != '\n' by {
        if i < n {
            assert(a[i] == line[i]);
        }
    }
    lemma_first_place_is(a, '\n', n + 1);
    assert(a.take(n) =~= line);
    let b = line.push('\n') + rest;
    assert forall|i: int| 0 <= i < n implies b[i] != '\n' by {
        assert(b[i] == line[i]);
    }
    lemma_first_place_is(b, '\n', n);
    assert(b.take(n) =~= line);
    lemma_first_place_is(line, '\n', n);
    assert(line.take(n) =~= line);
}

/// Law: the usual reply, a version, a code and a reason, each a blank apart, and two
/// line ends, is accepted exactly where the code starts with `2`, and is told by that
/// line, however long it is.
pub proof fn law_status_code_decides(version: Seq<char>, code: Seq<char>, reason: Seq<char>)
    requires
        version.len() > 0,
        code.len() > 0,
        all_white(version, false),
        all_white(code, false),
        !reason.contains('\n'),
    ensures
        ({
            let line = version + " "@ + code + " "@ + reason;
            let header = line + "\r\n\r\n"@;
            &&& is_success(first_line(header)) <==> code[0] == '2'
            &&& first_line(header) == line
        }),
{
    reveal_strlit(" ");
    reveal_strlit("\r\n");
    reveal_strlit("\r\n\r\n");
    let line = version + " "@ + code + " "@ + reason;
    let header = line + "\r\n\r\n"@;
    assert(!line.contains('\n')) by {
        assert(!version.contains('\n')) by {
            if version.contains('\n') {
                let i = choose|i: int| 0 <= i < version.len() && version[i] == '\n';
                assert(is_white(version[i]));
            }
        }
        assert(!code.contains('\n')) by {
            if code.contains('\n') {
                let i = choose|i: int| 0 <= i < code.len() && code[i] == '\n';
                assert(is_white(code[i]));
            }
        }
        lemma_free_concat(version, " "@, '\n');
        lemma_free_concat(version + " "@, code, '\n');
        lemma_free_concat(version + " "@ + code, " "@, '\n');
        lemma_free_concat(version + " "@ + code + " "@, reason, '\n');
    }
    law_first_line_ends_at_the_line_end(line, "\r\n"@);
    assert(header =~= line + "\r\n"@ + "\r\n"@);
    let none = Seq::<char>::empty();
    let after = " "@ + reason;
    assert(after[0] == ' ');
    law_second_word_decides(none, version, " "@, code, after);
    assert(line =~= none + version + " "@ + code + after);
}

/// Law: the request by its lines: what is asked for, the host, the credentials where
/// there are some, that the connection is kept, and an empty line. The target stands
/// in it with its port in decimal.
pub proof fn law_request_by_its_lines(target: Seq<char>, port: u16, basic: Seq<char>)
    requires
        !target.contains('\n'),
        !basic.contains('\n'),
    ensures
        split(connect_text(target, port, None), '\n') == seq![
            "CONNECT "@ + target + ":"@ + decimal(port as nat) + " HTTP/1.1\r"@,
            "Host: "@ + target + ":"@ + decimal(port as nat) + "\r"@,
            "Proxy-Connection: Keep-Alive\r"@,
            "\r"@,
            ""@,
        ],
        split(connect_text(target, port, Some(basic)), '\n') == seq![
            "CONNECT "@ + target + ":"@ + decimal(port as nat) + " HTTP/1.1\r"@,
            "Host: "@ + target + ":"@ + decimal(port as nat) + "\r"@,
            "Proxy-Authorization: Basic "@ + basic + "\r"@,
            "Proxy-Connection: Keep-Alive\r"@,
            "\r"@,
            ""@,
        ],
{
    reveal_strlit("CONNECT ");
    reveal_strlit(":");
    reveal_strlit(" HTTP/1.1\r");
    reveal_strlit("Host: ");
    reveal_strlit("\r");
    reveal_strlit("\r\n");
    reveal_strlit(" HTTP/1.1\r\nHost: ");
    reveal_strlit("Proxy-Authorization: Basic ");
    reveal_strlit("Proxy-Connection: Keep-Alive\r");
    reveal_strlit("Proxy-Connection: Keep-Alive\r\n\r\n");
    reveal_strlit("");
    let number = decimal(port as nat);
    lemma_decimal_free(port as nat, '\n');
    let l1 = "CONNECT "@ + target + ":"@ + number + " HTTP/1.1\r"@;
    let l2 = "Host: "@ + target + ":"@ + number + "\r"@;
    let l3 = "Proxy-Authorization: Basic "@ + basic + "\r"@;
    let l4 = "Proxy-Connection: Keep-Alive\r"@;
    let l5 = "\r"@;
    let l6 = ""@;
    lemma_free_concat("CONNECT "@, target, '\n');
    lemma_free_concat("CONNECT "@ + target, ":"@, '\n');
    lemma_free_concat("CONNECT "@ + target + ":"@, number, '\n');
    lemma_free_concat("CONNECT "@ + target + ":"@ + number, " HTTP/1.1\r"@, '\n');
    lemma_free_concat("Host: "@, target, '\n');
    lemma_free_concat("Host: "@ + target, ":"@, '\n');
    lemma_free_concat("Host: "@ + target + ":"@, number, '\n');
    lemma_free_concat("Host: "@ + target + ":"@ + number, "\r"@, '\n');
    lemma_free_concat("Proxy-Authorization: Basic "@, basic, '\n');
    lemma_free_concat("Proxy-Authorization: Basic "@ + basic, "\r"@, '\n');
    let t5 = l5.push('\n') + l6;
    let t4 = l4.push('\n') + t5;
    let t3 = l3.push('\n') + t4;
    let plain = l1.push('\n') + (l2.push('\n') + t4);
    let full = l1.push('\n') + (l2.push('\n') + t3);
    assert(connect_text(target, port, None) =~= plain);
    assert(connect_text(target, port, Some(basic)) =~= full);
    lemma_split_one(l6, '\n');
    lemma_split_front(l5, '\n', l6);
    lemma_split_front(l4, '\n', t5);
    lemma_split_front(l3, '\n', t4);
    lemma_split_front(l2, '\n', t4);
    lemma_split_front(l2, '\n', t3);
    lemma_split_front(l1, '\n', l2.push('\n') + t4);
    lemma_split_front(l1, '\n', l2.push('\n') + t3);
    assert(split(plain, '\n') =~= seq![l1, l2, l4, l5, l6]);
    assert(split(full, '\n') =~= seq![l1, l2, l3, l4, l5, l6]);
}

/// Law: the credentials are there exactly where both halves are, and are the base64
/// text of the user, a colon and the password.
pub proof fn law_credentials_are_joined_by_a_colon(
    user: Option<Seq<char>>,
    pass: Option<Seq<char>>,
    u: Seq<char>,
    p: Seq<char>,
)
    ensures
        basic_of(user, pass) is Some <==> user is Some && pass is Some,
        basic_of(Some(u), Some(p)) == Some(base64_standard(encode_utf8(u.push(':') + p))),
{
    reveal_strlit(":");
    assert(u + ":"@ + p =~= u.push(':') + p);
}

} // verus!
