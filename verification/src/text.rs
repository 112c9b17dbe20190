//! Text as sequences of characters: rendering and reading numbers, splitting,
//! and the few string operations that the other modules share.
use vstd::arithmetic::power::pow;
use vstd::prelude::*;

verus! {

/// `String::push`: appends one character.
pub assume_specification[ String::push ](s: &mut String, ch: char)
    ensures
        final(s)@ == old(s)@.push(ch),
;

/// The characters of `s`, in order.
pub fn chars_of(s: &str) -> (r: Vec<char>)
    ensures
        r@ == s@,
{
    let mut r: Vec<char> = Vec::new();
    for c in it: s.chars()
        invariant
            r@ == it.seq().take(it.index() as int),
            it.seq() == s@,
    {
        r.push(c);
        assert(r@ =~= it.seq().take(it.index() + 1));
    }
    assert(s@.take(s@.len() as int) =~= s@);
    r
}

/// The text that consists of the characters `from..to` of `v`.
pub fn text_of(v: &Vec<char>, from: usize, to: usize) -> (r: String)
    requires
        from <= to <= v.len(),
    ensures
        r@ == v@.subrange(from as int, to as int),
{
    let mut r = String::new();
    let mut i: usize = from;
    while i < to
        invariant
            from <= i <= to <= v.len(),
            r@ == v@.subrange(from as int, i as int),
        decreases to - i,
    {
        r.push(v[i]);
        i = i + 1;
        assert(r@ =~= v@.subrange(from as int, i as int));
    }
    r
}

/// Whether two texts hold the same characters.
pub fn same_text(a: &str, b: &str) -> (r: bool)
    ensures
        r == (a@ == b@),
{
    a.to_owned() == b.to_owned()
}

/// The character of a decimal digit.
pub open spec fn digit_char(d: nat) -> char
    recommends
        d < 10,
{
    (('0' as u32) + d) as char
}

/// The usual decimal spelling of `n`: no sign, no leading zero.
pub open spec fn decimal(n: nat) -> Seq<char>
    decreases n,
{
    if n < 10 {
        seq![digit_char(n)]
    } else {
        decimal(n / 10).push(digit_char(n % 10))
    }
}

/// The character of the decimal digit `d`.
fn digit(d: u64) -> (c: char)
    requires
        d < 10,
    ensures
        c == digit_char(d as nat),
{
    let code: u8 = 48 + d as u8;
    code as char
}

/// Appends the decimal spelling of `n` to `out`.
pub fn push_decimal(out: &mut String, n: u64)
    ensures
        final(out)@ == old(out)@ + decimal(n as nat),
    decreases n,
{
    if n >= 10 {
        push_decimal(out, n / 10);
    }
    out.push(digit(n % 10));
    assert(out@ =~= old(out)@ + decimal(n as nat));
}

/// Whether `c` is one of the ten ASCII digits.
pub open spec fn is_digit(c: char) -> bool {
    '0' as u32 <= c as u32 <= '9' as u32
}

/// The number that a digit stands for.
pub open spec fn digit_value(c: char) -> nat
    recommends
        is_digit(c),
{
    (c as u32 - '0' as u32) as nat
}

/// Whether `s` consists of ASCII digits only.
pub open spec fn all_digits(s: Seq<char>) -> bool {
    forall|i: int| 0 <= i < s.len() ==> is_digit(#[trigger] s[i])
}

/// The number that a run of digits spells in base ten.
pub open spec fn digits_value(s: Seq<char>) -> nat
    decreases s.len(),
{
    if s.len() == 0 {
        0
    } else {
        digits_value(s.drop_last()) * 10 + digit_value(s.last())
    }
}

/// `s` without the one leading `+` that an unsigned number may carry.
pub open spec fn without_plus(s: Seq<char>) -> Seq<char> {
    if s.len() > 0 && s[0] == '+' {
        s.drop_first()
    } else {
        s
    }
}

/// The unsigned number at most `max` that `s` spells: an optional `+`, then at
/// least one digit, and nothing else.
pub open spec fn unsigned_of(s: Seq<char>, max: nat) -> Option<nat> {
    let d = without_plus(s);
    if d.len() > 0 && all_digits(d) && digits_value(d) <= max {
        Some(digits_value(d))
    } else {
        None
    }
}

/// A run of digits spells at least what any of its prefixes spells.
proof fn lemma_prefix_value(s: Seq<char>, n: int)
    requires
        0 <= n <= s.len(),
    ensures
        digits_value(s.take(n)) <= digits_value(s),
    decreases s.len(),
{
    if n == s.len() {
        assert(s.take(n) =~= s);
    } else {
        lemma_prefix_value(s.drop_last(), n);
        assert(s.drop_last().take(n) =~= s.take(n));
    }
}

/// Reads the unsigned number at most `max` that `s` spells.
pub fn parse_unsigned(s: &str, max: u64) -> (r: Option<u64>)
    ensures
        match unsigned_of(s@, max as nat) {
            Some(n) => r is Some && r->0 == n,
            None => r is None,
        },
{
    let v = chars_of(s);
    let start: usize = if v.len() > 0 && v[0] == '+' { 1 } else { 0 };
    let ghost d = without_plus(s@);
    assert(d =~= v@.subrange(start as int, v.len() as int));
    if start == v.len() {
        return None;
    }
    let mut value: u64 = 0;
    let mut i: usize = start;
    while i < v.len()
        invariant
            start <= i <= v.len(),
            d == v@.subrange(start as int, v.len() as int),
            d == without_plus(s@),
            all_digits(d.take(i - start)),
            value == digits_value(d.take(i - start)),
            value <= max,
        decreases v.len() - i,
    {
        let c = v[i];
        let ghost k = i - start;
        assert(d[k] == c);
        let code: u32 = c as u32;
        if code < 48 || code > 57 {
            assert(!is_digit(d[k]));
            return None;
        }
        let x: u64 = (code - 48) as u64;
        assert(d.take(k + 1).drop_last() =~= d.take(k));
        assert(digits_value(d.take(k + 1)) == value * 10 + x);
        if x > max || value > max / 10 || value * 10 > max - x {
            proof {
                lemma_prefix_value(d, k + 1);
            }
            return None;
        }
        value = value * 10 + x;
        assert(all_digits(d.take(k + 1))) by {
            assert forall|j: int| 0 <= j < k + 1 implies is_digit(#[trigger] d.take(k + 1)[j]) by {
                if j < k {
                    assert(is_digit(d.take(k)[j]));
                }
            }
        }
        i = i + 1;
    }
    assert(d.take(d.len() as int) =~= d);
    Some(value)
}

/// Every digit of a decimal spelling is a digit, and the spelling is not empty.
pub proof fn lemma_decimal_digits(n: nat)
    ensures
        decimal(n).len() > 0,
        all_digits(decimal(n)),
    decreases n,
{
    if n >= 10 {
        lemma_decimal_digits(n / 10);
        assert forall|i: int| 0 <= i < decimal(n).len() implies is_digit(
            #[trigger] decimal(n)[i],
        ) by {
            if i < decimal(n / 10).len() {
                assert(decimal(n)[i] == decimal(n / 10)[i]);
            }
        }
    }
}

/// What a decimal spelling spells is the number itself.
pub proof fn lemma_decimal_value(n: nat)
    ensures
        digits_value(decimal(n)) == n,
    decreases n,
{
    reveal_with_fuel(digits_value, 2);
    if n < 10 {
        assert(decimal(n).drop_last() =~= Seq::<char>::empty());
    } else {
        lemma_decimal_value(n / 10);
        assert(decimal(n).drop_last() =~= decimal(n / 10));
    }
}

/// A number below the `k`-th power of ten has at most `k` digits.
pub proof fn lemma_decimal_len(n: nat, k: nat)
    requires
        k > 0,
        n < pow(10, k),
    ensures
        decimal(n).len() <= k,
    decreases k,
{
    reveal(pow);
    if n >= 10 {
        assert(k > 1) by {
            reveal_with_fuel(pow, 2);
        }
        lemma_decimal_len(n / 10, (k - 1) as nat);
    }
}

/// Law: a number that was rendered in decimal is read back as itself.
pub proof fn law_decimal_read_back(n: nat, max: nat)
    requires
        n <= max,
    ensures
        unsigned_of(decimal(n), max) == Some(n),
{
    lemma_decimal_digits(n);
    lemma_decimal_value(n);
    assert(is_digit(decimal(n)[0]));
}

/// The character of a hexadecimal digit, in lower case.
pub open spec fn hex_char(d: int) -> char
    recommends
        0 <= d < 16,
{
    if d < 10 {
        (('0' as u32) + d) as char
    } else {
        (('a' as u32) + d - 10) as char
    }
}

/// The bytes in lower-case hexadecimal, two characters for each, high digit first.
pub open spec fn hex(b: Seq<u8>) -> Seq<char> {
    Seq::new(
        2 * b.len(),
        |i: int| hex_char(if i % 2 == 0 { b[i / 2] as int / 16 } else { b[i / 2] as int % 16 }),
    )
}

/// The character of the hexadecimal digit `d`.
fn hex_digit(d: u8) -> (c: char)
    requires
        d < 16,
    ensures
        c == hex_char(d as int),
{
    let code: u8 = if d < 10 { 48 + d } else { 87 + d };
    code as char
}

/// Renders bytes in lower-case hexadecimal.
pub fn hex_text(b: &[u8]) -> (r: String)
    ensures
        r@ == hex(b@),
{
    let mut r = String::new();
    let mut i: usize = 0;
    while i < b.len()
        invariant
            0 <= i <= b.len(),
            r@ == hex(b@.take(i as int)),
        decreases b.len() - i,
    {
        r.push(hex_digit(b[i] / 16));
        r.push(hex_digit(b[i] % 16));
        i = i + 1;
        assert(r@ =~= hex(b@.take(i as int)));
    }
    assert(b@.take(b@.len() as int) =~= b@);
    r
}

/// The pieces of `s` between the occurrences of `sep`; at least one piece.
pub open spec fn split(s: Seq<char>, sep: char) -> Seq<Seq<char>>
    decreases s.len(),
{
    if s.len() == 0 {
        seq![Seq::<char>::empty()]
    } else {
        let head = split(s.drop_last(), sep);
        if s.last() == sep {
            head.push(Seq::<char>::empty())
        } else {
            head.drop_last().push(head.last().push(s.last()))
        }
    }
}

/// The pieces put together again, with `sep` between neighbours.
pub open spec fn join(pieces: Seq<Seq<char>>, sep: char) -> Seq<char>
    decreases pieces.len(),
{
    if pieces.len() == 0 {
        Seq::<char>::empty()
    } else if pieces.len() == 1 {
        pieces[0]
    } else {
        join(pieces.drop_last(), sep).push(sep) + pieces.last()
    }
}

/// Law: splitting at a separator leaves at least one piece, leaves the
/// separator in no piece, and joining the pieces gives the text back.
pub proof fn law_split_join(s: Seq<char>, sep: char)
    ensures
        split(s, sep).len() > 0,
        forall|i: int|
            0 <= i < split(s, sep).len() ==> !(#[trigger] split(s, sep)[i]).contains(sep),
        join(split(s, sep), sep) == s,
    decreases s.len(),
{
    let p = split(s, sep);
    if s.len() == 0 {
        assert(join(p, sep) =~= s);
    } else {
        let head = split(s.drop_last(), sep);
        law_split_join(s.drop_last(), sep);
        assert(s =~= s.drop_last().push(s.last()));
        if s.last() == sep {
            assert(p.drop_last() =~= head);
            assert(join(p, sep) =~= s);
        } else {
            assert(p.drop_last() =~= head.drop_last());
            assert(!head.last().contains(sep));
            assert forall|i: int| 0 <= i < p.len() implies !(#[trigger] p[i]).contains(sep) by {
                if i < p.len() - 1 {
                    assert(p[i] == head[i]);
                } else {
                    assert forall|j: int| 0 <= j < p[i].len() implies p[i][j] != sep by {
                        if j < head.last().len() {
                            assert(head.last()[j] == p[i][j]);
                        }
                    }
                }
            }
            if head.len() == 1 {
                assert(join(p, sep) =~= head[0].push(s.last()));
            } else {
                assert(join(p, sep) =~= join(head, sep).push(s.last()));
            }
        }
    }
}

/// Splitting leaves at least one piece.
proof fn lemma_split_some(s: Seq<char>, sep: char)
    ensures
        split(s, sep).len() > 0,
    decreases s.len(),
{
    if s.len() > 0 {
        lemma_split_some(s.drop_last(), sep);
    }
}

/// A text without the separator is one piece.
pub proof fn lemma_split_one(s: Seq<char>, sep: char)
    requires
        !s.contains(sep),
    ensures
        split(s, sep) == seq![s],
    decreases s.len(),
{
    if s.len() == 0 {
        assert(s =~= Seq::<char>::empty());
    } else {
        assert(s.last() != sep);
        assert(!s.drop_last().contains(sep)) by {
            if s.drop_last().contains(sep) {
                let i = choose|i: int| 0 <= i < s.len() - 1 && s.drop_last()[i] == sep;
                assert(s[i] == sep);
            }
        }
        lemma_split_one(s.drop_last(), sep);
        let head = split(s.drop_last(), sep);
        assert(head.drop_last() =~= Seq::<Seq<char>>::empty());
        assert(head.last().push(s.last()) =~= s);
        assert(split(s, sep) =~= seq![s]);
    }
}

/// A piece, a separator and a text split into the piece and the pieces of the
/// text.
pub proof fn lemma_split_front(a: Seq<char>, sep: char, b: Seq<char>)
    requires
        !a.contains(sep),
    ensures
        split(a.push(sep) + b, sep) == seq![a] + split(b, sep),
    decreases b.len(),
{
    let s = a.push(sep) + b;
    if b.len() == 0 {
        assert(s.drop_last() =~= a);
        lemma_split_one(a, sep);
        assert(split(s, sep) =~= seq![a] + split(b, sep));
    } else {
        assert(s.drop_last() =~= a.push(sep) + b.drop_last());
        lemma_split_front(a, sep, b.drop_last());
        lemma_split_some(b.drop_last(), sep);
        assert(split(s, sep) =~= seq![a] + split(b, sep));
    }
}

/// Four pieces with separators between them split into the four pieces.
pub proof fn lemma_split_four(
    a: Seq<char>,
    b: Seq<char>,
    c: Seq<char>,
    d: Seq<char>,
    sep: char,
)
    requires
        !a.contains(sep),
        !b.contains(sep),
        !c.contains(sep),
        !d.contains(sep),
    ensures
        split(a.push(sep) + (b.push(sep) + (c.push(sep) + d)), sep) == seq![a, b, c, d],
{
    let x = c.push(sep) + d;
    let y = b.push(sep) + x;
    lemma_split_one(d, sep);
    lemma_split_front(c, sep, d);
    lemma_split_front(b, sep, x);
    lemma_split_front(a, sep, y);
    assert(split(a.push(sep) + y, sep) =~= seq![a, b, c, d]);
}

/// Splits a text at every occurrence of `sep`.
pub fn split_text(s: &str, sep: char) -> (r: Vec<String>)
    ensures
        r.deep_view() == split(s@, sep),
        r.len() > 0,
{
    let v = chars_of(s);
    let mut r: Vec<String> = Vec::new();
    let mut piece = String::new();
    let mut i: usize = 0;
    assert(r.deep_view().push(piece@) =~= split(s@.take(0), sep));
    while i < v.len()
        invariant
            0 <= i <= v.len(),
            v@ == s@,
            r.deep_view().push(piece@) == split(s@.take(i as int), sep),
        decreases v.len() - i,
    {
        let c = v[i];
        let ghost before = r.deep_view().push(piece@);
        assert(s@.take(i + 1).drop_last() =~= s@.take(i as int));
        if c == sep {
            r.push(piece);
            piece = String::new();
            assert(r.deep_view() =~= before);
        } else {
            piece.push(c);
            assert(r.deep_view() =~= before.drop_last());
        }
        i = i + 1;
        assert(r.deep_view().push(piece@) =~= split(s@.take(i as int), sep));
    }
    assert(s@.take(s@.len() as int) =~= s@);
    let ghost before = r.deep_view().push(piece@);
    r.push(piece);
    assert(r.deep_view() =~= before);
    r
}

/// The first place of `c` in `s`, or the length of `s` where it does not occur.
pub open spec fn first_place(s: Seq<char>, c: char) -> int
    decreases s.len(),
{
    if s.len() == 0 {
        0
    } else if s[0] == c {
        0
    } else {
        1 + first_place(s.drop_first(), c)
    }
}

/// What [`first_place`] finds: the character is there, and nowhere before.
pub proof fn lemma_first_place(s: Seq<char>, c: char)
    ensures
        0 <= first_place(s, c) <= s.len(),
        first_place(s, c) < s.len() ==> s[first_place(s, c)] == c,
        forall|i: int| 0 <= i < first_place(s, c) ==> s[i] != c,
    decreases s.len(),
{
    if s.len() > 0 && s[0] != c {
        lemma_first_place(s.drop_first(), c);
        assert forall|i: int| 0 <= i < first_place(s, c) implies s[i] != c by {
            if i > 0 {
                assert(s.drop_first()[i - 1] == s[i]);
            }
        }
    }
}

/// A place with nothing like it before it is the first place.
pub proof fn lemma_first_place_is(s: Seq<char>, c: char, n: int)
    requires
        0 <= n <= s.len(),
        n < s.len() ==> s[n] == c,
        forall|i: int| 0 <= i < n ==> s[i] != c,
    ensures
        first_place(s, c) == n,
{
    lemma_first_place(s, c);
    let m = first_place(s, c);
    if m < n {
        assert(s[m] != c);
    } else if n < m {
        assert(s[n] != c);
    }
}

/// Finds the first place of `c` in `v`; the length where there is none.
pub fn find_char(v: &Vec<char>, c: char) -> (r: usize)
    ensures
        r == first_place(v@, c),
        r <= v.len(),
{
    let mut i: usize = 0;
    while i < v.len()
        invariant
            0 <= i <= v.len(),
            forall|j: int| 0 <= j < i ==> v@[j] != c,
        decreases v.len() - i,
    {
        if v[i] == c {
            proof {
                lemma_first_place_is(v@, c, i as int);
            }
            return i;
        }
        i = i + 1;
    }
    proof {
        lemma_first_place_is(v@, c, i as int);
    }
    i
}

/// `s` with every `from` turned into `to`.
pub open spec fn replaced(s: Seq<char>, from: char, to: char) -> Seq<char> {
    s.map_values(|c: char| if c == from { to } else { c })
}

/// Turns every `from` of a text into `to`.
pub fn replace_char(s: &str, from: char, to: char) -> (r: String)
    ensures
        r@ == replaced(s@, from, to),
{
    let v = chars_of(s);
    let mut r = String::new();
    let mut i: usize = 0;
    while i < v.len()
        invariant
            0 <= i <= v.len(),
            v@ == s@,
            r@ == replaced(s@.take(i as int), from, to),
        decreases v.len() - i,
    {
        let c = v[i];
        r.push(if c == from { to } else { c });
        i = i + 1;
        assert(r@ =~= replaced(s@.take(i as int), from, to));
    }
    assert(s@.take(s@.len() as int) =~= s@);
    r
}

/// Whether two byte slices hold the same bytes.
pub fn same_bytes(a: &[u8], b: &[u8]) -> (r: bool)
    ensures
        r == (a@ == b@),
{
    if a.len() != b.len() {
        return false;
    }
    let mut i: usize = 0;
    while i < a.len()
        invariant
            0 <= i <= a.len(),
            a.len() == b.len(),
            forall|j: int| 0 <= j < i ==> a@[j] == b@[j],
        decreases a.len() - i,
    {
        if a[i] != b[i] {
            return false;
        }
        i = i + 1;
    }
    assert(a@ =~= b@);
    true
}

/// Law: a digit more at the end of a number is a digit more at the end of its
/// decimal spelling; a number below ten is its one digit.
pub proof fn law_decimal_grows_by_digits(n: nat, d: nat, c: char)
    requires
        d < 10,
        c as u32 == 48 + d,
    ensures
        decimal(d) == seq![c],
        n > 0 ==> decimal(10 * n + d) == decimal(n).push(c),
{
    assert((10 * n + d) / 10 == n && (10 * n + d) % 10 == d);
    assert(digit_char(d) == c);
}

/// Zeros in front change nothing of what digits spell.
proof fn lemma_zeros_in_front(k: nat, s: Seq<char>)
    requires
        all_digits(s),
    ensures
        digits_value(Seq::new(k, |i: int| '0') + s) == digits_value(s),
        all_digits(Seq::new(k, |i: int| '0') + s),
    decreases k, s.len(),
{
    let zeros = Seq::new(k, |i: int| '0');
    let all = zeros + s;
    if s.len() > 0 {
        assert(all_digits(s.drop_last()));
        lemma_zeros_in_front(k, s.drop_last());
        assert(all.drop_last() =~= zeros + s.drop_last());
        assert(all.last() == s.last());
    } else if k > 0 {
        let fewer = Seq::new((k - 1) as nat, |i: int| '0');
        lemma_zeros_in_front((k - 1) as nat, s);
        assert(all.drop_last() =~= fewer + s);
        assert(all.last() == '0');
    } else {
        assert(all =~= s);
    }
    assert forall|i: int| 0 <= i < all.len() implies is_digit(#[trigger] all[i]) by {
        if i >= k {
            assert(all[i] == s[i - k]);
        }
    }
}

/// Law: a number is read whatever zeros stand in front of it, and where it is not
/// over the limit; otherwise nothing is read.
pub proof fn law_number_is_read_up_to_the_limit(n: nat, max: nat, zeros: nat)
    ensures
        unsigned_of(Seq::new(zeros, |i: int| '0') + decimal(n), max) == (if n <= max {
            Some(n)
        } else {
            None
        }),
{
    lemma_decimal_digits(n);
    lemma_decimal_value(n);
    lemma_zeros_in_front(zeros, decimal(n));
    let s = Seq::new(zeros, |i: int| '0') + decimal(n);
    assert(is_digit(s[0]));
}

/// Law: one plus sign in front of a number changes nothing, a second one is no part
/// of a number, and neither is any other character that is no digit.
pub proof fn law_number_holds_digits_only(s: Seq<char>, i: int, max: nat)
    ensures
        (s.len() == 0 || s[0] != '+') ==> unsigned_of(seq!['+'] + s, max) == unsigned_of(s, max),
        (s.len() > 0 && s[0] == '+') ==> unsigned_of(seq!['+'] + s, max) is None,
        s.len() == 0 ==> unsigned_of(s, max) is None,
        (0 <= i < s.len() && (i > 0 || s[i] != '+') && ((s[i] as u32) < 48 || s[i] as u32 > 57))
            ==> unsigned_of(s, max) is None,
{
    let p = seq!['+'] + s;
    assert(p.drop_first() =~= s);
    if s.len() > 0 && s[0] == '+' {
        assert(!is_digit(without_plus(p)[0]));
    }
    if 0 <= i < s.len() && (i > 0 || s[i] != '+') && ((s[i] as u32) < 48 || s[i] as u32 > 57) {
        let d = without_plus(s);
        let j = if s[0] == '+' { i - 1 } else { i };
        assert(d[j] == s[i]);
        assert(!is_digit(d[j]));
    }
}

/// Law: hexadecimal text has two lower-case digits for every byte, which read back
/// as that byte.
pub proof fn law_hex_reads_back(b: Seq<u8>, i: int)
    requires
        0 <= i < b.len(),
    ensures
        hex(b).len() == 2 * b.len(),
        ({
            let x = hex(b)[2 * i] as int;
            let y = hex(b)[2 * i + 1] as int;
            let high = if x <= 57 { x - 48 } else { x - 87 };
            let low = if y <= 57 { y - 48 } else { y - 87 };
            &&& 48 <= x <= 57 || 97 <= x <= 102
            &&& 48 <= y <= 57 || 97 <= y <= 102
            &&& 16 * high + low == b[i]
        }),
{
    let j = 2 * i;
    let k = 2 * i + 1;
    assert(j / 2 == i && k / 2 == i && j % 2 == 0 && k % 2 == 1);
    assert(hex(b)[j] == hex_char(b[j / 2] as int / 16));
    assert(hex(b)[k] == hex_char(b[k / 2] as int % 16));
}

/// Law: replacing a character keeps the length and every other character.
pub proof fn law_replaced_keeps_the_rest(s: Seq<char>, from: char, to: char, i: int)
    requires
        0 <= i < s.len(),
    ensures
        replaced(s, from, to).len() == s.len(),
        s[i] == from ==> replaced(s, from, to)[i] == to,
        s[i] != from ==> replaced(s, from, to)[i] == s[i],
{
}

/// Texts without a separator make a text without it.
pub proof fn lemma_free_concat(a: Seq<char>, b: Seq<char>, sep: char)
    requires
        !a.contains(sep),
        !b.contains(sep),
    ensures
        !(a + b).contains(sep),
{
    assert forall|i: int| 0 <= i < (a + b).len() implies #[trigger] (a + b)[i] != sep by {
        if i < a.len() {
            assert(a[i] != sep);
        } else {
            assert(b[i - a.len()] != sep);
        }
    }
}

/// A decimal spelling holds digits only.
pub proof fn lemma_decimal_free(n: nat, sep: char)
    requires
        (sep as u32) < 48 || sep as u32 > 57,
    ensures
        !decimal(n).contains(sep),
{
    lemma_decimal_digits(n);
    if decimal(n).contains(sep) {
        let i = choose|i: int| 0 <= i < decimal(n).len() && decimal(n)[i] == sep;
        assert(is_digit(decimal(n)[i]));
    }
}

} // verus!
