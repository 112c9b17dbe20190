//! The usage statistics: what was tunnelled, over how many connections, and since
//! when.
use crate::proxy::outbound::{query_of, record_pairs, record_url_of};
use crate::text::{
    decimal, is_digit, law_decimal_read_back, lemma_decimal_digits, lemma_decimal_len,
    parse_unsigned, same_text, unsigned_of,
};
use vstd::prelude::*;
use vstd::string::StringExecFns;

verus! {

/// The counters that are kept.
#[derive(Clone, Copy, Debug, PartialEq, Eq)]
pub struct Counters {
    pub up_bytes: u64,
    pub down_bytes: u64,
    pub connections: u64,
    /// When counting began, in milliseconds.
    pub first_seen: u64,
}

/// The counters, kept in memory once they were loaded.
#[derive(Debug)]
pub struct StatsCounter {
    pub cache: Option<Counters>,
}

/// What a request to the statistics asks for.
#[derive(Clone, Copy, Debug, PartialEq, Eq)]
pub enum StatsRequest {
    /// Add one connection with this traffic.
    Record { up: u64, down: u64 },
    /// Report the counters.
    Stats,
}

/// The number that a query gives for `key`: that of its last pair with this key,
/// and zero where there is none or it is no number.
pub open spec fn query_number(pairs: Seq<(Seq<char>, Seq<char>)>, key: Seq<char>) -> u64
    decreases pairs.len(),
{
    if pairs.len() == 0 {
        0
    } else if pairs.last().0 == key {
        match unsigned_of(pairs.last().1, u64::MAX as nat) {
            Some(n) => n as u64,
            None => 0,
        }
    } else {
        query_number(pairs.drop_last(), key)
    }
}

/// What a request with this path and query asks for.
pub open spec fn request_of(path: Seq<char>, pairs: Seq<(Seq<char>, Seq<char>)>) -> StatsRequest {
    if path == "/record"@ {
        StatsRequest::Record {
            up: query_number(pairs, "up"@),
            down: query_number(pairs, "down"@),
        }
    } else {
        StatsRequest::Stats
    }
}

/// What the `Url` of `worker` makes of a text: its path, as it stands in the URL, and
/// the decoded pairs of its query, or nothing where the text is no absolute URL.
pub uninterp spec fn url_parts(text: Seq<char>) -> Option<
    (Seq<char>, Seq<(Seq<char>, Seq<char>)>),
>;

/// Whether `s` is made of lower-case ASCII letters and digits, and not empty.
pub open spec fn is_word(s: Seq<char>) -> bool {
    &&& s.len() > 0
    &&& forall|i: int|
        0 <= i < s.len() ==> ('a' as u32 <= #[trigger] s[i] as u32 <= 'z' as u32 || is_digit(s[i]))
}

/// Whether `text` is a URL of the statistics with one word as its path, and two
/// pairs of words as its query.
pub open spec fn is_report_url(
    text: Seq<char>,
    path: Seq<char>,
    pairs: Seq<(Seq<char>, Seq<char>)>,
) -> bool {
    &&& is_word(path)
    &&& pairs.len() == 2
    &&& is_word(pairs[0].0) && is_word(pairs[0].1)
    &&& is_word(pairs[1].0) && is_word(pairs[1].1)
    &&& text == "https://stats.internal/"@ + path + "?"@ + query_of(pairs)
    &&& text.len() <= u32::MAX
}

/// `Url::parse` of `worker`, with `path` and `query_pairs` of the URL. The parts are
/// a function of the text. Those of a URL that is made of plain words, which are
/// encoded as themselves, are the words; what other texts give is not spelled out.
#[verifier::external_body]
fn parse_url(text: &str) -> (r: Option<(String, Vec<(String, String)>)>)
    ensures
        match r {
            Some(p) => url_parts(text@) == Some((p.0@, p.1.deep_view())),
            None => url_parts(text@) is None,
        },
        forall|path: Seq<char>, pairs: Seq<(Seq<char>, Seq<char>)>|
            #[trigger] is_report_url(text@, path, pairs) ==> r is Some && (r->0).0@ == "/"@ + path
                && (r->0).1.deep_view() == pairs,
{
    worker::Url::parse(text).ok().map(
        |u| (u.path().to_string(), u.query_pairs().into_owned().collect()),
    )
}

/// Reads the number of one pair; zero where it is none.
fn number_or_zero(s: &str) -> (r: u64)
    ensures
        r == (match unsigned_of(s@, u64::MAX as nat) {
            Some(n) => n as u64,
            None => 0u64,
        }),
{
    match parse_unsigned(s, u64::MAX) {
        Some(n) => n,
        None => 0,
    }
}

/// How loading the counters goes on.
#[derive(Clone, Copy, Debug, PartialEq, Eq)]
pub enum LoadStep {
    /// Read the stored numbers, and the time.
    Read,
    /// Store the time at which counting began.
    PutFirstSeen(Counters),
    /// The counters are there.
    Ready(Counters),
}

/// What happened while loading the counters.
#[derive(Clone, Copy, Debug, PartialEq, Eq)]
pub enum LoadEvent {
    Start,
    /// The numbers that the store holds, and the time.
    Stored {
        up_bytes: Option<u64>,
        down_bytes: Option<u64>,
        connections: Option<u64>,
        first_seen: Option<u64>,
        now: u64,
    },
    /// The time at which counting began was stored.
    FirstSeenPut(Counters),
}

/// A stored number, zero where there is none.
pub open spec fn or_zero(n: Option<u64>) -> u64 {
    match n {
        Some(n) => n,
        None => 0,
    }
}

/// How loading goes on after an event.
pub open spec fn load_step(cache: Option<Counters>, event: LoadEvent) -> LoadStep {
    match event {
        LoadEvent::Start => match cache {
            Some(c) => LoadStep::Ready(c),
            None => LoadStep::Read,
        },
        LoadEvent::Stored { up_bytes, down_bytes, connections, first_seen, now } => {
            let c = Counters {
                up_bytes: or_zero(up_bytes),
                down_bytes: or_zero(down_bytes),
                connections: or_zero(connections),
                first_seen: match first_seen {
                    Some(t) => t,
                    None => now,
                },
            };
            if first_seen is Some {
                LoadStep::Ready(c)
            } else {
                LoadStep::PutFirstSeen(c)
            }
        },
        LoadEvent::FirstSeenPut(c) => LoadStep::Ready(c),
    }
}

/// The counters after one more connection.
pub open spec fn recorded(c: Counters, up: u64, down: u64) -> Counters {
    Counters {
        up_bytes: (c.up_bytes + up) as u64,
        down_bytes: (c.down_bytes + down) as u64,
        connections: (c.connections + 1) as u64,
        first_seen: c.first_seen,
    }
}

/// What is in memory after an event of loading.
pub open spec fn cache_after(cache: Option<Counters>, event: LoadEvent) -> Option<Counters> {
    match load_step(cache, event) {
        LoadStep::Ready(c) => Some(c),
        _ => cache,
    }
}

/// What is in memory after one more connection.
pub open spec fn cache_after_record(loaded: Counters, up: u64, down: u64) -> Option<Counters> {
    Some(recorded(loaded, up, down))
}

/// The numbers that are stored after a connection was added.
pub open spec fn writes_of(c: Counters) -> Seq<(Seq<char>, u64)> {
    seq![
        ("up_bytes"@, c.up_bytes),
        ("down_bytes"@, c.down_bytes),
        ("connections"@, c.connections),
    ]
}

/// The numbers of a report under the names by which they are reported.
pub open spec fn entries_of(r: Report) -> Seq<(Seq<char>, u64)> {
    seq![
        ("up_bytes"@, r.up_bytes),
        ("down_bytes"@, r.down_bytes),
        ("total_bytes"@, r.total_bytes),
        ("connections"@, r.connections),
        ("first_seen"@, r.first_seen),
        ("uptime_seconds"@, r.uptime_seconds),
    ]
}

/// The last number under a name.
pub open spec fn number_under(entries: Seq<(Seq<char>, u64)>, name: Seq<char>) -> Option<u64>
    decreases entries.len(),
{
    if entries.len() == 0 {
        None
    } else if entries.last().0 == name {
        Some(entries.last().1)
    } else {
        number_under(entries.drop_last(), name)
    }
}

/// Whether the counters can take one more connection.
pub open spec fn has_room(c: Counters, up: u64, down: u64) -> bool {
    &&& c.up_bytes + up <= u64::MAX
    &&& c.down_bytes + down <= u64::MAX
    &&& c.connections < u64::MAX
}

/// What is reported.
#[derive(Clone, Copy, Debug, PartialEq, Eq)]
pub struct Report {
    pub up_bytes: u64,
    pub down_bytes: u64,
    pub total_bytes: u64,
    pub connections: u64,
    pub first_seen: u64,
    pub uptime_seconds: u64,
}

/// The report on counters at a time. A clock that runs before the time at which
/// counting began counts as standing there.
pub open spec fn report_of(c: Counters, now: u64) -> Report {
    Report {
        up_bytes: c.up_bytes,
        down_bytes: c.down_bytes,
        total_bytes: (c.up_bytes + c.down_bytes) as u64,
        connections: c.connections,
        first_seen: c.first_seen,
        uptime_seconds: if now > c.first_seen {
            ((now - c.first_seen) / 1000) as u64
        } else {
            0
        },
    }
}

impl StatsCounter {
    /// Nothing loaded yet.
    pub fn new() -> (r: Self)
        ensures
            r.cache is None,
    {
        StatsCounter { cache: None }
    }

    /// Tells what a request with this path and query asks for.
    pub fn fetch(path: &str, pairs: &Vec<(String, String)>) -> (r: StatsRequest)
        ensures
            r == request_of(path@, pairs.deep_view()),
    {
        if !same_text(path, "/record") {
            return StatsRequest::Stats;
        }
        let mut up: u64 = 0;
        let mut down: u64 = 0;
        let mut i: usize = 0;
        let ghost all = pairs.deep_view();
        assert("up"@ != "down"@) by {
            reveal_strlit("up");
            reveal_strlit("down");
            assert("up"@.len() == 2 && "down"@.len() == 4);
        }
        while i < pairs.len()
            invariant
                0 <= i <= pairs.len(),
                all == pairs.deep_view(),
                "up"@ != "down"@,
                up == query_number(all.take(i as int), "up"@),
                down == query_number(all.take(i as int), "down"@),
            decreases pairs.len() - i,
        {
            let pair = &pairs[i];
            assert(all[i as int] == (pair.0@, pair.1@));
            assert(all.take(i + 1).drop_last() =~= all.take(i as int));
            if same_text(pair.0.as_str(), "up") {
                up = number_or_zero(pair.1.as_str());
            } else if same_text(pair.0.as_str(), "down") {
                down = number_or_zero(pair.1.as_str());
            }
            i = i + 1;
        }
        assert(all.take(all.len() as int) =~= all);
        StatsRequest::Record { up, down }
    }

    /// Tells what a request with this URL asks for, where it is one. A URL in which
    /// traffic is reported asks to record exactly that traffic.
    pub fn fetch_url(text: &str) -> (r: Option<StatsRequest>)
        ensures
            match url_parts(text@) {
                Some(p) => r == Some(request_of(p.0, p.1)),
                None => r is None,
            },
            forall|up: u64, down: u64|
                text@ == #[trigger] record_url_of(up, down) ==> r == Some(
                    StatsRequest::Record { up, down },
                ),
    {
        let parts = parse_url(text);
        assert forall|up: u64, down: u64| text@ == #[trigger] record_url_of(up, down) implies parts
            is Some && request_of((parts->0).0@, (parts->0).1.deep_view()) == (
        StatsRequest::Record { up, down }) by {
            law_reported_traffic_is_counted(up, down);
            assert(is_report_url(text@, "record"@, record_pairs(up, down)));
        }
        match parts {
            Some((path, pairs)) => Some(StatsCounter::fetch(path.as_str(), &pairs)),
            None => None,
        }
    }

    /// Takes an event of loading in. What is ready is kept in memory.
    pub fn load(&mut self, event: LoadEvent) -> (r: LoadStep)
        ensures
            r == load_step(old(self).cache, event),
            final(self).cache == (match r {
                LoadStep::Ready(c) => Some(c),
                _ => old(self).cache,
            }),
            final(self).cache == cache_after(old(self).cache, event),
    {
        match event {
            LoadEvent::Start => match self.cache {
                Some(c) => LoadStep::Ready(c),
                None => LoadStep::Read,
            },
            LoadEvent::Stored { up_bytes, down_bytes, connections, first_seen, now } => {
                let c = Counters {
                    up_bytes: up_bytes.unwrap_or(0),
                    down_bytes: down_bytes.unwrap_or(0),
                    connections: connections.unwrap_or(0),
                    first_seen: first_seen.unwrap_or(now),
                };
                if first_seen.is_some() {
                    self.cache = Some(c);
                    LoadStep::Ready(c)
                } else {
                    LoadStep::PutFirstSeen(c)
                }
            },
            LoadEvent::FirstSeenPut(c) => {
                self.cache = Some(c);
                LoadStep::Ready(c)
            },
        }
    }

    /// Adds one connection to the counters that were loaded, and keeps the sum in
    /// memory. The sum is to be stored.
    pub fn handle_record(&mut self, loaded: Counters, up: u64, down: u64) -> (r: Counters)
        requires
            has_room(loaded, up, down),
        ensures
            r == recorded(loaded, up, down),
            final(self).cache == Some(r),
            final(self).cache == cache_after_record(loaded, up, down),
    {
        let c = Counters {
            up_bytes: loaded.up_bytes + up,
            down_bytes: loaded.down_bytes + down,
            connections: loaded.connections + 1,
            first_seen: loaded.first_seen,
        };
        self.cache = Some(c);
        c
    }

    /// Reports on the counters that were loaded.
    pub fn handle_stats(&self, loaded: Counters, now: u64) -> (r: Report)
        requires
            loaded.up_bytes + loaded.down_bytes <= u64::MAX,
        ensures
            r == report_of(loaded, now),
    {
        Report {
            up_bytes: loaded.up_bytes,
            down_bytes: loaded.down_bytes,
            total_bytes: loaded.up_bytes + loaded.down_bytes,
            connections: loaded.connections,
            first_seen: loaded.first_seen,
            uptime_seconds: now.saturating_sub(loaded.first_seen) / 1000,
        }
    }
}

/// A named number.
fn entry(name: &str, n: u64) -> (r: (String, u64))
    ensures
        r.0@ == name@,
        r.1 == n,
{
    (String::from_str(name), n)
}

impl Counters {
    /// The numbers that are stored after a connection was added, in the order in
    /// which they are stored.
    pub fn writes(&self) -> (r: Vec<(String, u64)>)
        ensures
            r.deep_view() == seq![
                ("up_bytes"@, self.up_bytes),
                ("down_bytes"@, self.down_bytes),
                ("connections"@, self.connections),
            ],
            r.deep_view() == writes_of(*self),
    {
        let r = vec![
            entry("up_bytes", self.up_bytes),
            entry("down_bytes", self.down_bytes),
            entry("connections", self.connections),
        ];
        assert(r.deep_view() =~= seq![
            ("up_bytes"@, self.up_bytes),
            ("down_bytes"@, self.down_bytes),
            ("connections"@, self.connections),
        ]);
        r
    }
}

impl Report {
    /// The numbers of the report under the names by which they are reported.
    pub fn entries(&self) -> (r: Vec<(String, u64)>)
        ensures
            r.deep_view() == seq![
                ("up_bytes"@, self.up_bytes),
                ("down_bytes"@, self.down_bytes),
                ("total_bytes"@, self.total_bytes),
                ("connections"@, self.connections),
                ("first_seen"@, self.first_seen),
                ("uptime_seconds"@, self.uptime_seconds),
            ],
            r.deep_view() == entries_of(*self),
    {
        let r = vec![
            entry("up_bytes", self.up_bytes),
            entry("down_bytes", self.down_bytes),
            entry("total_bytes", self.total_bytes),
            entry("connections", self.connections),
            entry("first_seen", self.first_seen),
            entry("uptime_seconds", self.uptime_seconds),
        ];
        assert(r.deep_view() =~= seq![
            ("up_bytes"@, self.up_bytes),
            ("down_bytes"@, self.down_bytes),
            ("total_bytes"@, self.total_bytes),
            ("connections"@, self.connections),
            ("first_seen"@, self.first_seen),
            ("uptime_seconds"@, self.uptime_seconds),
        ]);
        r
    }
}

/// Law: traffic that a tunnel reports is counted as it was reported: the URL of the
/// report is made of plain words, and what they ask for is to record that traffic.
pub proof fn law_reported_traffic_is_counted(up: u64, down: u64)
    ensures
        is_report_url(record_url_of(up, down), "record"@, record_pairs(up, down)),
        request_of("/"@ + "record"@, record_pairs(up, down)) == (StatsRequest::Record { up, down }),
{
    reveal_with_fuel(query_number, 3);
    reveal_strlit("up");
    reveal_strlit("down");
    reveal_strlit("record");
    reveal_strlit("/");
    reveal_strlit("/record");
    reveal_strlit("https://stats.internal/");
    reveal_strlit("https://stats.internal/record?");
    reveal_strlit("?");
    reveal_strlit("=");
    reveal_strlit("&");
    assert("/"@ + "record"@ =~= "/record"@);
    assert("up"@.len() == 2 && "down"@.len() == 4);
    let p = record_pairs(up, down);
    assert(p.drop_last()[0] == p[0]);
    law_decimal_read_back(up as nat, u64::MAX as nat);
    law_decimal_read_back(down as nat, u64::MAX as nat);
    lemma_decimal_word(up);
    lemma_decimal_word(down);
    assert("https://stats.internal/"@ + "record"@ + "?"@ =~= "https://stats.internal/record?"@);
}

/// A number in decimal is a short word.
proof fn lemma_decimal_word(n: u64)
    ensures
        is_word(decimal(n as nat)),
        decimal(n as nat).len() <= 20,
{
    lemma_decimal_digits(n as nat);
    reveal_with_fuel(vstd::arithmetic::power::pow, 21);
    lemma_decimal_len(n as nat, 20);
}

/// The counters after the first `n` of the connections.
pub open spec fn recorded_after(c: Counters, traffic: Seq<(u64, u64)>, n: nat) -> Counters
    decreases n,
{
    if n == 0 {
        c
    } else {
        let before = recorded_after(c, traffic, (n - 1) as nat);
        recorded(before, traffic[n - 1].0, traffic[n - 1].1)
    }
}

/// All that went up in the first `n` connections.
pub open spec fn total_up(traffic: Seq<(u64, u64)>, n: nat) -> nat
    decreases n,
{
    if n == 0 {
        0
    } else {
        total_up(traffic, (n - 1) as nat) + traffic[n - 1].0 as nat
    }
}

/// All that went down in the first `n` connections.
pub open spec fn total_down(traffic: Seq<(u64, u64)>, n: nat) -> nat
    decreases n,
{
    if n == 0 {
        0
    } else {
        total_down(traffic, (n - 1) as nat) + traffic[n - 1].1 as nat
    }
}

/// Law: the counters are the sums over all connections, as long as the sums fit;
/// the time at which counting began never changes.
pub proof fn law_counters_are_sums(c: Counters, traffic: Seq<(u64, u64)>, n: nat)
    requires
        n <= traffic.len(),
        c.up_bytes + total_up(traffic, n) <= u64::MAX,
        c.down_bytes + total_down(traffic, n) <= u64::MAX,
        c.connections + n <= u64::MAX,
    ensures
        recorded_after(c, traffic, n).up_bytes == c.up_bytes + total_up(traffic, n),
        recorded_after(c, traffic, n).down_bytes == c.down_bytes + total_down(traffic, n),
        recorded_after(c, traffic, n).connections == c.connections + n,
        recorded_after(c, traffic, n).first_seen == c.first_seen,
    decreases n,
{
    if n > 0 {
        law_counters_are_sums(c, traffic, (n - 1) as nat);
    }
}

/// The sums over all connections but one.
proof fn lemma_totals_without(traffic: Seq<(u64, u64)>, i: int)
    requires
        0 <= i < traffic.len(),
    ensures
        total_up(traffic, traffic.len()) == total_up(traffic.remove(i), (traffic.len() - 1) as nat)
            + traffic[i].0,
        total_down(traffic, traffic.len()) == total_down(
            traffic.remove(i),
            (traffic.len() - 1) as nat,
        ) + traffic[i].1,
    decreases traffic.len(),
{
    let n = traffic.len();
    let front = traffic.drop_last();
    lemma_totals_front(traffic, front, (n - 1) as nat);
    if i == n - 1 {
        assert(traffic.remove(i) =~= front);
    } else {
        lemma_totals_without(front, i);
        let rest = traffic.remove(i);
        assert(rest.last() == traffic.last());
        lemma_totals_front(rest, front.remove(i), (n - 2) as nat);
    }
}

/// The sums over the first connections depend on these alone.
proof fn lemma_totals_front(a: Seq<(u64, u64)>, b: Seq<(u64, u64)>, n: nat)
    requires
        n <= a.len(),
        n <= b.len(),
        forall|i: int| 0 <= i < n ==> a[i] == b[i],
    ensures
        total_up(a, n) == total_up(b, n),
        total_down(a, n) == total_down(b, n),
    decreases n,
{
    if n > 0 {
        lemma_totals_front(a, b, (n - 1) as nat);
    }
}

/// The sums over the same connections in another order are the same.
proof fn lemma_totals_reordered(a: Seq<(u64, u64)>, b: Seq<(u64, u64)>)
    requires
        a.to_multiset() == b.to_multiset(),
    ensures
        a.len() == b.len(),
        total_up(a, a.len()) == total_up(b, b.len()),
        total_down(a, a.len()) == total_down(b, b.len()),
    decreases a.len(),
{
    a.to_multiset_ensures();
    b.to_multiset_ensures();
    if a.len() > 0 {
        let k = a.len() - 1;
        assert(a.contains(a[k]));
        assert(b.to_multiset().count(a[k]) > 0);
        let i = choose|i: int| 0 <= i < b.len() && b[i] == a[k];
        lemma_totals_without(a, k);
        lemma_totals_without(b, i);
        assert(a.remove(k).to_multiset() =~= b.remove(i).to_multiset());
        lemma_totals_reordered(a.remove(k), b.remove(i));
    }
}

/// Law: the counters do not depend on the order of the connections, as long as the
/// sums fit.
pub proof fn law_counters_ignore_order(
    c: Counters,
    a: Seq<(u64, u64)>,
    b: Seq<(u64, u64)>,
)
    requires
        a.to_multiset() == b.to_multiset(),
        c.up_bytes + total_up(a, a.len()) <= u64::MAX,
        c.down_bytes + total_down(a, a.len()) <= u64::MAX,
        c.connections + a.len() <= u64::MAX,
    ensures
        recorded_after(c, a, a.len()) == recorded_after(c, b, b.len()),
{
    lemma_totals_reordered(a, b);
    law_counters_are_sums(c, a, a.len());
    law_counters_are_sums(c, b, b.len());
}

/// Law: once the counters were loaded or recorded, loading them again gives them
/// at once, whatever the store holds.
pub proof fn law_loaded_counters_are_kept(cache: Option<Counters>, event: LoadEvent)
    requires
        load_step(cache, event) is Ready,
    ensures
        load_step(Some(load_step(cache, event)->Ready_0), LoadEvent::Start) == load_step(
            cache,
            event,
        ),
{
}

/// Law: counters that were stored are loaded again as they were, whatever time it
/// is, when nothing is in memory.
pub proof fn law_stored_counters_are_loaded(c: Counters, now: u64)
    ensures
        load_step(
            None,
            LoadEvent::Stored {
                up_bytes: Some(c.up_bytes),
                down_bytes: Some(c.down_bytes),
                connections: Some(c.connections),
                first_seen: Some(c.first_seen),
                now,
            },
        ) == LoadStep::Ready(c),
{
}

/// The names under which numbers are stored and reported differ.
proof fn lemma_names_differ()
    ensures
        "up_bytes"@ != "down_bytes"@,
        "up_bytes"@ != "connections"@,
        "up_bytes"@ != "total_bytes"@,
        "up_bytes"@ != "first_seen"@,
        "up_bytes"@ != "uptime_seconds"@,
        "down_bytes"@ != "connections"@,
        "down_bytes"@ != "total_bytes"@,
        "down_bytes"@ != "first_seen"@,
        "down_bytes"@ != "uptime_seconds"@,
        "total_bytes"@ != "connections"@,
        "total_bytes"@ != "first_seen"@,
        "total_bytes"@ != "uptime_seconds"@,
        "connections"@ != "first_seen"@,
        "connections"@ != "uptime_seconds"@,
        "first_seen"@ != "uptime_seconds"@,
{
    reveal_strlit("up_bytes");
    reveal_strlit("down_bytes");
    reveal_strlit("total_bytes");
    reveal_strlit("connections");
    reveal_strlit("first_seen");
    reveal_strlit("uptime_seconds");
    assert("up_bytes"@.len() == 8 && "down_bytes"@.len() == 10 && "total_bytes"@.len() == 11);
    assert("connections"@.len() == 11 && "first_seen"@.len() == 10);
    assert("uptime_seconds"@.len() == 14);
    assert("down_bytes"@[0] == 'd' && "first_seen"@[0] == 'f');
    assert("total_bytes"@[0] == 't' && "connections"@[0] == 'c');
}

/// Law: counters whose numbers were written are loaded again as they were, each number
/// being read under the name under which it was written.
pub proof fn law_written_counters_are_loaded(c: Counters, now: u64)
    ensures
        load_step(
            None,
            LoadEvent::Stored {
                up_bytes: number_under(writes_of(c), "up_bytes"@),
                down_bytes: number_under(writes_of(c), "down_bytes"@),
                connections: number_under(writes_of(c), "connections"@),
                first_seen: Some(c.first_seen),
                now,
            },
        ) == LoadStep::Ready(c),
        number_under(writes_of(c), "first_seen"@) is None,
{
    reveal_with_fuel(number_under, 4);
    lemma_names_differ();
    let w = writes_of(c);
    assert(w.drop_last().last() == w[1]);
    assert(w.drop_last().drop_last().last() == w[0]);
    assert(w.drop_last().drop_last().drop_last().len() == 0);
}

/// Law: what is missing in the store counts as zero, but for the time at which
/// counting began, which is then now, and is stored before the counters are used.
pub proof fn law_missing_numbers_count_as_zero(
    cache: Option<Counters>,
    up_bytes: Option<u64>,
    down_bytes: Option<u64>,
    connections: Option<u64>,
    first_seen: Option<u64>,
    now: u64,
)
    ensures
        ({
            let fresh = LoadEvent::Stored {
                up_bytes: None,
                down_bytes: None,
                connections: None,
                first_seen: None,
                now,
            };
            let c = Counters { up_bytes: 0, down_bytes: 0, connections: 0, first_seen: now };
            &&& load_step(cache, fresh) == LoadStep::PutFirstSeen(c)
            &&& cache_after(cache, fresh) == cache
            &&& load_step(cache, LoadEvent::FirstSeenPut(c)) == LoadStep::Ready(c)
            &&& cache_after(cache, LoadEvent::FirstSeenPut(c)) == Some(c)
        }),
        load_step(None, LoadEvent::Start) is Read,
        cache_after(None, LoadEvent::Start) is None,
        ({
            let event = LoadEvent::Stored { up_bytes, down_bytes, connections, first_seen, now };
            let c = if first_seen is Some {
                load_step(cache, event)->Ready_0
            } else {
                load_step(cache, event)->PutFirstSeen_0
            };
            &&& first_seen is Some <==> load_step(cache, event) is Ready
            &&& first_seen is None <==> load_step(cache, event) is PutFirstSeen
            &&& cache_after(cache, event) == (if first_seen is Some {
                Some(c)
            } else {
                cache
            })
            &&& c.up_bytes == (if up_bytes is Some { up_bytes->0 } else { 0 })
            &&& c.down_bytes == (if down_bytes is Some { down_bytes->0 } else { 0 })
            &&& c.connections == (if connections is Some { connections->0 } else { 0 })
            &&& c.first_seen == (if first_seen is Some { first_seen->0 } else { now })
        }),
{
}

/// Law: what is in memory after a connection was added is loaded at once, and is the
/// counters before with this connection added, as long as the sums fit.
pub proof fn law_recorded_counters_are_kept(loaded: Counters, up: u64, down: u64)
    requires
        loaded.up_bytes + up <= u64::MAX,
        loaded.down_bytes + down <= u64::MAX,
        loaded.connections < u64::MAX,
    ensures
        has_room(loaded, up, down),
        load_step(cache_after_record(loaded, up, down), LoadEvent::Start) matches LoadStep::Ready(c)
            && c.up_bytes == loaded.up_bytes + up && c.down_bytes == loaded.down_bytes + down
            && c.connections == loaded.connections + 1 && c.first_seen == loaded.first_seen,
{
}

/// Law: a report holds the counters, their sum, and the whole seconds since counting
/// began, none where the clock stands before that; each under its name.
pub proof fn law_report_adds_up(c: Counters, now: u64)
    requires
        c.up_bytes + c.down_bytes <= u64::MAX,
    ensures
        ({
            let r = report_of(c, now);
            &&& r.total_bytes == c.up_bytes + c.down_bytes
            &&& now >= c.first_seen ==> 1000 * r.uptime_seconds <= now - c.first_seen < 1000 * (
            r.uptime_seconds + 1)
            &&& now < c.first_seen ==> r.uptime_seconds == 0
            &&& number_under(entries_of(r), "up_bytes"@) == Some(c.up_bytes)
            &&& number_under(entries_of(r), "down_bytes"@) == Some(c.down_bytes)
            &&& number_under(entries_of(r), "total_bytes"@) == Some(r.total_bytes)
            &&& number_under(entries_of(r), "connections"@) == Some(c.connections)
            &&& number_under(entries_of(r), "first_seen"@) == Some(c.first_seen)
            &&& number_under(entries_of(r), "uptime_seconds"@) == Some(r.uptime_seconds)
            &&& entries_of(r).len() == 6
        }),
{
    reveal_with_fuel(number_under, 7);
    lemma_names_differ();
    let e = entries_of(report_of(c, now));
    assert(e.drop_last().last() == e[4]);
    assert(e.drop_last().drop_last().last() == e[3]);
    assert(e.drop_last().drop_last().drop_last().last() == e[2]);
    assert(e.drop_last().drop_last().drop_last().drop_last().last() == e[1]);
    assert(e.drop_last().drop_last().drop_last().drop_last().drop_last().last() == e[0]);
}

/// Law: of several numbers for one key the last counts, whatever came before, and pairs
/// with other keys do not matter. One that is no number counts as zero.
pub proof fn law_last_number_of_a_query_counts(
    pairs: Seq<(Seq<char>, Seq<char>)>,
    key: Seq<char>,
    other: Seq<char>,
    value: Seq<char>,
    n: u64,
)
    requires
        other != key,
    ensures
        query_number(Seq::<(Seq<char>, Seq<char>)>::empty(), key) == 0,
        query_number(pairs.push((key, decimal(n as nat))), key) == n,
        unsigned_of(value, u64::MAX as nat) is None ==> query_number(pairs.push((key, value)), key)
            == 0,
        query_number(pairs.push((other, value)), key) == query_number(pairs, key),
{
    law_decimal_read_back(n as nat, u64::MAX as nat);
    assert(pairs.push((other, value)).drop_last() =~= pairs);
}

/// Law: only the path `/record` asks to record, and what it asks to record are the
/// numbers for `up` and `down`.
pub proof fn law_only_one_path_records(
    path: Seq<char>,
    pairs: Seq<(Seq<char>, Seq<char>)>,
)
    ensures
        request_of(path, pairs) is Stats <==> path != "/record"@,
        request_of(path, pairs) matches StatsRequest::Record { up, down } ==> up == query_number(
            pairs,
            "up"@,
        ) && down == query_number(pairs, "down"@),
{
}

} // verus!
