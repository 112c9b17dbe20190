//! From the path of a request to the proxy that it names.
use crate::config::{Config, ConfigView, EndpointView, ModeView, ProxyMode};
use crate::patterns::{
    captures, is_relay_at, law_proxy_spelling_is_unambiguous, lemma_schemes,
    regex_captures, regex_is_match, spells, starts_with_capitals, Parts, HTTP_PATTERN,
    PROXYIP_PATTERN, PROXYKV_PATTERN, SOCKS_PATTERN,
};
use crate::text::{
    chars_of, decimal, find_char, first_place, law_decimal_read_back, parse_unsigned, push_decimal,
    replace_char, replaced, same_text, split, split_text, text_of, unsigned_of,
};
use std::collections::BTreeMap;
use vstd::prelude::*;
use vstd::string::StringExecFns;

verus! {

#[verifier::external_type_specification]
#[verifier::external_body]
pub struct ExJsonError(serde_json::Error);

#[verifier::external_type_specification]
#[verifier::external_body]
pub struct ExRandomError(getrandom::Error);

/// Where the lists of relays come from when none is stored.
pub const LIST_URL: &'static str =
    "https://raw.githubusercontent.com/FoolVPN-ID/Nautica/refs/heads/main/kvProxyList.json";

/// Under which key the lists of relays are stored.
pub const LIST_KEY: &'static str = "proxy_kv";

/// For how many seconds the lists of relays are stored.
pub const LIST_TTL_SECS: u64 = 60 * 60 * 24;

/// What can go wrong while a relay is looked up.
#[derive(Debug)]
pub enum RouteError {
    /// The lists could not be had; the status of the answer.
    ListStatus(u16),
    /// The lists are not in the expected form.
    Json(serde_json::Error),
    /// There is no random number to be had.
    Random(getrandom::Error),
}

/// What a path asks for.
#[derive(Debug, PartialEq, Eq)]
pub enum PathChoice {
    /// Nothing that changes the way.
    Keep,
    /// A proxy of its own.
    Mode(ProxyMode),
    /// One of the relays that are listed under these names.
    Lookup(Vec<String>),
}

/// [`PathChoice`] over mathematical values.
pub ghost enum ChoiceView {
    Keep,
    Mode(ModeView),
    Lookup(Seq<Seq<char>>),
}

impl View for PathChoice {
    type V = ChoiceView;

    open spec fn view(&self) -> ChoiceView {
        match *self {
            PathChoice::Keep => ChoiceView::Keep,
            PathChoice::Mode(m) => ChoiceView::Mode(m@),
            PathChoice::Lookup(ids) => ChoiceView::Lookup(ids.deep_view()),
        }
    }
}

/// The parts with which a pattern for proxies matches a path, where it does.
pub open spec fn parts_in(pattern: Seq<char>, path: Seq<char>) -> Option<Parts> {
    if exists|g: Parts| captures(pattern, path, g) {
        Some(choose|g: Parts| captures(pattern, path, g))
    } else {
        None
    }
}

/// The proxy that the parts name, where their port is one.
pub open spec fn endpoint_of(g: Parts) -> Option<EndpointView> {
    match unsigned_of(g.port, u16::MAX as nat) {
        Some(port) => Some(
            EndpointView { host: g.host, port: port as u16, user: g.user, pass: g.pass },
        ),
        None => None,
    }
}

/// What a path asks for: a SOCKS5 proxy, else an HTTP proxy, else a lookup where
/// it starts with two capitals. A proxy whose port is none changes nothing.
pub open spec fn choice_of(path: Seq<char>) -> ChoiceView {
    match parts_in(SOCKS_PATTERN@, path) {
        Some(g) => match endpoint_of(g) {
            Some(e) => ChoiceView::Mode(ModeView::Socks5(e)),
            None => ChoiceView::Keep,
        },
        None => match parts_in(HTTP_PATTERN@, path) {
            Some(g) => match endpoint_of(g) {
                Some(e) => ChoiceView::Mode(ModeView::Http(e)),
                None => ChoiceView::Keep,
            },
            None => if starts_with_capitals(path) {
                ChoiceView::Lookup(split(path, ','))
            } else {
                ChoiceView::Keep
            },
        },
    }
}

/// The parts found are those that [`parts_in`] tells.
proof fn lemma_parts_in(pattern: Seq<char>, path: Seq<char>, g: Parts)
    requires
        captures(pattern, path, g),
    ensures
        parts_in(pattern, path) == Some(g),
{
    let c = choose|c: Parts| captures(pattern, path, c);
    law_proxy_spelling_is_unambiguous(path, pattern, pattern, c, g);
}

/// Tells what a path asks for.
pub fn choose_path(path: &str) -> (r: PathChoice)
    ensures
        r@ == choice_of(path@),
{
    if let Some(g) = regex_captures(SOCKS_PATTERN, path) {
        proof {
            lemma_parts_in(SOCKS_PATTERN@, path@, crate::patterns::parts_of(g));
        }
        if let (user, pass, Some(host), Some(port)) = g {
            if let Some(port) = parse_unsigned(port.as_str(), u16::MAX as u64) {
                return PathChoice::Mode(
                    ProxyMode::Socks5 { host, port: port as u16, user, pass },
                );
            }
        }
        PathChoice::Keep
    } else if let Some(g) = regex_captures(HTTP_PATTERN, path) {
        proof {
            lemma_parts_in(HTTP_PATTERN@, path@, crate::patterns::parts_of(g));
        }
        if let (user, pass, Some(host), Some(port)) = g {
            if let Some(port) = parse_unsigned(port.as_str(), u16::MAX as u64) {
                return PathChoice::Mode(ProxyMode::Http { host, port: port as u16, user, pass });
            }
        }
        PathChoice::Keep
    } else if regex_is_match(PROXYKV_PATTERN, path) {
        assert(starts_with_capitals(path@)) by {
            lemma_path_patterns();
        }
        PathChoice::Lookup(split_text(path, ','))
    } else {
        PathChoice::Keep
    }
}

/// The two patterns for paths differ.
proof fn lemma_path_patterns()
    ensures
        PROXYKV_PATTERN@ != PROXYIP_PATTERN@,
{
    reveal_strlit(r"^.+-\d+$");
    reveal_strlit(r"^([A-Z]{2})");
    assert(PROXYKV_PATTERN@.len() != PROXYIP_PATTERN@.len());
}

/// Law: a path that spells a SOCKS5 proxy, with or without credentials, is taken
/// for exactly that proxy.
pub proof fn law_socks_path_is_read(path: Seq<char>, g: Parts, port: u16)
    requires
        spells(path, "socks="@, g) || spells(path, "socks5="@, g),
        g.port == decimal(port as nat),
    ensures
        choice_of(path) == ChoiceView::Mode(
            ModeView::Socks5(EndpointView { host: g.host, port, user: g.user, pass: g.pass }),
        ),
{
    lemma_parts_in(SOCKS_PATTERN@, path, g);
    law_decimal_read_back(port as nat, u16::MAX as nat);
}

/// Law: a path that spells an HTTP proxy, with or without credentials, is taken
/// for exactly that proxy.
pub proof fn law_http_path_is_read(path: Seq<char>, g: Parts, port: u16)
    requires
        spells(path, "http="@, g),
        g.port == decimal(port as nat),
    ensures
        choice_of(path) == ChoiceView::Mode(
            ModeView::Http(EndpointView { host: g.host, port, user: g.user, pass: g.pass }),
        ),
{
    lemma_parts_in(HTTP_PATTERN@, path, g);
    if let Some(s) = parts_in(SOCKS_PATTERN@, path) {
        law_proxy_spelling_is_unambiguous(path, SOCKS_PATTERN@, HTTP_PATTERN@, s, g);
        lemma_schemes();
    }
    law_decimal_read_back(port as nat, u16::MAX as nat);
}

/// The stored lists, where there are any; otherwise they are to be fetched.
pub fn stored_lists(stored: Option<String>) -> (r: Option<String>)
    ensures
        match r {
            Some(t) => stored == Some(t) && t@.len() > 0,
            None => stored is None || stored->0@.len() == 0,
        },
{
    match stored {
        Some(t) => if t.as_str().is_empty() {
            None
        } else {
            Some(t)
        },
        None => None,
    }
}

/// Judges the answer to fetching the lists: only status 200 will do.
pub fn check_list_status(status: u16) -> (r: Result<(), RouteError>)
    ensures
        r == (if status == 200 {
            Ok(())
        } else {
            Err(RouteError::ListStatus(status))
        }),
{
    if status == 200 {
        Ok(())
    } else {
        Err(RouteError::ListStatus(status))
    }
}

/// The text in which it is reported that the lists could not be had.
pub open spec fn list_message(status: u16) -> Seq<char> {
    "error getting proxy kv: "@ + decimal(status as nat)
}

/// Writes the text in which it is reported that the lists could not be had.
pub fn list_status_message(status: u16) -> (r: String)
    ensures
        r@ == "error getting proxy kv: "@ + decimal(status as nat),
        r@ == list_message(status),
{
    let mut r = String::from_str("error getting proxy kv: ");
    push_decimal(&mut r, status as u64);
    r
}

/// How far getting the lists has got.
#[derive(Debug, PartialEq, Eq)]
pub enum ListPhase {
    /// The store is being asked.
    Read,
    /// The lists are being fetched.
    Fetch,
    /// The fetched lists are being stored.
    Store(String),
}

/// What the caller does in a phase.
#[derive(Debug, PartialEq, Eq)]
pub enum ListAction {
    /// Read what is stored under this key.
    Get { key: String },
    /// Fetch this URL.
    Fetch { url: String },
    /// Store the text under this key, for so many seconds.
    Put { key: String, text: String, ttl_secs: u64 },
}

/// [`ListAction`] over mathematical values.
pub ghost enum ListActionView {
    Get { key: Seq<char> },
    Fetch { url: Seq<char> },
    Put { key: Seq<char>, text: Seq<char>, ttl_secs: u64 },
}

impl View for ListAction {
    type V = ListActionView;

    open spec fn view(&self) -> ListActionView {
        match *self {
            ListAction::Get { key } => ListActionView::Get { key: key@ },
            ListAction::Fetch { url } => ListActionView::Fetch { url: url@ },
            ListAction::Put { key, text, ttl_secs } => ListActionView::Put {
                key: key@,
                text: text@,
                ttl_secs,
            },
        }
    }
}

/// How an action ended.
#[derive(Debug, PartialEq, Eq)]
pub enum ListEvent {
    /// What was stored, where anything was.
    Found(Option<String>),
    /// The answer; its text is looked at only where the status will do.
    Answered { status: u16, text: String },
    /// The lists were stored.
    Stored,
}

/// Where getting the lists has got to.
#[derive(Debug)]
pub enum ListStep {
    Next(ListPhase),
    /// Use this text.
    Use(String),
    Fail(RouteError),
}

/// What is done in a phase.
pub open spec fn list_action(phase: ListPhase) -> ListActionView {
    match phase {
        ListPhase::Read => ListActionView::Get { key: LIST_KEY@ },
        ListPhase::Fetch => ListActionView::Fetch { url: LIST_URL@ },
        ListPhase::Store(text) => ListActionView::Put {
            key: LIST_KEY@,
            text: text@,
            ttl_secs: LIST_TTL_SECS,
        },
    }
}

/// Whether an event is how the action of a phase can end.
pub open spec fn list_answers(phase: ListPhase, event: ListEvent) -> bool {
    match phase {
        ListPhase::Read => event is Found,
        ListPhase::Fetch => event is Answered,
        ListPhase::Store(text) => event is Stored,
    }
}

/// Whether there is a stored text to use.
pub open spec fn is_held(stored: Option<String>) -> bool {
    stored is Some && stored->0@.len() > 0
}

/// What follows how the action of a phase ended. A stored text is used as it is;
/// otherwise the lists are fetched, stored, and used, if their status is 200.
pub open spec fn list_next(phase: ListPhase, event: ListEvent) -> ListStep {
    match event {
        ListEvent::Found(stored) => if is_held(stored) {
            ListStep::Use(stored->0)
        } else {
            ListStep::Next(ListPhase::Fetch)
        },
        ListEvent::Answered { status, text } => if status == 200 {
            ListStep::Next(ListPhase::Store(text))
        } else {
            ListStep::Fail(RouteError::ListStatus(status))
        },
        ListEvent::Stored => ListStep::Use(phase->Store_0),
    }
}

impl ListPhase {
    /// What is done in this phase.
    pub fn action(&self) -> (r: ListAction)
        ensures
            r@ == list_action(*self),
    {
        match self {
            ListPhase::Read => ListAction::Get { key: String::from_str(LIST_KEY) },
            ListPhase::Fetch => ListAction::Fetch { url: String::from_str(LIST_URL) },
            ListPhase::Store(text) => ListAction::Put {
                key: String::from_str(LIST_KEY),
                text: text.clone(),
                ttl_secs: LIST_TTL_SECS,
            },
        }
    }

    /// Decides what follows how the action of this phase ended; the lists are got
    /// beginning with [`ListPhase::Read`].
    pub fn next(self, event: ListEvent) -> (r: ListStep)
        requires
            list_answers(self, event),
        ensures
            r == list_next(self, event),
    {
        match (self, event) {
            (_, ListEvent::Found(stored)) => match stored_lists(stored) {
                Some(text) => ListStep::Use(text),
                None => ListStep::Next(ListPhase::Fetch),
            },
            (_, ListEvent::Answered { status, text }) => match check_list_status(status) {
                Ok(()) => ListStep::Next(ListPhase::Store(text)),
                Err(e) => ListStep::Fail(e),
            },
            (ListPhase::Store(text), ListEvent::Stored) => ListStep::Use(text),
            _ => ListStep::Next(ListPhase::Fetch),
        }
    }
}

/// Where getting the lists has got to after the first `n` events.
pub open spec fn lists_after(events: Seq<ListEvent>, n: nat) -> ListStep
    decreases n,
{
    if n == 0 {
        ListStep::Next(ListPhase::Read)
    } else {
        match lists_after(events, (n - 1) as nat) {
            ListStep::Next(phase) => list_next(phase, events[n - 1]),
            s => s,
        }
    }
}

/// Whether the events are those of getting the lists once.
pub open spec fn is_list_run(events: Seq<ListEvent>) -> bool {
    forall|n: nat|
        n < events.len() ==> (#[trigger] lists_after(events, n) matches ListStep::Next(phase)
            && list_answers(phase, events[n as int]))
}

/// Law: the lists are fetched exactly when none is stored. A good answer is stored
/// once, and before it is used; a bad one ends with its status, and nothing is
/// stored. Stored lists are used as they are, and nothing is stored.
pub proof fn law_lists_are_stored_once_before_use(events: Seq<ListEvent>)
    requires
        is_list_run(events),
    ensures
        events.len() >= 1 ==> (events[0] matches ListEvent::Found(stored) && lists_after(events, 1)
            == (if stored is Some && stored->0@.len() > 0 {
            ListStep::Use(stored->0)
        } else {
            ListStep::Next(ListPhase::Fetch)
        }) && ((stored is Some && stored->0@.len() > 0) ==> events.len() == 1)),
        events.len() >= 2 ==> (events[1] matches ListEvent::Answered { status, text }
            && lists_after(events, 2) == (if status == 200 {
            ListStep::Next(ListPhase::Store(text))
        } else {
            ListStep::Fail(RouteError::ListStatus(status))
        }) && (status != 200 ==> events.len() == 2) && (events.len() >= 3 ==> events.len() == 3
            && lists_after(events, 3) == ListStep::Use(text))),
        forall|n: nat|
            n <= events.len() && (#[trigger] lists_after(events, n) matches ListStep::Next(
                ListPhase::Store(_),
            )) ==> n == 2,
{
    reveal_with_fuel(lists_after, 4);
    assert(events.len() > 0 ==> lists_after(events, 0) is Next);
    assert(events.len() > 1 ==> lists_after(events, 1) is Next);
    assert(events.len() > 2 ==> lists_after(events, 2) is Next);
    assert(events.len() > 3 ==> lists_after(events, 3) is Next);
}

/// `getrandom::getrandom` of `getrandom`, on two bytes. Nothing is promised of
/// the bytes, nor that there are any.
#[verifier::external_body]
fn draw() -> (r: Result<[u8; 2], getrandom::Error>) {
    let mut buf = [0u8; 2];
    getrandom::getrandom(&mut buf).map(|_| buf)
}

/// Draws the number by which a relay is picked.
pub fn draw_number() -> (r: Result<u8, RouteError>)
    ensures
        r is Ok || r matches Err(RouteError::Random(_)),
{
    number_of_draw(draw())
}

/// What a draw of two bytes comes to.
pub open spec fn draw_outcome(drawn: Result<[u8; 2], getrandom::Error>) -> Result<u8, RouteError> {
    match drawn {
        Ok(buf) => Ok(buf@[0]),
        Err(e) => Err(RouteError::Random(e)),
    }
}

/// The number that a draw of two bytes gives: the first of them, or the reason why
/// there are none.
pub fn number_of_draw(drawn: Result<[u8; 2], getrandom::Error>) -> (r: Result<u8, RouteError>)
    ensures
        match drawn {
            Ok(buf) => r == Ok::<u8, RouteError>(buf@[0]),
            Err(e) => r == Err::<u8, RouteError>(RouteError::Random(e)),
        },
        r == draw_outcome(drawn),
{
    match drawn {
        Ok(buf) => Ok(buf[0]),
        Err(e) => Err(RouteError::Random(e)),
    }
}

/// What `serde_json` reads in a text as an object of lists of texts: its entries,
/// in the order of their keys, or nothing where the text is no such object.
pub uninterp spec fn json_lists(text: Seq<char>) -> Option<Seq<(Seq<char>, Seq<Seq<char>>)>>;

/// `serde_json::from_str` of `serde_json`, into a map from texts to lists of
/// texts. The entries are a function of the text, and no key occurs twice among
/// them.
#[verifier::external_body]
fn parse_lists(text: &str) -> (r: Result<Vec<(String, Vec<String>)>, serde_json::Error>)
    ensures
        match r {
            Ok(v) => json_lists(text@) == Some(v.deep_view()),
            Err(_) => json_lists(text@) is None,
        },
        r matches Ok(v) ==> forall|i: int, j: int|
            0 <= i < j < v.deep_view().len() ==> (#[trigger] v.deep_view()[i]).0 != (
            #[trigger] v.deep_view()[j]).0,
{
    serde_json::from_str::<BTreeMap<String, Vec<String>>>(text).map(|m| m.into_iter().collect())
}

/// The list under a key.
pub open spec fn list_under(lists: Seq<(Seq<char>, Seq<Seq<char>>)>, key: Seq<char>) -> Option<
    Seq<Seq<char>>,
>
    decreases lists.len(),
{
    if lists.len() == 0 {
        None
    } else if lists[0].0 == key {
        Some(lists[0].1)
    } else {
        list_under(lists.drop_first(), key)
    }
}

/// The item of a list that a drawn number picks.
pub open spec fn picked(items: Seq<Seq<char>>, number: u8) -> Seq<char>
    recommends
        items.len() > 0,
{
    items[number as int % items.len() as int]
}

/// The relay that a drawn number picks: one of the names, then one of the relays
/// under it, written with a hyphen before its port.
pub open spec fn relay_of(
    ids: Seq<Seq<char>>,
    lists: Seq<(Seq<char>, Seq<Seq<char>>)>,
    number: u8,
) -> Seq<char> {
    replaced(picked(list_under(lists, picked(ids, number))->0, number), ':', '-')
}

/// Whether the picked name has a list, and the list an item.
pub open spec fn has_relay(
    ids: Seq<Seq<char>>,
    lists: Seq<(Seq<char>, Seq<Seq<char>>)>,
    number: u8,
) -> bool {
    list_under(lists, picked(ids, number)) matches Some(items) && items.len() > 0
}

/// Finds the list under a key.
fn find_list<'a>(lists: &'a Vec<(String, Vec<String>)>, key: &str) -> (r: Option<&'a Vec<String>>)
    ensures
        match list_under(lists.deep_view(), key@) {
            Some(items) => r is Some && r->0.deep_view() == items,
            None => r is None,
        },
{
    let ghost all = lists.deep_view();
    let mut i: usize = 0;
    assert(all.skip(0) =~= all);
    while i < lists.len()
        invariant
            0 <= i <= lists.len(),
            all == lists.deep_view(),
            list_under(all.skip(i as int), key@) == list_under(all, key@),
        decreases lists.len() - i,
    {
        let entry = &lists[i];
        assert(all[i as int] == (entry.0@, entry.1.deep_view()));
        assert(all.skip(i as int).drop_first() =~= all.skip(i + 1));
        if same_text(entry.0.as_str(), key) {
            return Some(&entry.1);
        }
        i = i + 1;
    }
    None
}

/// Picks a relay by a drawn number.
pub fn pick_relay(ids: &Vec<String>, lists: &Vec<(String, Vec<String>)>, number: u8) -> (r: String)
    requires
        ids.len() > 0,
        has_relay(ids.deep_view(), lists.deep_view(), number),
    ensures
        r@ == relay_of(ids.deep_view(), lists.deep_view(), number),
{
    let id = &ids[number as usize % ids.len()];
    assert(id@ == picked(ids.deep_view(), number));
    let items = find_list(lists, id.as_str()).unwrap();
    let item = &items[number as usize % items.len()];
    assert(item@ == picked(items.deep_view(), number));
    replace_char(item.as_str(), ':', '-')
}

/// Reads the lists and picks a relay by a drawn number. There is none where the
/// picked name has no list or an empty one.
pub fn resolve_relay(ids: &Vec<String>, text: &str, number: u8) -> (r: Result<
    Option<String>,
    RouteError,
>)
    requires
        ids.len() > 0,
    ensures
        match json_lists(text@) {
            Some(lists) => r matches Ok(relay) && (if has_relay(ids.deep_view(), lists, number) {
                relay is Some && relay->0@ == relay_of(ids.deep_view(), lists, number)
            } else {
                relay is None
            }),
            None => r matches Err(RouteError::Json(_)),
        },
{
    match parse_lists(text) {
        Err(e) => Err(RouteError::Json(e)),
        Ok(lists) => {
            let id = &ids[number as usize % ids.len()];
            assert(id@ == picked(ids.deep_view(), number));
            match find_list(&lists, id.as_str()) {
                Some(items) if items.len() > 0 => Ok(Some(pick_relay(ids, &lists, number))),
                _ => Ok(None),
            }
        },
    }
}

/// Law: the relay that is picked is one of those listed under one of the names
/// that the path gives.
pub proof fn law_relay_is_listed(
    ids: Seq<Seq<char>>,
    lists: Seq<(Seq<char>, Seq<Seq<char>>)>,
    number: u8,
)
    requires
        ids.len() > 0,
        has_relay(ids, lists, number),
    ensures
        exists|id: Seq<char>, item: Seq<char>|
            ids.contains(id) && #[trigger] list_under(lists, id) is Some && list_under(
                lists,
                id,
            )->0.contains(item) && relay_of(ids, lists, number) == #[trigger] replaced(
                item,
                ':',
                '-',
            ),
{
    let id = picked(ids, number);
    let items = list_under(lists, id)->0;
    let item = picked(items, number);
    assert(ids[number as int % ids.len() as int] == id);
    assert(items[number as int % items.len() as int] == item);
    assert(ids.contains(id) && items.contains(item));
    assert(relay_of(ids, lists, number) == replaced(item, ':', '-'));
}

/// The relay that a path names: what stands before its first hyphen, and the port
/// after it.
pub open spec fn named_relay(path: Seq<char>) -> Option<(Seq<char>, u16)> {
    let n = first_place(path, '-');
    if n < path.len() {
        match unsigned_of(path.skip(n + 1), u16::MAX as nat) {
            Some(port) => Some((path.take(n), port as u16)),
            None => None,
        }
    } else {
        None
    }
}

/// The configuration once a path was accepted: without a proxy of its own, the
/// request uses the relay that the path names, where it names one.
pub open spec fn with_relay(config: ConfigView, path: Seq<char>) -> ConfigView {
    if config.proxy_mode is Direct && named_relay(path) is Some {
        ConfigView {
            proxy_addr: (named_relay(path)->0).0,
            proxy_port: (named_relay(path)->0).1,
            ..config
        }
    } else {
        config
    }
}

/// The configuration once a path was looked at.
pub open spec fn with_path(config: ConfigView, path: Seq<char>) -> ConfigView {
    match choice_of(path) {
        ChoiceView::Mode(m) => ConfigView { proxy_mode: m, ..config },
        _ => config,
    }
}

/// Whether a request is tunnelled: it asks for a WebSocket, and its path ends like
/// a relay.
pub open spec fn is_tunnel(upgrade: Seq<char>, path: Seq<char>) -> bool {
    upgrade == "websocket"@ && exists|i: int| is_relay_at(path, i)
}

impl Config {
    /// Takes in what a path asks for. Where it asks for a lookup, the names under
    /// which to look are returned.
    pub fn read_path(&mut self, path: &str) -> (r: Option<Vec<String>>)
        ensures
            match choice_of(path@) {
                ChoiceView::Keep => r is None && final(self)@ == old(self)@,
                ChoiceView::Mode(m) => r is None && final(self)@ == (ConfigView {
                    proxy_mode: m,
                    ..old(self)@
                }),
                ChoiceView::Lookup(ids) => r is Some && r->0.deep_view() == ids && ids.len() > 0
                    && final(self)@ == old(self)@,
            },
            final(self)@ == with_path(old(self)@, path@),
    {
        match choose_path(path) {
            PathChoice::Keep => None,
            PathChoice::Mode(m) => {
                self.proxy_mode = m;
                None
            },
            PathChoice::Lookup(ids) => {
                proof {
                    crate::text::law_split_join(path@, ',');
                }
                Some(ids)
            },
        }
    }

    /// Decides whether a request is tunnelled, and if so over which relay. `path`
    /// is that of the request, or the relay that was picked for it.
    pub fn tunnel(&mut self, upgrade: &str, path: &str) -> (r: bool)
        ensures
            r == is_tunnel(upgrade@, path@),
            final(self)@ == (if r {
                with_relay(old(self)@, path@)
            } else {
                old(self)@
            }),
    {
        if !same_text(upgrade, "websocket") {
            return false;
        }
        proof {
            lemma_path_patterns();
        }
        if !regex_is_match(PROXYIP_PATTERN, path) {
            return false;
        }
        if let ProxyMode::Direct = self.proxy_mode {
            let v = chars_of(path);
            let n = find_char(&v, '-');
            if n < v.len() {
                let port_text = text_of(&v, n + 1, v.len());
                assert(port_text@ =~= path@.skip(n + 1));
                if let Some(port) = parse_unsigned(port_text.as_str(), u16::MAX as u64) {
                    let addr = text_of(&v, 0, n);
                    assert(addr@ =~= path@.take(n as int));
                    self.proxy_addr = addr;
                    self.proxy_port = port as u16;
                }
            }
        }
        true
    }
}

/// Law: a path made of a host without a hyphen or line end, a hyphen and a port is
/// tunnelled over exactly that relay, when a WebSocket is asked for and there is no
/// proxy of its own.
pub proof fn law_relay_path_is_used(config: ConfigView, host: Seq<char>, port: u16)
    requires
        config.proxy_mode is Direct,
        host.len() > 0,
        !host.contains('-'),
        !host.contains('\n'),
    ensures
        is_tunnel("websocket"@, host.push('-') + decimal(port as nat)),
        with_relay(config, host.push('-') + decimal(port as nat)) == (ConfigView {
            proxy_addr: host,
            proxy_port: port,
            ..config
        }),
{
    let path = host.push('-') + decimal(port as nat);
    let n = host.len() as int;
    crate::text::lemma_decimal_digits(port as nat);
    assert(path.take(n) =~= host);
    assert(path.skip(n + 1) =~= decimal(port as nat));
    assert(is_relay_at(path, n)) by {
        assert forall|j: int| n < j < path.len() implies crate::patterns::in_digit_class(
            #[trigger] path[j],
        ) by {
            assert(path[j] == decimal(port as nat)[j - n - 1]);
        }
    }
    assert forall|i: int| 0 <= i < n implies path[i] != '-' by {
        assert(path[i] == host[i]);
    }
    crate::text::lemma_first_place_is(path, '-', n);
    law_decimal_read_back(port as nat, u16::MAX as nat);
}

/// Law: a listed relay, written as a host, a colon and a port, is the relay over
/// which the request is tunnelled once it was picked, as long as its host holds no
/// colon, hyphen or line end.
pub proof fn law_listed_relay_is_used(
    config: ConfigView,
    ids: Seq<Seq<char>>,
    lists: Seq<(Seq<char>, Seq<Seq<char>>)>,
    number: u8,
    host: Seq<char>,
    port: u16,
)
    requires
        config.proxy_mode is Direct,
        has_relay(ids, lists, number),
        picked(list_under(lists, picked(ids, number))->0, number) == host.push(':') + decimal(
            port as nat,
        ),
        host.len() > 0,
        !host.contains(':'),
        !host.contains('-'),
        !host.contains('\n'),
    ensures
        is_tunnel("websocket"@, relay_of(ids, lists, number)),
        with_relay(config, relay_of(ids, lists, number)) == (ConfigView {
            proxy_addr: host,
            proxy_port: port,
            ..config
        }),
{
    let item = host.push(':') + decimal(port as nat);
    crate::text::lemma_decimal_digits(port as nat);
    assert(replaced(item, ':', '-') =~= host.push('-') + decimal(port as nat)) by {
        assert forall|i: int| 0 <= i < item.len() implies #[trigger] replaced(item, ':', '-')[i]
            == (host.push('-') + decimal(port as nat))[i] by {
            if i < host.len() {
                assert(item[i] == host[i]);
            } else if i > host.len() {
                assert(item[i] == decimal(port as nat)[i - host.len() - 1]);
            }
        }
    }
    law_relay_path_is_used(config, host, port);
}

/// Law: a path that spells a proxy, and holds no line end, is tunnelled when a
/// WebSocket is asked for.
pub proof fn law_proxy_path_is_tunnelled(path: Seq<char>, scheme: Seq<char>, g: Parts)
    requires
        spells(path, scheme, g),
        !path.contains('\n'),
    ensures
        is_tunnel("websocket"@, path),
{
    reveal_strlit("-");
    let n = path.len() - g.port.len() - 1;
    assert(path[n] == '-');
    assert(is_relay_at(path, n)) by {
        assert forall|i: int| 0 <= i < n implies path.take(n)[i] != '\n' by {
            assert(path[i] != '\n');
        }
        assert forall|j: int| n < j < path.len() implies crate::patterns::in_digit_class(
            #[trigger] path[j],
        ) by {
            assert(path[j] == g.port[j - n - 1]);
        }
    }
}

/// Law: a path changes nothing but the proxy of a request, and that only to the one
/// that it spells.
pub proof fn law_path_changes_the_proxy_only(config: ConfigView, path: Seq<char>)
    ensures
        with_path(config, path).uuid == config.uuid,
        with_path(config, path).host == config.host,
        with_path(config, path).proxy_addr == config.proxy_addr,
        with_path(config, path).proxy_port == config.proxy_port,
        with_path(config, path).main_page_url == config.main_page_url,
        with_path(config, path).sub_page_url == config.sub_page_url,
        with_path(config, path).proxy_mode == (match choice_of(path) {
            ChoiceView::Mode(m) => m,
            _ => config.proxy_mode,
        }),
{
}

/// Law: a path that starts with two capitals is looked up under the names between its
/// commas.
pub proof fn law_capitals_are_looked_up(path: Seq<char>)
    requires
        path.len() >= 2,
        65 <= path[0] as u32 <= 90,
        65 <= path[1] as u32 <= 90,
    ensures
        choice_of(path) matches ChoiceView::Lookup(ids) && ids.len() > 0 && crate::text::join(
            ids,
            ',',
        ) == path && forall|i: int| 0 <= i < ids.len() ==> !(#[trigger] ids[i]).contains(','),
{
    lemma_schemes();
    crate::text::law_split_join(path, ',');
    if let Some(g) = parts_in(SOCKS_PATTERN@, path) {
        assert(path[0] == 's');
    }
    if let Some(g) = parts_in(HTTP_PATTERN@, path) {
        assert(path[0] == 'h');
    }
}

/// Law: a path that spells no proxy and does not start with two capitals changes
/// nothing.
pub proof fn law_other_paths_change_nothing(path: Seq<char>)
    requires
        forall|g: Parts| !spells(path, "socks="@, g),
        forall|g: Parts| !spells(path, "socks5="@, g),
        forall|g: Parts| !spells(path, "http="@, g),
        path.len() < 2 || path[0] as u32 > 90 || path[1] as u32 > 90 || (path[0] as u32) < 65 || (
        path[1] as u32) < 65,
    ensures
        choice_of(path) is Keep,
{
    lemma_schemes();
    if let Some(g) = parts_in(SOCKS_PATTERN@, path) {
        assert(captures(SOCKS_PATTERN@, path, g));
    }
    if let Some(g) = parts_in(HTTP_PATTERN@, path) {
        assert(captures(HTTP_PATTERN@, path, g));
    }
}

/// Law: the port of a proxy may have zeros in front, and is one up to 65535; a path
/// that spells a larger one changes nothing.
pub proof fn law_proxy_port_is_read_up_to_the_limit(
    path: Seq<char>,
    g: Parts,
    zeros: nat,
    n: nat,
)
    requires
        g.port == Seq::new(zeros, |i: int| '0') + decimal(n),
    ensures
        (spells(path, "socks="@, g) || spells(path, "socks5="@, g)) ==> choice_of(path) == (if n
            <= 65535 {
            ChoiceView::Mode(
                ModeView::Socks5(
                    EndpointView { host: g.host, port: n as u16, user: g.user, pass: g.pass },
                ),
            )
        } else {
            ChoiceView::Keep
        }),
        spells(path, "http="@, g) ==> choice_of(path) == (if n <= 65535 {
            ChoiceView::Mode(
                ModeView::Http(
                    EndpointView { host: g.host, port: n as u16, user: g.user, pass: g.pass },
                ),
            )
        } else {
            ChoiceView::Keep
        }),
{
    crate::text::law_number_is_read_up_to_the_limit(n, 65535, zeros);
    if spells(path, "socks="@, g) || spells(path, "socks5="@, g) {
        lemma_parts_in(SOCKS_PATTERN@, path, g);
    }
    if spells(path, "http="@, g) {
        lemma_parts_in(HTTP_PATTERN@, path, g);
        if let Some(s) = parts_in(SOCKS_PATTERN@, path) {
            law_proxy_spelling_is_unambiguous(path, SOCKS_PATTERN@, HTTP_PATTERN@, s, g);
            lemma_schemes();
        }
    }
}

/// Law: what is done to get the lists: the store is asked under `proxy_kv`, the list is
/// fetched from its one place, and what was fetched is stored under `proxy_kv` for a
/// day, as it was fetched. Every outcome of these is an answer.
pub proof fn law_lists_are_got_from_their_places(
    text: String,
    stored: Option<String>,
    status: u16,
)
    ensures
        list_action(ListPhase::Read) == (ListActionView::Get { key: "proxy_kv"@ }),
        list_action(ListPhase::Fetch) == (ListActionView::Fetch {
            url:
                "https://raw.githubusercontent.com/FoolVPN-ID/Nautica/refs/heads/main/kvProxyList.json"@,
        }),
        list_action(ListPhase::Store(text)) == (ListActionView::Put {
            key: "proxy_kv"@,
            text: text@,
            ttl_secs: 86400,
        }),
        list_answers(ListPhase::Read, ListEvent::Found(stored)),
        list_answers(ListPhase::Fetch, ListEvent::Answered { status, text }),
        list_answers(ListPhase::Store(text), ListEvent::Stored),
{
}

/// Law: a draw gives its first byte, whatever the second is, so that two draws give the
/// same number exactly where their first bytes agree; a failed draw gives its reason.
pub proof fn law_first_byte_is_the_number(a: [u8; 2], b: [u8; 2], e: getrandom::Error)
    ensures
        draw_outcome(Ok(a)) matches Ok(n) && n == a@[0],
        draw_outcome(Ok(a)) == draw_outcome(Ok(b)) <==> a@[0] == b@[0],
        draw_outcome(Err(e)) == Err::<u8, RouteError>(RouteError::Random(e)),
{
}

/// Law: the report on lists that could not be had ends with the status in decimal.
pub proof fn law_list_message_ends_with_the_status(status: u16)
    ensures
        list_message(status) == "error getting proxy kv: "@ + decimal(status as nat),
        list_message(status).len() == 24 + decimal(status as nat).len(),
{
    reveal_strlit("error getting proxy kv: ");
}

/// The list under a key is that of the first entry with the key.
proof fn lemma_list_under(lists: Seq<(Seq<char>, Seq<Seq<char>>)>, key: Seq<char>, j: int)
    requires
        forall|i: int| 0 <= i < j ==> (#[trigger] lists[i]).0 != key,
        0 <= j <= lists.len(),
        j < lists.len() ==> lists[j].0 == key,
    ensures
        list_under(lists, key) == (if j < lists.len() {
            Some(lists[j].1)
        } else {
            None
        }),
    decreases lists.len(),
{
    if lists.len() > 0 && lists[0].0 != key {
        let rest = lists.drop_first();
        assert forall|i: int| 0 <= i < j - 1 implies (#[trigger] rest[i]).0 != key by {
            assert(rest[i] == lists[i + 1]);
        }
        if j < lists.len() {
            assert(rest[j - 1] == lists[j]);
        }
        lemma_list_under(rest, key, j - 1);
    } else if lists.len() > 0 && j > 0 {
        assert(lists[0].0 != key);
    }
}

/// Law: which relay a drawn number picks. The names and the relays under the picked
/// name are each counted from zero, around and around, up to the number; the relay is
/// the one found there, with hyphens for its colons. There is none exactly where the
/// picked name has no list or an empty one.
pub proof fn law_number_counts_out_the_relay(
    ids: Seq<Seq<char>>,
    lists: Seq<(Seq<char>, Seq<Seq<char>>)>,
    number: u8,
    around: int,
    i: int,
    j: int,
    again: int,
    k: int,
)
    requires
        0 <= i < ids.len(),
        number == around * ids.len() + i,
        0 <= j <= lists.len(),
        forall|n: int| 0 <= n < j ==> (#[trigger] lists[n]).0 != ids[i],
        j < lists.len() ==> lists[j].0 == ids[i],
    ensures
        has_relay(ids, lists, number) <==> j < lists.len() && lists[j].1.len() > 0,
        (j < lists.len() && 0 <= k < lists[j].1.len() && number == again * lists[j].1.len() + k)
            ==> relay_of(ids, lists, number) == replaced(lists[j].1[k], ':', '-'),
{
    vstd::arithmetic::div_mod::lemma_fundamental_div_mod_converse(
        number as int,
        ids.len() as int,
        around,
        i,
    );
    assert(picked(ids, number) == ids[i]);
    lemma_list_under(lists, ids[i], j);
    if j < lists.len() && 0 <= k < lists[j].1.len() && number == again * lists[j].1.len() + k {
        vstd::arithmetic::div_mod::lemma_fundamental_div_mod_converse(
            number as int,
            lists[j].1.len() as int,
            again,
            k,
        );
    }
}

/// Law: without a proxy of its own, a request uses the relay that stands before the
/// first hyphen of its path, on the port that stands behind it, where that is a port;
/// otherwise it keeps its relay. Nothing else changes.
pub proof fn law_relay_is_read_at_the_first_hyphen(
    config: ConfigView,
    host: Seq<char>,
    port: Seq<char>,
)
    requires
        !host.contains('-'),
    ensures
        with_relay(config, host) == config,
        config.proxy_mode !is Direct ==> with_relay(config, host.push('-') + port) == config,
        config.proxy_mode is Direct ==> with_relay(config, host.push('-') + port) == (
        match unsigned_of(port, 65535) {
            Some(n) => ConfigView { proxy_addr: host, proxy_port: n as u16, ..config },
            None => config,
        }),
{
    let path = host.push('-') + port;
    let n = host.len() as int;
    assert forall|i: int| 0 <= i < n implies path[i] != '-' by {
        assert(path[i] == host[i]);
    }
    crate::text::lemma_first_place_is(path, '-', n);
    assert(path.take(n) =~= host);
    assert(path.skip(n + 1) =~= port);
    assert forall|i: int| 0 <= i < n implies host[i] != '-' by {}
    crate::text::lemma_first_place_is(host, '-', n);
}

/// Law: only a request that asks for a `websocket` is tunnelled, and only where its
/// path ends with a hyphen and a number; then it is, whatever else stands before the
/// hyphen, as long as that is something and holds no line end.
pub proof fn law_tunnel_is_a_websocket_to_a_number(
    upgrade: Seq<char>,
    path: Seq<char>,
    front: Seq<char>,
    number: nat,
)
    ensures
        is_tunnel(upgrade, path) ==> upgrade == "websocket"@ && path.len() >= 3 && path.contains(
            '-',
        ) && crate::patterns::in_digit_class(path.last()),
        (front.len() > 0 && !front.contains('\n')) ==> is_tunnel(
            "websocket"@,
            front.push('-') + decimal(number),
        ),
{
    if is_tunnel(upgrade, path) {
        let i = choose|i: int| is_relay_at(path, i);
        assert(path[i] == '-');
        assert(crate::patterns::in_digit_class(path[path.len() - 1]));
    }
    let all = front.push('-') + decimal(number);
    let n = front.len() as int;
    crate::text::lemma_decimal_digits(number);
    if front.len() > 0 && !front.contains('\n') {
        assert(all.take(n) =~= front);
        assert(is_relay_at(all, n)) by {
            assert forall|j: int| n < j < all.len() implies crate::patterns::in_digit_class(
                #[trigger] all[j],
            ) by {
                assert(all[j] == decimal(number)[j - n - 1]);
            }
        }
    }
}

/// Law: what contracts say of a choice and of an action, they say of their own fields.
pub proof fn law_choice_is_seen_whole(
    mode: ProxyMode,
    ids: Vec<String>,
    key: String,
    text: String,
    ttl_secs: u64,
)
    ensures
        PathChoice::Keep@ is Keep,
        PathChoice::Mode(mode)@ == ChoiceView::Mode(mode@),
        PathChoice::Lookup(ids)@ == ChoiceView::Lookup(ids.deep_view()),
        (ListAction::Get { key })@ == (ListActionView::Get { key: key@ }),
        (ListAction::Fetch { url: key })@ == (ListActionView::Fetch { url: key@ }),
        (ListAction::Put { key, text, ttl_secs })@ == (ListActionView::Put {
            key: key@,
            text: text@,
            ttl_secs,
        }),
{
}

} // verus!
