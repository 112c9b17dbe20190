use siren::proxy::outbound::record_url;
use siren::stats_do::{Counters, LoadEvent, LoadStep, Report, StatsCounter, StatsRequest};

fn pairs(v: &[(&str, &str)]) -> Vec<(String, String)> {
    v.iter().map(|(k, n)| (k.to_string(), n.to_string())).collect()
}

fn stored(c: Counters, now: u64) -> LoadEvent {
    LoadEvent::Stored {
        up_bytes: Some(c.up_bytes),
        down_bytes: Some(c.down_bytes),
        connections: Some(c.connections),
        first_seen: Some(c.first_seen),
        now,
    }
}

const SOME: Counters = Counters { up_bytes: 10, down_bytes: 20, connections: 3, first_seen: 1000 };

#[test]
fn record_requests_are_read() {
    assert_eq!(
        StatsCounter::fetch("/record", &pairs(&[("up", "12"), ("down", "34")])),
        StatsRequest::Record { up: 12, down: 34 }
    );
    assert_eq!(
        StatsCounter::fetch("/record", &pairs(&[])),
        StatsRequest::Record { up: 0, down: 0 }
    );
    assert_eq!(
        StatsCounter::fetch("/record", &pairs(&[("x", "9"), ("down", "-1"), ("up", "abc")])),
        StatsRequest::Record { up: 0, down: 0 }
    );
}

#[test]
fn last_number_of_a_query_counts() {
    assert_eq!(
        StatsCounter::fetch("/record", &pairs(&[("up", "1"), ("down", "2"), ("up", "3")])),
        StatsRequest::Record { up: 3, down: 2 }
    );
    assert_eq!(
        StatsCounter::fetch("/record", &pairs(&[("up", "1"), ("up", "none")])),
        StatsRequest::Record { up: 0, down: 0 }
    );
}

#[test]
fn every_other_path_asks_for_the_report() {
    for p in ["/stats", "/", "", "/record/", "/Record"] {
        assert_eq!(StatsCounter::fetch(p, &pairs(&[("up", "1")])), StatsRequest::Stats);
    }
}

#[test]
fn reported_traffic_is_read_back() {
    for (up, down) in [(0, 0), (1, 18446744073709551615), (1234567, 89)] {
        assert_eq!(
            StatsCounter::fetch_url(&record_url(up, down)),
            Some(StatsRequest::Record { up, down })
        );
    }
}

#[test]
fn requests_are_read_from_their_urls() {
    let record = |up, down| Some(StatsRequest::Record { up, down });
    let fetch = |url: &str| StatsCounter::fetch_url(url);
    assert_eq!(fetch("https://stats.internal/record?%75p=%31%32&down=3+"), record(12, 0));
    assert_eq!(fetch("https://stats.internal/record?up=1&&down=2&up=%2B3#up=9"), record(3, 2));
    assert_eq!(fetch("https://stats.internal/record"), record(0, 0));
    assert_eq!(fetch("HTTPS://other:8443/x/../record?down=5"), record(0, 5));
    assert_eq!(fetch("https://stats.internal/stats?up=1"), Some(StatsRequest::Stats));
    assert_eq!(fetch("https://stats.internal"), Some(StatsRequest::Stats));
    assert_eq!(fetch("https://stats.internal/%72ecord?up=1"), Some(StatsRequest::Stats));
}

#[test]
fn what_is_no_url_asks_for_nothing() {
    for text in ["", "/record?up=1", "stats.internal/record", "https://", "https://a b/record"] {
        assert_eq!(StatsCounter::fetch_url(text), None);
    }
}

#[test]
fn first_load_stores_the_time() {
    let mut s = StatsCounter::new();
    assert_eq!(s.load(LoadEvent::Start), LoadStep::Read);
    let fresh = Counters { up_bytes: 0, down_bytes: 7, connections: 0, first_seen: 555 };
    let event = LoadEvent::Stored {
        up_bytes: None,
        down_bytes: Some(7),
        connections: None,
        first_seen: None,
        now: 555,
    };
    assert_eq!(s.load(event), LoadStep::PutFirstSeen(fresh));
    assert_eq!(s.cache, None);
    assert_eq!(s.load(LoadEvent::FirstSeenPut(fresh)), LoadStep::Ready(fresh));
    assert_eq!(s.cache, Some(fresh));
}

#[test]
fn stored_counters_are_loaded() {
    let mut s = StatsCounter::new();
    assert_eq!(s.load(stored(SOME, 99)), LoadStep::Ready(SOME));
    assert_eq!(s.cache, Some(SOME));
}

#[test]
fn loaded_counters_are_kept() {
    let mut s = StatsCounter::new();
    s.load(stored(SOME, 99));
    assert_eq!(s.load(LoadEvent::Start), LoadStep::Ready(SOME));
}

#[test]
fn connections_are_summed() {
    let mut s = StatsCounter::new();
    let mut c = SOME;
    for (up, down) in [(1, 2), (100, 0), (0, 5)] {
        c = s.handle_record(c, up, down);
        assert_eq!(s.cache, Some(c));
    }
    assert_eq!(
        c,
        Counters { up_bytes: 111, down_bytes: 27, connections: 6, first_seen: 1000 }
    );
}

#[test]
fn sums_up_to_the_largest_number_are_taken() {
    let mut s = StatsCounter::new();
    let c = s.handle_record(SOME, u64::MAX - 10, u64::MAX - 20);
    assert_eq!(c.up_bytes, u64::MAX);
    assert_eq!(c.down_bytes, u64::MAX);
}

#[test]
fn stored_numbers_have_their_names() {
    assert_eq!(
        SOME.writes(),
        vec![
            ("up_bytes".to_string(), 10),
            ("down_bytes".to_string(), 20),
            ("connections".to_string(), 3)
        ]
    );
}

#[test]
fn report_adds_up() {
    let s = StatsCounter::new();
    let r = s.handle_stats(SOME, 4999);
    assert_eq!(
        r,
        Report {
            up_bytes: 10,
            down_bytes: 20,
            total_bytes: 30,
            connections: 3,
            first_seen: 1000,
            uptime_seconds: 3,
        }
    );
    assert_eq!(
        r.entries(),
        vec![
            ("up_bytes".to_string(), 10),
            ("down_bytes".to_string(), 20),
            ("total_bytes".to_string(), 30),
            ("connections".to_string(), 3),
            ("first_seen".to_string(), 1000),
            ("uptime_seconds".to_string(), 3)
        ]
    );
}

#[test]
fn clock_before_the_first_time_counts_as_no_uptime() {
    let s = StatsCounter::new();
    assert_eq!(s.handle_stats(SOME, 999).uptime_seconds, 0);
    assert_eq!(s.handle_stats(SOME, 1999).uptime_seconds, 0);
    assert_eq!(s.handle_stats(SOME, 2000).uptime_seconds, 1);
}

#[test]
fn order_of_the_connections_does_not_matter() {
    let traffic = [(1, 2), (30, 40), (500, 600), (1, 2)];
    let mut s = StatsCounter::new();
    let forth = traffic.iter().fold(SOME, |c, t| s.handle_record(c, t.0, t.1));
    let back = traffic.iter().rev().fold(SOME, |c, t| s.handle_record(c, t.0, t.1));
    assert_eq!(forth, back);
}
