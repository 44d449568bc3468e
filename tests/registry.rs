use tabledash::config::{AppConfig, TableConfig, TableSource};
use tabledash::extract::ExtractError;
use tabledash::refresh::FetchError;
use tabledash::registry::{fetch_rows, TableRegistry};

fn table(id: &str, source: TableSource) -> TableConfig {
    TableConfig {
        id: id.to_string(),
        table_header: None,
        column_headers: vec!["name".to_string(), "price".to_string()],
        column_ratios: vec![50, 50],
        max_cell_height: 1,
        source,
        design: None,
    }
}

fn keys() -> Option<Vec<String>> {
    Some(vec!["name".to_string(), "price".to_string()])
}

fn remote(url: &str, interval: u64) -> TableSource {
    TableSource::Remote { url: url.to_string(), refresh_interval_ms: interval, mapping: keys() }
}

fn file(path: &str, interval: u64) -> TableSource {
    TableSource::File { path: path.to_string(), refresh_interval_ms: interval, mapping: keys() }
}

fn one_row(name: &str, price: &str) -> Vec<Vec<String>> {
    vec![vec![name.to_string(), price.to_string()]]
}

#[test]
fn fetch_rows_by_source() {
    let st = TableSource::Static { data: one_row("a", "b") };
    assert_eq!(fetch_rows(&st, Err(FetchError::Io("ignored".to_string()))), Ok(one_row("a", "b")));
    let f = file("p", 1);
    assert_eq!(fetch_rows(&f, Ok(br#"[{"name":"x","price":2}]"#.to_vec())), Ok(one_row("x", "2")));
    assert_eq!(fetch_rows(&f, Err(FetchError::Io("missing".to_string()))), Err(FetchError::Io("missing".to_string())));
    assert_eq!(fetch_rows(&f, Ok(b"{".to_vec())), Err(FetchError::Extract(ExtractError::MalformedJson)));
    let nomap = TableSource::File { path: "p".to_string(), refresh_interval_ms: 1, mapping: None };
    assert_eq!(fetch_rows(&nomap, Ok(b"[]".to_vec())), Err(FetchError::Extract(ExtractError::NoMapping)));
}

#[test]
fn end_to_end_prices() {
    let config = AppConfig { tables: vec![vec![table("prices", remote("http://q/prices", 10_000))]] };
    let mut reg = TableRegistry::new(config);
    let reqs = reg.begin_tick(0);
    assert_eq!(reqs.len(), 1);
    assert_eq!(reqs[0].id, "prices");
    assert!(reg.complete_fetch(&reqs[0], Ok(br#"[{"name":"A","price":1.5}]"#.to_vec()), 0));
    assert_eq!(reg.states[0][0].record.cached_rows, one_row("A", "1.5"));
    assert_eq!(reg.states[0][0].record.consecutive_failures, 0);
    assert!(reg.begin_tick(5_000).is_empty());
    let mut now = 10_000;
    for _ in 0..3 {
        let reqs = reg.begin_tick(now);
        assert_eq!(reqs.len(), 1);
        assert!(reg.complete_fetch(&reqs[0], Err(FetchError::Network("502".to_string())), now));
        if reg.states[0][0].record.consecutive_failures < 3 {
            now += 10_000;
        }
    }
    assert_eq!(reg.states[0][0].record.consecutive_failures, 3);
    assert_eq!(reg.states[0][0].record.backoff_until, Some(now + 5_000));
    assert_eq!(reg.states[0][0].record.cached_rows, one_row("A", "1.5"));
    assert!(reg.begin_tick(now + 4_999).is_empty());
    now += 10_000;
    let reqs = reg.begin_tick(now);
    assert_eq!(reqs.len(), 1);
    assert!(reg.complete_fetch(&reqs[0], Err(FetchError::Network("502".to_string())), now));
    assert_eq!(reg.states[0][0].record.backoff_until, Some(now + 10_000));
}

#[test]
fn failing_remote_does_not_hold_back_file() {
    let config = AppConfig {
        tables: vec![vec![table("bad", remote("http://down", 1_000)), table("good", file("data.json", 1_000))]],
    };
    let mut reg = TableRegistry::new(config);
    let mut good_updates = 0;
    let mut now = 0;
    for n in 0..20u64 {
        let reqs = reg.begin_tick(now);
        for r in &reqs {
            if r.id == "good" {
                let body = format!(r#"[{{"name":"n","price":{}}}]"#, n);
                assert!(reg.complete_fetch(r, Ok(body.into_bytes()), now));
                good_updates += 1;
            } else {
                assert!(reg.complete_fetch(r, Err(FetchError::Network("refused".to_string())), now));
            }
        }
        now += 1_000;
    }
    assert_eq!(good_updates, 20);
    assert_eq!(reg.states[0][1].record.cached_rows, one_row("n", "19"));
    assert_eq!(reg.states[0][1].record.consecutive_failures, 0);
    let bad = &reg.states[0][0].record;
    assert!(bad.consecutive_failures >= 3 && bad.consecutive_failures < 20);
    assert!(bad.backoff_until.is_some());
    assert_eq!(bad.last_error, Some("refused".to_string()));
}

#[test]
fn no_second_fetch_while_in_flight() {
    let config = AppConfig { tables: vec![vec![table("t", remote("http://a", 0))]] };
    let mut reg = TableRegistry::new(config);
    let first = reg.begin_tick(0);
    assert_eq!(first.len(), 1);
    assert!(reg.begin_tick(100).is_empty());
    assert!(reg.complete_fetch(&first[0], Ok(b"[]".to_vec()), 200));
    assert!(!reg.complete_fetch(&first[0], Ok(b"[]".to_vec()), 200));
    assert_eq!(reg.begin_tick(300).len(), 1);
}

#[test]
fn reload_preserves_unchanged_and_resets_changed() {
    let config = AppConfig { tables: vec![vec![table("t1", remote("http://a", 0))]] };
    let mut reg = TableRegistry::new(config);
    let reqs = reg.begin_tick(0);
    assert!(reg.complete_fetch(&reqs[0], Ok(br#"[{"name":"k","price":1}]"#.to_vec()), 0));
    let reqs = reg.begin_tick(1);
    assert!(reg.complete_fetch(&reqs[0], Err(FetchError::Network("x".to_string())), 1));

    let same = reg.reload(AppConfig { tables: vec![vec![table("t1", remote("http://a", 500))], vec![table("t2", remote("http://b", 0))]] });
    assert_eq!(same.states[0][0].record.cached_rows, one_row("k", "1"));
    assert_eq!(same.states[0][0].record.consecutive_failures, 1);
    assert_eq!(same.states[1][0].record.cached_rows, vec![Vec::<String>::new()]);

    let moved = reg.reload(AppConfig { tables: vec![vec![table("t1", remote("http://other", 0))]] });
    assert_eq!(moved.states[0][0].record.cached_rows, vec![Vec::<String>::new()]);
    assert_eq!(moved.states[0][0].record.consecutive_failures, 0);
    assert_eq!(moved.states[0][0].record.last_attempt_at, None);
}

#[test]
fn stale_result_after_reload_is_dropped() {
    let config = AppConfig { tables: vec![vec![table("t1", remote("http://a", 0))]] };
    let mut reg = TableRegistry::new(config);
    let reqs = reg.begin_tick(0);
    let mut next = reg.reload(AppConfig { tables: vec![vec![table("t1", remote("http://b", 0))]] });
    assert!(!next.complete_fetch(&reqs[0], Ok(br#"[{"name":"old","price":0}]"#.to_vec()), 5));
    assert_eq!(next.states[0][0].record.cached_rows, vec![Vec::<String>::new()]);
    let mut gone = reg.reload(AppConfig { tables: vec![] });
    assert!(!gone.complete_fetch(&reqs[0], Ok(b"[]".to_vec()), 5));
}

#[test]
fn missing_mapping_is_a_lasting_config_error() {
    let src = TableSource::Remote { url: "http://a".to_string(), refresh_interval_ms: 0, mapping: None };
    let mut reg = TableRegistry::new(AppConfig { tables: vec![vec![table("t", src)]] });
    for t in 0..5u64 {
        assert!(reg.begin_tick(t * 100_000).is_empty());
    }
    let rec = &reg.states[0][0].record;
    assert_eq!(rec.last_error, Some("no field mapping".to_string()));
    assert_eq!(rec.consecutive_failures, 0);
    assert_eq!(rec.backoff_until, None);
}

#[test]
fn find_first_identity() {
    let reg = TableRegistry::new(AppConfig {
        tables: vec![vec![table("a", remote("u", 0))], vec![table("b", remote("v", 0)), table("a", remote("w", 0))]],
    });
    assert_eq!(reg.find(&"a".to_string()), Some((0, 0)));
    assert_eq!(reg.find(&"b".to_string()), Some((1, 0)));
    assert_eq!(reg.find(&"z".to_string()), None);
}

#[test]
fn mapping_change_during_fetch_does_not_stall() {
    let config = AppConfig { tables: vec![vec![table("t1", remote("http://a", 0))]] };
    let mut reg = TableRegistry::new(config);
    let reqs = reg.begin_tick(0);
    assert_eq!(reqs.len(), 1);
    let other = TableSource::Remote { url: "http://a".to_string(), refresh_interval_ms: 0, mapping: Some(vec!["name".to_string()]) };
    let mut next = reg.reload(AppConfig { tables: vec![vec![table("t1", other)]] });
    assert!(!next.states[0][0].in_flight);
    assert!(!next.complete_fetch(&reqs[0], Ok(br#"[{"name":"old","price":0}]"#.to_vec()), 5));
    let again = next.begin_tick(10);
    assert_eq!(again.len(), 1);
    assert!(next.complete_fetch(&again[0], Ok(br#"[{"name":"new"}]"#.to_vec()), 10));
    assert_eq!(next.states[0][0].record.cached_rows, vec![vec!["new".to_string()]]);
}

#[test]
fn unchanged_reload_keeps_pending_fetch() {
    let config = AppConfig { tables: vec![vec![table("t1", remote("http://a", 0))]] };
    let mut reg = TableRegistry::new(config);
    let reqs = reg.begin_tick(0);
    let mut next = reg.reload(AppConfig { tables: vec![vec![table("t1", remote("http://a", 700))]] });
    assert!(next.states[0][0].in_flight);
    assert!(next.begin_tick(1).is_empty());
    assert!(next.complete_fetch(&reqs[0], Ok(br#"[{"name":"k","price":2}]"#.to_vec()), 2));
    assert_eq!(next.states[0][0].record.cached_rows, one_row("k", "2"));
}
