use page_stats::json::stats_from_json;
use page_stats::json::stats_to_json;
use page_stats::stats::PageStats;

fn record(slug: &str, reads: u64, views: u64, likes: u64, time: u64) -> PageStats {
    PageStats {
        slug: slug.to_string(),
        reads,
        views,
        likes,
        time,
    }
}

#[test]
fn test_json_serialization() {
    let stats = PageStats {
        slug: "240125_rust_on_esp32_2_hardware".to_string(),
        reads: 0,
        views: 2,
        likes: 0,
        time: 6,
    };

    let json = stats_to_json(&stats);
    let deserialized: PageStats = stats_from_json(&json).unwrap();

    assert_eq!(stats, deserialized);
}

#[test]
fn test_encoding_is_canonical() {
    let stats = record("x", 0, 2, 0, 6);
    assert_eq!(
        stats_to_json(&stats),
        "{\"slug\":\"x\",\"reads\":0,\"views\":2,\"likes\":0,\"time\":6}"
    );
}

#[test]
fn test_encoding_escapes_quotes_and_backslashes() {
    let stats = record("a\"b\\c", 1, 2, 3, 4);
    let json = stats_to_json(&stats);
    assert_eq!(
        json,
        "{\"slug\":\"a\\\"b\\\\c\",\"reads\":1,\"views\":2,\"likes\":3,\"time\":4}"
    );
    let back = stats_from_json(&json).unwrap();
    assert_eq!(back, stats);
}

#[test]
fn test_round_trip_large_counters() {
    let stats = record("slug-with-unicode-\u{00e9}", u64::MAX, 0, u64::MAX - 1, 123456789);
    let back = stats_from_json(&stats_to_json(&stats)).unwrap();
    assert_eq!(back, stats);
}

#[test]
fn test_parse_rejects_garbage() {
    assert_eq!(stats_from_json(""), None);
    assert_eq!(stats_from_json("not json"), None);
    assert_eq!(stats_from_json("{\"slug\":\"x\"}"), None);
    assert_eq!(stats_from_json("{\"slug\":\"x\",\"reads\":0,\"views\":2,\"likes\":0,\"time\":6"), None);
    assert_eq!(
        stats_from_json("{\"slug\":\"x\",\"reads\":-1,\"views\":2,\"likes\":0,\"time\":6}"),
        None
    );
    // A counter beyond 64 bits does not parse.
    assert_eq!(
        stats_from_json("{\"slug\":\"x\",\"reads\":18446744073709551616,\"views\":0,\"likes\":0,\"time\":0}"),
        None
    );
    // Trailing content after the object is rejected.
    assert_eq!(
        stats_from_json("{\"slug\":\"x\",\"reads\":0,\"views\":2,\"likes\":0,\"time\":6} "),
        None
    );
}

#[test]
fn test_parse_reads_exact_values() {
    let parsed =
        stats_from_json("{\"slug\":\"hello\",\"reads\":7,\"views\":42,\"likes\":9,\"time\":300}")
            .unwrap();
    assert_eq!(parsed.slug, "hello");
    assert_eq!(parsed.reads, 7);
    assert_eq!(parsed.views, 42);
    assert_eq!(parsed.likes, 9);
    assert_eq!(parsed.time, 300);
}

#[test]
fn test_encoding_agrees_with_a_json_reader() {
    let stats = record("a\"b", 1, 22, 333, 4444);
    let json = stats_to_json(&stats);
    let value: serde_json::Value = serde_json::from_str(&json).unwrap();
    assert_eq!(value.get("slug").unwrap().as_str().unwrap(), "a\"b");
    assert_eq!(value.get("reads").unwrap().as_u64().unwrap(), 1);
    assert_eq!(value.get("views").unwrap().as_u64().unwrap(), 22);
    assert_eq!(value.get("likes").unwrap().as_u64().unwrap(), 333);
    assert_eq!(value.get("time").unwrap().as_u64().unwrap(), 4444);
}
