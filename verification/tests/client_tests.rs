use page_stats::client::RedisPageStatsClient;
use page_stats::json::stats_to_json;
use page_stats::stats::PageStats;

#[test]
fn test_key_generation() {
    let client = RedisPageStatsClient::new("redis://localhost", "test");
    let key = client.generate_key("my_blog_post");
    assert_eq!(key, "test:post:my_blog_post:page_stats");
}

#[test]
fn test_scan_pattern() {
    let client = RedisPageStatsClient::new("redis://localhost", "prod");
    assert_eq!(client.scan_pattern(), "prod:post:*:page_stats");
}

#[test]
fn test_get_absent_slug_is_none() {
    let client = RedisPageStatsClient::new("redis://localhost", "dev");
    assert_eq!(client.get_page_stats("never_written", None), None);
}

#[test]
fn test_get_masks_corrupt_value_with_zero_record() {
    let client = RedisPageStatsClient::new("redis://localhost", "dev");
    let got = client
        .get_page_stats("my_post", Some("{\"legacy\":true}"))
        .unwrap();
    assert_eq!(got, PageStats::new("my_post"));
    assert_eq!(got.views, 0);
    assert_eq!(got.likes, 0);
    assert_eq!(got.reads, 0);
    assert_eq!(got.time, 0);
    assert_eq!(got.slug, "my_post");
}

#[test]
fn test_get_reads_stored_record() {
    let client = RedisPageStatsClient::new("redis://localhost", "dev");
    let written = stats_to_json(&PageStats {
        slug: "a".to_string(),
        reads: 1,
        views: 2,
        likes: 3,
        time: 4,
    });
    let got = client.get_page_stats("a", Some(&written)).unwrap();
    assert_eq!(got.views, 2);
    assert_eq!(got.likes, 3);
}

#[test]
fn test_increment_views_then_get() {
    let client = RedisPageStatsClient::new("redis://localhost", "dev");
    // First increment on a fresh slug.
    let (stats, written) = client.increment_views("fresh", None);
    assert_eq!(stats.views, 1);
    assert_eq!(stats.likes, 0);
    // A later get over the written value sees views grown by exactly one.
    let got = client.get_page_stats("fresh", Some(&written)).unwrap();
    assert_eq!(got.views, 1);
    let (stats2, written2) = client.increment_views("fresh", Some(&written));
    assert_eq!(stats2.views, 2);
    let got2 = client.get_page_stats("fresh", Some(&written2)).unwrap();
    assert_eq!(got2.views, 2);
}

#[test]
fn test_increments_are_independent() {
    let client = RedisPageStatsClient::new("redis://localhost", "dev");
    let (after_views, written) = client.increment_views("post", None);
    assert_eq!(after_views.views, 1);
    assert_eq!(after_views.likes, 0);
    assert_eq!(after_views.reads, 0);
    let (after_likes, _) = client.increment_likes("post", Some(&written));
    assert_eq!(after_likes.likes, 1);
    // Incrementing likes left views exactly as they were.
    assert_eq!(after_likes.views, 1);
    assert_eq!(after_likes.reads, 0);
    let (after_reads, _) = client.increment_reads("post", Some(&written));
    assert_eq!(after_reads.reads, 1);
    assert_eq!(after_reads.views, 1);
    assert_eq!(after_reads.likes, 0);
}

#[test]
fn test_add_time_accumulates() {
    let client = RedisPageStatsClient::new("redis://localhost", "dev");
    let (stats, written) = client.add_time("post", 30, None);
    assert_eq!(stats.time, 30);
    let (stats2, _) = client.add_time("post", 12, Some(&written));
    assert_eq!(stats2.time, 42);
    assert_eq!(stats2.views, 0);
}

#[test]
fn test_concurrent_increments_lose_an_update() {
    let client = RedisPageStatsClient::new("redis://localhost", "dev");
    // Two writers read the same fresh slug before either writes: the
    // read-modify-write is not atomic, so both compute views == 1.
    let (first, first_written) = client.increment_views("fresh", None);
    let (second, second_written) = client.increment_views("fresh", None);
    assert_eq!(first.views, 1);
    assert_eq!(second.views, 1);
    // Whichever write lands last, a later read sees one view, not two.
    let after_first = client.get_page_stats("fresh", Some(&first_written)).unwrap();
    let after_second = client.get_page_stats("fresh", Some(&second_written)).unwrap();
    assert_eq!(after_first.views, 1);
    assert_eq!(after_second.views, 1);
}

#[test]
fn test_list_all_returns_written_records() {
    let client = RedisPageStatsClient::new("redis://localhost", "dev");
    let a = PageStats {
        slug: "a".to_string(),
        reads: 0,
        views: 5,
        likes: 1,
        time: 60,
    };
    let b = PageStats {
        slug: "b".to_string(),
        reads: 2,
        views: 7,
        likes: 0,
        time: 90,
    };
    let values = vec![stats_to_json(&a), stats_to_json(&b)];
    let all = client.get_all_page_stats(&values);
    assert_eq!(all, vec![a.clone(), b.clone()]);

    // The same values split across scan batches of any size give the same
    // records: decoding distributes over concatenation.
    let batch_one = vec![stats_to_json(&a)];
    let batch_two = vec![stats_to_json(&b)];
    let mut combined = Vec::new();
    combined.extend(client.get_all_page_stats(&batch_one));
    combined.extend(client.get_all_page_stats(&batch_two));
    assert_eq!(combined, vec![a, b]);
}

#[test]
fn test_list_all_skips_corrupt_values() {
    let client = RedisPageStatsClient::new("redis://localhost", "dev");
    let good = PageStats::new("ok");
    let values = vec![
        "not a record".to_string(),
        stats_to_json(&good),
        "{\"slug\":\"half".to_string(),
    ];
    let all = client.get_all_page_stats(&values);
    assert_eq!(all, vec![good]);
}

#[test]
fn test_client_keeps_configuration() {
    let client = RedisPageStatsClient::new("redis://127.0.0.1:6379", "staging");
    assert_eq!(client.redis_url, "redis://127.0.0.1:6379");
    assert_eq!(client.env_prefix, "staging");
}
