use page_stats::client::RedisPageStatsClient;
use page_stats::json::stats_to_json;
use page_stats::service::encode_stats_list;
use page_stats::service::get_stats_step;
use page_stats::service::health_check;
use page_stats::service::increment_stats_step;
use page_stats::service::parse_increment_type;
use page_stats::service::set_reading_time_step;
use page_stats::service::IncrementKind;
use page_stats::service::ServiceError;
use page_stats::stats::PageStats;

#[test]
fn test_health_check_is_static_ok() {
    assert_eq!(health_check(), "OK");
}

#[test]
fn test_track_view_increments_as_side_effect() {
    let client = RedisPageStatsClient::new("redis://localhost", "dev");
    let (stats, written) = get_stats_step(&client, "post", true, None);
    assert_eq!(stats.views, 1);
    // The read wrote back the grown record.
    let value = written.expect("a tracked view writes the record back");
    let reread = client.get_page_stats("post", Some(&value)).unwrap();
    assert_eq!(reread.views, 1);
}

#[test]
fn test_get_without_track_view_writes_nothing() {
    let client = RedisPageStatsClient::new("redis://localhost", "dev");
    let (stats, written) = get_stats_step(&client, "post", false, None);
    // An absent slug reads as the zero-valued record, and nothing is written.
    assert_eq!(stats, PageStats::new("post"));
    assert_eq!(written, None);

    let stored = stats_to_json(&PageStats {
        slug: "post".to_string(),
        reads: 0,
        views: 9,
        likes: 2,
        time: 30,
    });
    let (stats2, written2) = get_stats_step(&client, "post", false, Some(&stored));
    assert_eq!(stats2.views, 9);
    assert_eq!(written2, None);
}

#[test]
fn test_increment_type_validation() {
    assert_eq!(parse_increment_type("views"), Some(IncrementKind::Views));
    assert_eq!(parse_increment_type("likes"), Some(IncrementKind::Likes));
    assert_eq!(parse_increment_type("shares"), None);
    assert_eq!(parse_increment_type("reads"), None);
    assert_eq!(parse_increment_type(""), None);
}

#[test]
fn test_increment_endpoint_views() {
    let client = RedisPageStatsClient::new("redis://localhost", "dev");
    let (stats, value) = increment_stats_step(
        &client,
        "post",
        "{\"increment_type\":\"views\"}",
        None,
    )
    .unwrap();
    assert_eq!(stats.views, 1);
    assert_eq!(stats.likes, 0);
    let reread = client.get_page_stats("post", Some(&value)).unwrap();
    assert_eq!(reread.views, 1);
}

#[test]
fn test_increment_endpoint_likes() {
    let client = RedisPageStatsClient::new("redis://localhost", "dev");
    let (stats, _) = increment_stats_step(
        &client,
        "post",
        "{\"increment_type\":\"likes\"}",
        None,
    )
    .unwrap();
    assert_eq!(stats.likes, 1);
    assert_eq!(stats.views, 0);
}

#[test]
fn test_invalid_increment_type_is_rejected_without_write() {
    let client = RedisPageStatsClient::new("redis://localhost", "dev");
    let r = increment_stats_step(&client, "post", "{\"increment_type\":\"shares\"}", None);
    // Rejected as a client error, and no value to write exists, so stored
    // state cannot change.
    assert_eq!(r, Err(ServiceError::InvalidIncrementType));
}

#[test]
fn test_malformed_increment_body_is_rejected() {
    let client = RedisPageStatsClient::new("redis://localhost", "dev");
    let r = increment_stats_step(&client, "post", "{\"increment_type\":3}", None);
    assert_eq!(r, Err(ServiceError::MalformedBody));
    let r2 = increment_stats_step(&client, "post", "", None);
    assert_eq!(r2, Err(ServiceError::MalformedBody));
}

#[test]
fn test_reading_time_endpoint() {
    let client = RedisPageStatsClient::new("redis://localhost", "dev");
    let (stats, value) = set_reading_time_step(&client, "post", "{\"seconds\":30}", None).unwrap();
    assert_eq!(stats.time, 30);
    let (stats2, _) = set_reading_time_step(&client, "post", "{\"seconds\":12}", Some(&value))
        .unwrap();
    assert_eq!(stats2.time, 42);
}

#[test]
fn test_malformed_time_body_is_rejected() {
    let client = RedisPageStatsClient::new("redis://localhost", "dev");
    let r = set_reading_time_step(&client, "post", "{\"seconds\":\"30\"}", None);
    assert_eq!(r, Err(ServiceError::MalformedBody));
}

#[test]
fn test_encode_stats_list() {
    let a = PageStats {
        slug: "a".to_string(),
        reads: 0,
        views: 1,
        likes: 2,
        time: 3,
    };
    let b = PageStats {
        slug: "b".to_string(),
        reads: 4,
        views: 5,
        likes: 6,
        time: 7,
    };
    assert_eq!(encode_stats_list(&vec![]), "[]");
    assert_eq!(
        encode_stats_list(&vec![a.clone()]),
        "[{\"slug\":\"a\",\"reads\":0,\"views\":1,\"likes\":2,\"time\":3}]"
    );
    assert_eq!(
        encode_stats_list(&vec![a, b]),
        "[{\"slug\":\"a\",\"reads\":0,\"views\":1,\"likes\":2,\"time\":3},{\"slug\":\"b\",\"reads\":4,\"views\":5,\"likes\":6,\"time\":7}]"
    );
}
