use page_stats::service::IncrementKind;
use page_stats::stats::PageStats;
use page_stats::widget::format_time;
use page_stats::widget::increment_request_body;
use page_stats::widget::increment_url;
use page_stats::widget::stats_url;
use page_stats::widget::with_client_reading_time;

#[test]
fn page_stats_display_test_format_time() {
    assert_eq!(format_time(30), "30s");
    assert_eq!(format_time(60), "1m");
    assert_eq!(format_time(90), "1m 30s");
    assert_eq!(format_time(3600), "1h");
    assert_eq!(format_time(3660), "1h 1m");
    assert_eq!(format_time(3690), "1h 1m");
}

#[test]
fn page_stats_display_backup_test_format_time() {
    assert_eq!(format_time(30), "30s");
    assert_eq!(format_time(60), "1m");
    assert_eq!(format_time(90), "1m 30s");
    assert_eq!(format_time(3600), "1h");
    assert_eq!(format_time(3660), "1h 1m");
    assert_eq!(format_time(3690), "1h 1m");
}

#[test]
fn test_format_time_edges() {
    assert_eq!(format_time(0), "0s");
    assert_eq!(format_time(59), "59s");
    assert_eq!(format_time(61), "1m 1s");
    assert_eq!(format_time(3599), "59m 59s");
    assert_eq!(format_time(7200), "2h");
}

#[test]
fn test_widget_urls() {
    assert_eq!(stats_url("my_post", false), "/api/stats/my_post");
    assert_eq!(stats_url("my_post", true), "/api/stats/my_post?track_view=true");
    assert_eq!(increment_url("my_post"), "/api/stats/my_post/increment");
}

#[test]
fn test_widget_increment_body_round_trips_through_service() {
    let body = increment_request_body(IncrementKind::Likes);
    assert_eq!(body, "{\"increment_type\":\"likes\"}");
    let value = page_stats::service::parse_increment_request(&body).unwrap();
    assert_eq!(
        page_stats::service::parse_increment_type(&value),
        Some(IncrementKind::Likes)
    );
    let body_views = increment_request_body(IncrementKind::Views);
    let value_views = page_stats::service::parse_increment_request(&body_views).unwrap();
    assert_eq!(
        page_stats::service::parse_increment_type(&value_views),
        Some(IncrementKind::Views)
    );
}

#[test]
fn test_widget_overwrites_time_locally() {
    let served = PageStats {
        slug: "post".to_string(),
        reads: 1,
        views: 10,
        likes: 3,
        time: 999,
    };
    let shown = with_client_reading_time(served, 120);
    assert_eq!(shown.time, 120);
    assert_eq!(shown.views, 10);
    assert_eq!(shown.likes, 3);
    assert_eq!(shown.reads, 1);
    assert_eq!(shown.slug, "post");
}
