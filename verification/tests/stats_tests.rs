use page_stats::stats::PageStats;

#[test]
fn test_page_stats_creation() {
    let stats = PageStats::new("test_slug");
    assert_eq!(stats.slug, "test_slug");
    assert_eq!(stats.views, 0);
    assert_eq!(stats.reads, 0);
    assert_eq!(stats.likes, 0);
    assert_eq!(stats.time, 0);
}

#[test]
fn test_page_stats_increments() {
    let mut stats = PageStats::new("test_slug");

    stats.increment_views();
    assert_eq!(stats.views, 1);

    stats.increment_reads();
    assert_eq!(stats.reads, 1);

    stats.increment_likes();
    assert_eq!(stats.likes, 1);

    stats.add_time(30);
    assert_eq!(stats.time, 30);
}

#[test]
fn test_page_stats_default() {
    let stats = PageStats::default();
    assert_eq!(stats.slug, "");
    assert_eq!(stats.views, 0);
    assert_eq!(stats.reads, 0);
    assert_eq!(stats.likes, 0);
    assert_eq!(stats.time, 0);
}

#[test]
fn test_increments_accumulate() {
    let mut stats = PageStats::new("post");
    stats.increment_views();
    stats.increment_views();
    stats.increment_views();
    assert_eq!(stats.views, 3);
    assert_eq!(stats.likes, 0);
    stats.add_time(10);
    stats.add_time(20);
    assert_eq!(stats.time, 30);
}
