use page_stats::reading_time::_format_reading_time;
use page_stats::reading_time::calculate_reading_time;
use page_stats::reading_time::count_words;

#[test]
fn test_count_words_plain_text() {
    assert_eq!(count_words(""), 0);
    assert_eq!(count_words("one"), 1);
    assert_eq!(count_words("one two  three"), 3);
    assert_eq!(count_words("  spaced   out  "), 2);
}

#[test]
fn test_count_words_skips_syntax_lines() {
    assert_eq!(count_words("# A heading with many words"), 0);
    assert_eq!(count_words("# Hello\n\nThis is **bold** text.\n"), 4);
    assert_eq!(count_words("```\ncode line here\n```\n"), 3);
    assert_eq!(count_words("---\nfront matter\n---\n"), 2);
    assert_eq!(count_words("   # indented heading"), 0);
}

#[test]
fn test_count_words_strips_emphasis_marks() {
    assert_eq!(count_words("_under_ and *star*"), 3);
    assert_eq!(count_words("`code` **bold** plain"), 3);
    // A line of marks alone holds no words once they are removed.
    assert_eq!(count_words("** ** __"), 0);
}

#[test]
fn test_calculate_reading_time() {
    assert_eq!(calculate_reading_time(""), 0);
    // A single word reads in under a second at 200 words per minute.
    assert_eq!(calculate_reading_time("word"), 0);
    // Ten words take three seconds.
    assert_eq!(calculate_reading_time("a b c d e f g h i j"), 3);
    // Two hundred words take a minute.
    let content = vec!["word"; 200].join(" ");
    assert_eq!(calculate_reading_time(&content), 60);
}

#[test]
fn test_format_reading_time() {
    assert_eq!(_format_reading_time(0), "0h 0m");
    assert_eq!(_format_reading_time(3690), "1h 1m");
    assert_eq!(_format_reading_time(7380), "2h 3m");
}
