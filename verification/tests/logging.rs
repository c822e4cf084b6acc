use crimson_desert_tomtom::logging::{DebugLogger, MAX_LOG_LINES};

/// The stamp the program passes: the local time as `HH:MM:SS`.
fn stamp() -> String {
    chrono::Local::now().format("%H:%M:%S").to_string()
}

#[test]
fn test_logging() {
    let mut logger = DebugLogger::new();
    logger.log(&stamp(), "Test message 1");
    logger.log(&stamp(), "Test message 2");
    let text = logger.get_recent_text();
    assert!(text.contains("Test message 1"));
    assert!(text.contains("Test message 2"));
}

#[test]
fn test_max_lines() {
    let mut logger = DebugLogger::new();
    for i in 0..300 {
        logger.log(&stamp(), &format!("Line {}", i));
    }
    assert_eq!(logger.line_count(), MAX_LOG_LINES);
}

#[test]
fn entries_are_timestamped() {
    let mut logger = DebugLogger::new();
    logger.log(&stamp(), "hello");
    let text = logger.get_display_text(1);
    let b = text.as_bytes();
    assert_eq!(text.len(), "[HH:MM:SS] hello".len());
    assert_eq!(b[0], b'[');
    assert_eq!(b[3], b':');
    assert_eq!(b[6], b':');
    assert_eq!(&text[9..], "] hello");
    for i in [1, 2, 4, 5, 7, 8] {
        assert!(b[i].is_ascii_digit());
    }
}

#[test]
fn ring_keeps_newest_and_joins_lines() {
    let mut logger = DebugLogger::new();
    for i in 0..230 {
        logger.log("00:00:00", &format!("m{}", i));
    }
    assert_eq!(logger.line_count(), 220);
    assert_eq!(logger.get_display_text(2), "[00:00:00] m228\n[00:00:00] m229");
    let all = logger.get_display_text(1000);
    assert!(all.starts_with("[00:00:00] m10\n"));
    assert_eq!(all.lines().count(), 220);
    assert_eq!(logger.get_recent_text().lines().count(), 40);
    assert_eq!(logger.get_display_text(0), "");
    logger.clear();
    assert_eq!(logger.line_count(), 0);
    assert_eq!(logger.get_recent_text(), "");
}
