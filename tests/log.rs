use wepcrack::log::{LogBuffer, LogLevel, LogLine};

#[test]
fn log_keeps_last_lines() {
    let mut log = LogBuffer::new(2);
    assert_eq!(log.max_lines(), 2);
    assert_eq!(log.len(), 0);
    log.add_line(LogLine(LogLevel::Info, "one".to_string()));
    log.add_line(LogLine(LogLevel::Warning, "two".to_string()));
    log.add_line(LogLine(LogLevel::Error, "three".to_string()));
    assert_eq!(log.len(), 2);
    log.clear();
    assert_eq!(log.len(), 0);
    assert_eq!(log.max_lines(), 2);
}

#[test]
fn log_without_room_can_be_made() {
    let log = LogBuffer::new(0);
    assert_eq!(log.max_lines(), 0);
    assert_eq!(log.len(), 0);
}
