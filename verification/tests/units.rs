use fern::directive::LogDirective;
use fern::directive::directive_level;
use fern::directive::str_starts_with;
use fern::errors::LogError;
use fern::fallback::fallback_message;
use fern::format::Formatter;
use fern::format::LevelTagFormatter;
use fern::format::PlainFormatter;
use fern::level::Level;
use fern::loggers::BufferLogger;
use fern::loggers::NullLogger;
use fern::loggers::WriterLogger;

#[test]
fn severity_order_is_total_and_fixed() {
    let order = [Level::Error, Level::Warn, Level::Info, Level::Debug, Level::Trace];
    for i in 0..order.len() {
        for j in 0..order.len() {
            assert_eq!(order[i].at_least_as_severe(&order[j]), i <= j);
        }
    }
}

#[test]
fn level_names() {
    assert_eq!(Level::Error.name(), "ERROR");
    assert_eq!(Level::Warn.name(), "WARN");
    assert_eq!(Level::Info.name(), "INFO");
    assert_eq!(Level::Debug.name(), "DEBUG");
    assert_eq!(Level::Trace.name(), "TRACE");
}

#[test]
fn prefix_check() {
    assert!(str_starts_with("app::db::pool", "app::db"));
    assert!(str_starts_with("app::db", "app::db"));
    assert!(str_starts_with("anything", ""));
    assert!(!str_starts_with("app", "app::db"));
    assert!(!str_starts_with("app::http", "app::db"));
    assert!(!str_starts_with("", "a"));
}

#[test]
fn prefix_check_multibyte_characters() {
    assert!(str_starts_with("naïveté::module", "naïve"));
    assert!(!str_starts_with("naïveté::module", "naive"));
    assert!(str_starts_with("日本語::db", "日本語"));
    assert!(!str_starts_with("日本::db", "日本語"));
}

#[test]
fn directive_level_picks_last_match_in_scan_order() {
    let dirs = vec![
        LogDirective { name: "a".to_string(), level: Level::Warn },
        LogDirective { name: "app::db".to_string(), level: Level::Debug },
    ];
    assert_eq!(directive_level(&dirs, "app::db::pool"), Some(Level::Debug));
    assert_eq!(directive_level(&dirs, "app::http"), Some(Level::Warn));
    assert_eq!(directive_level(&dirs, "other"), None);
}

#[test]
fn null_logger_always_succeeds() {
    let n = NullLogger;
    assert!(n.log("anything", &Level::Error, "anywhere").is_ok());
}

#[test]
fn buffer_logger_records_until_full() {
    let mut b = BufferLogger::new(2, "!");
    assert!(b.log("one", &Level::Info, "m").is_ok());
    assert!(b.log("two", &Level::Info, "m").is_ok());
    assert_eq!(b.log("three", &Level::Info, "m"), Err(LogError::SinkFull));
    assert_eq!(b.lines, vec!["one!".to_string(), "two!".to_string()]);
}

#[test]
fn buffer_logger_with_no_room_rejects_unchanged() {
    let mut b = BufferLogger::new(0, "\n");
    assert_eq!(b.log("x", &Level::Info, "m"), Err(LogError::SinkFull));
    assert!(b.lines.is_empty());
}

#[test]
fn writer_logger_writes_through_shared_writer() {
    let w = WriterLogger::new(Vec::<u8>::new(), "\n");
    assert!(w.log("into a byte buffer", &Level::Info, "m").is_ok());
}

#[test]
fn standard_stream_sinks_accept_messages() {
    let out = WriterLogger::with_stdout();
    assert!(out.log("to standard output", &Level::Info, "m").is_ok());
    let err = WriterLogger::with_stderr();
    assert!(err.log("to standard error", &Level::Warn, "m").is_ok());
}

#[test]
fn plain_formatter_returns_message_unchanged() {
    let r = PlainFormatter.format("just this", &Level::Warn, "app");
    assert_eq!(r, "just this");
}

#[test]
fn level_tag_formatter_prefixes_level() {
    let r = LevelTagFormatter.format("ready", &Level::Warn, "app");
    assert_eq!(r, "[WARN] ready");
}

#[test]
fn log_error_messages() {
    assert_eq!(LogError::SinkFull.message(), "sink buffer full");
    assert_eq!(LogError::Io("broken pipe".to_string()).message(), "broken pipe");
}

#[test]
fn fallback_message_embeds_full_context() {
    let r = fallback_message("disk is sad", &Level::Error, "app::db", &LogError::SinkFull);
    assert_eq!(
        r,
        "Error logging {level: ERROR, location: app::db, arguments: disk is sad}: sink buffer full"
    );
}

#[test]
fn fallback_message_uses_io_error_text() {
    let e = LogError::Io("permission denied".to_string());
    let r = fallback_message("m", &Level::Warn, "core", &e);
    assert_eq!(r, "Error logging {level: WARN, location: core, arguments: m}: permission denied");
}
