use fern::dispatch::DispatchLogger;
use fern::directive::LogDirective;
use fern::errors::ConstructionError;
use fern::errors::LogError;
use fern::format::LevelTagFormatter;
use fern::format::PlainFormatter;
use fern::level::Level;
use fern::loggers::BufferLogger;
use fern::loggers::NullLogger;
use fern::loggers::Sink;
use fern::loggers::WriterLogger;

fn buffer_sink(capacity: usize) -> Sink {
    Sink::Buffer(BufferLogger::new(capacity, "\n"))
}

fn buffer_lines(sink: &Sink) -> Vec<String> {
    match sink {
        Sink::Buffer(b) => b.lines.clone(),
        _ => panic!("not a buffer sink"),
    }
}

fn directive(name: &str, level: Level) -> LogDirective {
    LogDirective { name: name.to_string(), level }
}

#[test]
fn directives_sorted_after_construction() {
    let dirs = vec![
        directive("app::db::pool", Level::Trace),
        directive("a", Level::Warn),
        directive("app::db", Level::Debug),
        directive("zz", Level::Info),
    ];
    let d = DispatchLogger::new(PlainFormatter, vec![], Level::Info, dirs).unwrap();
    let lens: Vec<usize> = d.directives.iter().map(|x| x.name.len()).collect();
    assert_eq!(lens, vec![1, 2, 7, 13]);
    for w in lens.windows(2) {
        assert!(w[0] <= w[1]);
    }
}

#[test]
fn no_matching_directive_global_threshold_decides() {
    let dirs = vec![directive("app::db", Level::Trace)];
    let mut d =
        DispatchLogger::new(PlainFormatter, vec![Ok(buffer_sink(10))], Level::Info, dirs).unwrap();
    assert!(d.log("quiet", &Level::Debug, "other::module").is_ok());
    assert_eq!(buffer_lines(&d.output[0]).len(), 0);
    assert!(d.log("loud", &Level::Warn, "other::module").is_ok());
    assert_eq!(buffer_lines(&d.output[0]), vec!["loud\n".to_string()]);
}

#[test]
fn matching_directive_overrides_global_threshold() {
    let dirs = vec![directive("app::db", Level::Debug)];
    let mut d =
        DispatchLogger::new(PlainFormatter, vec![Ok(buffer_sink(10))], Level::Info, dirs).unwrap();
    assert!(d.log("pool ready", &Level::Debug, "app::db::pool").is_ok());
    assert_eq!(buffer_lines(&d.output[0]), vec!["pool ready\n".to_string()]);
}

#[test]
fn dispatch_twice_to_discarding_sink_is_idempotent() {
    let mut d = DispatchLogger::new(
        PlainFormatter,
        vec![Ok(Sink::Null(NullLogger))],
        Level::Trace,
        vec![],
    )
    .unwrap();
    assert!(d.log("same record", &Level::Info, "app").is_ok());
    assert!(d.log("same record", &Level::Info, "app").is_ok());
    assert!(matches!(d.output[0], Sink::Null(_)));
    assert_eq!(d.output.len(), 1);
}

#[test]
fn fanout_writes_same_line_to_every_buffer() {
    let cfgs = vec![Ok(buffer_sink(5)), Ok(buffer_sink(5)), Ok(buffer_sink(5))];
    let mut d = DispatchLogger::new(LevelTagFormatter, cfgs, Level::Info, vec![]).unwrap();
    assert!(d.log("hello", &Level::Info, "app").is_ok());
    for i in 0..3 {
        assert_eq!(buffer_lines(&d.output[i]), vec!["[INFO] hello\n".to_string()]);
    }
}

#[test]
fn first_failing_sink_short_circuits_fanout() {
    let cfgs = vec![Ok(buffer_sink(0)), Ok(buffer_sink(5))];
    let mut d = DispatchLogger::new(PlainFormatter, cfgs, Level::Info, vec![]).unwrap();
    let r = d.log("boom", &Level::Error, "app");
    assert_eq!(r, Err(LogError::SinkFull));
    assert_eq!(buffer_lines(&d.output[1]).len(), 0);
}

#[test]
fn end_to_end_directive_and_threshold() {
    let dirs = vec![directive("app::db", Level::Debug)];
    let mut d =
        DispatchLogger::new(PlainFormatter, vec![Ok(buffer_sink(10))], Level::Info, dirs).unwrap();
    assert!(d.log("from the pool", &Level::Debug, "app::db::pool").is_ok());
    assert!(d.log("from http", &Level::Debug, "app::http").is_ok());
    assert_eq!(buffer_lines(&d.output[0]), vec!["from the pool\n".to_string()]);
}

#[test]
fn construction_fails_fast_on_first_error() {
    let stdout_sink = Sink::Stdout(WriterLogger::with_stdout());
    let cfgs = vec![
        Ok(stdout_sink),
        Err(ConstructionError { message: "cannot open '/no/such/dir/log.txt'".to_string() }),
    ];
    let r = DispatchLogger::new(PlainFormatter, cfgs, Level::Info, vec![]);
    match r {
        Ok(_) => panic!("construction should have failed"),
        Err(e) => assert_eq!(e.message, "cannot open '/no/such/dir/log.txt'"),
    }
}

#[test]
fn construction_returns_the_first_of_two_errors() {
    let cfgs: Vec<Result<Sink, ConstructionError>> = vec![
        Err(ConstructionError { message: "first".to_string() }),
        Err(ConstructionError { message: "second".to_string() }),
    ];
    let r = DispatchLogger::new(PlainFormatter, cfgs, Level::Info, vec![]);
    assert_eq!(r.unwrap_err().message, "first");
}

#[test]
fn construction_keeps_sink_order() {
    let cfgs = vec![Ok(buffer_sink(1)), Ok(Sink::Null(NullLogger)), Ok(buffer_sink(2))];
    let d = DispatchLogger::new(PlainFormatter, cfgs, Level::Info, vec![]).unwrap();
    assert_eq!(d.output.len(), 3);
    assert!(matches!(&d.output[0], Sink::Buffer(b) if b.capacity == 1));
    assert!(matches!(d.output[1], Sink::Null(_)));
    assert!(matches!(&d.output[2], Sink::Buffer(b) if b.capacity == 2));
}

#[test]
fn dispatch_to_standard_output_sink_succeeds() {
    let cfgs = vec![Ok(Sink::Stdout(WriterLogger::with_stdout()))];
    let mut d = DispatchLogger::new(PlainFormatter, cfgs, Level::Info, vec![]).unwrap();
    assert!(d.log("line to standard output", &Level::Info, "app").is_ok());
}

#[test]
fn enabled_mirrors_global_threshold() {
    let d = DispatchLogger::new(PlainFormatter, vec![], Level::Info, vec![]).unwrap();
    assert!(d.enabled(&Level::Error));
    assert!(d.enabled(&Level::Warn));
    assert!(d.enabled(&Level::Info));
    assert!(!d.enabled(&Level::Debug));
    assert!(!d.enabled(&Level::Trace));
}

#[test]
fn empty_name_directive_applies_to_every_origin() {
    let dirs = vec![directive("", Level::Error)];
    let mut d =
        DispatchLogger::new(PlainFormatter, vec![Ok(buffer_sink(10))], Level::Trace, dirs).unwrap();
    assert!(d.log("kept", &Level::Error, "anything::at::all").is_ok());
    assert!(d.log("dropped", &Level::Warn, "anything::at::all").is_ok());
    assert_eq!(buffer_lines(&d.output[0]), vec!["kept\n".to_string()]);
}

#[test]
fn equal_length_names_last_one_wins() {
    let dirs = vec![directive("ab", Level::Warn), directive("ab", Level::Debug)];
    let mut d =
        DispatchLogger::new(PlainFormatter, vec![Ok(buffer_sink(10))], Level::Error, dirs).unwrap();
    assert!(d.log("debug passes", &Level::Debug, "ab::x").is_ok());
    assert_eq!(buffer_lines(&d.output[0]), vec!["debug passes\n".to_string()]);
}

#[test]
fn longest_matching_directive_wins() {
    let dirs = vec![directive("app", Level::Error), directive("app::db", Level::Trace)];
    let mut d =
        DispatchLogger::new(PlainFormatter, vec![Ok(buffer_sink(10))], Level::Error, dirs).unwrap();
    assert!(d.log("deep debug", &Level::Trace, "app::db::conn").is_ok());
    assert!(d.log("shallow info", &Level::Info, "app::http").is_ok());
    assert_eq!(buffer_lines(&d.output[0]), vec!["deep debug\n".to_string()]);
}
