use pgml::logging::{enabled, format_record, init_logger, Level, LevelFilter, Logging, SetLoggerError};

#[test]
fn logger_installs_once() {
    let mut ctx = Logging::new();
    assert_eq!(init_logger(&mut ctx, LevelFilter::Error), Ok(()));
    assert!(ctx.installed);
    assert_eq!(ctx.max_level, LevelFilter::Error);
    assert_eq!(init_logger(&mut ctx, LevelFilter::Trace), Err(SetLoggerError));
    assert_eq!(ctx.max_level, LevelFilter::Error);
}

#[test]
fn info_and_above_are_printed() {
    assert!(enabled(Level::Error));
    assert!(enabled(Level::Warn));
    assert!(enabled(Level::Info));
    assert!(!enabled(Level::Debug));
    assert!(!enabled(Level::Trace));
}

#[test]
fn record_line_format() {
    assert_eq!(format_record(Level::Warn, "disk low"), "WARN - disk low");
    assert_eq!(format_record(Level::Error, ""), "ERROR - ");
}
