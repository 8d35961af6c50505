use vstd::prelude::*;

verus! {

/// Severity of a log record, most severe first.
#[derive(Clone, Copy, Debug, PartialEq, Eq, Structural)]
pub enum Level {
    Error,
    Warn,
    Info,
    Debug,
    Trace,
}

/// Rank of a level: a smaller rank is more severe.
pub open spec fn level_rank(l: Level) -> nat {
    match l {
        Level::Error => 1,
        Level::Warn => 2,
        Level::Info => 3,
        Level::Debug => 4,
        Level::Trace => 5,
    }
}

/// Whether the built-in logger prints records of this level: it prints
/// everything at `Info` or more severe.
pub fn enabled(level: Level) -> (r: bool)
    ensures
        r == (level_rank(level) <= level_rank(Level::Info)),
{
    match level {
        Level::Error | Level::Warn | Level::Info => true,
        _ => false,
    }
}

/// The most verbose level a logger lets through; `Off` lets nothing through.
#[derive(Clone, Copy, Debug, PartialEq, Eq, Structural)]
pub enum LevelFilter {
    Off,
    Error,
    Warn,
    Info,
    Debug,
    Trace,
}

/// Installing a logger failed because one is installed already.
#[derive(Clone, Copy, Debug, PartialEq, Eq, Structural)]
pub struct SetLoggerError;

/// The logging part of an execution context: whether the built-in logger is
/// installed, and the level it lets through.
#[derive(Clone, Copy, Debug, PartialEq, Eq, Structural)]
pub struct Logging {
    pub installed: bool,
    pub max_level: LevelFilter,
}

impl Logging {
    /// A context with no logger installed.
    pub fn new() -> (r: Logging)
        ensures
            !r.installed,
            r.max_level == LevelFilter::Off,
    {
        Logging { installed: false, max_level: LevelFilter::Off }
    }
}

/// Installs the built-in logger with the given level, once: a second
/// installation fails and changes nothing.
pub fn init_logger(ctx: &mut Logging, level: LevelFilter) -> (r: Result<(), SetLoggerError>)
    ensures
        old(ctx).installed ==> r == Err::<(), SetLoggerError>(SetLoggerError) && *final(ctx)
            == *old(ctx),
        !old(ctx).installed ==> r == Ok::<(), SetLoggerError>(()) && *final(ctx) == (Logging {
            installed: true,
            max_level: level,
        }),
{
    if ctx.installed {
        return Err(SetLoggerError);
    }
    ctx.installed = true;
    ctx.max_level = level;
    Ok(())
}

/// The name a record's level is printed with.
pub open spec fn level_name(l: Level) -> Seq<char> {
    match l {
        Level::Error => "ERROR"@,
        Level::Warn => "WARN"@,
        Level::Info => "INFO"@,
        Level::Debug => "DEBUG"@,
        Level::Trace => "TRACE"@,
    }
}

fn level_str(l: Level) -> (r: &'static str)
    ensures
        r@ == level_name(l),
{
    match l {
        Level::Error => "ERROR",
        Level::Warn => "WARN",
        Level::Info => "INFO",
        Level::Debug => "DEBUG",
        Level::Trace => "TRACE",
    }
}

/// The line the built-in logger prints for a record: `LEVEL - message`.
pub fn format_record(level: Level, message: &str) -> (r: String)
    ensures
        r@ == level_name(level) + " - "@ + message@,
{
    let mut out = String::from_str(level_str(level));
    out.append(" - ");
    out.append(message);
    out
}

} // verus!
