//! What a logger lets through.

use crate::kinds::DebugLevel;
use crate::kinds::LevelFilter;
use vstd::prelude::*;

verus! {

/// The levels of log records.
#[derive(Debug, Clone, Copy, PartialEq, Eq, Structural)]
pub enum Level {
    Error,
    Warn,
    Info,
    Debug,
    Trace,
}

/// Whether a record of the given level is shown: errors, warnings and
/// information always, the rest only in debug mode.
pub open spec fn shown(level: Level, debug_mode: bool) -> bool {
    match level {
        Level::Error | Level::Warn | Level::Info => true,
        Level::Debug | Level::Trace => debug_mode,
    }
}

/// Tells whether a record of the given level is shown.
pub fn enabled(level: Level, debug_mode: bool) -> (r: bool)
    ensures
        r == shown(level, debug_mode),
{
    match level {
        Level::Error | Level::Warn | Level::Info => true,
        Level::Debug | Level::Trace => debug_mode,
    }
}

/// The tag that goes before a record of the given level.
pub open spec fn tag(level: Level) -> Seq<char> {
    match level {
        Level::Error => "[error]"@,
        Level::Warn => "[warn]"@,
        Level::Info => "[info]"@,
        Level::Debug => "[debug]"@,
        Level::Trace => "[trace]"@,
    }
}

/// The tag that goes before a record of the given level.
pub fn prefix(level: Level) -> (r: &'static str)
    ensures
        r@ == tag(level),
{
    match level {
        Level::Error => "[error]",
        Level::Warn => "[warn]",
        Level::Info => "[info]",
        Level::Debug => "[debug]",
        Level::Trace => "[trace]",
    }
}

/// What a debug setting asks of the logger.
#[derive(Debug, Clone, Copy, PartialEq, Eq, Structural)]
pub struct DebugSetting {
    /// Whether debug mode is to be switched on; it is never switched off.
    pub switch_on: bool,
    /// The most verbose level to let through.
    pub filter: LevelFilter,
}

/// What a debug setting asks of the logger: without a level, information
/// and above; with a level, that level, and debug mode for the two most
/// verbose ones.
pub open spec fn debug_setting(level: Option<DebugLevel>) -> DebugSetting {
    match level {
        Some(l) => DebugSetting {
            switch_on: l == DebugLevel::Debug || l == DebugLevel::Trace,
            filter: l.filter(),
        },
        None => DebugSetting { switch_on: false, filter: LevelFilter::Info },
    }
}

/// Decides what a debug setting asks of the logger; see [`debug_setting`].
pub fn set_debug(level: Option<DebugLevel>) -> (r: DebugSetting)
    ensures
        r == debug_setting(level),
{
    match level {
        Some(lvl) => {
            let switch_on = match lvl {
                DebugLevel::Debug | DebugLevel::Trace => true,
                _ => false,
            };
            DebugSetting { switch_on, filter: lvl.to_level_filter() }
        },
        None => DebugSetting { switch_on: false, filter: LevelFilter::Info },
    }
}

} // verus!
