//! What is logged where, and which log files are kept.

use crate::config::LoggingConfig;
use crate::text::{chars_of, starts_with, text_view};
use vstd::prelude::*;

verus! {

/// The directory of the log files.
pub const LOG_DIR: &'static str = "logs";

/// What the names of the log files start with.
pub const LOG_FILE_PREFIX: &'static str = "app.log";

/// The length of a day.
pub const SECONDS_PER_DAY: u64 = 86400;

/// The length of an hour.
pub const SECONDS_PER_HOUR: u64 = 3600;

/// How much an event matters.
#[derive(Debug, Clone, Copy, PartialEq, Eq, Structural)]
pub enum LogLevel {
    Error,
    Warn,
    Info,
    Debug,
    Trace,
}

impl LogLevel {
    /// The place of the level, the most important level first.
    pub open spec fn rank(self) -> nat {
        match self {
            LogLevel::Error => 1,
            LogLevel::Warn => 2,
            LogLevel::Info => 3,
            LogLevel::Debug => 4,
            LogLevel::Trace => 5,
        }
    }

    fn place(self) -> (place: u8)
        ensures
            place == self.rank(),
    {
        match self {
            LogLevel::Error => 1,
            LogLevel::Warn => 2,
            LogLevel::Info => 3,
            LogLevel::Debug => 4,
            LogLevel::Trace => 5,
        }
    }
}

/// Where events go: the console, the log files, and the collector, as traces or as logs.
#[derive(Debug, Clone, Copy, PartialEq, Eq, Structural)]
pub enum LogSink {
    Console,
    File,
    Traces,
    Logs,
}

/// The least important level that a sink takes.
pub fn max_level(sink: LogSink) -> (level: LogLevel)
    ensures
        level == (if sink is Console || sink is File {
            LogLevel::Info
        } else {
            LogLevel::Debug
        }),
{
    match sink {
        LogSink::Console | LogSink::File => LogLevel::Info,
        LogSink::Traces | LogSink::Logs => LogLevel::Debug,
    }
}

/// The prefix of the log targets of a package: its name with underscores for hyphens.
pub fn app_target(package: &str) -> (target: String)
    ensures
        target@ == package@.map_values(
            |c: char|
                if c == '-' {
                    '_'
                } else {
                    c
                },
        ),
{
    let chars = chars_of(package);
    let mut target = String::new();
    let mut i: usize = 0;
    while i < chars.len()
        invariant
            i <= chars.len(),
            chars@ == package@,
            target@.len() == i,
            forall|j: int|
                0 <= j < i ==> #[trigger] target@[j] == (if chars@[j] == '-' {
                    '_'
                } else {
                    chars@[j]
                }),
        decreases chars.len() - i,
    {
        if chars[i] == '-' {
            target.push('_');
        } else {
            target.push(chars[i]);
        }
        i += 1;
    }
    target
}

/// Whether a sink that takes events of the application up to `max_level` takes this one.
pub fn is_enabled(target: &str, app_target: &str, level: LogLevel, max_level: LogLevel) -> (enabled:
    bool)
    ensures
        enabled == (app_target@.is_prefix_of(target@) && level.rank() <= max_level.rank()),
{
    starts_with(target, app_target) && level.place() <= max_level.place()
}

/// A point in time: seconds and nanoseconds since the epoch.
#[derive(Debug, Clone, Copy)]
pub struct Timestamp {
    pub secs: i64,
    pub nanos: u32,
}

impl Timestamp {
    /// The nanoseconds since the epoch.
    pub open spec fn since_epoch(self) -> int {
        self.secs * 1_000_000_000 + self.nanos
    }

    fn total(self) -> (total: i128)
        ensures
            total == self.since_epoch(),
    {
        self.secs as i128 * 1_000_000_000 + self.nanos as i128
    }
}

/// The product, or the largest number where it is too large.
pub open spec fn capped_product(a: u64, b: u64) -> int {
    if a * b > u64::MAX {
        u64::MAX as int
    } else {
        a * b
    }
}

fn saturating_product(a: u64, b: u64) -> (product: u64)
    ensures
        product == capped_product(a, b),
{
    assert(0 <= a * b <= u64::MAX * u64::MAX) by (nonlinear_arith)
        requires
            0 <= a <= u64::MAX,
            0 <= b <= u64::MAX,
    ;
    let product = a as u128 * b as u128;
    if product > u64::MAX as u128 {
        u64::MAX
    } else {
        product as u64
    }
}

/// Whether a file is older than the days it is kept. With zero days all files are kept.
pub open spec fn expired(modified: Timestamp, now: Timestamp, retained_days: u64) -> bool {
    retained_days > 0 && now.since_epoch() - modified.since_epoch() > capped_product(
        retained_days,
        SECONDS_PER_DAY,
    ) * 1_000_000_000
}

/// Tells whether a file that was last modified at `modified` is older than the days it is kept.
pub fn is_expired(modified: Timestamp, now: Timestamp, retained_days: u64) -> (is_expired: bool)
    ensures
        is_expired == expired(modified, now, retained_days),
{
    if retained_days == 0 {
        return false;
    }
    let retained = saturating_product(retained_days, SECONDS_PER_DAY);
    now.total() - modified.total() > retained as i128 * 1_000_000_000
}

/// Whether a file is one of the log files: its name is readable and starts with the prefix.
pub open spec fn managed(file_name: Option<Seq<char>>, file_prefix: Seq<char>) -> bool {
    match file_name {
        Some(name) => file_prefix.is_prefix_of(name),
        None => false,
    }
}

/// Tells whether a file is one of the log files. `file_name` is the last component of its path,
/// where the path ends in one that is text.
pub fn is_managed_log_file(file_name: Option<&str>, file_prefix: &str) -> (is_managed: bool)
    ensures
        is_managed == managed(text_view(file_name), file_prefix@),
{
    match file_name {
        Some(file_name) => starts_with(file_name, file_prefix),
        None => false,
    }
}

/// Which log files are swept, when, and how often.
#[derive(Debug)]
pub struct LogRetentionSettings {
    pub log_dir: &'static str,
    pub file_prefix: &'static str,
    pub retained_days: u64,
    pub cleanup_interval_hours: u64,
    pub cleanup_interval_secs: u64,
}

/// How log files are to be swept. With zero days nothing is ever swept; the files are swept at
/// most once an hour.
pub fn log_retention_settings(config: &LoggingConfig) -> (settings: Option<LogRetentionSettings>)
    ensures
        match settings {
            None => config.retained_days == 0,
            Some(settings) => {
                &&& config.retained_days > 0
                &&& settings.log_dir@ == "logs"@
                &&& settings.file_prefix@ == "app.log"@
                &&& settings.retained_days == config.retained_days
                &&& settings.cleanup_interval_hours == (if config.cleanup_interval_hours == 0 {
                    1
                } else {
                    config.cleanup_interval_hours
                })
                &&& settings.cleanup_interval_secs == capped_product(
                    settings.cleanup_interval_hours,
                    SECONDS_PER_HOUR,
                )
            },
        },
{
    if config.retained_days == 0 {
        return None;
    }
    let hours: u64 = if config.cleanup_interval_hours == 0 {
        1
    } else {
        config.cleanup_interval_hours
    };
    Some(
        LogRetentionSettings {
            log_dir: LOG_DIR,
            file_prefix: LOG_FILE_PREFIX,
            retained_days: config.retained_days,
            cleanup_interval_hours: hours,
            cleanup_interval_secs: saturating_product(hours, SECONDS_PER_HOUR),
        },
    )
}

/// What came of opening the log directory.
#[derive(Debug)]
pub enum Listing<E> {
    Opened,
    Missing,
    Failed(E),
}

/// What came of the last look at an entry of the log directory.
#[derive(Debug)]
pub enum EntryEvent<'a> {
    /// The entry could not be read.
    Unreadable,
    /// The entry has this file name, if it is text.
    Listed(Option<&'a str>),
    /// Whether the entry is a file, if that could be read.
    Described(Option<bool>),
    /// When the file was last modified, if that could be read.
    Dated(Option<Timestamp>),
    /// Whether the file was removed.
    Removed(bool),
}

/// What to do with an entry of the log directory.
#[derive(Debug, PartialEq, Eq, Structural)]
pub enum EntryStep {
    ReadMetadata,
    ReadModified,
    Remove,
    Next,
}

/// What to do with an entry after `event`.
pub open spec fn entry_step(
    settings: LogRetentionSettings,
    now: Timestamp,
    event: EntryEvent<'_>,
) -> EntryStep {
    match event {
        EntryEvent::Unreadable => EntryStep::Next,
        EntryEvent::Listed(name) => if managed(text_view(name), settings.file_prefix@) {
            EntryStep::ReadMetadata
        } else {
            EntryStep::Next
        },
        EntryEvent::Described(is_file) => if is_file == Some(true) {
            EntryStep::ReadModified
        } else {
            EntryStep::Next
        },
        EntryEvent::Dated(modified) => match modified {
            Some(modified) => if expired(modified, now, settings.retained_days) {
                EntryStep::Remove
            } else {
                EntryStep::Next
            },
            None => EntryStep::Next,
        },
        EntryEvent::Removed(_) => EntryStep::Next,
    }
}

/// By how much an event raises the number of files removed.
pub open spec fn counted(event: EntryEvent<'_>) -> nat {
    if event == EntryEvent::Removed(true) {
        1
    } else {
        0
    }
}

/// One sweep through the log directory.
#[derive(Debug)]
pub struct LogSweep<'a> {
    pub settings: &'a LogRetentionSettings,
    pub now: Timestamp,
    pub deleted_count: usize,
}

/// Starts a sweep. Where there is no log directory there is nothing to sweep.
pub fn delete_expired_log_files<'a, E>(
    settings: &'a LogRetentionSettings,
    now: Timestamp,
    listing: Listing<E>,
) -> (result: Result<Option<LogSweep<'a>>, E>)
    ensures
        match listing {
            Listing::Opened => result == Ok::<_, E>(
                Some(LogSweep { settings, now, deleted_count: 0 }),
            ),
            Listing::Missing => result == Ok::<Option<LogSweep<'a>>, E>(None),
            Listing::Failed(error) => result == Err::<Option<LogSweep<'a>>, E>(error),
        },
{
    match listing {
        Listing::Opened => Ok(Some(LogSweep { settings, now, deleted_count: 0 })),
        Listing::Missing => Ok(None),
        Listing::Failed(error) => Err(error),
    }
}

impl<'a> LogSweep<'a> {
    /// Goes on with an entry after `event`, and counts the files that were removed.
    pub fn step(&mut self, event: EntryEvent<'_>) -> (step: EntryStep)
        requires
            old(self).deleted_count + counted(event) <= usize::MAX,
        ensures
            step == entry_step(*old(self).settings, old(self).now, event),
            *final(self) == (LogSweep {
                deleted_count: (old(self).deleted_count + counted(event)) as usize,
                ..*old(self)
            }),
    {
        match event {
            EntryEvent::Unreadable => EntryStep::Next,
            EntryEvent::Listed(name) => {
                if is_managed_log_file(name, self.settings.file_prefix) {
                    EntryStep::ReadMetadata
                } else {
                    EntryStep::Next
                }
            },
            EntryEvent::Described(is_file) => match is_file {
                Some(true) => EntryStep::ReadModified,
                _ => EntryStep::Next,
            },
            EntryEvent::Dated(modified) => match modified {
                Some(modified) => {
                    if is_expired(modified, self.now, self.settings.retained_days) {
                        EntryStep::Remove
                    } else {
                        EntryStep::Next
                    }
                },
                None => EntryStep::Next,
            },
            EntryEvent::Removed(removed) => {
                if removed {
                    self.deleted_count = self.deleted_count + 1;
                }
                EntryStep::Next
            },
        }
    }
}

/// Whether a sweep removes an entry that says this of itself when it is asked step by step.
pub open spec fn removes(
    settings: LogRetentionSettings,
    now: Timestamp,
    name: Option<&str>,
    is_file: Option<bool>,
    modified: Option<Timestamp>,
) -> bool {
    &&& entry_step(settings, now, EntryEvent::Listed(name)) == EntryStep::ReadMetadata
    &&& entry_step(settings, now, EntryEvent::Described(is_file)) == EntryStep::ReadModified
    &&& entry_step(settings, now, EntryEvent::Dated(modified)) == EntryStep::Remove
}

/// A sweep removes the log files that are older than the days they are kept, and nothing else:
/// no other file, no directory, nothing it could not read.
pub proof fn law_sweep_removes_old_log_files_only(
    settings: LogRetentionSettings,
    now: Timestamp,
    name: Option<&str>,
    is_file: Option<bool>,
    modified: Option<Timestamp>,
)
    ensures
        removes(settings, now, name, is_file, modified) == (managed(
            text_view(name),
            settings.file_prefix@,
        ) && is_file == Some(true) && modified is Some && expired(
            modified->0,
            now,
            settings.retained_days,
        )),
{
}

/// What an entry of the log directory says of itself when it is asked.
pub struct EntryFacts<'a> {
    pub name: Option<&'a str>,
    pub is_file: Option<bool>,
    pub modified: Option<Timestamp>,
}

/// The entries that a sweep leaves, where it can remove all that it wants to.
pub open spec fn left_after_sweep<'a>(
    settings: LogRetentionSettings,
    now: Timestamp,
    entries: Seq<EntryFacts<'a>>,
) -> Seq<EntryFacts<'a>> {
    entries.filter(
        |entry: EntryFacts<'a>|
            !removes(settings, now, entry.name, entry.is_file, entry.modified),
    )
}

/// A second sweep at the same time removes nothing.
pub proof fn law_second_sweep_removes_nothing<'a>(
    settings: LogRetentionSettings,
    now: Timestamp,
    entries: Seq<EntryFacts<'a>>,
)
    ensures
        left_after_sweep(settings, now, left_after_sweep(settings, now, entries))
            == left_after_sweep(settings, now, entries),
    decreases entries.len(),
{
    reveal(Seq::filter);
    if entries.len() > 0 {
        let init = left_after_sweep(settings, now, entries.drop_last());
        law_second_sweep_removes_nothing(settings, now, entries.drop_last());
        assert(init.push(entries.last()).drop_last() =~= init);
    }
}

/// The number of files removed after `events`, from the start of a sweep.
pub open spec fn count_after(events: Seq<EntryEvent<'_>>) -> nat
    decreases events.len(),
{
    if events.len() == 0 {
        0
    } else {
        count_after(events.drop_last()) + counted(events.last())
    }
}

/// A sweep counts each file that was removed, and no file that was not.
pub proof fn law_count_is_the_number_of_removals(events: Seq<EntryEvent<'_>>)
    ensures
        count_after(events) == events.filter(
            |event: EntryEvent<'_>| event == EntryEvent::Removed(true),
        ).len(),
    decreases events.len(),
{
    reveal(Seq::filter);
    if events.len() > 0 {
        law_count_is_the_number_of_removals(events.drop_last());
    }
}

/// With zero days nothing is removed.
pub proof fn law_zero_days_keep_everything(
    settings: LogRetentionSettings,
    now: Timestamp,
    event: EntryEvent<'_>,
)
    requires
        settings.retained_days == 0,
    ensures
        entry_step(settings, now, event) != EntryStep::Remove,
{
}

/// What is expired stays expired: an older file is, and the file is later on.
pub proof fn law_expiry_is_final(
    modified: Timestamp,
    now: Timestamp,
    older: Timestamp,
    later: Timestamp,
    retained_days: u64,
)
    requires
        expired(modified, now, retained_days),
        older.since_epoch() <= modified.since_epoch(),
        now.since_epoch() <= later.since_epoch(),
    ensures
        expired(older, later, retained_days),
{
}

/// A file from the future is never expired.
pub proof fn law_future_files_are_kept(modified: Timestamp, now: Timestamp, retained_days: u64)
    requires
        now.since_epoch() <= modified.since_epoch(),
    ensures
        !expired(modified, now, retained_days),
{
    assert(capped_product(retained_days, SECONDS_PER_DAY) >= 0);
}

} // verus!
