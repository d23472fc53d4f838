//! What is logged, and which log files are kept.

use crate::config::LoggingConfig;
use crate::telemetry::{
    app_target, delete_expired_log_files, is_enabled, is_expired, is_managed_log_file,
    log_retention_settings, max_level, EntryEvent, EntryStep, Listing, LogLevel,
    LogRetentionSettings, LogSink, LogSweep, Timestamp,
};
use vstd::prelude::*;

verus! {

/// The nanoseconds from one point in time to another.
pub open spec fn nanos_between(earlier: Timestamp, later: Timestamp) -> int {
    (later.secs - earlier.secs) * 1_000_000_000 + later.nanos - earlier.nanos
}

/// A file is expired if, and only if, it was modified more than the configured number of days ago,
/// to the nanosecond. With zero days no file is, nor is one where the days are too many to count
/// in seconds and it is not older than all that can be counted.
pub proof fn law_files_expire_after_their_days(
    modified: Timestamp,
    now: Timestamp,
    retained_days: u64,
    is_old: bool,
)
    requires
        call_ensures(is_expired, (modified, now, retained_days), is_old),
    ensures
        retained_days == 0 ==> !is_old,
        retained_days > 0 && retained_days * 86_400 <= 18_446_744_073_709_551_615 ==> (is_old
            <==> nanos_between(modified, now) > retained_days * 86_400 * 1_000_000_000),
        retained_days * 86_400 > 18_446_744_073_709_551_615 ==> (is_old <==> nanos_between(
            modified,
            now,
        ) > 18_446_744_073_709_551_615 * 1_000_000_000),
{
    assert(now.since_epoch() - modified.since_epoch() == nanos_between(modified, now))
        by (nonlinear_arith)
        requires
            now.since_epoch() == now.secs * 1_000_000_000 + now.nanos,
            modified.since_epoch() == modified.secs * 1_000_000_000 + modified.nanos,
            nanos_between(modified, now) == (now.secs - modified.secs) * 1_000_000_000 + now.nanos
                - modified.nanos,
    ;
}

/// A file that is expired for some number of days is expired for any smaller one but zero.
pub proof fn law_fewer_days_expire_more(
    modified: Timestamp,
    now: Timestamp,
    days: u64,
    fewer: u64,
    is_old: bool,
    is_old_sooner: bool,
)
    requires
        call_ensures(is_expired, (modified, now, days), is_old),
        call_ensures(is_expired, (modified, now, fewer), is_old_sooner),
        0 < fewer <= days,
    ensures
        is_old ==> is_old_sooner,
{
    law_files_expire_after_their_days(modified, now, days, is_old);
    law_files_expire_after_their_days(modified, now, fewer, is_old_sooner);
    assert(fewer * 86_400 <= days * 86_400);
}

/// A log file is one whose name starts with the prefix, whatever follows it.
pub proof fn law_log_files_start_with_the_prefix(
    name: Option<&str>,
    prefix: &str,
    is_managed: bool,
)
    requires
        call_ensures(is_managed_log_file, (name, prefix), is_managed),
    ensures
        name is None ==> !is_managed,
        name matches Some(text) ==> (is_managed <==> text@.len() >= prefix@.len() && forall|i: int|
            0 <= i < prefix@.len() ==> #[trigger] text@[i] == prefix@[i]),
{
    if let Some(text) = name {
        if is_managed {
            let start = text@.subrange(0, prefix@.len() as int);
            assert forall|i: int| 0 <= i < prefix@.len() implies #[trigger] text@[i]
                == prefix@[i] by {
                assert(start[i] == text@[i]);
            }
        } else if text@.len() >= prefix@.len() && forall|i: int|
            0 <= i < prefix@.len() ==> #[trigger] text@[i] == prefix@[i] {
            assert(text@.subrange(0, prefix@.len() as int) =~= prefix@);
        }
    }
}

/// Sweeping is off with zero days; else files are kept for the configured days and swept each
/// configured number of hours, though not more often than each hour, nor at longer intervals than
/// can be counted in seconds.
pub proof fn law_settings_follow_the_configuration(
    config: LoggingConfig,
    settings: Option<LogRetentionSettings>,
)
    requires
        call_ensures(log_retention_settings, (&config,), settings),
    ensures
        settings is None <==> config.retained_days == 0,
        settings matches Some(settings) ==> {
            &&& settings.log_dir@ == "logs"@
            &&& settings.file_prefix@ == "app.log"@
            &&& settings.retained_days == config.retained_days
            &&& config.cleanup_interval_hours == 0 ==> settings.cleanup_interval_hours == 1
                && settings.cleanup_interval_secs == 3600
            &&& config.cleanup_interval_hours > 0 ==> settings.cleanup_interval_hours
                == config.cleanup_interval_hours
            &&& config.cleanup_interval_hours > 0 && config.cleanup_interval_hours * 3600
                <= 18_446_744_073_709_551_615 ==> settings.cleanup_interval_secs
                == config.cleanup_interval_hours * 3600
            &&& config.cleanup_interval_hours * 3600 > 18_446_744_073_709_551_615
                ==> settings.cleanup_interval_secs == 18_446_744_073_709_551_615
        },
{
}

/// A sweep of a directory starts with nothing removed; a missing directory is nothing to sweep, and
/// one that cannot be opened is an error.
pub proof fn law_start_of_a_sweep<'a, E>(
    settings: &'a LogRetentionSettings,
    now: Timestamp,
    listing: Listing<E>,
    result: Result<Option<LogSweep<'a>>, E>,
)
    requires
        call_ensures(delete_expired_log_files::<E>, (settings, now, listing), result),
    ensures
        listing is Opened ==> (result matches Ok(Some(sweep)) && sweep.settings == settings
            && sweep.now == now && sweep.deleted_count == 0),
        listing is Missing ==> (result matches Ok(sweep) && sweep is None),
        listing matches Listing::Failed(cause) ==> (result matches Err(error) && error == cause),
{
}

/// In a sweep an entry is looked into further if its name is that of a log file, then if it is a
/// file, and it is removed if it is expired then; all others are passed over, and so is what
/// cannot be read. Each file that was removed is counted, and nothing else.
pub proof fn law_sweep_of_an_entry<'a, 'b>(
    sweep: &mut LogSweep<'a>,
    event: EntryEvent<'b>,
    step: EntryStep,
    is_managed: bool,
    is_old: bool,
)
    requires
        call_ensures(LogSweep::<'a>::step, (sweep, event), step),
        event matches EntryEvent::Listed(name) ==> call_ensures(
            is_managed_log_file,
            (name, old(sweep).settings.file_prefix),
            is_managed,
        ),
        event matches EntryEvent::Dated(Some(modified)) ==> call_ensures(
            is_expired,
            (modified, old(sweep).now, old(sweep).settings.retained_days),
            is_old,
        ),
        old(sweep).deleted_count < usize::MAX,
    ensures
        call_requires(LogSweep::<'a>::step, (sweep, event)),
        final(sweep).settings == old(sweep).settings,
        final(sweep).now == old(sweep).now,
        final(sweep).deleted_count == old(sweep).deleted_count + (if event is Removed && event
            == EntryEvent::<'b>::Removed(true) {
            1int
        } else {
            0int
        }),
        match event {
            EntryEvent::Unreadable => step is Next,
            EntryEvent::Listed(_) => if is_managed {
                step is ReadMetadata
            } else {
                step is Next
            },
            EntryEvent::Described(is_file) => if is_file == Some(true) {
                step is ReadModified
            } else {
                step is Next
            },
            EntryEvent::Dated(modified) => if modified is Some && is_old {
                step is Remove
            } else {
                step is Next
            },
            EntryEvent::Removed(_) => step is Next,
        },
{
}

/// The place of a level, the most important one first.
pub open spec fn place_of(level: LogLevel) -> int {
    match level {
        LogLevel::Error => 0,
        LogLevel::Warn => 1,
        LogLevel::Info => 2,
        LogLevel::Debug => 3,
        LogLevel::Trace => 4,
    }
}

/// An event is taken if, and only if, its target starts with that of the application and its level
/// is no less important than the least that is taken: up to `Info` on the console and in the
/// files, up to `Debug` at the collector.
pub proof fn law_what_a_sink_takes(
    target: &str,
    application: &str,
    level: LogLevel,
    sink: LogSink,
    least: LogLevel,
    is_taken: bool,
)
    requires
        call_ensures(max_level, (sink,), least),
        call_ensures(is_enabled, (target, application, level, least), is_taken),
    ensures
        sink is Console || sink is File ==> least is Info,
        sink is Traces || sink is Logs ==> least is Debug,
        is_taken <==> {
            &&& target@.len() >= application@.len()
            &&& forall|i: int|
                0 <= i < application@.len() ==> #[trigger] target@[i] == application@[i]
            &&& place_of(level) <= (if sink is Console || sink is File {
                2int
            } else {
                3int
            })
        },
{
    lemma_enabled(target, application, level, least, is_taken);
}

/// An event is taken if, and only if, its target starts with that of the application and its level
/// is no less important than the least that is taken.
pub proof fn law_levels_are_ordered(
    target: &str,
    application: &str,
    level: LogLevel,
    least: LogLevel,
    is_taken: bool,
)
    requires
        call_ensures(is_enabled, (target, application, level, least), is_taken),
    ensures
        is_taken <==> {
            &&& target@.len() >= application@.len()
            &&& forall|i: int|
                0 <= i < application@.len() ==> #[trigger] target@[i] == application@[i]
            &&& place_of(level) <= place_of(least)
        },
{
    lemma_enabled(target, application, level, least, is_taken);
}

proof fn lemma_enabled(
    target: &str,
    application: &str,
    level: LogLevel,
    least: LogLevel,
    is_taken: bool,
)
    requires
        call_ensures(is_enabled, (target, application, level, least), is_taken),
    ensures
        is_taken <==> {
            &&& target@.len() >= application@.len()
            &&& forall|i: int|
                0 <= i < application@.len() ==> #[trigger] target@[i] == application@[i]
            &&& place_of(level) <= place_of(least)
        },
{
    if application@.is_prefix_of(target@) {
        let start = target@.subrange(0, application@.len() as int);
        assert forall|i: int| 0 <= i < application@.len() implies #[trigger] target@[i]
            == application@[i] by {
            assert(start[i] == target@[i]);
        }
    } else if target@.len() >= application@.len() && forall|i: int|
        0 <= i < application@.len() ==> #[trigger] target@[i] == application@[i] {
        assert(target@.subrange(0, application@.len() as int) =~= application@);
    }
}

/// The target of a package is its name with each hyphen made an underscore, and nothing else
/// changed.
pub proof fn law_target_of_a_package(package: &str, target: String, i: int)
    requires
        call_ensures(app_target, (package,), target),
    ensures
        target@.len() == package@.len(),
        0 <= i < package@.len() && package@[i] as int == 45 ==> target@[i] as int == 95,
        0 <= i < package@.len() && package@[i] as int != 45 ==> target@[i] == package@[i],
{
}

} // verus!
