use light_manager::config::LoggingConfig;
use light_manager::telemetry::{
    app_target, delete_expired_log_files, is_enabled, is_expired, is_managed_log_file,
    log_retention_settings, max_level, EntryEvent, EntryStep, Listing, LogLevel,
    LogRetentionSettings, LogSink, Timestamp,
};
use std::path::Path;
use std::time::{Duration, SystemTime};

fn timestamp(time: SystemTime) -> Timestamp {
    let since = time.duration_since(SystemTime::UNIX_EPOCH).unwrap();
    Timestamp {
        secs: since.as_secs() as i64,
        nanos: since.subsec_nanos(),
    }
}

fn file_name(path: &Path) -> Option<&str> {
    path.file_name().and_then(|file_name| file_name.to_str())
}

fn settings() -> LogRetentionSettings {
    LogRetentionSettings {
        log_dir: "logs",
        file_prefix: "app.log",
        retained_days: 30,
        cleanup_interval_hours: 1,
        cleanup_interval_secs: 3600,
    }
}

const DAY: i64 = 24 * 60 * 60;

fn day(days: i64) -> Timestamp {
    Timestamp {
        secs: days * DAY,
        nanos: 0,
    }
}

#[test]
fn detects_expired_log_files_by_modified_time() {
    let now = SystemTime::UNIX_EPOCH + Duration::from_secs(40 * 24 * 60 * 60);
    let old_file = now - Duration::from_secs(31 * 24 * 60 * 60);
    let recent_file = now - Duration::from_secs(29 * 24 * 60 * 60);

    assert!(is_expired(timestamp(old_file), timestamp(now), 30));
    assert!(!is_expired(timestamp(recent_file), timestamp(now), 30));
    assert!(!is_expired(timestamp(old_file), timestamp(now), 0));
}

#[test]
fn only_manages_app_log_files() {
    assert!(is_managed_log_file(
        file_name(Path::new("logs/app.log")),
        "app.log"
    ));
    assert!(is_managed_log_file(
        file_name(Path::new("logs/app.log.2026-07-16")),
        "app.log"
    ));
    assert!(!is_managed_log_file(
        file_name(Path::new("logs/other.log")),
        "app.log"
    ));
}

#[test]
fn name_that_is_no_text_is_not_managed() {
    assert!(!is_managed_log_file(None, "app.log"));
    assert!(!is_managed_log_file(None, ""));
    assert!(!is_managed_log_file(Some("app.lo"), "app.log"));
    assert!(is_managed_log_file(Some("app.lo"), ""));
}

#[test]
fn expiry_is_exact() {
    let now = day(40);
    let at_the_limit = day(10);
    let just_over = Timestamp {
        secs: 10 * DAY - 1,
        nanos: 999_999_999,
    };

    assert!(!is_expired(at_the_limit, now, 30));
    assert!(is_expired(just_over, now, 30));
    assert!(!is_expired(day(50), now, 30));
    assert!(is_expired(day(-100), now, 30));
    assert!(!is_expired(day(0), now, u64::MAX));
    assert!(is_expired(just_over, day(41), 30));
}

#[test]
fn no_days_mean_no_sweeps() {
    let config = LoggingConfig {
        retained_days: 0,
        cleanup_interval_hours: 24,
    };

    assert!(log_retention_settings(&config).is_none());
}

#[test]
fn sweeps_follow_the_configuration() {
    let settings = log_retention_settings(&LoggingConfig {
        retained_days: 7,
        cleanup_interval_hours: 24,
    })
    .unwrap();
    assert_eq!(settings.log_dir, "logs");
    assert_eq!(settings.file_prefix, "app.log");
    assert_eq!(settings.retained_days, 7);
    assert_eq!(settings.cleanup_interval_hours, 24);
    assert_eq!(settings.cleanup_interval_secs, 86_400);

    let hourly = log_retention_settings(&LoggingConfig {
        retained_days: 7,
        cleanup_interval_hours: 0,
    })
    .unwrap();
    assert_eq!(hourly.cleanup_interval_hours, 1);
    assert_eq!(hourly.cleanup_interval_secs, 3_600);

    let never = log_retention_settings(&LoggingConfig {
        retained_days: 7,
        cleanup_interval_hours: u64::MAX,
    })
    .unwrap();
    assert_eq!(never.cleanup_interval_secs, u64::MAX);
}

#[test]
fn missing_directory_is_nothing_to_sweep() {
    let settings = settings();

    assert!(
        delete_expired_log_files::<String>(&settings, day(40), Listing::Missing)
            .unwrap()
            .is_none()
    );
    assert_eq!(
        delete_expired_log_files(&settings, day(40), Listing::Failed("denied".to_string()))
            .unwrap_err(),
        "denied"
    );
}

#[test]
fn sweep_removes_old_log_files() {
    let settings = settings();
    let mut sweep = delete_expired_log_files::<String>(&settings, day(40), Listing::Opened)
        .unwrap()
        .unwrap();

    assert_eq!(
        sweep.step(EntryEvent::Listed(Some("app.log.2026-07-16"))),
        EntryStep::ReadMetadata
    );
    assert_eq!(
        sweep.step(EntryEvent::Described(Some(true))),
        EntryStep::ReadModified
    );
    assert_eq!(
        sweep.step(EntryEvent::Dated(Some(day(9)))),
        EntryStep::Remove
    );
    assert_eq!(sweep.step(EntryEvent::Removed(true)), EntryStep::Next);
    assert_eq!(sweep.deleted_count, 1);
    assert_eq!(sweep.step(EntryEvent::Removed(false)), EntryStep::Next);
    assert_eq!(sweep.deleted_count, 1);
}

#[test]
fn sweep_passes_over_everything_else() {
    let settings = settings();
    let mut sweep = delete_expired_log_files::<String>(&settings, day(40), Listing::Opened)
        .unwrap()
        .unwrap();

    for event in [
        EntryEvent::Unreadable,
        EntryEvent::Listed(None),
        EntryEvent::Listed(Some("other.log")),
        EntryEvent::Described(None),
        EntryEvent::Described(Some(false)),
        EntryEvent::Dated(None),
        EntryEvent::Dated(Some(day(11))),
    ] {
        assert_eq!(sweep.step(event), EntryStep::Next);
    }
    assert_eq!(sweep.deleted_count, 0);
}

#[test]
fn target_has_underscores_for_hyphens() {
    assert_eq!(app_target("light-manager"), "light_manager");
    assert_eq!(app_target("a-b_c-"), "a_b_c_");
    assert_eq!(app_target(""), "");
}

#[test]
fn sinks_take_events_of_the_application_up_to_a_level() {
    let app = "light_manager";

    assert!(is_enabled("light_manager::web", app, LogLevel::Info, LogLevel::Info));
    assert!(is_enabled("light_manager", app, LogLevel::Error, LogLevel::Info));
    assert!(is_enabled("light_manager", app, LogLevel::Warn, LogLevel::Info));
    assert!(!is_enabled("light_manager", app, LogLevel::Debug, LogLevel::Info));
    assert!(is_enabled("light_manager", app, LogLevel::Debug, LogLevel::Debug));
    assert!(!is_enabled("light_manager", app, LogLevel::Trace, LogLevel::Debug));
    assert!(!is_enabled("hyper", app, LogLevel::Error, LogLevel::Debug));
}

#[test]
fn collector_takes_more_than_console_and_files() {
    assert_eq!(max_level(LogSink::Console), LogLevel::Info);
    assert_eq!(max_level(LogSink::File), LogLevel::Info);
    assert_eq!(max_level(LogSink::Traces), LogLevel::Debug);
    assert_eq!(max_level(LogSink::Logs), LogLevel::Debug);
}

#[test]
fn second_sweep_at_the_same_time_removes_nothing() {
    let settings = settings();
    let mut modified = vec![day(5), day(9), day(10), day(11), day(50)];

    for removed in [2, 0] {
        let mut sweep = delete_expired_log_files::<String>(&settings, day(40), Listing::Opened)
            .unwrap()
            .unwrap();
        modified.retain(|modified| {
            let step = sweep.step(EntryEvent::Dated(Some(*modified)));
            if step == EntryStep::Remove {
                sweep.step(EntryEvent::Removed(true));
            }
            step != EntryStep::Remove
        });
        assert_eq!(sweep.deleted_count, removed);
    }
}
