//! Tests of the watcher decision core and the settings record.

use marketlog::settings::{AppSettings, AppSettingsDto};
use marketlog::watcher::{
    is_log_file_name, processed_status, waiting_status, watcher_step, watching_status,
    WatcherAction, WatcherEvent, WatcherState, EVENT_QUEUE_CAPACITY, RETRY_DELAY_SECS,
    SETTLE_DELAY_MILLIS,
};

#[test]
fn await_directory_transitions() {
    assert_eq!(
        watcher_step(WatcherState::AwaitDirectory, WatcherEvent::DirectoryMissing),
        (WatcherState::AwaitDirectory, WatcherAction::EmitWaitingAndDelay)
    );
    assert_eq!(
        watcher_step(WatcherState::AwaitDirectory, WatcherEvent::DirectoryCreateFailed),
        (WatcherState::AwaitDirectory, WatcherAction::DelayQuietly)
    );
    assert_eq!(
        watcher_step(WatcherState::AwaitDirectory, WatcherEvent::DirectoryReady),
        (WatcherState::AwaitDirectory, WatcherAction::InstallWatch)
    );
    assert_eq!(
        watcher_step(WatcherState::AwaitDirectory, WatcherEvent::WatchInstallFailed),
        (WatcherState::AwaitDirectory, WatcherAction::EmitErrorAndDelay)
    );
    assert_eq!(
        watcher_step(WatcherState::AwaitDirectory, WatcherEvent::WatchInstalled),
        (WatcherState::Watching, WatcherAction::EmitWatchingAndListen)
    );
}

#[test]
fn watching_transitions() {
    assert_eq!(
        watcher_step(WatcherState::Watching, WatcherEvent::CreatedLogFile),
        (WatcherState::Watching, WatcherAction::SettleAndProcess)
    );
    assert_eq!(
        watcher_step(WatcherState::Watching, WatcherEvent::CreatedOtherFile),
        (WatcherState::Watching, WatcherAction::Keep)
    );
    assert_eq!(
        watcher_step(WatcherState::Watching, WatcherEvent::OtherFsEvent),
        (WatcherState::Watching, WatcherAction::Keep)
    );
    assert_eq!(
        watcher_step(WatcherState::Watching, WatcherEvent::WatchError),
        (WatcherState::Watching, WatcherAction::Keep)
    );
    assert_eq!(
        watcher_step(WatcherState::Watching, WatcherEvent::ChannelClosed),
        (WatcherState::AwaitDirectory, WatcherAction::Restart)
    );
}

#[test]
fn log_file_names() {
    assert!(is_log_file_name("The Forge-Tritanium-2024.01.01 123456.txt"));
    assert!(is_log_file_name("a.txt"));
    assert!(is_log_file_name("a.b.txt"));
    assert!(!is_log_file_name("a.TXT"));
    assert!(!is_log_file_name(".txt"));
    assert!(!is_log_file_name("atxt"));
    assert!(!is_log_file_name("a.txt.bak"));
    assert!(!is_log_file_name(""));
    assert!(!is_log_file_name("a."));
}

#[test]
fn loop_constants() {
    assert_eq!(RETRY_DELAY_SECS, 5);
    assert_eq!(SETTLE_DELAY_MILLIS, 100);
    assert!(EVENT_QUEUE_CAPACITY >= 100);
}

#[test]
fn status_texts() {
    assert_eq!(waiting_status(), "Waiting for market logs directory...");
    assert_eq!(watching_status(), "Watching for market logs...");
    assert_eq!(processed_status("Tritanium"), "Processed: Tritanium");
}

#[test]
fn default_settings() {
    let s = AppSettings::default();
    assert_eq!(s.selected_profile, "Default");
    assert!(!s.auto_copy_enabled);
    assert_eq!(s.auto_copy_mode, "sell");
    assert_eq!(s.window_x, None);
    assert_eq!(s.window_y, None);
    assert_eq!(s.window_width, None);
    assert_eq!(s.window_height, None);
}

#[test]
fn settings_path() {
    assert_eq!(AppSettings::get_settings_path("/data/app"), "/data/app/settings.json");
}

#[test]
fn settings_dto_round_trip() {
    let mut s = AppSettings::default();
    s.selected_profile = "Trader".to_string();
    s.auto_copy_enabled = true;
    s.auto_copy_mode = "buy95".to_string();
    s.window_x = Some(10);
    let dto = AppSettingsDto::from(s);
    assert_eq!(dto.selected_profile, "Trader");
    assert!(dto.auto_copy_enabled);
    assert_eq!(dto.auto_copy_mode, "buy95");
    let back = AppSettings::from(dto);
    assert_eq!(back.selected_profile, "Trader");
    assert!(back.auto_copy_enabled);
    assert_eq!(back.auto_copy_mode, "buy95");
    // The command surface carries no window geometry.
    assert_eq!(back.window_x, None);
}
