use codex_usage_overlay::commands::{
    choose_checkpoint_percentages, choose_codex_executable, choose_expanded, choose_refresh_interval,
    dismiss_checkpoint_notification, record_window_position, show_autostart, show_checkpoint_percentages,
    show_expanded, show_refresh_interval,
};
use codex_usage_overlay::model::{AppStateDto, CheckpointNotification, ConnectionStatus};
use codex_usage_overlay::settings::{
    default_checkpoint_percentages, normalize_checkpoint_percentages, normalize_refresh_interval_secs, Settings,
    DEFAULT_REFRESH_INTERVAL_SECS,
};

#[test]
fn checkpoint_percentages_are_sorted_deduplicated_and_bounded() {
    assert_eq!(normalize_checkpoint_percentages(&[0, 50, 20, 50, 100, 10]), vec![50, 20, 10]);
}

#[test]
fn checkpoint_normalisation_edges() {
    assert_eq!(normalize_checkpoint_percentages(&[]), Vec::<u8>::new());
    assert_eq!(normalize_checkpoint_percentages(&[255, 100, 0]), Vec::<u8>::new());
    assert_eq!(normalize_checkpoint_percentages(&[1, 99, 1, 99]), vec![99, 1]);
    let once = normalize_checkpoint_percentages(&[7, 3, 88, 3]);
    assert_eq!(normalize_checkpoint_percentages(&once), once);
}

#[test]
fn refresh_interval_normalisation_is_stable() {
    for value in [0, 14, 15, 16, 299, 300, 301, u64::MAX] {
        let once = normalize_refresh_interval_secs(value);
        assert!((15..=300).contains(&once));
        assert_eq!(normalize_refresh_interval_secs(once), once);
    }
    assert_eq!(normalize_refresh_interval_secs(16), 16);
}

#[test]
fn settings_defaults() {
    let settings = Settings::default();
    assert_eq!(settings.codex_executable, None);
    assert_eq!(settings.window_x, None);
    assert!(!settings.expanded);
    assert!(!settings.autostart_initialized);
    assert_eq!(settings.refresh_interval_secs, DEFAULT_REFRESH_INTERVAL_SECS);
    assert_eq!(settings.checkpoint_percentages, vec![50, 20, 10]);
    assert_eq!(default_checkpoint_percentages(), vec![50, 20, 10]);
    let state = AppStateDto::default();
    assert_eq!(state.status, ConnectionStatus::Starting);
    assert!(state.autostart_enabled);
    assert_eq!(state.refresh_interval_secs, 60);
}

#[test]
fn commands_store_and_show_choices() {
    let mut settings = Settings::default();
    let mut state = AppStateDto::default();
    let stored = choose_refresh_interval(&mut settings, 1000);
    assert_eq!(stored, 300);
    assert_eq!(settings.refresh_interval_secs, 300);
    show_refresh_interval(&mut state, stored);
    assert_eq!(state.refresh_interval_secs, 300);

    choose_checkpoint_percentages(&mut settings, &[5, 95, 5]);
    assert_eq!(settings.checkpoint_percentages, vec![95, 5]);
    show_checkpoint_percentages(&mut state, &settings);
    assert_eq!(state.checkpoint_percentages, vec![95, 5]);

    choose_expanded(&mut settings, true);
    show_expanded(&mut state, true);
    assert!(settings.expanded && state.expanded);

    show_autostart(&mut state, false);
    assert!(!state.autostart_enabled);

    record_window_position(&mut settings, -40, 12);
    assert_eq!((settings.window_x, settings.window_y), (Some(-40), Some(12)));

    choose_codex_executable(&mut settings, Some("/usr/bin/codex".to_string()));
    assert_eq!(settings.codex_executable.as_deref(), Some("/usr/bin/codex"));

    state.checkpoint_notification = Some(CheckpointNotification { id: "checkpoint-1".to_string(), message: "m".to_string() });
    dismiss_checkpoint_notification(&mut state);
    assert!(state.checkpoint_notification.is_none());
}
