use codex_usage_overlay::checkpoint::checkpoint_message;
use codex_usage_overlay::commands::{
    autostart_checked_after_toggle, check_codex_choice, initial_state, tray_menu, overlay_height, startup_registration, timer_period_secs, tray_action,
    StartupRegistration, TrayAction,
};
use codex_usage_overlay::discovery::{
    collect_candidates, is_codex_executable, is_exe_extension, parse_where_output, push_unique_path, push_unique_paths,
    unix_fixed_candidates,
};
use codex_usage_overlay::errors::{backoff_for, is_auth_error, public_error};
use codex_usage_overlay::model::{
    duration_label, unit_label, AppStateDto, ConnectionStatus, QuotaGroup, QuotaWindow, TokenActivity, UsageSnapshot,
};
use codex_usage_overlay::percent::Percent;
use codex_usage_overlay::placement::{place_window, MonitorArea};
use codex_usage_overlay::settings::{normalize_refresh_interval_secs, Settings};
use codex_usage_overlay::supervisor::{check_version_output, session_action, stops_after, trim, SessionAction, SessionEnd, SessionEvent, Supervisor};
use std::time::Duration;

#[test]
fn backoff_is_bounded() {
    assert_eq!(Duration::from_secs(backoff_for(0)), Duration::from_secs(1));
    assert_eq!(Duration::from_secs(backoff_for(3)), Duration::from_secs(15));
    assert_eq!(Duration::from_secs(backoff_for(100)), Duration::from_secs(60));
}

#[test]
fn backoff_steps_never_shrink() {
    let waits: Vec<u64> = (0..8).map(backoff_for).collect();
    assert_eq!(waits, vec![1, 2, 5, 15, 30, 60, 60, 60]);
    assert_eq!(backoff_for(usize::MAX), 60);
}

#[test]
fn auth_errors_are_classified() {
    assert!(is_auth_error("codex account authentication required"));
    assert!(is_auth_error("Unauthorized"));
    assert!(!is_auth_error("network timed out"));
}

#[test]
fn auth_error_phrases() {
    assert_eq!(is_auth_error("UNAUTHORIZED"), is_auth_error("unauthorized"));
    assert!(is_auth_error("You are NOT LOGGED IN"));
    assert!(is_auth_error("please sign in again"));
    assert!(!is_auth_error("signing key rotated"));
}

#[test]
fn public_errors_hide_urls_and_bound_length() {
    let error = format!("open https://example.test/secret {}", "x".repeat(300));
    let public = public_error(&error);
    assert!(!public.contains("example.test"));
    assert!(public.chars().count() <= 240);
}

#[test]
fn public_errors_collapse_whitespace_and_keep_text() {
    assert_eq!(public_error("  a\tb\n http://x.test  c "), "a b [link hidden] c");
    assert_eq!(public_error(""), "");
    assert_eq!(public_error("a\u{a0}b\u{3000}c\u{85}d"), "a b c d");
    assert_eq!(public_error("a\u{200b}b"), "a\u{200b}b");
    let long = "é".repeat(300);
    assert_eq!(public_error(&long).chars().count(), 240);
}

#[test]
fn unique_paths_are_case_insensitive() {
    let mut paths = Vec::new();
    push_unique_path(&mut paths, r"C:\Users\Test\codex.exe".to_string(), true);
    push_unique_path(&mut paths, r"c:\users\test\CODEX.EXE".to_string(), true);
    assert_eq!(paths.len(), 1);
}

#[test]
fn unique_paths_preserve_case_on_unix() {
    let mut paths = Vec::new();
    push_unique_path(&mut paths, "/opt/Codex/codex".to_string(), false);
    push_unique_path(&mut paths, "/opt/codex/codex".to_string(), false);
    assert_eq!(paths.len(), 2);
}

#[test]
fn unique_paths_keep_first_order() {
    let mut paths = vec!["/a".to_string()];
    let more = vec!["/b".to_string(), "/a".to_string(), "/c".to_string(), "/b".to_string()];
    push_unique_paths(&mut paths, &more, false);
    assert_eq!(paths, vec!["/a", "/b", "/c"]);
}

#[test]
fn refresh_interval_is_bounded() {
    assert_eq!(normalize_refresh_interval_secs(0), 15);
    assert_eq!(normalize_refresh_interval_secs(60), 60);
    assert_eq!(normalize_refresh_interval_secs(600), 300);
}

fn snapshot_with_remaining(remaining_percent: f64) -> UsageSnapshot {
    UsageSnapshot {
        quota_groups: vec![QuotaGroup {
            id: "codex".to_string(),
            name: "Codex".to_string(),
            primary: true,
            plan_type: None,
            windows: vec![QuotaWindow {
                key: "primary".to_string(),
                label: "5-hour allowance".to_string(),
                used_percent: Percent { mantissa: (100.0 - remaining_percent) as u64, shift: 0 },
                window_duration_mins: Some(300),
                resets_at: None,
            }],
        }],
        token_activity: TokenActivity::default(),
        credits: None,
        updated_at: 1,
        stale: false,
    }
}

#[test]
fn checkpoint_message_only_reports_downward_crossings() {
    let previous = snapshot_with_remaining(72.0);
    let current = snapshot_with_remaining(49.0);
    let message = checkpoint_message(Some(&previous), &current, &[50, 20]);
    assert_eq!(message.as_deref(), Some("Checkpoint reached: 5-hour allowance reached 50% remaining."));

    let still_below = snapshot_with_remaining(48.0);
    assert!(checkpoint_message(Some(&current), &still_below, &[50, 20]).is_none());
}

#[test]
fn checkpoint_message_combines_multiple_levels_crossed_in_one_refresh() {
    let previous = snapshot_with_remaining(25.0);
    let current = snapshot_with_remaining(9.0);
    assert_eq!(
        checkpoint_message(Some(&previous), &current, &[50, 20, 10]).as_deref(),
        Some("Checkpoint reached: 5-hour allowance reached 20% remaining. 5-hour allowance reached 10% remaining.")
    );
}

#[test]
fn checkpoint_message_needs_a_previous_snapshot_and_a_fall() {
    let current = snapshot_with_remaining(5.0);
    assert!(checkpoint_message(None, &current, &[50, 20, 10]).is_none());
    let rising = snapshot_with_remaining(60.0);
    assert!(checkpoint_message(Some(&current), &rising, &[50, 20, 10]).is_none());
    let exactly = snapshot_with_remaining(50.0);
    assert_eq!(
        checkpoint_message(Some(&rising), &exactly, &[50]).as_deref(),
        Some("Checkpoint reached: 5-hour allowance reached 50% remaining.")
    );
    let half = UsageSnapshot {
        quota_groups: vec![QuotaGroup {
            id: "codex".to_string(),
            name: "Codex".to_string(),
            primary: true,
            plan_type: None,
            windows: vec![QuotaWindow {
                key: "primary".to_string(),
                label: "5-hour allowance".to_string(),
                used_percent: Percent { mantissa: 101, shift: 1 },
                window_duration_mins: Some(300),
                resets_at: None,
            }],
        }],
        token_activity: TokenActivity::default(),
        credits: None,
        updated_at: 2,
        stale: false,
    };
    assert_eq!(
        checkpoint_message(Some(&rising), &half, &[50]).as_deref(),
        Some("Checkpoint reached: 5-hour allowance reached 50% remaining.")
    );
}

#[test]
fn duration_labels() {
    assert_eq!(duration_label(Some(300)), "5-hour allowance");
    assert_eq!(duration_label(Some(10_080)), "Weekly allowance");
    assert_eq!(duration_label(Some(2_880)), "2-day allowance");
    assert_eq!(duration_label(Some(120)), "2-hour allowance");
    assert_eq!(duration_label(Some(90)), "90-minute allowance");
    assert_eq!(duration_label(Some(0)), "Allowance");
    assert_eq!(duration_label(Some(-60)), "Allowance");
    assert_eq!(duration_label(None), "Allowance");
    assert_eq!(unit_label(-3, "day"), "-3-day allowance");
}

#[test]
fn version_output_is_checked() {
    assert_eq!(check_version_output(true, "  codex-cli 0.40.0\n").unwrap(), "codex-cli 0.40.0");
    assert_eq!(
        check_version_output(false, "codex").unwrap_err(),
        "The selected file is not a working Codex CLI executable."
    );
    assert_eq!(
        check_version_output(true, "python 3.12").unwrap_err(),
        "The selected executable did not identify itself as Codex."
    );
    assert_eq!(trim("\u{3000} x \t"), "x");
}

#[test]
fn supervisor_retries_with_growing_waits_and_resets_when_connected() {
    let mut supervisor = Supervisor::new();
    let mut state = AppStateDto::default();
    assert_eq!(supervisor.spawn_failed(&mut state, "Could not start Codex: denied"), 1);
    assert_eq!(state.status, ConnectionStatus::Reconnecting);
    assert_eq!(supervisor.initialize_failed(&mut state, "bad"), 2);
    assert_eq!(state.message.as_deref(), Some("This Codex app-server could not initialize: bad"));
    assert_eq!(supervisor.session_ended(&mut state, true, false), SessionEnd::RetryAfter(5));
    assert_eq!(state.message.as_deref(), Some("Codex app-server disconnected; reconnecting."));
    supervisor.connected();
    assert_eq!(supervisor.reconnect_attempt, 0);
    assert_eq!(supervisor.session_ended(&mut state, false, false), SessionEnd::Restart);
    assert_eq!(supervisor.session_ended(&mut state, true, true), SessionEnd::Stop);
    assert_eq!(supervisor.reconnect_attempt, 0);
}

#[test]
fn supervisor_reports_missing_codex() {
    let supervisor = Supervisor::new();
    let mut state = AppStateDto::default();
    state.codex_path = Some("/old".to_string());
    assert_eq!(supervisor.executable_missing(&mut state), SessionEnd::WaitForRestart);
    assert_eq!(state.status, ConnectionStatus::NeedsCodex);
    assert!(state.codex_path.is_none());
    assert_eq!(
        supervisor.version_failed(&mut state, "/usr/bin/codex", "Timed out while checking the Codex executable"),
        SessionEnd::WaitForRestart
    );
    assert_eq!(state.codex_path.as_deref(), Some("/usr/bin/codex"));
    assert_eq!(state.message.as_deref(), Some("Timed out while checking the Codex executable"));
    supervisor.connecting(&mut state, "/usr/bin/codex", "codex-cli 1.0");
    assert_eq!(state.status, ConnectionStatus::Starting);
    assert_eq!(state.codex_version.as_deref(), Some("codex-cli 1.0"));
    assert_eq!(state.message.as_deref(), Some("Connecting to Codex…"));
}

#[test]
fn session_events_map_to_actions() {
    assert_eq!(session_action(SessionEvent::Tick), SessionAction::Refresh);
    assert_eq!(session_action(SessionEvent::IntervalChanged), SessionAction::ResetInterval);
    assert_eq!(session_action(SessionEvent::Notification), SessionAction::HandleNotification);
    assert_eq!(session_action(SessionEvent::RestartRequested), SessionAction::End { reconnect: false });
    assert_eq!(session_action(SessionEvent::Exited), SessionAction::End { reconnect: true });
    assert!(stops_after(&SessionAction::Refresh, true));
    assert!(!stops_after(&SessionAction::Refresh, false));
    assert!(!stops_after(&SessionAction::End { reconnect: true }, true));
}

#[test]
fn codex_executable_names() {
    assert!(is_codex_executable(true, Some("codex"), false));
    assert!(!is_codex_executable(true, Some("Codex"), false));
    assert!(is_codex_executable(true, Some("CODEX.EXE"), true));
    assert!(!is_codex_executable(false, Some("codex.exe"), true));
    assert!(!is_codex_executable(true, None, true));
    assert!(is_exe_extension(Some("ExE")));
    assert!(!is_exe_extension(Some("bat")));
}

#[test]
fn where_output_lines_become_paths() {
    let output = "C:\\Tools\\codex.exe\r\n  \"C:\\Program Files\\Codex\\codex.exe\"  \r\n\r\n";
    assert_eq!(
        parse_where_output(output),
        vec!["C:\\Tools\\codex.exe".to_string(), "C:\\Program Files\\Codex\\codex.exe".to_string()]
    );
    assert_eq!(unix_fixed_candidates()[0], "/usr/local/bin/codex");
}

fn monitor(x: i32, y: i32, width: u32, height: u32, name: &str) -> MonitorArea {
    MonitorArea { x, y, width, height, name: Some(name.to_string()) }
}

#[test]
fn overlay_is_placed_top_right_or_at_its_saved_position() {
    let monitors = vec![monitor(0, 0, 1920, 1080, "A"), monitor(1920, 0, 1280, 1024, "B")];
    assert_eq!(place_window(300, 188, &monitors, Some(Some("B".to_string())), None, None), Some((2880, 20)));
    assert_eq!(place_window(300, 188, &monitors, None, None, None), Some((1600, 20)));
    assert_eq!(place_window(300, 188, &monitors, None, Some(2000), Some(500)), Some((2000, 500)));
    assert_eq!(place_window(300, 188, &monitors, None, Some(3190), Some(1010)), Some((2880, 816)));
    assert_eq!(place_window(300, 188, &monitors, None, Some(-50), Some(5)), Some((20, 20)));
    assert_eq!(place_window(300, 188, &vec![], None, Some(1), Some(1)), None);
}

#[test]
fn startup_registers_once_and_refreshes_afterwards() {
    let mut settings = Settings::default();
    assert_eq!(startup_registration(&mut settings, false), StartupRegistration::EnableAndSave);
    assert!(settings.autostart_initialized);
    assert_eq!(startup_registration(&mut settings, true), StartupRegistration::Refresh);
    assert_eq!(startup_registration(&mut settings, false), StartupRegistration::Leave);
}

#[test]
fn initial_state_normalises_settings() {
    let mut settings = Settings::default();
    settings.refresh_interval_secs = 5;
    settings.checkpoint_percentages = vec![10, 0, 75, 10];
    settings.expanded = true;
    let state = initial_state(&mut settings, false);
    assert_eq!(settings.refresh_interval_secs, 15);
    assert_eq!(settings.checkpoint_percentages, vec![75, 10]);
    assert_eq!(state.status, ConnectionStatus::Starting);
    assert_eq!(state.refresh_interval_secs, 15);
    assert_eq!(state.checkpoint_percentages, vec![75, 10]);
    assert!(state.expanded);
    assert!(!state.autostart_enabled);
    assert!(state.snapshot.is_none());
}

#[test]
fn small_decisions_of_the_shell() {
    assert_eq!(tray_action("show"), TrayAction::Toggle);
    assert_eq!(tray_action("refresh"), TrayAction::Refresh);
    assert_eq!(tray_action("autostart"), TrayAction::Autostart);
    assert_eq!(tray_action("quit"), TrayAction::Quit);
    assert_eq!(tray_action("Quit"), TrayAction::Ignore);
    assert_eq!(overlay_height(true), 520);
    assert_eq!(overlay_height(false), 188);
    assert_eq!(timer_period_secs(0), 1);
    assert_eq!(timer_period_secs(45), 45);
    assert!(check_codex_choice(true, Some("EXE"), true).is_ok());
    assert!(check_codex_choice(true, None, false).is_ok());
    assert_eq!(check_codex_choice(false, Some("exe"), true).unwrap_err(), "Choose the installed Codex executable.");
    assert!(check_codex_choice(true, Some("cmd"), true).is_err());
}

#[test]
fn candidate_groups_are_tried_in_order_each_path_once() {
    let groups = vec![
        vec!["C:\\Tools\\codex.exe".to_string()],
        vec!["c:\\tools\\CODEX.exe".to_string(), "D:\\codex.exe".to_string()],
        vec![],
        vec!["D:\\codex.exe".to_string(), "E:\\codex.exe".to_string()],
    ];
    assert_eq!(
        collect_candidates(&groups, true),
        vec!["C:\\Tools\\codex.exe", "D:\\codex.exe", "E:\\codex.exe"]
    );
    assert_eq!(collect_candidates(&groups, false).len(), 4);
    assert!(collect_candidates(&Vec::new(), false).is_empty());
}

#[test]
fn tray_menu_entries_in_order() {
    let entries = tray_menu(true);
    let ids: Vec<&str> = entries.iter().map(|e| e.id.as_str()).collect();
    let labels: Vec<&str> = entries.iter().map(|e| e.label.as_str()).collect();
    assert_eq!(ids, vec!["show", "refresh", "autostart", "quit"]);
    assert_eq!(labels, vec!["Show / Hide", "Refresh now", "Start with Windows", "Quit"]);
    assert_eq!(entries[2].checked, Some(true));
    assert_eq!(tray_menu(false)[2].checked, Some(false));
    assert!(entries[0].checked.is_none() && entries[3].checked.is_none());
    let actions: Vec<TrayAction> = entries.iter().map(|e| tray_action(&e.id)).collect();
    assert_eq!(actions, vec![TrayAction::Toggle, TrayAction::Refresh, TrayAction::Autostart, TrayAction::Quit]);
    assert!(autostart_checked_after_toggle(true, true));
    assert!(!autostart_checked_after_toggle(true, false));
    assert!(autostart_checked_after_toggle(false, false));
}
