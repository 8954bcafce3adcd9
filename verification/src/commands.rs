//! What the overlay's commands and its start-up do to the settings and to the shown state.
//! The application persists the settings and talks to the window system; these functions
//! decide the new values.

use vstd::prelude::*;
use crate::model::{AppStateDto, AppStateView, ConnectionStatus};
use crate::discovery::is_exe_extension;
use crate::text::ascii_lower;
use crate::settings::{
    Settings, normalize_refresh_interval_secs, normalize_checkpoint_percentages,
    refresh_interval_spec, is_normalized_checkpoints,
};

verus! {

/// The width of the overlay window, in logical pixels.
pub const COMPACT_WIDTH: u32 = 300;
/// The height of the compact overlay.
pub const COMPACT_HEIGHT: u32 = 188;
/// The smallest height the compact overlay may be given.
pub const MIN_COMPACT_HEIGHT: u32 = 120;
/// The height of the expanded overlay, and the largest height it may be given.
pub const EXPANDED_HEIGHT: u32 = 520;

/// The window height for the compact or the expanded overlay.
pub fn overlay_height(expanded: bool) -> (h: u32)
    ensures
        h == if expanded { EXPANDED_HEIGHT } else { COMPACT_HEIGHT },
{
    if expanded {
        EXPANDED_HEIGHT
    } else {
        COMPACT_HEIGHT
    }
}

/// A copy of a byte vector.
fn copy_bytes(v: &Vec<u8>) -> (r: Vec<u8>)
    ensures
        r@ == v@,
{
    let mut r: Vec<u8> = Vec::new();
    let mut i: usize = 0;
    while i < v.len()
        invariant
            i <= v.len(),
            r@ == v@.take(i as int),
        decreases v.len() - i,
    {
        r.push(v[i]);
        i = i + 1;
        assert(r@ =~= v@.take(i as int));
    }
    assert(v@.take(v.len() as int) =~= v@);
    r
}

/// The settings fields that the normalisation at start-up leaves alone are unchanged.
pub open spec fn same_preferences(a: Settings, b: Settings) -> bool {
    &&& a.codex_executable == b.codex_executable
    &&& a.window_x == b.window_x
    &&& a.window_y == b.window_y
    &&& a.expanded == b.expanded
    &&& a.autostart_initialized == b.autostart_initialized
}

/// Normalises the loaded settings and gives the state the overlay starts with: starting,
/// nothing read yet, with the settings' view preferences.
pub fn initial_state(settings: &mut Settings, autostart_enabled: bool) -> (s: AppStateDto)
    ensures
        same_preferences(*final(settings), *old(settings)),
        final(settings).refresh_interval_secs == refresh_interval_spec(old(settings).refresh_interval_secs),
        is_normalized_checkpoints(old(settings).checkpoint_percentages@, final(settings).checkpoint_percentages@),
        s@ == (AppStateView {
            status: ConnectionStatus::Starting,
            snapshot: None,
            message: None,
            codex_version: None,
            codex_path: None,
            autostart_enabled: autostart_enabled,
            expanded: final(settings).expanded,
            updating: false,
            refresh_interval_secs: final(settings).refresh_interval_secs,
            checkpoint_percentages: final(settings).checkpoint_percentages@,
            checkpoint_notification: None,
        }),
{
    let seconds = normalize_refresh_interval_secs(settings.refresh_interval_secs);
    settings.refresh_interval_secs = seconds;
    let checkpoints = normalize_checkpoint_percentages(settings.checkpoint_percentages.as_slice());
    settings.checkpoint_percentages = checkpoints;
    AppStateDto {
        status: ConnectionStatus::Starting,
        snapshot: None,
        message: None,
        codex_version: None,
        codex_path: None,
        autostart_enabled: autostart_enabled,
        expanded: settings.expanded,
        updating: false,
        refresh_interval_secs: seconds,
        checkpoint_percentages: copy_bytes(&settings.checkpoint_percentages),
        checkpoint_notification: None,
    }
}

/// What start-up does about the Windows startup entry.
#[derive(Debug, PartialEq, Eq)]
pub enum StartupRegistration {
    /// First launch: register the app and save the settings, now marked as initialised.
    EnableAndSave,
    /// The app is registered: register it again so the entry points at this executable.
    Refresh,
    /// The user turned startup off: leave it off.
    Leave,
}

/// Decides what start-up does about the Windows startup entry, given whether the app is
/// registered now. On first launch the settings are marked as initialised.
pub fn startup_registration(settings: &mut Settings, registered: bool) -> (r: StartupRegistration)
    ensures
        !old(settings).autostart_initialized ==> r == StartupRegistration::EnableAndSave,
        old(settings).autostart_initialized && registered ==> r == StartupRegistration::Refresh,
        old(settings).autostart_initialized && !registered ==> r == StartupRegistration::Leave,
        *final(settings) == (Settings { autostart_initialized: true, ..*old(settings) }),
{
    if !settings.autostart_initialized {
        settings.autostart_initialized = true;
        StartupRegistration::EnableAndSave
    } else if registered {
        StartupRegistration::Refresh
    } else {
        StartupRegistration::Leave
    }
}

/// An entry of the tray menu.
#[derive(Debug, PartialEq, Eq)]
pub enum TrayAction {
    /// "Show / Hide".
    Toggle,
    /// "Refresh now".
    Refresh,
    /// "Start with Windows".
    Autostart,
    /// "Quit".
    Quit,
    /// An entry this app does not know.
    Ignore,
}

/// The tray action of a menu entry id.
pub open spec fn tray_action_spec(id: Seq<char>) -> TrayAction {
    if id == "show"@ {
        TrayAction::Toggle
    } else if id == "refresh"@ {
        TrayAction::Refresh
    } else if id == "autostart"@ {
        TrayAction::Autostart
    } else if id == "quit"@ {
        TrayAction::Quit
    } else {
        TrayAction::Ignore
    }
}

/// The tray action of a menu entry id.
pub fn tray_action(id: &str) -> (a: TrayAction)
    ensures
        a == tray_action_spec(id@),
{
    let id = String::from_str(id);
    if id == String::from_str("show") {
        TrayAction::Toggle
    } else if id == String::from_str("refresh") {
        TrayAction::Refresh
    } else if id == String::from_str("autostart") {
        TrayAction::Autostart
    } else if id == String::from_str("quit") {
        TrayAction::Quit
    } else {
        TrayAction::Ignore
    }
}

/// An entry of the tray menu: its id, its label, and, for the check entry, whether it is checked.
#[derive(Debug)]
pub struct TrayEntry {
    pub id: String,
    pub label: String,
    pub checked: Option<bool>,
}

/// The tray menu, in order: "Show / Hide", "Refresh now", "Start with Windows" (checked when
/// the app starts with Windows) and "Quit"; each entry's id leads to its own action.
pub fn tray_menu(autostart_enabled: bool) -> (entries: Vec<TrayEntry>)
    ensures
        entries@.len() == 4,
        entries@[0].id@ == "show"@ && entries@[0].label@ == "Show / Hide"@ && entries@[0].checked is None,
        entries@[1].id@ == "refresh"@ && entries@[1].label@ == "Refresh now"@ && entries@[1].checked is None,
        entries@[2].id@ == "autostart"@ && entries@[2].label@ == "Start with Windows"@
            && entries@[2].checked == Some(autostart_enabled),
        entries@[3].id@ == "quit"@ && entries@[3].label@ == "Quit"@ && entries@[3].checked is None,
        tray_action_spec(entries@[0].id@) == TrayAction::Toggle,
        tray_action_spec(entries@[1].id@) == TrayAction::Refresh,
        tray_action_spec(entries@[2].id@) == TrayAction::Autostart,
        tray_action_spec(entries@[3].id@) == TrayAction::Quit,
{
    proof {
        reveal_strlit("show");
        reveal_strlit("refresh");
        reveal_strlit("autostart");
        reveal_strlit("quit");
        assert("refresh"@ != "show"@) by {
            assert("refresh"@.len() != "show"@.len());
        }
        assert("autostart"@ != "show"@ && "autostart"@ != "refresh"@) by {
            assert("autostart"@.len() == 9);
        }
        assert("quit"@ != "show"@) by {
            assert("quit"@[0] != "show"@[0]);
        }
        assert("quit"@ != "refresh"@ && "quit"@ != "autostart"@) by {
            assert("quit"@.len() == 4);
        }
    }
    let mut entries: Vec<TrayEntry> = Vec::new();
    entries.push(TrayEntry { id: String::from_str("show"), label: String::from_str("Show / Hide"), checked: None });
    entries.push(TrayEntry { id: String::from_str("refresh"), label: String::from_str("Refresh now"), checked: None });
    entries.push(TrayEntry {
        id: String::from_str("autostart"),
        label: String::from_str("Start with Windows"),
        checked: Some(autostart_enabled),
    });
    entries.push(TrayEntry { id: String::from_str("quit"), label: String::from_str("Quit"), checked: None });
    entries
}

/// Whether the "Start with Windows" entry is checked after the user toggled it to `requested`:
/// the new state when the startup entry was updated, the previous one when that failed.
pub fn autostart_checked_after_toggle(requested: bool, updated: bool) -> (checked: bool)
    ensures
        checked == if updated { requested } else { !requested },
{
    if updated {
        requested
    } else {
        !requested
    }
}

/// The period of the refresh timer: the stored interval, at least one second.
pub fn timer_period_secs(stored: u64) -> (s: u64)
    ensures
        s == if stored == 0 { 1 } else { stored },
{
    if stored == 0 {
        1
    } else {
        stored
    }
}

/// Stores a new refresh interval in the settings, normalised; returns the stored value.
pub fn choose_refresh_interval(settings: &mut Settings, seconds: u64) -> (stored: u64)
    ensures
        stored == refresh_interval_spec(seconds),
        *final(settings) == (Settings { refresh_interval_secs: stored, ..*old(settings) }),
{
    let stored = normalize_refresh_interval_secs(seconds);
    settings.refresh_interval_secs = stored;
    stored
}

/// Shows a refresh interval that was saved.
pub fn show_refresh_interval(state: &mut AppStateDto, seconds: u64)
    ensures
        final(state)@ == (AppStateView { refresh_interval_secs: seconds, ..old(state)@ }),
{
    state.refresh_interval_secs = seconds;
}

/// Stores new checkpoint percentages in the settings, normalised.
pub fn choose_checkpoint_percentages(settings: &mut Settings, percentages: &[u8])
    ensures
        is_normalized_checkpoints(percentages@, final(settings).checkpoint_percentages@),
        same_preferences(*final(settings), *old(settings)),
        final(settings).refresh_interval_secs == old(settings).refresh_interval_secs,
{
    settings.checkpoint_percentages = normalize_checkpoint_percentages(percentages);
}

/// Shows the checkpoint percentages of the settings, once they were saved.
pub fn show_checkpoint_percentages(state: &mut AppStateDto, settings: &Settings)
    ensures
        final(state)@ == (AppStateView { checkpoint_percentages: settings.checkpoint_percentages@, ..old(state)@ }),
{
    state.checkpoint_percentages = copy_bytes(&settings.checkpoint_percentages);
}

/// Stores whether the overlay is expanded.
pub fn choose_expanded(settings: &mut Settings, expanded: bool)
    ensures
        *final(settings) == (Settings { expanded: expanded, ..*old(settings) }),
{
    settings.expanded = expanded;
}

/// Shows whether the overlay is expanded, once the window was resized and the choice saved.
pub fn show_expanded(state: &mut AppStateDto, expanded: bool)
    ensures
        final(state)@ == (AppStateView { expanded: expanded, ..old(state)@ }),
{
    state.expanded = expanded;
}

/// Shows whether the app starts with Windows, once the startup entry was updated.
pub fn show_autostart(state: &mut AppStateDto, enabled: bool)
    ensures
        final(state)@ == (AppStateView { autostart_enabled: enabled, ..old(state)@ }),
{
    state.autostart_enabled = enabled;
}

/// Stores the position the overlay window was moved to.
pub fn record_window_position(settings: &mut Settings, x: i32, y: i32)
    ensures
        *final(settings) == (Settings { window_x: Some(x), window_y: Some(y), ..*old(settings) }),
{
    settings.window_x = Some(x);
    settings.window_y = Some(y);
}

/// Stores the Codex executable the user chose, or none to search for it again.
pub fn choose_codex_executable(settings: &mut Settings, path: Option<String>)
    ensures
        *final(settings) == (Settings { codex_executable: path, ..*old(settings) }),
{
    settings.codex_executable = path;
}

/// Dismisses the checkpoint notification.
pub fn dismiss_checkpoint_notification(state: &mut AppStateDto)
    ensures
        final(state)@ == (AppStateView { checkpoint_notification: None, ..old(state)@ }),
{
    state.checkpoint_notification = None;
}

/// Whether a file the user chose may be the Codex executable: it must be a file, and on
/// Windows its extension must be `exe` in any letter case. The refusal says what to choose.
pub fn check_codex_choice(is_file: bool, extension: Option<&str>, windows: bool) -> (r: Result<(), String>)
    ensures
        r is Ok <==> (is_file && (!windows || match extension {
            Some(e) => ascii_lower(e@) == "exe"@,
            None => false,
        })),
        match r {
            Err(e) => e@ == "Choose the installed Codex executable."@,
            Ok(_) => true,
        },
{
    if !is_file {
        return Err(String::from_str("Choose the installed Codex executable."));
    }
    if windows && !is_exe_extension(extension) {
        return Err(String::from_str("Choose the installed Codex executable."));
    }
    Ok(())
}

} // verus!
