//! The decisions of the live runtime: how each outcome of talking to Codex changes the
//! overlay state, and what the supervisor does next. The application performs the I/O
//! and hands every outcome to these functions.

use vstd::prelude::*;
use crate::json::{JsonValue, json_get, str_of, bool_of, ref_matches, str_of_exec, bool_of_exec};
use crate::model::{
    AppStateDto, AppStateView, ConnectionStatus, UsageSnapshotView, CheckpointNotification,
    CheckpointNotificationView, stale_snapshot, mark_snapshot_stale, normalize_snapshot,
    snapshot_spec, opt_view,
};
use crate::checkpoint::{checkpoint_message, checkpoint_message_spec};
use crate::supervisor::needs_codex_state;
use crate::errors::{public_error, public_error_spec, is_auth_error, is_auth_error_spec, backoff_for, backoff_spec};
use crate::text::{signed_decimal, decimal_i64, starts_with_seq, starts_with_chars, chars_of};
use crate::settings::{
    Settings, normalize_refresh_interval_secs, normalize_checkpoint_percentages,
    refresh_interval_spec, is_normalized_checkpoints,
};

verus! {

/// The state after a failure that leaves the user needing to act: the given status and
/// message, no refresh in progress, the last snapshot kept but marked stale.
pub open spec fn failed_state(s: AppStateView, status: ConnectionStatus, message: Seq<char>) -> AppStateView {
    AppStateView {
        status: status,
        message: Some(message),
        updating: false,
        snapshot: stale_snapshot(s.snapshot),
        ..s
    }
}

fn set_failed(state: &mut AppStateDto, status: ConnectionStatus, message: String)
    ensures
        final(state)@ == failed_state(old(state)@, status, message@),
{
    state.status = status;
    state.message = Some(message);
    state.updating = false;
    mark_snapshot_stale(state);
}

/// The connection to Codex failed: reconnecting, with the public form of the error.
pub fn connection_failure(state: &mut AppStateDto, error: &str)
    ensures
        final(state)@ == failed_state(old(state)@, ConnectionStatus::Reconnecting, public_error_spec(error@)),
{
    set_failed(state, ConnectionStatus::Reconnecting, public_error(error));
}

/// Codex needs the user to sign in.
pub fn needs_auth(state: &mut AppStateDto, message: &str)
    ensures
        final(state)@ == failed_state(old(state)@, ConnectionStatus::NeedsAuth, message@),
{
    set_failed(state, ConnectionStatus::NeedsAuth, String::from_str(message));
}

/// A refresh started.
pub fn begin_refresh(state: &mut AppStateDto)
    ensures
        final(state)@ == (AppStateView { updating: true, ..old(state)@ }),
{
    state.updating = true;
}

/// The next step of a refresh after `account/read`.
pub enum AccountStep {
    /// The account is signed in: read the limits and the usage.
    ReadUsage,
    /// The refresh ended; the state says why.
    Done,
}

/// `account/read` reported no signed-in account: its result has no `account` or a null one.
pub open spec fn signed_out(result: JsonValue) -> bool {
    match json_get(result, "account"@) {
        None => true,
        Some(a) => a is Null,
    }
}

/// What the `account/read` outcome does to the state and to the refresh.
pub open spec fn account_outcome(s: AppStateView, result: Result<JsonValue, String>) -> (AppStateView, bool) {
    match result {
        Ok(r) => if signed_out(r) {
            (failed_state(s, ConnectionStatus::NeedsAuth, "Sign in with Codex to read your usage."@), false)
        } else {
            (s, true)
        },
        Err(e) => if is_auth_error_spec(e@) {
            (failed_state(s, ConnectionStatus::NeedsAuth, "Your Codex sign-in needs to be renewed."@), false)
        } else {
            (failed_state(s, ConnectionStatus::Reconnecting, public_error_spec(e@)), false)
        },
    }
}

/// Applies the outcome of `account/read`.
pub fn account_read(state: &mut AppStateDto, result: &Result<JsonValue, String>) -> (step: AccountStep)
    ensures
        final(state)@ == account_outcome(old(state)@, *result).0,
        (step is ReadUsage) == account_outcome(old(state)@, *result).1,
{
    match result {
        Ok(r) => {
            let signed_out = match r.get("account") {
                None => true,
                Some(a) => a.is_null(),
            };
            if signed_out {
                needs_auth(state, "Sign in with Codex to read your usage.");
                AccountStep::Done
            } else {
                AccountStep::ReadUsage
            }
        },
        Err(e) => {
            if is_auth_error(e.as_str()) {
                needs_auth(state, "Your Codex sign-in needs to be renewed.");
            } else {
                connection_failure(state, e.as_str());
            }
            AccountStep::Done
        },
    }
}

/// What a failed `account/rateLimits/read` does to the state.
pub open spec fn limits_failure(s: AppStateView, error: Seq<char>) -> AppStateView {
    if is_auth_error_spec(error) {
        failed_state(s, ConnectionStatus::NeedsAuth, "Sign in with Codex to read your usage."@)
    } else {
        failed_state(s, ConnectionStatus::Reconnecting, public_error_spec(error))
    }
}

/// Applies a failed `account/rateLimits/read`.
pub fn limits_read_failed(state: &mut AppStateDto, error: &str)
    ensures
        final(state)@ == limits_failure(old(state)@, error@),
{
    if is_auth_error(error) {
        needs_auth(state, "Sign in with Codex to read your usage.");
    } else {
        connection_failure(state, error);
    }
}

/// The id of the checkpoint notification of a refresh at `updated_at`.
pub open spec fn checkpoint_id(updated_at: i64) -> Seq<char> {
    "checkpoint-"@ + signed_decimal(updated_at as int)
}

/// The state after the limits (and possibly the usage) were read: on a supported response,
/// ready with the new snapshot, a warning when the usage could not be read, and the
/// checkpoint notification when a checkpoint was crossed; otherwise an error with the stale
/// snapshot kept. The second component is the checkpoint message to show, if any.
pub open spec fn refresh_outcome(
    s: AppStateView,
    limits: JsonValue,
    usage: Option<JsonValue>,
    usage_failed: bool,
    today: Seq<char>,
    updated_at: i64,
    checkpoints: Seq<u8>,
) -> (AppStateView, Option<Seq<char>>) {
    match snapshot_spec(limits, usage, today, updated_at) {
        Ok(snap) => {
            let note = checkpoint_message_spec(s.snapshot, snap, checkpoints);
            let state = AppStateView {
                status: ConnectionStatus::Ready,
                snapshot: Some(snap),
                message: if usage_failed {
                    Some("Allowance is current, but token history is temporarily unavailable."@)
                } else {
                    None
                },
                updating: false,
                checkpoint_notification: match note {
                    Some(m) => Some(CheckpointNotificationView { id: checkpoint_id(updated_at), message: m }),
                    None => s.checkpoint_notification,
                },
                ..s
            };
            (state, note)
        },
        Err(e) => (
            failed_state(
                s,
                ConnectionStatus::Error,
                public_error_spec("Codex returned an unsupported usage response: "@ + e),
            ),
            None,
        ),
    }
}

/// The usage result when it arrived.
pub open spec fn usage_value(usage: Result<JsonValue, String>) -> Option<JsonValue> {
    match usage {
        Ok(u) => Some(u),
        Err(_) => None,
    }
}

/// Completes a refresh with the limits and the usage outcome. Returns the checkpoint
/// message to show as a desktop notification, if any.
pub fn complete_refresh(
    state: &mut AppStateDto,
    limits: &JsonValue,
    usage: &Result<JsonValue, String>,
    today: &str,
    updated_at: i64,
    checkpoints: &[u8],
) -> (note: Option<String>)
    ensures
        final(state)@ == refresh_outcome(old(state)@, *limits, usage_value(*usage), usage is Err, today@, updated_at, checkpoints@).0,
        opt_view(note) == refresh_outcome(old(state)@, *limits, usage_value(*usage), usage is Err, today@, updated_at, checkpoints@).1,
{
    let usage_ref: Option<&JsonValue> = match usage {
        Ok(u) => Some(u),
        Err(_) => None,
    };
    let usage_failed = usage.is_err();
    assert(ref_matches(usage_ref, usage_value(*usage)));
    let result = normalize_snapshot(limits, usage_ref, today, updated_at);
    match result {
        Ok(snapshot) => {
            let previous: Option<&crate::model::UsageSnapshot> = match &state.snapshot {
                Some(p) => Some(p),
                None => None,
            };
            let note = checkpoint_message(previous, &snapshot, checkpoints);
            state.status = ConnectionStatus::Ready;
            state.snapshot = Some(snapshot);
            state.message = if usage_failed {
                Some(String::from_str("Allowance is current, but token history is temporarily unavailable."))
            } else {
                None
            };
            state.updating = false;
            match &note {
                Some(m) => {
                    let mut id = String::from_str("checkpoint-");
                    id.append(decimal_i64(updated_at).as_str());
                    state.checkpoint_notification = Some(CheckpointNotification { id: id, message: m.clone() });
                },
                None => {},
            }
            note
        },
        Err(e) => {
            let mut text = String::from_str("Codex returned an unsupported usage response: ");
            text.append(e.as_str());
            set_failed(state, ConnectionStatus::Error, public_error(text.as_str()));
            None
        },
    }
}

/// How long to wait after a rate-limit change notification before refreshing.
pub const RATE_LIMIT_REFRESH_DELAY_MS: u64 = 250;

/// What to do about a notification from the app-server.
#[derive(Debug)]
pub enum NotificationAction {
    /// Rate limits changed: refresh after `RATE_LIMIT_REFRESH_DELAY_MS`.
    RefreshAfterDelay,
    /// The sign-in completed: refresh now.
    Refresh,
    /// The sign-in failed with this public message.
    SignInFailed(String),
    /// Nothing to do.
    Ignore,
}

/// The message shown when a sign-in fails.
pub open spec fn sign_in_failure_message(params: JsonValue) -> Seq<char> {
    match str_of(json_get(params, "error"@)) {
        Some(e) => public_error_spec(e),
        None => "Codex sign-in did not complete."@,
    }
}

/// Decides what a notification leads to.
pub fn notification_action(method: &str, params: &JsonValue) -> (a: NotificationAction)
    ensures
        method@ == "account/rateLimits/updated"@ ==> a is RefreshAfterDelay,
        method@ == "account/login/completed"@ ==> match a {
            NotificationAction::Refresh => bool_of(json_get(*params, "success"@)) == Some(true),
            NotificationAction::SignInFailed(m) => bool_of(json_get(*params, "success"@)) != Some(true)
                && m@ == sign_in_failure_message(*params),
            _ => false,
        },
        method@ != "account/rateLimits/updated"@ && method@ != "account/login/completed"@ ==> a is Ignore,
{
    proof {
        reveal_strlit("account/rateLimits/updated");
        reveal_strlit("account/login/completed");
        assert("account/rateLimits/updated"@[8] != "account/login/completed"@[8]);
    }
    let m = String::from_str(method);
    if m == String::from_str("account/rateLimits/updated") {
        NotificationAction::RefreshAfterDelay
    } else if m == String::from_str("account/login/completed") {
        if bool_of_exec(params.get("success")) == Some(true) {
            NotificationAction::Refresh
        } else {
            let message = match str_of_exec(params.get("error")) {
                Some(e) => public_error(e.as_str()),
                None => String::from_str("Codex sign-in did not complete."),
            };
            NotificationAction::SignInFailed(message)
        }
    } else {
        NotificationAction::Ignore
    }
}

/// The sign-in URL to open in the browser.
#[derive(Debug)]
pub struct LoginStartDto {
    pub auth_url: String,
}

/// The sign-in URL of an `account/login/start` result, when it is an `https://` URL.
pub open spec fn login_url_spec(result: JsonValue) -> Option<Seq<char>> {
    match str_of(json_get(result, "authUrl"@)) {
        Some(u) => if starts_with_seq(u, "https://"@) {
            Some(u)
        } else {
            None
        },
        None => None,
    }
}

/// Reads the sign-in URL of an `account/login/start` result; only `https://` URLs are accepted.
pub fn login_start_url(result: &JsonValue) -> (r: Result<LoginStartDto, String>)
    ensures
        match r {
            Ok(dto) => login_url_spec(*result) == Some(dto.auth_url@),
            Err(e) => login_url_spec(*result) is None && e@ == "Codex did not return a safe sign-in URL"@,
        },
{
    match str_of_exec(result.get("authUrl")) {
        Some(u) => if starts_with_chars(&chars_of(u.as_str()), &chars_of("https://")) {
            Ok(LoginStartDto { auth_url: u.clone() })
        } else {
            Err(String::from_str("Codex did not return a safe sign-in URL"))
        },
        None => Err(String::from_str("Codex did not return a safe sign-in URL")),
    }
}

/// The sign-in started in the browser.
pub fn login_started(state: &mut AppStateDto)
    ensures
        final(state)@ == (AppStateView {
            status: ConnectionStatus::NeedsAuth,
            message: Some("Complete sign-in in your browser."@),
            ..old(state)@
        }),
{
    state.status = ConnectionStatus::NeedsAuth;
    state.message = Some(String::from_str("Complete sign-in in your browser."));
}

/// The Codex executable changed and the connection restarts.
pub fn restart_requested(state: &mut AppStateDto)
    ensures
        final(state)@ == (AppStateView {
            status: ConnectionStatus::Starting,
            message: Some("Restarting the Codex connection…"@),
            ..old(state)@
        }),
{
    state.status = ConnectionStatus::Starting;
    state.message = Some(String::from_str("Restarting the Codex connection…"));
}

/// A failure never hides the usage last read: after every failed step of a refresh, a lost
/// connection, or a missing Codex executable, the last snapshot is still shown, marked stale,
/// and no refresh is in progress.
pub proof fn law_failures_keep_last_snapshot(
    s: AppStateView,
    account: Result<JsonValue, String>,
    limits_error: Seq<char>,
    connection_error: Seq<char>,
    limits: JsonValue,
    usage: Option<JsonValue>,
    usage_failed: bool,
    today: Seq<char>,
    updated_at: i64,
    checkpoints: Seq<u8>,
    missing_message: Seq<char>,
    missing_path: Option<Seq<char>>,
)
    ensures
        !account_outcome(s, account).1 ==> {
            &&& account_outcome(s, account).0.snapshot == stale_snapshot(s.snapshot)
            &&& !account_outcome(s, account).0.updating
        },
        limits_failure(s, limits_error).snapshot == stale_snapshot(s.snapshot),
        !limits_failure(s, limits_error).updating,
        failed_state(s, ConnectionStatus::Reconnecting, public_error_spec(connection_error)).snapshot == stale_snapshot(s.snapshot),
        snapshot_spec(limits, usage, today, updated_at) is Err ==> {
            let after = refresh_outcome(s, limits, usage, usage_failed, today, updated_at, checkpoints).0;
            &&& after.status == ConnectionStatus::Error
            &&& after.snapshot == stale_snapshot(s.snapshot)
            &&& !after.updating
        },
        needs_codex_state(s, missing_message, missing_path).snapshot == stale_snapshot(s.snapshot),
{
}

/// A refresh that reads a supported response shows its snapshot as fresh: the overlay is
/// ready, nothing is being read any more, and the snapshot is not stale.
pub proof fn law_success_shows_fresh_snapshot(
    s: AppStateView,
    limits: JsonValue,
    usage: Option<JsonValue>,
    usage_failed: bool,
    today: Seq<char>,
    updated_at: i64,
    checkpoints: Seq<u8>,
)
    ensures
        snapshot_spec(limits, usage, today, updated_at) matches Ok(snap) ==> {
            let after = refresh_outcome(s, limits, usage, usage_failed, today, updated_at, checkpoints).0;
            &&& after.status == ConnectionStatus::Ready
            &&& after.snapshot == Some(snap)
            &&& !snap.stale
            &&& snap.updated_at == updated_at
            &&& !after.updating
        },
{
}

} // verus!
