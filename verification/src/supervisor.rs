//! The supervisor of the Codex connection, as a state machine: the application reports
//! each outcome (executable found or not, version check, start, initialisation, the end of
//! a session) and the supervisor updates the overlay state and says how long to wait.

use vstd::prelude::*;
use crate::model::{AppStateDto, AppStateView, ConnectionStatus, stale_snapshot, mark_snapshot_stale};
use crate::runtime::{failed_state, connection_failure};
use crate::errors::{public_error, public_error_spec, backoff_for, backoff_spec, unicode_white_space, is_whitespace};
use crate::text::{ascii_lower, contains_seq, chars_of, ascii_lower_chars, contains_chars, string_from_range};

verus! {

/// The reconnect counter of the supervisor.
pub struct Supervisor {
    pub reconnect_attempt: usize,
}

/// How a session with the app-server ended, or why none could start, and what follows.
#[derive(Debug, PartialEq, Eq)]
pub enum SessionEnd {
    /// The runtime is stopping: leave the supervision loop.
    Stop,
    /// A restart was requested: look for the executable again at once.
    Restart,
    /// The app-server went away: wait this many seconds (or for a restart request), then reconnect.
    RetryAfter(u64),
    /// No usable Codex executable: wait for a restart request (the user choosing one), then
    /// look for the executable again.
    WaitForRestart,
}

/// An event while connected.
#[derive(Debug, PartialEq, Eq)]
pub enum SessionEvent {
    Tick,
    IntervalChanged,
    RestartRequested,
    Notification,
    Exited,
}

/// What the connected loop does with an event.
#[derive(Debug, PartialEq, Eq)]
pub enum SessionAction {
    Refresh,
    ResetInterval,
    HandleNotification,
    /// Leave the session; `reconnect` says whether the disconnect counts as a failure.
    End { reconnect: bool },
}

/// What the connected loop does with an event.
pub fn session_action(event: SessionEvent) -> (a: SessionAction)
    ensures
        a == (match event {
            SessionEvent::Tick => SessionAction::Refresh,
            SessionEvent::IntervalChanged => SessionAction::ResetInterval,
            SessionEvent::Notification => SessionAction::HandleNotification,
            SessionEvent::RestartRequested => SessionAction::End { reconnect: false },
            SessionEvent::Exited => SessionAction::End { reconnect: true },
        }),
{
    match event {
        SessionEvent::Tick => SessionAction::Refresh,
        SessionEvent::IntervalChanged => SessionAction::ResetInterval,
        SessionEvent::Notification => SessionAction::HandleNotification,
        SessionEvent::RestartRequested => SessionAction::End { reconnect: false },
        SessionEvent::Exited => SessionAction::End { reconnect: true },
    }
}

/// Whether the connected loop ends, without reconnecting, after performing an action that
/// did not itself end the session: it does when the runtime is stopping.
pub fn stops_after(action: &SessionAction, stopping: bool) -> (r: bool)
    ensures
        r == (stopping && !(*action is End)),
{
    match action {
        SessionAction::End { .. } => false,
        _ => stopping,
    }
}

/// The counter after one more failed attempt (saturating).
pub open spec fn next_attempt(a: usize) -> usize {
    if a == usize::MAX {
        a
    } else {
        (a + 1) as usize
    }
}

/// One step of the reconnect counter: a failed connection attempt after which the supervisor
/// waits `Some(w)` seconds, or a successful connection (`None`). `spawn_failed`,
/// `initialize_failed` and a `session_ended` that retries make the first kind, `connected`
/// the second.
pub open spec fn attempt_step(before: usize, after: usize, wait: Option<u64>) -> bool {
    match wait {
        Some(w) => w == backoff_spec(before as nat) && after == next_attempt(before),
        None => after == 0,
    }
}

/// The state when no usable Codex executable is known.
pub open spec fn needs_codex_state(s: AppStateView, message: Seq<char>, path: Option<Seq<char>>) -> AppStateView {
    AppStateView {
        status: ConnectionStatus::NeedsCodex,
        message: Some(message),
        codex_path: path,
        codex_version: None,
        updating: false,
        snapshot: stale_snapshot(s.snapshot),
        ..s
    }
}

/// The text after `prefix` joined with an error.
pub open spec fn prefixed(prefix: Seq<char>, error: Seq<char>) -> Seq<char> {
    prefix + error
}

impl Supervisor {
    pub fn new() -> (s: Supervisor)
        ensures
            s.reconnect_attempt == 0,
    {
        Supervisor { reconnect_attempt: 0 }
    }

    /// No Codex executable was found; wait for the user to choose one.
    pub fn executable_missing(&self, state: &mut AppStateDto) -> (next: SessionEnd)
        ensures
            next == SessionEnd::WaitForRestart,
            final(state)@ == needs_codex_state(
                old(state)@,
                "Codex CLI not found. Checked PATH and common install locations; choose the Codex executable to continue."@,
                None,
            ),
    {
        state.status = ConnectionStatus::NeedsCodex;
        state.message = Some(String::from_str("Codex CLI not found. Checked PATH and common install locations; choose the Codex executable to continue."));
        state.codex_path = None;
        state.codex_version = None;
        state.updating = false;
        mark_snapshot_stale(state);
        SessionEnd::WaitForRestart
    }

    /// The executable at `path` failed the version check; wait for the user to choose another.
    pub fn version_failed(&self, state: &mut AppStateDto, path: &str, error: &str) -> (next: SessionEnd)
        ensures
            next == SessionEnd::WaitForRestart,
            final(state)@ == needs_codex_state(old(state)@, public_error_spec(error@), Some(path@)),
    {
        state.status = ConnectionStatus::NeedsCodex;
        state.message = Some(public_error(error));
        state.codex_path = Some(String::from_str(path));
        state.codex_version = None;
        state.updating = false;
        mark_snapshot_stale(state);
        SessionEnd::WaitForRestart
    }

    /// The executable at `path` reported `version`; connecting to it.
    pub fn connecting(&self, state: &mut AppStateDto, path: &str, version: &str)
        ensures
            final(state)@ == (AppStateView {
                status: if old(state)@.snapshot is Some {
                    ConnectionStatus::Reconnecting
                } else {
                    ConnectionStatus::Starting
                },
                message: Some("Connecting to Codex…"@),
                codex_path: Some(path@),
                codex_version: Some(version@),
                ..old(state)@
            }),
    {
        state.status = if state.snapshot.is_some() {
            ConnectionStatus::Reconnecting
        } else {
            ConnectionStatus::Starting
        };
        state.message = Some(String::from_str("Connecting to Codex…"));
        state.codex_path = Some(String::from_str(path));
        state.codex_version = Some(String::from_str(version));
    }

    /// A failed connection attempt: returns the seconds to wait before the next attempt.
    fn retry(&mut self, state: &mut AppStateDto, error: &str) -> (secs: u64)
        ensures
            final(state)@ == failed_state(old(state)@, ConnectionStatus::Reconnecting, public_error_spec(error@)),
            secs == backoff_spec(old(self).reconnect_attempt as nat),
            final(self).reconnect_attempt == next_attempt(old(self).reconnect_attempt),
    {
        connection_failure(state, error);
        let secs = backoff_for(self.reconnect_attempt);
        self.reconnect_attempt = self.reconnect_attempt.saturating_add(1);
        secs
    }

    /// The app-server could not be started.
    pub fn spawn_failed(&mut self, state: &mut AppStateDto, error: &str) -> (secs: u64)
        ensures
            attempt_step(old(self).reconnect_attempt, final(self).reconnect_attempt, Some(secs)),
            final(state)@ == failed_state(old(state)@, ConnectionStatus::Reconnecting, public_error_spec(error@)),
            secs == backoff_spec(old(self).reconnect_attempt as nat),
            final(self).reconnect_attempt == next_attempt(old(self).reconnect_attempt),
    {
        self.retry(state, error)
    }

    /// The app-server started but did not complete `initialize`.
    pub fn initialize_failed(&mut self, state: &mut AppStateDto, error: &str) -> (secs: u64)
        ensures
            attempt_step(old(self).reconnect_attempt, final(self).reconnect_attempt, Some(secs)),
            final(state)@ == failed_state(
                old(state)@,
                ConnectionStatus::Reconnecting,
                public_error_spec(prefixed("This Codex app-server could not initialize: "@, error@)),
            ),
            secs == backoff_spec(old(self).reconnect_attempt as nat),
            final(self).reconnect_attempt == next_attempt(old(self).reconnect_attempt),
    {
        let mut text = String::from_str("This Codex app-server could not initialize: ");
        text.append(error);
        self.retry(state, text.as_str())
    }

    /// The app-server is connected and initialised: the failure count starts over.
    pub fn connected(&mut self)
        ensures
            attempt_step(old(self).reconnect_attempt, final(self).reconnect_attempt, None),
            final(self).reconnect_attempt == 0,
    {
        self.reconnect_attempt = 0;
    }

    /// A session ended. `reconnect` is false when a restart was requested.
    pub fn session_ended(&mut self, state: &mut AppStateDto, reconnect: bool, stopping: bool) -> (end: SessionEnd)
        ensures
            end matches SessionEnd::RetryAfter(secs) ==> attempt_step(old(self).reconnect_attempt, final(self).reconnect_attempt, Some(secs)),
            stopping ==> end == SessionEnd::Stop && final(state)@ == old(state)@
                && final(self).reconnect_attempt == old(self).reconnect_attempt,
            !stopping && !reconnect ==> end == SessionEnd::Restart && final(state)@ == old(state)@
                && final(self).reconnect_attempt == old(self).reconnect_attempt,
            !stopping && reconnect ==> end == SessionEnd::RetryAfter(backoff_spec(old(self).reconnect_attempt as nat))
                && final(state)@ == failed_state(
                    old(state)@,
                    ConnectionStatus::Reconnecting,
                    public_error_spec("Codex app-server disconnected; reconnecting."@),
                ) && final(self).reconnect_attempt == next_attempt(old(self).reconnect_attempt),
    {
        if stopping {
            SessionEnd::Stop
        } else if !reconnect {
            SessionEnd::Restart
        } else {
            SessionEnd::RetryAfter(self.retry(state, "Codex app-server disconnected; reconnecting."))
        }
    }
}

/// A failed attempt waits for the back-off of the current count and counts one more failure;
/// a successful connection resets the count. So the waits between consecutive failures never
/// shrink and never exceed one minute, and after a connection the first wait is one second.
pub proof fn law_retry_waits_grow_to_a_minute(before: usize)
    ensures
        backoff_spec(0) == 1,
        backoff_spec(before as nat) <= backoff_spec(next_attempt(before) as nat),
        1 <= backoff_spec(before as nat) <= 60,
{
}

proof fn lemma_attempt_run(attempts: Seq<usize>, waits: Seq<Option<u64>>, start: int, m: int)
    requires
        attempts.len() == waits.len() + 1,
        attempts[0] == 0,
        forall|i: int| 0 <= i < waits.len() ==> attempt_step(#[trigger] attempts[i], attempts[i + 1], waits[i]),
        0 <= start,
        0 <= m,
        start + m < attempts.len(),
        start == 0 || waits[start - 1] is None,
        forall|i: int| start <= i < start + m ==> #[trigger] waits[i] is Some,
        waits.len() < usize::MAX,
    ensures
        attempts[start + m] == m,
    decreases m,
{
    if m == 0 {
        if start > 0 {
            assert(attempt_step(attempts[start - 1], attempts[start], waits[start - 1]));
        }
    } else {
        lemma_attempt_run(attempts, waits, start, m - 1);
        assert(waits[start + m - 1] is Some);
        assert(attempt_step(attempts[start + m - 1], attempts[start + m], waits[start + m - 1]));
    }
}

/// The waits between reconnect attempts: after the (k + 1)-th failure in a row since the start
/// or since the last successful connection, the supervisor waits `backoff_spec(k)` seconds
/// (1, 2, 5, 15, 30, then 60), and a successful connection starts the count again.
pub proof fn law_reconnect_waits(attempts: Seq<usize>, waits: Seq<Option<u64>>, start: int, k: int)
    requires
        attempts.len() == waits.len() + 1,
        attempts[0] == 0,
        forall|i: int| 0 <= i < waits.len() ==> attempt_step(#[trigger] attempts[i], attempts[i + 1], waits[i]),
        0 <= start,
        0 <= k,
        start + k < waits.len(),
        start == 0 || waits[start - 1] is None,
        forall|i: int| start <= i <= start + k ==> #[trigger] waits[i] is Some,
        waits.len() < usize::MAX,
    ensures
        waits[start + k] == Some(backoff_spec(k as nat)),
{
    lemma_attempt_run(attempts, waits, start, k);
    assert(waits[start + k] is Some);
    assert(attempt_step(attempts[start + k], attempts[start + k + 1], waits[start + k]));
}

/// The number of leading whitespace characters.
pub open spec fn leading_ws(s: Seq<char>) -> nat
    decreases s.len(),
{
    if s.len() > 0 && unicode_white_space(s[0]) {
        1 + leading_ws(s.drop_first())
    } else {
        0
    }
}

/// The number of trailing whitespace characters.
pub open spec fn trailing_ws(s: Seq<char>) -> nat
    decreases s.len(),
{
    if s.len() > 0 && unicode_white_space(s.last()) {
        1 + trailing_ws(s.drop_last())
    } else {
        0
    }
}

/// `str::trim`: leading and trailing whitespace removed.
pub open spec fn trim_spec(s: Seq<char>) -> Seq<char> {
    let a = s.skip(leading_ws(s) as int);
    a.take(a.len() - trailing_ws(a))
}

proof fn lemma_leading_ws_bound(s: Seq<char>)
    ensures
        leading_ws(s) <= s.len(),
    decreases s.len(),
{
    if s.len() > 0 && unicode_white_space(s[0]) {
        lemma_leading_ws_bound(s.drop_first());
    }
}

proof fn lemma_trailing_ws_bound(s: Seq<char>)
    ensures
        trailing_ws(s) <= s.len(),
    decreases s.len(),
{
    if s.len() > 0 && unicode_white_space(s.last()) {
        lemma_trailing_ws_bound(s.drop_last());
    }
}

/// Removes leading and trailing whitespace.
pub fn trim(s: &str) -> (r: String)
    ensures
        r@ == trim_spec(s@),
{
    let v = chars_of(s);
    assert(s@.skip(0) =~= s@);
    let mut start: usize = 0;
    while start < v.len() && is_whitespace(v[start])
        invariant
            start <= v.len(),
            v@ == s@,
            leading_ws(s@) == start + leading_ws(s@.skip(start as int)),
        decreases v.len() - start,
    {
        assert(s@.skip(start as int).drop_first() =~= s@.skip(start + 1));
        assert(s@.skip(start as int)[0] == v@[start as int]);
        start = start + 1;
    }
    let ghost a = s@.skip(start as int);
    let mut end: usize = v.len();
    assert(a.take(end - start) =~= a);
    while end > start && is_whitespace(v[end - 1])
        invariant
            start <= end <= v.len(),
            v@ == s@,
            a == s@.skip(start as int),
            trailing_ws(a) == (v.len() - end) + trailing_ws(a.take(end - start)),
        decreases end,
    {
        assert(a.take(end - start).drop_last() =~= a.take(end - start - 1));
        assert(a.take(end - start).last() == v@[end - 1]);
        end = end - 1;
    }
    proof {
        lemma_leading_ws_bound(s@);
        assert(a.take(end - start) =~= a.take(a.len() - trailing_ws(a)));
    }
    let r = string_from_range(&v, start, end);
    assert(r@ =~= trim_spec(s@));
    r
}

/// The outcome of running `codex --version`: the trimmed version line when the process
/// succeeded and its output names Codex.
pub open spec fn version_outcome(success: bool, stdout: Seq<char>) -> Result<Seq<char>, Seq<char>> {
    if !success {
        Err("The selected file is not a working Codex CLI executable."@)
    } else if !contains_seq(ascii_lower(trim_spec(stdout)), "codex"@) {
        Err("The selected executable did not identify itself as Codex."@)
    } else {
        Ok(trim_spec(stdout))
    }
}

/// Checks the output of `codex --version`.
pub fn check_version_output(success: bool, stdout: &str) -> (r: Result<String, String>)
    ensures
        match r {
            Ok(v) => version_outcome(success, stdout@) == Ok::<Seq<char>, Seq<char>>(v@),
            Err(e) => version_outcome(success, stdout@) == Err::<Seq<char>, Seq<char>>(e@),
        },
{
    if !success {
        return Err(String::from_str("The selected file is not a working Codex CLI executable."));
    }
    let version = trim(stdout);
    let lowered = ascii_lower_chars(&chars_of(version.as_str()));
    if !contains_chars(&lowered, &chars_of("codex")) {
        return Err(String::from_str("The selected executable did not identify itself as Codex."));
    }
    Ok(version)
}

} // verus!
