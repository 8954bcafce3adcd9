//! The usage snapshot shown by the overlay and its construction from the app-server's
//! `account/rateLimits/read` and `account/usage/read` results.

use vstd::prelude::*;
use crate::json::{
    entries_get,
    JsonValue, JsonNumber, json_get, is_object, opt_get, only_object, str_of, bool_of, i64_of, number_text,
    ref_matches, opt_get_exec, only_object_exec, str_of_exec, bool_of_exec, i64_of_exec,
};
use crate::percent::{Percent, percent_of, percent_of_exec};
use crate::text::{
    signed_decimal, decimal_i64, ascii_lower, chars_of, ascii_lower_chars, string_from_chars,
};

verus! {

/// The connection state reported to the overlay.
#[derive(Clone, Copy, Debug, PartialEq, Eq, Structural)]
pub enum ConnectionStatus {
    Starting,
    NeedsCodex,
    NeedsAuth,
    Ready,
    Reconnecting,
    Error,
}

/// One allowance window of a quota group.
#[derive(Debug)]
pub struct QuotaWindow {
    pub key: String,
    pub label: String,
    /// The used share, clamped to `0..=100`; the remaining share is `100 - used_percent`.
    pub used_percent: Percent,
    pub window_duration_mins: Option<i64>,
    pub resets_at: Option<i64>,
}

/// A rate-limit bucket with its allowance windows.
#[derive(Debug)]
pub struct QuotaGroup {
    pub id: String,
    pub name: String,
    pub primary: bool,
    pub plan_type: Option<String>,
    pub windows: Vec<QuotaWindow>,
}

/// Token counts, as decimal strings so that values beyond 2^53 survive unchanged.
#[derive(Debug)]
pub struct TokenActivity {
    pub today_tokens: Option<String>,
    pub lifetime_tokens: Option<String>,
    pub peak_daily_tokens: Option<String>,
}

/// A workspace spending limit.
#[derive(Debug)]
pub struct SpendControl {
    pub limit: String,
    pub used: String,
    pub remaining_percent: Percent,
    pub resets_at: i64,
}

/// Additional credits and spend controls of the account.
#[derive(Debug)]
pub struct CreditState {
    pub has_credits: bool,
    pub unlimited: bool,
    pub balance: Option<String>,
    pub spend_control_reached: bool,
    pub individual_limit: Option<SpendControl>,
}

/// Everything the overlay shows about usage at one moment.
#[derive(Debug)]
pub struct UsageSnapshot {
    pub quota_groups: Vec<QuotaGroup>,
    pub token_activity: TokenActivity,
    pub credits: Option<CreditState>,
    pub updated_at: i64,
    pub stale: bool,
}

pub struct QuotaWindowView {
    pub key: Seq<char>,
    pub label: Seq<char>,
    pub used_percent: Percent,
    pub window_duration_mins: Option<i64>,
    pub resets_at: Option<i64>,
}

pub struct QuotaGroupView {
    pub id: Seq<char>,
    pub name: Seq<char>,
    pub primary: bool,
    pub plan_type: Option<Seq<char>>,
    pub windows: Seq<QuotaWindowView>,
}

pub struct TokenActivityView {
    pub today_tokens: Option<Seq<char>>,
    pub lifetime_tokens: Option<Seq<char>>,
    pub peak_daily_tokens: Option<Seq<char>>,
}

pub struct SpendControlView {
    pub limit: Seq<char>,
    pub used: Seq<char>,
    pub remaining_percent: Percent,
    pub resets_at: i64,
}

pub struct CreditStateView {
    pub has_credits: bool,
    pub unlimited: bool,
    pub balance: Option<Seq<char>>,
    pub spend_control_reached: bool,
    pub individual_limit: Option<SpendControlView>,
}

pub struct UsageSnapshotView {
    pub quota_groups: Seq<QuotaGroupView>,
    pub token_activity: TokenActivityView,
    pub credits: Option<CreditStateView>,
    pub updated_at: i64,
    pub stale: bool,
}

/// The characters of an optional string.
pub open spec fn opt_view(o: Option<String>) -> Option<Seq<char>> {
    match o {
        Some(s) => Some(s@),
        None => None,
    }
}

impl View for QuotaWindow {
    type V = QuotaWindowView;

    open spec fn view(&self) -> QuotaWindowView {
        QuotaWindowView {
            key: self.key@,
            label: self.label@,
            used_percent: self.used_percent,
            window_duration_mins: self.window_duration_mins,
            resets_at: self.resets_at,
        }
    }
}

impl View for QuotaGroup {
    type V = QuotaGroupView;

    open spec fn view(&self) -> QuotaGroupView {
        QuotaGroupView {
            id: self.id@,
            name: self.name@,
            primary: self.primary,
            plan_type: opt_view(self.plan_type),
            windows: self.windows@.map_values(|w: QuotaWindow| w@),
        }
    }
}

impl View for TokenActivity {
    type V = TokenActivityView;

    open spec fn view(&self) -> TokenActivityView {
        TokenActivityView {
            today_tokens: opt_view(self.today_tokens),
            lifetime_tokens: opt_view(self.lifetime_tokens),
            peak_daily_tokens: opt_view(self.peak_daily_tokens),
        }
    }
}

impl View for SpendControl {
    type V = SpendControlView;

    open spec fn view(&self) -> SpendControlView {
        SpendControlView {
            limit: self.limit@,
            used: self.used@,
            remaining_percent: self.remaining_percent,
            resets_at: self.resets_at,
        }
    }
}

impl View for CreditState {
    type V = CreditStateView;

    open spec fn view(&self) -> CreditStateView {
        CreditStateView {
            has_credits: self.has_credits,
            unlimited: self.unlimited,
            balance: opt_view(self.balance),
            spend_control_reached: self.spend_control_reached,
            individual_limit: match self.individual_limit {
                Some(l) => Some(l@),
                None => None,
            },
        }
    }
}

impl View for UsageSnapshot {
    type V = UsageSnapshotView;

    open spec fn view(&self) -> UsageSnapshotView {
        UsageSnapshotView {
            quota_groups: self.quota_groups@.map_values(|g: QuotaGroup| g@),
            token_activity: self.token_activity@,
            credits: match self.credits {
                Some(c) => Some(c@),
                None => None,
            },
            updated_at: self.updated_at,
            stale: self.stale,
        }
    }
}

/// A checkpoint notification waiting to be shown or dismissed.
#[derive(Debug)]
pub struct CheckpointNotification {
    pub id: String,
    pub message: String,
}

/// The state shown by the overlay.
#[derive(Debug)]
pub struct AppStateDto {
    pub status: ConnectionStatus,
    pub snapshot: Option<UsageSnapshot>,
    pub message: Option<String>,
    pub codex_version: Option<String>,
    pub codex_path: Option<String>,
    pub autostart_enabled: bool,
    pub expanded: bool,
    pub updating: bool,
    pub refresh_interval_secs: u64,
    pub checkpoint_percentages: Vec<u8>,
    pub checkpoint_notification: Option<CheckpointNotification>,
}

pub struct CheckpointNotificationView {
    pub id: Seq<char>,
    pub message: Seq<char>,
}

pub struct AppStateView {
    pub status: ConnectionStatus,
    pub snapshot: Option<UsageSnapshotView>,
    pub message: Option<Seq<char>>,
    pub codex_version: Option<Seq<char>>,
    pub codex_path: Option<Seq<char>>,
    pub autostart_enabled: bool,
    pub expanded: bool,
    pub updating: bool,
    pub refresh_interval_secs: u64,
    pub checkpoint_percentages: Seq<u8>,
    pub checkpoint_notification: Option<CheckpointNotificationView>,
}

impl View for CheckpointNotification {
    type V = CheckpointNotificationView;

    open spec fn view(&self) -> CheckpointNotificationView {
        CheckpointNotificationView { id: self.id@, message: self.message@ }
    }
}

impl View for AppStateDto {
    type V = AppStateView;

    open spec fn view(&self) -> AppStateView {
        AppStateView {
            status: self.status,
            snapshot: match self.snapshot {
                Some(s) => Some(s@),
                None => None,
            },
            message: opt_view(self.message),
            codex_version: opt_view(self.codex_version),
            codex_path: opt_view(self.codex_path),
            autostart_enabled: self.autostart_enabled,
            expanded: self.expanded,
            updating: self.updating,
            refresh_interval_secs: self.refresh_interval_secs,
            checkpoint_percentages: self.checkpoint_percentages@,
            checkpoint_notification: match self.checkpoint_notification {
                Some(n) => Some(n@),
                None => None,
            },
        }
    }
}

impl Default for AppStateDto {
    fn default() -> (s: AppStateDto)
        ensures
            s@.status == ConnectionStatus::Starting,
            s@.snapshot is None,
            s@.message is None,
            s@.codex_version is None,
            s@.codex_path is None,
            s@.autostart_enabled,
            !s@.expanded,
            !s@.updating,
            s@.refresh_interval_secs == crate::settings::DEFAULT_REFRESH_INTERVAL_SECS,
            s@.checkpoint_percentages == seq![50u8, 20u8, 10u8],
            s@.checkpoint_notification is None,
    {
        AppStateDto {
            status: ConnectionStatus::Starting,
            snapshot: None,
            message: None,
            codex_version: None,
            codex_path: None,
            autostart_enabled: true,
            expanded: false,
            updating: false,
            refresh_interval_secs: crate::settings::DEFAULT_REFRESH_INTERVAL_SECS,
            checkpoint_percentages: crate::settings::default_checkpoint_percentages(),
            checkpoint_notification: None,
        }
    }
}

/// The snapshot, if any, marked stale.
pub open spec fn stale_snapshot(s: Option<UsageSnapshotView>) -> Option<UsageSnapshotView> {
    match s {
        Some(v) => Some(UsageSnapshotView { stale: true, ..v }),
        None => None,
    }
}

/// Marks the shown snapshot, if any, as stale; nothing else changes.
pub fn mark_snapshot_stale(state: &mut AppStateDto)
    ensures
        final(state)@ == (AppStateView { snapshot: stale_snapshot(old(state)@.snapshot), ..old(state)@ }),
{
    match &mut state.snapshot {
        Some(snapshot) => {
            snapshot.stale = true;
        },
        None => {},
    }
}

impl TokenActivity {
    /// No token activity known.
    pub fn empty() -> (t: TokenActivity)
        ensures
            t@.today_tokens is None,
            t@.lifetime_tokens is None,
            t@.peak_daily_tokens is None,
    {
        TokenActivity { today_tokens: None, lifetime_tokens: None, peak_daily_tokens: None }
    }
}

impl Default for TokenActivity {
    fn default() -> (t: TokenActivity)
        ensures
            t@.today_tokens is None,
            t@.lifetime_tokens is None,
            t@.peak_daily_tokens is None,
    {
        TokenActivity::empty()
    }
}

/// The label of a window of `v` units: `"<v>-<unit> allowance"`.
pub open spec fn unit_label_spec(v: int, unit: Seq<char>) -> Seq<char> {
    signed_decimal(v) + seq!['-'] + unit + " allowance"@
}

/// The label shown for a window of the given duration in minutes.
pub open spec fn duration_label_spec(duration: Option<i64>) -> Seq<char> {
    match duration {
        Some(m) => if m == 300 {
            "5-hour allowance"@
        } else if m == 10_080 {
            "Weekly allowance"@
        } else if m > 0 && m % 1_440 == 0 {
            unit_label_spec(m / 1_440, "day"@)
        } else if m > 0 && m % 60 == 0 {
            unit_label_spec(m / 60, "hour"@)
        } else if m > 0 {
            unit_label_spec(m as int, "minute"@)
        } else {
            "Allowance"@
        },
        None => "Allowance"@,
    }
}

/// One window of a bucket, read from its JSON object.
pub open spec fn window_spec(key: Seq<char>, w: JsonValue) -> QuotaWindowView {
    QuotaWindowView {
        key: key,
        label: duration_label_spec(i64_of(json_get(w, "windowDurationMins"@))),
        used_percent: percent_of(json_get(w, "usedPercent"@)),
        window_duration_mins: i64_of(json_get(w, "windowDurationMins"@)),
        resets_at: i64_of(json_get(w, "resetsAt"@)),
    }
}

/// The windows of a bucket: its `primary` and then its `secondary` object, when present.
pub open spec fn group_windows_spec(v: JsonValue) -> Seq<QuotaWindowView> {
    let p = only_object(json_get(v, "primary"@));
    let s = only_object(json_get(v, "secondary"@));
    let first: Seq<QuotaWindowView> = match p {
        Some(w) => seq![window_spec("primary"@, w)],
        None => seq![],
    };
    let second: Seq<QuotaWindowView> = match s {
        Some(w) => seq![window_spec("secondary"@, w)],
        None => seq![],
    };
    first + second
}

/// The display name of a bucket: its `limitName`, else "Codex" for the codex bucket, else its id.
pub open spec fn group_name_spec(id: Seq<char>, v: JsonValue) -> Seq<char> {
    match str_of(json_get(v, "limitName"@)) {
        Some(n) => n,
        None => if ascii_lower(id) == "codex"@ {
            "Codex"@
        } else {
            id
        },
    }
}

pub open spec fn group_spec(id: Seq<char>, v: JsonValue, primary: bool) -> QuotaGroupView {
    QuotaGroupView {
        id: id,
        name: group_name_spec(id, v),
        primary: primary,
        plan_type: str_of(json_get(v, "planType"@)),
        windows: group_windows_spec(v),
    }
}

/// Every character is an ASCII digit.
pub open spec fn all_ascii_digits(s: Seq<char>) -> bool {
    forall|i: int| 0 <= i < s.len() ==> '0' <= #[trigger] s[i] && s[i] <= '9'
}

/// A token count as text: a JSON number's text, or a string of ASCII digits.
pub open spec fn decimal_string_spec(v: Option<JsonValue>) -> Option<Seq<char>> {
    match v {
        Some(JsonValue::Number(n)) => Some(number_text(n)),
        Some(JsonValue::String(s)) => if all_ascii_digits(s@) {
            Some(s@)
        } else {
            None
        },
        _ => None,
    }
}

/// A string, or a number's text.
pub open spec fn string_value_spec(v: Option<JsonValue>) -> Option<Seq<char>> {
    match v {
        Some(JsonValue::String(s)) => Some(s@),
        Some(JsonValue::Number(n)) => Some(number_text(n)),
        _ => None,
    }
}

/// The first of `items[from..]` whose `startDate` is `today`.
pub open spec fn find_day_from(items: Seq<JsonValue>, today: Seq<char>, from: int) -> Option<JsonValue>
    decreases items.len() - from,
{
    if from < 0 || from >= items.len() {
        None
    } else if str_of(json_get(items[from], "startDate"@)) == Some(today) {
        Some(items[from])
    } else {
        find_day_from(items, today, from + 1)
    }
}

/// `and_then(Value::as_array)`.
pub open spec fn array_of(v: Option<JsonValue>) -> Option<Seq<JsonValue>> {
    match v {
        Some(JsonValue::Array(items)) => Some(items@),
        _ => None,
    }
}

/// Token activity read from an `account/usage/read` result.
pub open spec fn token_activity_spec(v: JsonValue, today: Seq<char>) -> TokenActivityView {
    let summary = match json_get(v, "summary"@) {
        Some(s) => s,
        None => JsonValue::Null,
    };
    let found = match array_of(json_get(v, "dailyUsageBuckets"@)) {
        Some(items) => find_day_from(items, today, 0),
        None => None,
    };
    let today_tokens = match found {
        Some(bucket) => match decimal_string_spec(json_get(bucket, "tokens"@)) {
            Some(t) => t,
            None => "0"@,
        },
        None => "0"@,
    };
    TokenActivityView {
        today_tokens: Some(today_tokens),
        lifetime_tokens: decimal_string_spec(json_get(summary, "lifetimeTokens"@)),
        peak_daily_tokens: decimal_string_spec(json_get(summary, "peakDailyTokens"@)),
    }
}

/// A spending limit read from its JSON object.
pub open spec fn spend_control_spec(l: JsonValue) -> SpendControlView {
    SpendControlView {
        limit: match string_value_spec(json_get(l, "limit"@)) {
            Some(s) => s,
            None => Seq::empty(),
        },
        used: match string_value_spec(json_get(l, "used"@)) {
            Some(s) => s,
            None => Seq::empty(),
        },
        remaining_percent: percent_of(json_get(l, "remainingPercent"@)),
        resets_at: match i64_of(json_get(l, "resetsAt"@)) {
            Some(t) => t,
            None => 0,
        },
    }
}

/// Credits of a bucket; absent when the bucket reports no credits, no unlimited use,
/// no spending limit and no reached spend control.
pub open spec fn credits_spec(v: JsonValue) -> Option<CreditStateView> {
    let credits = only_object(json_get(v, "credits"@));
    let individual = match only_object(json_get(v, "individualLimit"@)) {
        Some(l) => Some(spend_control_spec(l)),
        None => None,
    };
    let reached = bool_of(json_get(v, "spendControlReached"@)) == Some(true);
    let has_credits = bool_of(opt_get(credits, "hasCredits"@)) == Some(true);
    let unlimited = bool_of(opt_get(credits, "unlimited"@)) == Some(true);
    if !has_credits && !unlimited && individual is None && !reached {
        None
    } else {
        Some(
            CreditStateView {
                has_credits: has_credits,
                unlimited: unlimited,
                balance: string_value_spec(opt_get(credits, "balance"@)),
                spend_control_reached: reached,
                individual_limit: individual,
            },
        )
    }
}

/// The groups and seen ids after reading the first `n` entries of `rateLimitsByLimitId`:
/// an entry is skipped when its key was seen or it is not an object; otherwise its id is its
/// `limitId` (or its key), and a bucket with a new id is read and kept when it has a window.
pub open spec fn scan_buckets(entries: Seq<(String, JsonValue)>, n: nat, seen0: Seq<Seq<char>>) -> (Seq<Seq<char>>, Seq<QuotaGroupView>)
    decreases n,
{
    if n == 0 {
        (seen0, seq![])
    } else {
        let prev = scan_buckets(entries, (n - 1) as nat, seen0);
        let key = entries[n - 1].0@;
        let bucket = entries[n - 1].1;
        if prev.0.contains(key) || !is_object(bucket) {
            prev
        } else {
            let id = match str_of(json_get(bucket, "limitId"@)) {
                Some(x) => x,
                None => key,
            };
            if prev.0.contains(id) {
                prev
            } else {
                let g = group_spec(id, bucket, false);
                (prev.0.push(id), if g.windows.len() > 0 { prev.1.push(g) } else { prev.1 })
            }
        }
    }
}

/// The main bucket: `rateLimitsByLimitId.codex` when it is an object, else `rateLimits`.
pub open spec fn main_bucket(r: JsonValue) -> Option<JsonValue> {
    match only_object(opt_get(json_get(r, "rateLimitsByLimitId"@), "codex"@)) {
        Some(m) => Some(m),
        None => only_object(json_get(r, "rateLimits"@)),
    }
}

/// The entries of `rateLimitsByLimitId`, in order; none when it is not an object.
pub open spec fn bucket_entries(r: JsonValue) -> Seq<(String, JsonValue)> {
    match json_get(r, "rateLimitsByLimitId"@) {
        Some(JsonValue::Object(entries)) => entries@,
        _ => seq![],
    }
}

pub open spec fn empty_activity() -> TokenActivityView {
    TokenActivityView { today_tokens: None, lifetime_tokens: None, peak_daily_tokens: None }
}

/// The id of the main bucket: its `limitId`, else `codex`.
pub open spec fn main_id_spec(main: JsonValue) -> Seq<char> {
    match str_of(json_get(main, "limitId"@)) {
        Some(x) => x,
        None => "codex"@,
    }
}

/// The usage snapshot built from a rate-limit result and an optional usage result: the main
/// bucket first (marked primary), then the other buckets in order, each id at most once and
/// only buckets with at least one window; the credits of the main bucket; not stale.
pub open spec fn snapshot_spec(r: JsonValue, usage: Option<JsonValue>, today: Seq<char>, updated_at: i64) -> Result<UsageSnapshotView, Seq<char>> {
    match main_bucket(r) {
        None => Err("Codex returned no rate-limit snapshot"@),
        Some(main) => {
            let main_id = main_id_spec(main);
            let main_group = group_spec(main_id, main, true);
            let entries = bucket_entries(r);
            let scanned = scan_buckets(entries, entries.len(), seq![main_id, "codex"@]);
            let first: Seq<QuotaGroupView> = if main_group.windows.len() > 0 {
                seq![main_group]
            } else {
                seq![]
            };
            Ok(
                UsageSnapshotView {
                    quota_groups: first + scanned.1,
                    token_activity: match only_object(usage) {
                        Some(u) => token_activity_spec(u, today),
                        None => empty_activity(),
                    },
                    credits: credits_spec(main),
                    updated_at: updated_at,
                    stale: false,
                },
            )
        },
    }
}

/// `Option<String>` from an optional borrowed string.
fn clone_opt(s: Option<&String>) -> (r: Option<String>)
    ensures
        match s {
            Some(x) => r == Some(*x),
            None => r is None,
        },
{
    match s {
        Some(x) => Some(x.clone()),
        None => None,
    }
}

/// The label of a window of `value` units.
pub fn unit_label(value: i64, unit: &str) -> (s: String)
    ensures
        s@ == unit_label_spec(value as int, unit@),
{
    let mut s = decimal_i64(value);
    s.append("-");
    s.append(unit);
    s.append(" allowance");
    proof {
        reveal_strlit("-");
    }
    assert(s@ =~= unit_label_spec(value as int, unit@));
    s
}

/// The label shown for a window of the given duration in minutes.
pub fn duration_label(duration: Option<i64>) -> (s: String)
    ensures
        s@ == duration_label_spec(duration),
{
    match duration {
        Some(m) => if m == 300 {
            String::from_str("5-hour allowance")
        } else if m == 10_080 {
            String::from_str("Weekly allowance")
        } else if m > 0 && m % 1_440 == 0 {
            unit_label(m / 1_440, "day")
        } else if m > 0 && m % 60 == 0 {
            unit_label(m / 60, "hour")
        } else if m > 0 {
            unit_label(m, "minute")
        } else {
            String::from_str("Allowance")
        },
        None => String::from_str("Allowance"),
    }
}

/// Reads one allowance window.
pub fn normalize_window(key: &str, value: &JsonValue) -> (w: QuotaWindow)
    ensures
        w@ == window_spec(key@, *value),
{
    let duration = i64_of_exec(value.get("windowDurationMins"));
    QuotaWindow {
        key: String::from_str(key),
        label: duration_label(duration),
        used_percent: percent_of_exec(value.get("usedPercent")),
        window_duration_mins: duration,
        resets_at: i64_of_exec(value.get("resetsAt")),
    }
}

/// Whether `id` is `codex` up to ASCII case.
fn is_codex_id(id: &str) -> (r: bool)
    ensures
        r == (ascii_lower(id@) == "codex"@),
{
    let lowered = string_from_chars(&ascii_lower_chars(&chars_of(id)));
    lowered == String::from_str("codex")
}

/// Reads one rate-limit bucket.
pub fn normalize_group(id: &str, value: &JsonValue, primary: bool) -> (g: QuotaGroup)
    ensures
        g@ == group_spec(id@, *value, primary),
{
    let name = match str_of_exec(value.get("limitName")) {
        Some(n) => n.clone(),
        None => if is_codex_id(id) {
            String::from_str("Codex")
        } else {
            String::from_str(id)
        },
    };
    let mut windows: Vec<QuotaWindow> = Vec::new();
    match only_object_exec(value.get("primary")) {
        Some(w) => windows.push(normalize_window("primary", w)),
        None => {},
    }
    match only_object_exec(value.get("secondary")) {
        Some(w) => windows.push(normalize_window("secondary", w)),
        None => {},
    }
    let g = QuotaGroup {
        id: String::from_str(id),
        name: name,
        primary: primary,
        plan_type: clone_opt(str_of_exec(value.get("planType"))),
        windows: windows,
    };
    assert(g@.windows =~= group_windows_spec(*value));
    g
}

/// Whether every character is an ASCII digit.
fn all_digits(s: &String) -> (r: bool)
    ensures
        r == all_ascii_digits(s@),
{
    let v = chars_of(s.as_str());
    let mut i: usize = 0;
    while i < v.len()
        invariant
            v@ == s@,
            i <= v.len(),
            forall|k: int| 0 <= k < i ==> '0' <= #[trigger] v@[k] && v@[k] <= '9',
        decreases v.len() - i,
    {
        if !('0' <= v[i] && v[i] <= '9') {
            return false;
        }
        i = i + 1;
    }
    true
}

/// A token count as text: a number's text, or a string made of ASCII digits.
pub fn decimal_string(value: Option<&JsonValue>) -> (r: Option<String>)
    ensures
        forall|w: Option<JsonValue>| ref_matches(value, w) ==> opt_view(r) == decimal_string_spec(w),
{
    match value {
        Some(JsonValue::Number(n)) => Some(n.to_text()),
        Some(JsonValue::String(s)) => if all_digits(s) {
            Some(s.clone())
        } else {
            None
        },
        _ => None,
    }
}

/// A string, or a number's text.
pub fn string_value(value: Option<&JsonValue>) -> (r: Option<String>)
    ensures
        forall|w: Option<JsonValue>| ref_matches(value, w) ==> opt_view(r) == string_value_spec(w),
{
    match value {
        Some(JsonValue::String(s)) => Some(s.clone()),
        Some(JsonValue::Number(n)) => Some(n.to_text()),
        _ => None,
    }
}

/// Reads today's, lifetime and peak daily token counts from an `account/usage/read` result.
pub fn normalize_token_activity(value: &JsonValue, today: &str) -> (t: TokenActivity)
    ensures
        t@ == token_activity_spec(*value, today@),
{
    let null = JsonValue::Null;
    let summary: &JsonValue = match value.get("summary") {
        Some(s) => s,
        None => &null,
    };
    let found: Option<&JsonValue> = match value.get("dailyUsageBuckets") {
        Some(JsonValue::Array(items)) => match find_day(items, today) {
            Some(i) => Some(&items[i]),
            None => None,
        },
        _ => None,
    };
    let today_tokens = match found {
        Some(bucket) => match decimal_string(bucket.get("tokens")) {
            Some(t) => t,
            None => String::from_str("0"),
        },
        None => String::from_str("0"),
    };
    TokenActivity {
        today_tokens: Some(today_tokens),
        lifetime_tokens: decimal_string(summary.get("lifetimeTokens")),
        peak_daily_tokens: decimal_string(summary.get("peakDailyTokens")),
    }
}

/// The index of the first bucket whose `startDate` is `today`.
fn find_day(items: &Vec<JsonValue>, today: &str) -> (r: Option<usize>)
    ensures
        match r {
            Some(i) => i < items.len() && find_day_from(items@, today@, 0) == Some(items@[i as int]),
            None => find_day_from(items@, today@, 0) is None,
        },
{
    let wanted = String::from_str(today);
    let mut i: usize = 0;
    while i < items.len()
        invariant
            i <= items.len(),
            wanted@ == today@,
            find_day_from(items@, today@, 0) == find_day_from(items@, today@, i as int),
        decreases items.len() - i,
    {
        let matches = match str_of_exec(items[i].get("startDate")) {
            Some(d) => *d == wanted,
            None => false,
        };
        if matches {
            return Some(i);
        }
        i = i + 1;
    }
    None
}

/// Reads a spending limit.
fn normalize_spend_control(limit: &JsonValue) -> (c: SpendControl)
    ensures
        c@ == spend_control_spec(*limit),
{
    SpendControl {
        limit: match string_value(limit.get("limit")) {
            Some(s) => s,
            None => String::new(),
        },
        used: match string_value(limit.get("used")) {
            Some(s) => s,
            None => String::new(),
        },
        remaining_percent: percent_of_exec(limit.get("remainingPercent")),
        resets_at: match i64_of_exec(limit.get("resetsAt")) {
            Some(t) => t,
            None => 0,
        },
    }
}

/// Reads the credits and spend controls of a bucket.
pub fn normalize_credits(value: &JsonValue) -> (r: Option<CreditState>)
    ensures
        match r {
            Some(c) => credits_spec(*value) == Some(c@),
            None => credits_spec(*value) is None,
        },
{
    let credits = only_object_exec(value.get("credits"));
    let individual = match only_object_exec(value.get("individualLimit")) {
        Some(l) => Some(normalize_spend_control(l)),
        None => None,
    };
    let reached = match bool_of_exec(value.get("spendControlReached")) {
        Some(b) => b,
        None => false,
    };
    let has_credits = match bool_of_exec(opt_get_exec(credits, "hasCredits")) {
        Some(b) => b,
        None => false,
    };
    let unlimited = match bool_of_exec(opt_get_exec(credits, "unlimited")) {
        Some(b) => b,
        None => false,
    };
    if credits.is_none() && individual.is_none() && !reached {
        return None;
    }
    if !has_credits && !unlimited && individual.is_none() && !reached {
        return None;
    }
    Some(
        CreditState {
            has_credits: has_credits,
            unlimited: unlimited,
            balance: string_value(opt_get_exec(credits, "balance")),
            spend_control_reached: reached,
            individual_limit: individual,
        },
    )
}

/// The characters of each string.
pub open spec fn views_of(v: Seq<String>) -> Seq<Seq<char>> {
    v.map_values(|x: String| x@)
}

/// Whether `s` is among `v`.
fn contains_string(v: &Vec<String>, s: &str) -> (r: bool)
    ensures
        r == views_of(v@).contains(s@),
{
    let wanted = String::from_str(s);
    let mut i: usize = 0;
    while i < v.len()
        invariant
            i <= v.len(),
            wanted@ == s@,
            forall|k: int| 0 <= k < i ==> v@[k]@ != s@,
        decreases v.len() - i,
    {
        if v[i] == wanted {
            assert(views_of(v@)[i as int] == s@);
            return true;
        }
        i = i + 1;
    }
    assert forall|k: int| 0 <= k < views_of(v@).len() implies views_of(v@)[k] != s@ by {
        assert(v@[k]@ != s@);
    }
    false
}

/// Builds the usage snapshot from an `account/rateLimits/read` result and, when it arrived,
/// an `account/usage/read` result.
pub fn normalize_snapshot(
    rate_limit_result: &JsonValue,
    usage_result: Option<&JsonValue>,
    today: &str,
    updated_at: i64,
) -> (r: Result<UsageSnapshot, String>)
    ensures
        forall|u: Option<JsonValue>| ref_matches(usage_result, u) ==> match r {
            Ok(snapshot) => snapshot_spec(*rate_limit_result, u, today@, updated_at) == Ok::<UsageSnapshotView, Seq<char>>(snapshot@),
            Err(e) => snapshot_spec(*rate_limit_result, u, today@, updated_at) == Err::<UsageSnapshotView, Seq<char>>(e@),
        },
{
    let legacy = only_object_exec(rate_limit_result.get("rateLimits"));
    let bucket_value = rate_limit_result.get("rateLimitsByLimitId");
    let from_buckets = only_object_exec(opt_get_exec(bucket_value, "codex"));
    let main: &JsonValue = match from_buckets {
        Some(m) => m,
        None => match legacy {
            Some(m) => m,
            None => {
                return Err(String::from_str("Codex returned no rate-limit snapshot"));
            },
        },
    };
    let main_id: String = match str_of_exec(main.get("limitId")) {
        Some(x) => x.clone(),
        None => String::from_str("codex"),
    };
    let mut groups: Vec<QuotaGroup> = Vec::new();
    let main_group = normalize_group(main_id.as_str(), main, true);
    let ghost main_view = main_group@;
    if main_group.windows.len() > 0 {
        groups.push(main_group);
    }
    let ghost first: Seq<QuotaGroupView> = if main_view.windows.len() > 0 {
        seq![main_view]
    } else {
        seq![]
    };
    assert(groups@.map_values(|g: QuotaGroup| g@) =~= first);
    let mut seen: Vec<String> = Vec::new();
    seen.push(main_id.clone());
    seen.push(String::from_str("codex"));
    let ghost seen0: Seq<Seq<char>> = seq![main_id@, "codex"@];
    assert(views_of(seen@) =~= seen0);
    let ghost entries_view = bucket_entries(*rate_limit_result);
    match bucket_value {
        Some(JsonValue::Object(entries)) => {
            let mut i: usize = 0;
            while i < entries.len()
                invariant
                    i <= entries.len(),
                    entries@ == entries_view,
                    (views_of(seen@), groups@.map_values(|g: QuotaGroup| g@).skip(first.len() as int))
                        == scan_buckets(entries_view, i as nat, seen0),
                    groups@.map_values(|g: QuotaGroup| g@).take(first.len() as int) == first,
                    first.len() <= groups@.len(),
                decreases entries.len() - i,
            {
                let ghost before = groups@.map_values(|g: QuotaGroup| g@);
                let key = &entries[i].0;
                let bucket = &entries[i].1;
                if !contains_string(&seen, key.as_str()) && bucket.is_object() {
                    let id: String = match str_of_exec(bucket.get("limitId")) {
                        Some(x) => x.clone(),
                        None => key.clone(),
                    };
                    if !contains_string(&seen, id.as_str()) {
                        let g = normalize_group(id.as_str(), bucket, false);
                        let ghost gv = g@;
                        if g.windows.len() > 0 {
                            groups.push(g);
                            assert(groups@.map_values(|g: QuotaGroup| g@) =~= before.push(gv));
                        }
                        seen.push(id);
                    }
                }
                i = i + 1;
                proof {
                    let after = groups@.map_values(|g: QuotaGroup| g@);
                    assert(after.take(first.len() as int) =~= first);
                    assert(after.skip(first.len() as int) =~= scan_buckets(entries_view, i as nat, seen0).1);
                    assert(views_of(seen@) =~= scan_buckets(entries_view, i as nat, seen0).0);
                }
            }
        },
        _ => {},
    }
    let token_activity = match only_object_exec(usage_result) {
        Some(u) => normalize_token_activity(u, today),
        None => TokenActivity::empty(),
    };
    let snapshot = UsageSnapshot {
        quota_groups: groups,
        token_activity: token_activity,
        credits: normalize_credits(main),
        updated_at: updated_at,
        stale: false,
    };
    proof {
        let gv = snapshot.quota_groups@.map_values(|g: QuotaGroup| g@);
        assert(gv =~= gv.take(first.len() as int) + gv.skip(first.len() as int));
    }
    Ok(snapshot)
}

proof fn lemma_scan_buckets(entries: Seq<(String, JsonValue)>, n: nat, seen0: Seq<Seq<char>>)
    requires
        n <= entries.len(),
    ensures
        forall|x: Seq<char>| seen0.contains(x) ==> #[trigger] scan_buckets(entries, n, seen0).0.contains(x),
        forall|i: int| 0 <= i < scan_buckets(entries, n, seen0).1.len() ==> {
            let g = #[trigger] scan_buckets(entries, n, seen0).1[i];
            &&& scan_buckets(entries, n, seen0).0.contains(g.id)
            &&& !seen0.contains(g.id)
            &&& !g.primary
        },
        forall|i: int, j: int| 0 <= i < j < scan_buckets(entries, n, seen0).1.len() ==>
            #[trigger] scan_buckets(entries, n, seen0).1[i].id != #[trigger] scan_buckets(entries, n, seen0).1[j].id,
    decreases n,
{
    if n > 0 {
        lemma_scan_buckets(entries, (n - 1) as nat, seen0);
        let prev = scan_buckets(entries, (n - 1) as nat, seen0);
        let cur = scan_buckets(entries, n, seen0);
        assert forall|x: Seq<char>| seen0.contains(x) implies #[trigger] cur.0.contains(x) by {
            assert(prev.0.contains(x));
            if cur.0 != prev.0 {
                let k = choose|k: int| 0 <= k < prev.0.len() && prev.0[k] == x;
                assert(cur.0[k] == x);
            }
        }
        assert forall|i: int| 0 <= i < cur.1.len() implies {
            let g = #[trigger] cur.1[i];
            &&& cur.0.contains(g.id)
            &&& !seen0.contains(g.id)
            &&& !g.primary
        } by {
            if cur.0 != prev.0 {
                if i < prev.1.len() {
                    assert(cur.1[i] == prev.1[i]);
                    let k = choose|k: int| 0 <= k < prev.0.len() && prev.0[k] == prev.1[i].id;
                    assert(cur.0[k] == prev.1[i].id);
                } else {
                    assert(cur.0[prev.0.len() as int] == cur.1[i].id);
                }
            }
        }
        assert forall|i: int, j: int| 0 <= i < j < cur.1.len() implies
            #[trigger] cur.1[i].id != #[trigger] cur.1[j].id by {
            if cur.1 != prev.1 && j == prev.1.len() {
                assert(cur.1[i] == prev.1[i]);
                assert(prev.0.contains(prev.1[i].id));
            } else if cur.1 != prev.1 {
                assert(cur.1[i] == prev.1[i] && cur.1[j] == prev.1[j]);
            }
        }
    }
}

/// No two windows share a key.
pub open spec fn window_keys_distinct(ws: Seq<QuotaWindowView>) -> bool {
    forall|a: int, b: int| 0 <= a < b < ws.len() ==> #[trigger] ws[a].key != #[trigger] ws[b].key
}

proof fn lemma_bucket_window_keys(v: JsonValue)
    ensures
        window_keys_distinct(group_windows_spec(v)),
        group_windows_spec(v).len() <= 2,
{
    reveal_strlit("primary");
    reveal_strlit("secondary");
    assert("primary"@[0] != "secondary"@[0]);
}

proof fn lemma_scan_window_keys(entries: Seq<(String, JsonValue)>, n: nat, seen0: Seq<Seq<char>>)
    requires
        n <= entries.len(),
    ensures
        forall|i: int| 0 <= i < scan_buckets(entries, n, seen0).1.len() ==>
            window_keys_distinct((#[trigger] scan_buckets(entries, n, seen0).1[i]).windows),
    decreases n,
{
    if n > 0 {
        lemma_scan_window_keys(entries, (n - 1) as nat, seen0);
        let prev = scan_buckets(entries, (n - 1) as nat, seen0);
        let cur = scan_buckets(entries, n, seen0);
        lemma_bucket_window_keys(entries[n - 1].1);
        assert forall|i: int| 0 <= i < cur.1.len() implies window_keys_distinct((#[trigger] cur.1[i]).windows) by {
            if i < prev.1.len() {
                assert(cur.1[i] == prev.1[i]);
            }
        }
    }
}

/// Within each group of a snapshot no two windows share a key.
pub proof fn law_snapshot_window_keys_are_distinct(r: JsonValue, usage: Option<JsonValue>, today: Seq<char>, updated_at: i64)
    ensures
        snapshot_spec(r, usage, today, updated_at) matches Ok(snap) ==>
            forall|i: int| 0 <= i < snap.quota_groups.len() ==> window_keys_distinct((#[trigger] snap.quota_groups[i]).windows),
{
    match main_bucket(r) {
        None => {},
        Some(main) => {
            let main_id = main_id_spec(main);
            let entries = bucket_entries(r);
            let seen0 = seq![main_id, "codex"@];
            lemma_scan_window_keys(entries, entries.len(), seen0);
            lemma_bucket_window_keys(main);
            let scanned = scan_buckets(entries, entries.len(), seen0);
            let snap = snapshot_spec(r, usage, today, updated_at)->Ok_0;
            let first: Seq<QuotaGroupView> = if group_spec(main_id, main, true).windows.len() > 0 {
                seq![group_spec(main_id, main, true)]
            } else {
                seq![]
            };
            assert(snap.quota_groups == first + scanned.1);
            assert forall|i: int| 0 <= i < snap.quota_groups.len() implies window_keys_distinct((#[trigger] snap.quota_groups[i]).windows) by {
                if first.len() == 1 {
                    if i > 0 {
                        assert(snap.quota_groups[i] == scanned.1[i - 1]);
                    }
                } else {
                    assert(snap.quota_groups[i] == scanned.1[i]);
                }
            }
        },
    }
}

/// Each quota group of a snapshot appears once: no two groups share an id, and only the
/// first group, the main bucket's, can be marked primary.
pub proof fn law_snapshot_groups_are_distinct(r: JsonValue, usage: Option<JsonValue>, today: Seq<char>, updated_at: i64)
    ensures
        snapshot_spec(r, usage, today, updated_at) matches Ok(snap) ==> {
            &&& forall|i: int, j: int| 0 <= i < j < snap.quota_groups.len() ==>
                #[trigger] snap.quota_groups[i].id != #[trigger] snap.quota_groups[j].id
            &&& forall|i: int| 0 < i < snap.quota_groups.len() ==> !(#[trigger] snap.quota_groups[i]).primary
        },
{
    match main_bucket(r) {
        None => {},
        Some(main) => {
            let main_id = main_id_spec(main);
            let entries = bucket_entries(r);
            let seen0 = seq![main_id, "codex"@];
            lemma_scan_buckets(entries, entries.len(), seen0);
            let scanned = scan_buckets(entries, entries.len(), seen0);
            assert(seen0.contains(main_id)) by {
                assert(seen0[0] == main_id);
            }
            let snap = snapshot_spec(r, usage, today, updated_at)->Ok_0;
            let first: Seq<QuotaGroupView> = if group_spec(main_id, main, true).windows.len() > 0 {
                seq![group_spec(main_id, main, true)]
            } else {
                seq![]
            };
            assert(snap.quota_groups == first + scanned.1);
            assert forall|i: int, j: int| 0 <= i < j < snap.quota_groups.len() implies
                #[trigger] snap.quota_groups[i].id != #[trigger] snap.quota_groups[j].id by {
                if first.len() == 1 {
                    if i == 0 {
                        assert(snap.quota_groups[j] == scanned.1[j - 1]);
                    } else {
                        assert(snap.quota_groups[i] == scanned.1[i - 1]);
                        assert(snap.quota_groups[j] == scanned.1[j - 1]);
                    }
                } else {
                    assert(snap.quota_groups[i] == scanned.1[i]);
                    assert(snap.quota_groups[j] == scanned.1[j]);
                }
            }
            assert forall|i: int| 0 < i < snap.quota_groups.len() implies !(#[trigger] snap.quota_groups[i]).primary by {
                if first.len() == 1 {
                    assert(snap.quota_groups[i] == scanned.1[i - 1]);
                } else {
                    assert(snap.quota_groups[i] == scanned.1[i]);
                }
            }
        },
    }
}

/// Each window of a bucket is read from the bucket's `primary` or `secondary` object: its
/// used share from `usedPercent`, its duration from `windowDurationMins` (which also names
/// it), and its reset time from `resetsAt`, each read as the app-server sent it. The primary
/// window, when the bucket has one, comes first. In a snapshot, the main bucket's windows are
/// those of the first group.
pub proof fn law_windows_read_their_bucket(v: JsonValue, r: JsonValue, usage: Option<JsonValue>, today: Seq<char>, updated_at: i64)
    ensures
        forall|k: int| 0 <= k < group_windows_spec(v).len() ==> {
            let wv = #[trigger] group_windows_spec(v)[k];
            &&& wv.key == "primary"@ || wv.key == "secondary"@
            &&& json_get(v, wv.key) matches Some(w) && is_object(w)
                && wv.resets_at == i64_of(json_get(w, "resetsAt"@))
                && wv.window_duration_mins == i64_of(json_get(w, "windowDurationMins"@))
                && wv.used_percent == percent_of(json_get(w, "usedPercent"@))
                && wv.label == duration_label_spec(i64_of(json_get(w, "windowDurationMins"@)))
        },
        json_get(v, "primary"@) matches Some(w) ==> is_object(w) ==> {
            &&& group_windows_spec(v).len() >= 1
            &&& group_windows_spec(v)[0].key == "primary"@
            &&& group_windows_spec(v)[0].resets_at == i64_of(json_get(w, "resetsAt"@))
        },
        json_get(v, "secondary"@) matches Some(w) ==> is_object(w) ==> {
            &&& group_windows_spec(v).len() >= 1
            &&& group_windows_spec(v).last().key == "secondary"@
            &&& group_windows_spec(v).last().resets_at == i64_of(json_get(w, "resetsAt"@))
        },
        snapshot_spec(r, usage, today, updated_at) matches Ok(snap) ==> (main_bucket(r) matches Some(main)
            ==> (group_windows_spec(main).len() > 0 ==> snap.quota_groups[0].windows == group_windows_spec(main))),
{
    reveal_strlit("primary");
    reveal_strlit("secondary");
    assert("primary"@ != "secondary"@) by {
        assert("primary"@[0] != "secondary"@[0]);
    }
}

} // verus!
