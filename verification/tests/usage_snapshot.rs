use codex_usage_overlay::json::{JsonNumber, JsonValue};
use codex_usage_overlay::model::{normalize_snapshot, AppStateDto, ConnectionStatus, QuotaWindow, UsageSnapshot};
use codex_usage_overlay::percent::Percent;
use codex_usage_overlay::protocol::{
    account_read_params, decode_message, request_failure_message, RequestFailure, encode_message, frame_line, initialize_params, login_start_params, notification_message, request_message,
    route_message, PendingRequests, RpcRoute,
};
use codex_usage_overlay::runtime::{
    account_read, complete_refresh, limits_read_failed, login_start_url,
    notification_action, AccountStep, NotificationAction,
};

fn obj(entries: Vec<(&str, JsonValue)>) -> JsonValue {
    let mut sorted: Vec<(String, JsonValue)> =
        entries.into_iter().map(|(k, v)| (k.to_string(), v)).collect();
    sorted.sort_by(|a, b| a.0.cmp(&b.0));
    JsonValue::Object(sorted)
}

fn jint(n: i64) -> JsonValue {
    if n >= 0 {
        JsonValue::Number(JsonNumber::PosInt(n as u64))
    } else {
        JsonValue::Number(JsonNumber::NegInt(n))
    }
}

fn uint(n: u64) -> JsonValue {
    JsonValue::Number(JsonNumber::PosInt(n))
}

fn float(x: f64) -> JsonValue {
    JsonValue::Number(JsonNumber::Float { bits: x.to_bits(), text: format!("{x}") })
}

fn text(s: &str) -> JsonValue {
    JsonValue::String(s.to_string())
}

fn value_of(p: Percent) -> f64 {
    let mut x = p.mantissa as f64;
    for _ in 0..p.shift {
        x *= 0.5;
    }
    x
}

fn remaining_percent(window: &QuotaWindow) -> f64 {
    value_of(window.used_percent.remaining().unwrap())
}

fn window(used: i64, minutes: Option<i64>, resets: Option<i64>) -> JsonValue {
    obj(vec![
        ("usedPercent", jint(used)),
        ("windowDurationMins", minutes.map_or(JsonValue::Null, jint)),
        ("resetsAt", resets.map_or(JsonValue::Null, jint)),
    ])
}

fn codex_bucket() -> JsonValue {
    obj(vec![
        ("limitId", text("codex")),
        ("limitName", JsonValue::Null),
        ("primary", window(28, Some(300), Some(1000))),
        ("secondary", window(43, Some(10080), Some(2000))),
        (
            "credits",
            obj(vec![
                ("hasCredits", JsonValue::Bool(true)),
                ("unlimited", JsonValue::Bool(false)),
                ("balance", text("12.50")),
            ]),
        ),
    ])
}

fn two_bucket_limits() -> JsonValue {
    obj(vec![
        ("rateLimits", codex_bucket()),
        (
            "rateLimitsByLimitId",
            obj(vec![
                ("codex", codex_bucket()),
                (
                    "spark",
                    obj(vec![
                        ("limitId", text("spark")),
                        ("limitName", text("Spark")),
                        ("primary", window(10, Some(60), None)),
                    ]),
                ),
            ]),
        ),
    ])
}

#[test]
fn normalizes_weekly_only_response_and_large_tokens() {
    let limits = obj(vec![
        (
            "rateLimits",
            obj(vec![
                ("limitId", text("codex")),
                ("primary", window(4, Some(10080), Some(2000))),
                ("secondary", JsonValue::Null),
                (
                    "credits",
                    obj(vec![
                        ("hasCredits", JsonValue::Bool(false)),
                        ("unlimited", JsonValue::Bool(false)),
                        ("balance", text("0")),
                    ]),
                ),
                ("planType", text("plus")),
            ]),
        ),
        ("rateLimitsByLimitId", JsonValue::Null),
    ]);
    let usage = obj(vec![
        (
            "summary",
            obj(vec![("lifetimeTokens", uint(9007199254740993_u64)), ("peakDailyTokens", jint(42))]),
        ),
        (
            "dailyUsageBuckets",
            JsonValue::Array(vec![obj(vec![("startDate", text("2026-07-20")), ("tokens", jint(123456789))])]),
        ),
    ]);

    let snapshot = normalize_snapshot(&limits, Some(&usage), "2026-07-20", 100).unwrap();
    assert_eq!(snapshot.quota_groups.len(), 1);
    assert_eq!(snapshot.quota_groups[0].windows[0].label, "Weekly allowance");
    assert_eq!(remaining_percent(&snapshot.quota_groups[0].windows[0]), 96.0);
    assert_eq!(snapshot.token_activity.today_tokens.as_deref(), Some("123456789"));
    assert_eq!(snapshot.token_activity.lifetime_tokens.as_deref(), Some("9007199254740993"));
    assert!(snapshot.credits.is_none());
}

#[test]
fn prefers_codex_bucket_and_keeps_other_buckets_expanded() {
    let limits = two_bucket_limits();
    let snapshot = normalize_snapshot(&limits, None, "2026-07-20", 100).unwrap();
    assert_eq!(snapshot.quota_groups.len(), 2);
    assert!(snapshot.quota_groups[0].primary);
    assert_eq!(snapshot.quota_groups[0].windows.len(), 2);
    assert_eq!(snapshot.quota_groups[1].name, "Spark");
    assert_eq!(snapshot.quota_groups[1].windows[0].label, "1-hour allowance");
    assert_eq!(snapshot.credits.unwrap().balance.as_deref(), Some("12.50"));
}

#[test]
fn clamps_percentages_and_handles_missing_today() {
    let limits = obj(vec![(
        "rateLimits",
        obj(vec![
            ("limitId", text("codex")),
            ("primary", window(140, None, None)),
            ("secondary", window(-10, Some(90), None)),
            (
                "individualLimit",
                obj(vec![
                    ("limit", text("100")),
                    ("used", text("75")),
                    ("remainingPercent", jint(25)),
                    ("resetsAt", jint(99)),
                ]),
            ),
            ("spendControlReached", JsonValue::Bool(false)),
        ]),
    )]);
    let usage = obj(vec![
        ("summary", obj(vec![("lifetimeTokens", JsonValue::Null)])),
        (
            "dailyUsageBuckets",
            JsonValue::Array(vec![obj(vec![("startDate", text("2026-07-19")), ("tokens", jint(10))])]),
        ),
    ]);

    let snapshot = normalize_snapshot(&limits, Some(&usage), "2026-07-20", 100).unwrap();
    assert_eq!(remaining_percent(&snapshot.quota_groups[0].windows[0]), 0.0);
    assert_eq!(remaining_percent(&snapshot.quota_groups[0].windows[1]), 100.0);
    assert_eq!(snapshot.quota_groups[0].windows[1].label, "90-minute allowance");
    assert_eq!(snapshot.token_activity.today_tokens.as_deref(), Some("0"));
    assert!(snapshot.credits.unwrap().individual_limit.is_some());
}

#[test]
fn snapshot_without_rate_limits_is_an_error() {
    let limits = obj(vec![("rateLimits", JsonValue::Null)]);
    let error = normalize_snapshot(&limits, None, "2026-07-20", 1).unwrap_err();
    assert_eq!(error, "Codex returned no rate-limit snapshot");
}

#[test]
fn snapshot_keeps_exact_float_percentages_and_drops_empty_groups() {
    let limits = obj(vec![
        (
            "rateLimits",
            obj(vec![
                ("limitId", text("codex")),
                ("primary", obj(vec![("usedPercent", float(12.5)), ("windowDurationMins", jint(2880))])),
            ]),
        ),
        (
            "rateLimitsByLimitId",
            obj(vec![
                ("other", obj(vec![("limitName", text("Other"))])),
                ("zeta", obj(vec![("primary", window(1, Some(45), None))])),
            ]),
        ),
    ]);
    let snapshot = normalize_snapshot(&limits, None, "2026-07-20", 7).unwrap();
    assert_eq!(snapshot.quota_groups.len(), 2);
    assert_eq!(snapshot.quota_groups[0].windows[0].label, "2-day allowance");
    assert_eq!(remaining_percent(&snapshot.quota_groups[0].windows[0]), 87.5);
    assert_eq!(snapshot.quota_groups[1].id, "zeta");
    assert_eq!(snapshot.quota_groups[1].name, "zeta");
    assert_eq!(snapshot.quota_groups[1].windows[0].label, "45-minute allowance");
    assert_eq!(snapshot.token_activity.today_tokens, None);
    assert_eq!(snapshot.updated_at, 7);
    assert!(!snapshot.stale);
}

#[test]
fn bucket_id_codex_in_any_case_is_titled_codex() {
    let limits = obj(vec![(
        "rateLimits",
        obj(vec![("limitId", text("CODEX")), ("primary", window(0, Some(5), None))]),
    )]);
    let snapshot = normalize_snapshot(&limits, None, "2026-07-20", 1).unwrap();
    assert_eq!(snapshot.quota_groups[0].name, "Codex");
    assert_eq!(snapshot.quota_groups[0].id, "CODEX");
}

fn one_window_snapshot(used: u64) -> UsageSnapshot {
    let limits = obj(vec![(
        "rateLimits",
        obj(vec![("limitId", text("codex")), ("primary", window(used as i64, Some(300), None))]),
    )]);
    normalize_snapshot(&limits, None, "2026-07-20", 1).unwrap()
}

#[test]
fn account_read_without_account_asks_for_sign_in_and_keeps_snapshot_stale() {
    let mut state = AppStateDto::default();
    state.snapshot = Some(one_window_snapshot(30));
    state.updating = true;
    let result: Result<JsonValue, String> = Ok(obj(vec![("account", JsonValue::Null)]));
    let step = account_read(&mut state, &result);
    assert!(matches!(step, AccountStep::Done));
    assert_eq!(state.status, ConnectionStatus::NeedsAuth);
    assert_eq!(state.message.as_deref(), Some("Sign in with Codex to read your usage."));
    assert!(!state.updating);
    assert!(state.snapshot.as_ref().unwrap().stale);
}

#[test]
fn account_read_outcomes() {
    let mut state = AppStateDto::default();
    let signed_in: Result<JsonValue, String> = Ok(obj(vec![("account", obj(vec![("email", text("a@b"))]))]));
    assert!(matches!(account_read(&mut state, &signed_in), AccountStep::ReadUsage));
    assert_eq!(state.status, ConnectionStatus::Starting);

    let expired: Result<JsonValue, String> = Err("Not logged in".to_string());
    assert!(matches!(account_read(&mut state, &expired), AccountStep::Done));
    assert_eq!(state.message.as_deref(), Some("Your Codex sign-in needs to be renewed."));

    let broken: Result<JsonValue, String> = Err("pipe closed, see https://x.test/y".to_string());
    assert!(matches!(account_read(&mut state, &broken), AccountStep::Done));
    assert_eq!(state.status, ConnectionStatus::Reconnecting);
    assert_eq!(state.message.as_deref(), Some("pipe closed, see [link hidden]"));
}

#[test]
fn limits_failure_outcomes() {
    let mut state = AppStateDto::default();
    limits_read_failed(&mut state, "Unauthorized");
    assert_eq!(state.status, ConnectionStatus::NeedsAuth);
    assert_eq!(state.message.as_deref(), Some("Sign in with Codex to read your usage."));
    limits_read_failed(&mut state, "timed out");
    assert_eq!(state.status, ConnectionStatus::Reconnecting);
    assert_eq!(state.message.as_deref(), Some("timed out"));
}

#[test]
fn complete_refresh_sets_ready_snapshot_and_checkpoint_notification() {
    let mut state = AppStateDto::default();
    state.snapshot = Some(one_window_snapshot(40));
    state.updating = true;
    let limits = obj(vec![(
        "rateLimits",
        obj(vec![("limitId", text("codex")), ("primary", window(55, Some(300), None))]),
    )]);
    let usage: Result<JsonValue, String> = Err("usage unavailable".to_string());
    let note = complete_refresh(&mut state, &limits, &usage, "2026-07-20", 1234, &[50, 20, 10]);
    assert_eq!(note.as_deref(), Some("Checkpoint reached: 5-hour allowance reached 50% remaining."));
    assert_eq!(state.status, ConnectionStatus::Ready);
    assert!(!state.updating);
    assert_eq!(
        state.message.as_deref(),
        Some("Allowance is current, but token history is temporarily unavailable.")
    );
    let notification = state.checkpoint_notification.as_ref().unwrap();
    assert_eq!(notification.id, "checkpoint-1234");
    assert_eq!(notification.message, "Checkpoint reached: 5-hour allowance reached 50% remaining.");
    let snapshot = state.snapshot.as_ref().unwrap();
    assert_eq!(snapshot.updated_at, 1234);
    assert_eq!(remaining_percent(&snapshot.quota_groups[0].windows[0]), 45.0);
}

#[test]
fn complete_refresh_with_unsupported_response_keeps_snapshot_stale() {
    let mut state = AppStateDto::default();
    state.snapshot = Some(one_window_snapshot(40));
    let limits = obj(vec![]);
    let usage: Result<JsonValue, String> = Ok(obj(vec![]));
    let note = complete_refresh(&mut state, &limits, &usage, "2026-07-20", 5, &[50]);
    assert!(note.is_none());
    assert_eq!(state.status, ConnectionStatus::Error);
    assert_eq!(
        state.message.as_deref(),
        Some("Codex returned an unsupported usage response: Codex returned no rate-limit snapshot")
    );
    assert!(state.snapshot.as_ref().unwrap().stale);
    assert_eq!(state.snapshot.as_ref().unwrap().updated_at, 1);
}

#[test]
fn notifications_are_routed_to_actions() {
    let empty = obj(vec![]);
    assert!(matches!(
        notification_action("account/rateLimits/updated", &empty),
        NotificationAction::RefreshAfterDelay
    ));
    let ok = obj(vec![("success", JsonValue::Bool(true))]);
    assert!(matches!(notification_action("account/login/completed", &ok), NotificationAction::Refresh));
    match notification_action("account/login/completed", &empty) {
        NotificationAction::SignInFailed(message) => assert_eq!(message, "Codex sign-in did not complete."),
        other => panic!("unexpected {other:?}"),
    }
    let failed = obj(vec![("success", JsonValue::Bool(false)), ("error", text("denied at https://a.test"))]);
    match notification_action("account/login/completed", &failed) {
        NotificationAction::SignInFailed(message) => assert_eq!(message, "denied at [link hidden]"),
        other => panic!("unexpected {other:?}"),
    }
    assert!(matches!(notification_action("other", &empty), NotificationAction::Ignore));
}

#[test]
fn login_url_must_be_https() {
    let good = obj(vec![("authUrl", text("https://auth.example/login"))]);
    assert_eq!(login_start_url(&good).unwrap().auth_url, "https://auth.example/login");
    let plain = obj(vec![("authUrl", text("http://auth.example/login"))]);
    assert_eq!(login_start_url(&plain).unwrap_err(), "Codex did not return a safe sign-in URL");
    assert!(login_start_url(&obj(vec![])).is_err());
}

#[test]
fn routes_successful_response_to_matching_request() {
    let mut pending: PendingRequests<u32> = PendingRequests::new();
    for receiver in 1..=7 {
        pending.register(receiver);
    }
    match decode_message(r#"{"id":7,"result":{"ok":true}}"#).unwrap() {
        RpcRoute::Response { id, result } => {
            assert_eq!(pending.take(id), Some(7));
            match result.unwrap() {
                JsonValue::Object(entries) => {
                    assert_eq!(entries.len(), 1);
                    assert_eq!(entries[0].0, "ok");
                    assert!(matches!(entries[0].1, JsonValue::Bool(true)));
                }
                other => panic!("unexpected {other:?}"),
            }
        }
        other => panic!("unexpected {other:?}"),
    }
}

#[test]
fn routes_rpc_error_without_exposing_other_fields() {
    let line = r#"{"id":8,"error":{"code":-32600,"message":"authentication required","data":{"secret":"ignored"}}}"#;
    match decode_message(line).unwrap() {
        RpcRoute::Response { id, result } => {
            assert_eq!(id, 8);
            assert_eq!(result.unwrap_err(), "authentication required");
        }
        other => panic!("unexpected {other:?}"),
    }
}

#[test]
fn forwards_notifications_and_rejects_malformed_json() {
    let line = r#"{"method":"account/rateLimits/updated","params":{"rateLimits":{}}}"#;
    match decode_message(line).unwrap() {
        RpcRoute::Notification { method, .. } => assert_eq!(method, "account/rateLimits/updated"),
        other => panic!("unexpected {other:?}"),
    }
    let refused = decode_message("not-json").unwrap_err();
    assert!(refused.starts_with("Invalid Codex JSON-RPC message: "));
    assert!(matches!(route_message(text("not-json")), RpcRoute::Ignored));
}

#[test]
fn decoded_numbers_keep_their_kind() {
    match decode_message(r#"{"method":"m","params":[18446744073709551615,-3,12.5]}"#).unwrap() {
        RpcRoute::Notification { params: JsonValue::Array(items), .. } => {
            assert!(matches!(items[0], JsonValue::Number(JsonNumber::PosInt(u64::MAX))));
            assert!(matches!(items[1], JsonValue::Number(JsonNumber::NegInt(-3))));
            match &items[2] {
                JsonValue::Number(JsonNumber::Float { bits, text }) => {
                    assert_eq!(f64::from_bits(*bits), 12.5);
                    assert_eq!(text, "12.5");
                }
                other => panic!("unexpected {other:?}"),
            }
        }
        other => panic!("unexpected {other:?}"),
    }
}

#[test]
fn encoded_messages_are_compact_json_lines() {
    let line = encode_message(&request_message("account/read", 1, Some(account_read_params()))).unwrap();
    assert_eq!(
        String::from_utf8(line).unwrap(),
        "{\"id\":1,\"method\":\"account/read\",\"params\":{\"refreshToken\":false}}\n"
    );
    let note = encode_message(&notification_message("initialized", None)).unwrap();
    assert_eq!(note, b"{\"method\":\"initialized\"}\n".to_vec());
    let float = encode_message(&float(0.25)).unwrap();
    assert_eq!(float, b"0.25\n".to_vec());
}

#[test]
fn error_without_message_and_response_without_result() {
    let message = obj(vec![("id", jint(3)), ("error", obj(vec![]))]);
    match route_message(message) {
        RpcRoute::Response { result, .. } => assert_eq!(result.unwrap_err(), "Codex request failed"),
        other => panic!("unexpected {other:?}"),
    }
    match route_message(obj(vec![("id", jint(4))])) {
        RpcRoute::Response { id, result } => {
            assert_eq!(id, 4);
            assert!(matches!(result.unwrap(), JsonValue::Null));
        }
        other => panic!("unexpected {other:?}"),
    }
    assert!(matches!(route_message(obj(vec![("id", jint(-1))])), RpcRoute::Ignored));
}

#[test]
fn pending_requests_are_taken_once_and_drained() {
    let mut pending: PendingRequests<&str> = PendingRequests::new();
    let a = pending.register("a");
    let b = pending.register("b");
    assert_eq!((a, b), (1, 2));
    assert_eq!(pending.take(a), Some("a"));
    assert_eq!(pending.take(a), None);
    let c = pending.register("c");
    assert_eq!(c, 3);
    let mut rest = pending.drain();
    rest.sort();
    assert_eq!(rest, vec!["b", "c"]);
    assert!(pending.drain().is_empty());
}

fn member<'a>(value: &'a JsonValue, key: &str) -> Option<&'a JsonValue> {
    value.get(key)
}

#[test]
fn outgoing_messages_have_the_documented_members() {
    let request = request_message("account/read", 5, Some(account_read_params()));
    assert!(matches!(member(&request, "id"), Some(JsonValue::Number(JsonNumber::PosInt(5)))));
    assert!(matches!(member(&request, "method"), Some(JsonValue::String(m)) if m == "account/read"));
    let params = member(&request, "params").unwrap();
    assert!(matches!(member(params, "refreshToken"), Some(JsonValue::Bool(false))));

    let note = notification_message("initialized", None);
    assert!(member(&note, "id").is_none());
    assert!(member(&note, "params").is_none());

    let init = initialize_params("0.1.0");
    let info = member(&init, "clientInfo").unwrap();
    assert!(matches!(member(info, "name"), Some(JsonValue::String(n)) if n == "codex_usage_overlay"));
    assert!(matches!(member(info, "version"), Some(JsonValue::String(v)) if v == "0.1.0"));
    let capabilities = member(&init, "capabilities").unwrap();
    assert!(matches!(member(capabilities, "experimentalApi"), Some(JsonValue::Bool(false))));

    let login = login_start_params();
    assert!(matches!(member(&login, "type"), Some(JsonValue::String(t)) if t == "chatgpt"));
    assert!(matches!(member(&login, "useHostedLoginSuccessPage"), Some(JsonValue::Bool(true))));
}

#[test]
fn extreme_percentages_stay_between_zero_and_one_hundred() {
    let limits = obj(vec![(
        "rateLimits",
        obj(vec![
            ("limitId", text("codex")),
            ("primary", obj(vec![("usedPercent", float(1e300))])),
            ("secondary", obj(vec![("usedPercent", float(-0.0))])),
            ("individualLimit", obj(vec![("remainingPercent", float(5e-324))])),
        ]),
    )]);
    let snapshot = normalize_snapshot(&limits, None, "2026-07-20", 1).unwrap();
    let windows = &snapshot.quota_groups[0].windows;
    assert_eq!(value_of(windows[0].used_percent), 100.0);
    assert_eq!(remaining_percent(&windows[0]), 0.0);
    assert_eq!(value_of(windows[1].used_percent), 0.0);
    assert_eq!(remaining_percent(&windows[1]), 100.0);
    let spend = snapshot.credits.unwrap().individual_limit.unwrap();
    assert_eq!(value_of(spend.remaining_percent), 5e-324);
    assert_eq!(spend.limit, "");
    assert_eq!(spend.resets_at, 0);
}

#[test]
fn bucket_ids_appear_once() {
    let limits = obj(vec![
        ("rateLimits", obj(vec![("limitId", text("main")), ("primary", window(1, Some(300), None))])),
        (
            "rateLimitsByLimitId",
            obj(vec![
                ("a", obj(vec![("limitId", text("main")), ("primary", window(2, Some(60), None))])),
                ("b", obj(vec![("limitId", text("x")), ("primary", window(3, Some(60), None))])),
                ("c", obj(vec![("limitId", text("x")), ("primary", window(4, Some(60), None))])),
                ("codex", jint(5)),
            ]),
        ),
    ]);
    let snapshot = normalize_snapshot(&limits, None, "2026-07-20", 1).unwrap();
    let ids: Vec<&str> = snapshot.quota_groups.iter().map(|g| g.id.as_str()).collect();
    assert_eq!(ids, vec!["main", "x"]);
    assert!(snapshot.quota_groups[0].primary);
    assert!(!snapshot.quota_groups[1].primary);
    assert_eq!(remaining_percent(&snapshot.quota_groups[1].windows[0]), 97.0);
}

#[test]
fn messages_are_framed_by_newlines() {
    assert_eq!(frame_line(b"{\"id\":1}".to_vec()), b"{\"id\":1}\n".to_vec());
    assert_eq!(frame_line(Vec::new()), vec![b'\n']);
}

#[test]
fn remaining_share_is_exact() {
    assert_eq!(Percent { mantissa: 101, shift: 1 }.remaining(), Some(Percent { mantissa: 99, shift: 1 }));
    assert_eq!(Percent { mantissa: 0, shift: 0 }.remaining(), Some(Percent { mantissa: 100, shift: 0 }));
    assert_eq!(Percent { mantissa: 200, shift: 1 }.remaining(), Some(Percent { mantissa: 0, shift: 0 }));
    assert_eq!(Percent { mantissa: 1, shift: 2 }.remaining(), Some(Percent { mantissa: 399, shift: 2 }));
    assert_eq!(Percent { mantissa: 1, shift: 58 }.remaining(), None);
}

#[test]
fn request_failures_name_the_method() {
    assert_eq!(request_failure_message("account/read", RequestFailure::TimedOut), "Codex request account/read timed out");
    assert_eq!(request_failure_message("initialize", RequestFailure::Cancelled), "Codex request initialize was cancelled");
    assert_eq!(request_failure_message("x", RequestFailure::NotConnected), "Codex app-server is not connected");
}
