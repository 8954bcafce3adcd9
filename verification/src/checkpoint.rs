//! Checkpoint notifications: a message for each allowance window whose remaining share
//! fell to or below one of the configured checkpoint percentages since the previous refresh.

use vstd::prelude::*;
use crate::model::{
    snapshot_spec, law_snapshot_groups_are_distinct, law_snapshot_window_keys_are_distinct, window_keys_distinct,
    UsageSnapshot, UsageSnapshotView, QuotaGroup, QuotaGroupView, QuotaWindow, QuotaWindowView};
use crate::percent::Percent;
use crate::json::JsonValue;
use vstd::arithmetic::power2::{pow2, lemma_pow2_pos};
use crate::text::{decimal_digits, decimal_u64, join_spaced};

verus! {

/// The remaining share went from above `c` to at or below `c`.
pub open spec fn crossed(previous: Percent, current: Percent, c: u8) -> bool {
    previous.remaining_above(c as int) && !current.remaining_above(c as int)
}

/// `"<label> reached <c>% remaining."`
pub open spec fn reached_text(label: Seq<char>, c: u8) -> Seq<char> {
    label + " reached "@ + decimal_digits(c as nat) + "% remaining."@
}

/// The messages for the first `n` checkpoints crossed by one window.
pub open spec fn checkpoint_texts(checkpoints: Seq<u8>, n: nat, previous: Percent, current: QuotaWindowView) -> Seq<Seq<char>>
    decreases n,
{
    if n == 0 {
        seq![]
    } else {
        let rest = checkpoint_texts(checkpoints, (n - 1) as nat, previous, current);
        let c = checkpoints[n - 1];
        if crossed(previous, current.used_percent, c) {
            rest.push(reached_text(current.label, c))
        } else {
            rest
        }
    }
}

/// The first window of `windows[from..]` with the given key.
pub open spec fn find_window(windows: Seq<QuotaWindowView>, key: Seq<char>, from: int) -> Option<QuotaWindowView>
    decreases windows.len() - from,
{
    if from < 0 || from >= windows.len() {
        None
    } else if windows[from].key == key {
        Some(windows[from])
    } else {
        find_window(windows, key, from + 1)
    }
}

/// The first group of `groups[from..]` with the given id.
pub open spec fn find_group(groups: Seq<QuotaGroupView>, id: Seq<char>, from: int) -> Option<QuotaGroupView>
    decreases groups.len() - from,
{
    if from < 0 || from >= groups.len() {
        None
    } else if groups[from].id == id {
        Some(groups[from])
    } else {
        find_group(groups, id, from + 1)
    }
}

/// The messages of the first `n` current windows, each compared with the previous window of the same key.
pub open spec fn window_texts(previous: Seq<QuotaWindowView>, current: Seq<QuotaWindowView>, n: nat, checkpoints: Seq<u8>) -> Seq<Seq<char>>
    decreases n,
{
    if n == 0 {
        seq![]
    } else {
        let rest = window_texts(previous, current, (n - 1) as nat, checkpoints);
        match find_window(previous, current[n - 1].key, 0) {
            Some(pw) => rest + checkpoint_texts(checkpoints, checkpoints.len(), pw.used_percent, current[n - 1]),
            None => rest,
        }
    }
}

/// The messages of the first `n` current groups, each compared with the previous group of the same id.
pub open spec fn group_texts(previous: Seq<QuotaGroupView>, current: Seq<QuotaGroupView>, n: nat, checkpoints: Seq<u8>) -> Seq<Seq<char>>
    decreases n,
{
    if n == 0 {
        seq![]
    } else {
        let rest = group_texts(previous, current, (n - 1) as nat, checkpoints);
        match find_group(previous, current[n - 1].id, 0) {
            Some(pg) => rest + window_texts(pg.windows, current[n - 1].windows, current[n - 1].windows.len(), checkpoints),
            None => rest,
        }
    }
}

/// The checkpoint message after a refresh from `previous` to `current`.
pub open spec fn checkpoint_message_spec(previous: Option<UsageSnapshotView>, current: UsageSnapshotView, checkpoints: Seq<u8>) -> Option<Seq<char>> {
    match previous {
        None => None,
        Some(p) => {
            let texts = group_texts(p.quota_groups, current.quota_groups, current.quota_groups.len(), checkpoints);
            if texts.len() == 0 {
                None
            } else {
                Some("Checkpoint reached: "@ + join_spaced(texts))
            }
        },
    }
}

fn find_group_exec<'a>(groups: &'a Vec<QuotaGroup>, id: &String) -> (r: Option<&'a QuotaGroup>)
    ensures
        match r {
            Some(g) => find_group(groups@.map_values(|g: QuotaGroup| g@), id@, 0) == Some(g@),
            None => find_group(groups@.map_values(|g: QuotaGroup| g@), id@, 0) is None,
        },
{
    let ghost views = groups@.map_values(|g: QuotaGroup| g@);
    let mut i: usize = 0;
    while i < groups.len()
        invariant
            i <= groups.len(),
            views == groups@.map_values(|g: QuotaGroup| g@),
            find_group(views, id@, 0) == find_group(views, id@, i as int),
        decreases groups.len() - i,
    {
        if groups[i].id == *id {
            return Some(&groups[i]);
        }
        i = i + 1;
    }
    None
}

fn find_window_exec<'a>(windows: &'a Vec<QuotaWindow>, key: &String) -> (r: Option<&'a QuotaWindow>)
    ensures
        match r {
            Some(w) => find_window(windows@.map_values(|w: QuotaWindow| w@), key@, 0) == Some(w@),
            None => find_window(windows@.map_values(|w: QuotaWindow| w@), key@, 0) is None,
        },
{
    let ghost views = windows@.map_values(|w: QuotaWindow| w@);
    let mut i: usize = 0;
    while i < windows.len()
        invariant
            i <= windows.len(),
            views == windows@.map_values(|w: QuotaWindow| w@),
            find_window(views, key@, 0) == find_window(views, key@, i as int),
        decreases windows.len() - i,
    {
        if windows[i].key == *key {
            return Some(&windows[i]);
        }
        i = i + 1;
    }
    None
}

/// The characters of each string.
pub open spec fn texts_of(v: Seq<String>) -> Seq<Seq<char>> {
    v.map_values(|x: String| x@)
}

fn reached_message(label: &String, c: u8) -> (s: String)
    ensures
        s@ == reached_text(label@, c),
{
    let mut s = label.clone();
    s.append(" reached ");
    s.append(decimal_u64(c as u64).as_str());
    s.append("% remaining.");
    s
}

/// Appends the messages of the checkpoints crossed by one window.
fn push_window_texts(out: &mut Vec<String>, checkpoints: &[u8], previous: Percent, current: &QuotaWindow)
    ensures
        texts_of(final(out)@) == texts_of(old(out)@) + checkpoint_texts(checkpoints@, checkpoints@.len(), previous, current@),
{
    let ghost start = texts_of(out@);
    let mut i: usize = 0;
    while i < checkpoints.len()
        invariant
            i <= checkpoints.len(),
            texts_of(out@) == start + checkpoint_texts(checkpoints@, i as nat, previous, current@),
        decreases checkpoints.len() - i,
    {
        let c = checkpoints[i];
        if previous.is_remaining_above(c) && !current.used_percent.is_remaining_above(c) {
            let ghost before = texts_of(out@);
            out.push(reached_message(&current.label, c));
            assert(texts_of(out@) =~= before.push(reached_text(current.label@, c)));
        }
        i = i + 1;
        assert(texts_of(out@) =~= start + checkpoint_texts(checkpoints@, i as nat, previous, current@));
    }
}

/// Joins the texts with single spaces.
fn join_texts(parts: &Vec<String>) -> (s: String)
    ensures
        s@ == join_spaced(texts_of(parts@)),
{
    let mut s = String::new();
    let mut i: usize = 0;
    while i < parts.len()
        invariant
            i <= parts.len(),
            s@ == join_spaced(texts_of(parts@).take(i as int)),
        decreases parts.len() - i,
    {
        proof {
            reveal_strlit(" ");
            assert(texts_of(parts@).take(i + 1).drop_last() =~= texts_of(parts@).take(i as int));
        }
        if i > 0 {
            s.append(" ");
        }
        s.append(parts[i].as_str());
        i = i + 1;
    }
    assert(texts_of(parts@).take(parts.len() as int) =~= texts_of(parts@));
    s
}

/// The checkpoint message for a refresh from `previous` to `current`: one sentence for
/// every checkpoint that a window's remaining share crossed downwards, windows being matched
/// by group id and window key.
pub fn checkpoint_message(previous: Option<&UsageSnapshot>, current: &UsageSnapshot, checkpoints: &[u8]) -> (r: Option<String>)
    ensures
        opt_text(r) == checkpoint_message_spec(
            match previous {
                Some(p) => Some(p@),
                None => None,
            },
            current@,
            checkpoints@,
        ),
{
    let previous = match previous {
        Some(p) => p,
        None => {
            return None;
        },
    };
    let ghost prev_groups = previous@.quota_groups;
    let ghost cur_groups = current@.quota_groups;
    let mut reached: Vec<String> = Vec::new();
    let mut gi: usize = 0;
    while gi < current.quota_groups.len()
        invariant
            gi <= current.quota_groups.len(),
            prev_groups == previous@.quota_groups,
            cur_groups == current@.quota_groups,
            texts_of(reached@) == group_texts(prev_groups, cur_groups, gi as nat, checkpoints@),
        decreases current.quota_groups.len() - gi,
    {
        let group = &current.quota_groups[gi];
        let ghost before_group = texts_of(reached@);
        match find_group_exec(&previous.quota_groups, &group.id) {
            Some(previous_group) => {
                let mut wi: usize = 0;
                while wi < group.windows.len()
                    invariant
                        wi <= group.windows.len(),
                        group@ == cur_groups[gi as int],
                        texts_of(reached@) == before_group + window_texts(previous_group@.windows, group@.windows, wi as nat, checkpoints@),
                    decreases group.windows.len() - wi,
                {
                    let window = &group.windows[wi];
                    let ghost before_window = texts_of(reached@);
                    match find_window_exec(&previous_group.windows, &window.key) {
                        Some(previous_window) => {
                            push_window_texts(&mut reached, checkpoints, previous_window.used_percent, window);
                        },
                        None => {},
                    }
                    wi = wi + 1;
                    assert(texts_of(reached@) =~= before_group + window_texts(previous_group@.windows, group@.windows, wi as nat, checkpoints@));
                }
            },
            None => {},
        }
        gi = gi + 1;
        assert(texts_of(reached@) =~= group_texts(prev_groups, cur_groups, gi as nat, checkpoints@));
    }
    if reached.len() == 0 {
        None
    } else {
        let mut message = String::from_str("Checkpoint reached: ");
        message.append(join_texts(&reached).as_str());
        Some(message)
    }
}

/// The characters of an optional string.
pub open spec fn opt_text(o: Option<String>) -> Option<Seq<char>> {
    match o {
        Some(s) => Some(s@),
        None => None,
    }
}

/// `a` is at most `b`.
pub open spec fn percent_at_most(a: Percent, b: Percent) -> bool {
    a.mantissa * pow2(b.shift as nat) <= b.mantissa * pow2(a.shift as nat)
}

/// No window of `current` has used more of its allowance than the window of the same key in
/// the group of the same id in `previous`.
pub open spec fn nothing_fell(previous: Seq<QuotaGroupView>, current: Seq<QuotaGroupView>) -> bool {
    forall|i: int, j: int|
        #![trigger current[i].windows[j]]
        0 <= i < current.len() && 0 <= j < current[i].windows.len() ==> match find_group(previous, current[i].id, 0) {
            Some(pg) => match find_window(pg.windows, current[i].windows[j].key, 0) {
                Some(pw) => percent_at_most(current[i].windows[j].used_percent, pw.used_percent),
                None => true,
            },
            None => true,
        }
}

proof fn lemma_below_at_most(a: Percent, b: Percent, k: int)
    requires
        percent_at_most(a, b),
        b.below(k),
    ensures
        a.below(k),
{
    let pa = pow2(a.shift as nat);
    let pb = pow2(b.shift as nat);
    lemma_pow2_pos(a.shift as nat);
    lemma_pow2_pos(b.shift as nat);
    assert(a.mantissa < k * pa) by (nonlinear_arith)
        requires
            a.mantissa * pb <= b.mantissa * pa,
            b.mantissa < k * pb,
            pa > 0,
            pb > 0,
            a.mantissa >= 0,
    {
        assert(b.mantissa * pa < k * pb * pa);
        assert(a.mantissa * pb < k * pa * pb);
    }
}

proof fn lemma_no_checkpoint_texts(checkpoints: Seq<u8>, n: nat, previous: Percent, current: QuotaWindowView)
    requires
        n <= checkpoints.len(),
        percent_at_most(current.used_percent, previous),
    ensures
        checkpoint_texts(checkpoints, n, previous, current).len() == 0,
    decreases n,
{
    if n > 0 {
        lemma_no_checkpoint_texts(checkpoints, (n - 1) as nat, previous, current);
        let c = checkpoints[n - 1];
        if previous.remaining_above(c as int) {
            lemma_below_at_most(current.used_percent, previous, 100 - c);
        }
    }
}

proof fn lemma_no_window_texts(previous: Seq<QuotaWindowView>, current: Seq<QuotaWindowView>, n: nat, checkpoints: Seq<u8>)
    requires
        n <= current.len(),
        forall|j: int| 0 <= j < n ==> match find_window(previous, #[trigger] current[j].key, 0) {
            Some(pw) => percent_at_most(current[j].used_percent, pw.used_percent),
            None => true,
        },
    ensures
        window_texts(previous, current, n, checkpoints).len() == 0,
    decreases n,
{
    if n > 0 {
        lemma_no_window_texts(previous, current, (n - 1) as nat, checkpoints);
        let w = current[n - 1];
        match find_window(previous, w.key, 0) {
            Some(pw) => {
                lemma_no_checkpoint_texts(checkpoints, checkpoints.len(), pw.used_percent, w);
            },
            None => {},
        }
    }
}

proof fn lemma_no_group_texts(previous: Seq<QuotaGroupView>, current: Seq<QuotaGroupView>, n: nat, checkpoints: Seq<u8>)
    requires
        n <= current.len(),
        nothing_fell(previous, current),
    ensures
        group_texts(previous, current, n, checkpoints).len() == 0,
    decreases n,
{
    if n > 0 {
        lemma_no_group_texts(previous, current, (n - 1) as nat, checkpoints);
        let g = current[n - 1];
        match find_group(previous, g.id, 0) {
            Some(pg) => {
                assert forall|j: int| 0 <= j < g.windows.len() implies match find_window(pg.windows, #[trigger] g.windows[j].key, 0) {
                    Some(pw) => percent_at_most(g.windows[j].used_percent, pw.used_percent),
                    None => true,
                } by {
                    assert(current[n - 1].windows[j] == g.windows[j]);
                }
                lemma_no_window_texts(pg.windows, g.windows, g.windows.len(), checkpoints);
            },
            None => {},
        }
    }
}

/// Checkpoints are only reported for a fall: with no earlier snapshot there is no message,
/// and when no window has used more of its allowance than at the previous refresh there is
/// no message either, whatever the checkpoints.
pub proof fn law_checkpoints_only_report_a_fall(previous: UsageSnapshotView, current: UsageSnapshotView, checkpoints: Seq<u8>)
    ensures
        checkpoint_message_spec(None, current, checkpoints) is None,
        nothing_fell(previous.quota_groups, current.quota_groups) ==> checkpoint_message_spec(Some(previous), current, checkpoints) is None,
{
    if nothing_fell(previous.quota_groups, current.quota_groups) {
        lemma_no_group_texts(previous.quota_groups, current.quota_groups, current.quota_groups.len(), checkpoints);
    }
}

/// Window `j` of the current group `i` crossed checkpoint `c` since the previous refresh:
/// the window of the same key, in the previous group of the same id, had more than `c`
/// percent remaining, and this window has `c` percent or less.
pub open spec fn crossed_in(previous: Seq<QuotaGroupView>, current: Seq<QuotaGroupView>, i: int, j: int, c: u8) -> bool {
    &&& 0 <= i < current.len()
    &&& 0 <= j < current[i].windows.len()
    &&& match find_group(previous, current[i].id, 0) {
        Some(pg) => match find_window(pg.windows, current[i].windows[j].key, 0) {
            Some(pw) => crossed(pw.used_percent, current[i].windows[j].used_percent, c),
            None => false,
        },
        None => false,
    }
}

proof fn lemma_crossing_text(checkpoints: Seq<u8>, n: nat, previous: Percent, current: QuotaWindowView, k: int)
    requires
        0 <= k < n <= checkpoints.len(),
        crossed(previous, current.used_percent, checkpoints[k]),
    ensures
        checkpoint_texts(checkpoints, n, previous, current).len() > 0,
    decreases n,
{
    if k < n - 1 {
        lemma_crossing_text(checkpoints, (n - 1) as nat, previous, current, k);
    }
}

proof fn lemma_crossing_window(
    previous: Seq<QuotaWindowView>,
    current: Seq<QuotaWindowView>,
    n: nat,
    checkpoints: Seq<u8>,
    j: int,
    pw: QuotaWindowView,
)
    requires
        0 <= j < n <= current.len(),
        find_window(previous, current[j].key, 0) == Some(pw),
        checkpoint_texts(checkpoints, checkpoints.len(), pw.used_percent, current[j]).len() > 0,
    ensures
        window_texts(previous, current, n, checkpoints).len() > 0,
    decreases n,
{
    if j < n - 1 {
        lemma_crossing_window(previous, current, (n - 1) as nat, checkpoints, j, pw);
    }
}

proof fn lemma_crossing_group(
    previous: Seq<QuotaGroupView>,
    current: Seq<QuotaGroupView>,
    n: nat,
    checkpoints: Seq<u8>,
    i: int,
    pg: QuotaGroupView,
)
    requires
        0 <= i < n <= current.len(),
        find_group(previous, current[i].id, 0) == Some(pg),
        window_texts(pg.windows, current[i].windows, current[i].windows.len(), checkpoints).len() > 0,
    ensures
        group_texts(previous, current, n, checkpoints).len() > 0,
    decreases n,
{
    if i < n - 1 {
        lemma_crossing_group(previous, current, (n - 1) as nat, checkpoints, i, pg);
    }
}

/// Every downward crossing is reported: when a window's remaining share fell from above a
/// configured checkpoint to at or below it since the previous refresh, there is a message.
pub proof fn law_crossings_are_reported(
    previous: UsageSnapshotView,
    current: UsageSnapshotView,
    checkpoints: Seq<u8>,
    i: int,
    j: int,
    k: int,
)
    requires
        0 <= k < checkpoints.len(),
        crossed_in(previous.quota_groups, current.quota_groups, i, j, checkpoints[k]),
    ensures
        checkpoint_message_spec(Some(previous), current, checkpoints) is Some,
{
    let g = current.quota_groups[i];
    let pg = find_group(previous.quota_groups, g.id, 0)->Some_0;
    let pw = find_window(pg.windows, g.windows[j].key, 0)->Some_0;
    lemma_crossing_text(checkpoints, checkpoints.len(), pw.used_percent, g.windows[j], k);
    lemma_crossing_window(pg.windows, g.windows, g.windows.len(), checkpoints, j, pw);
    lemma_crossing_group(previous.quota_groups, current.quota_groups, current.quota_groups.len(), checkpoints, i, pg);
}

/// No two groups share an id, and no two windows of one group share a key (as in every
/// snapshot that `normalize_snapshot` builds).
pub open spec fn distinct_ids_and_keys(groups: Seq<QuotaGroupView>) -> bool {
    &&& forall|i: int, j: int| 0 <= i < j < groups.len() ==> #[trigger] groups[i].id != #[trigger] groups[j].id
    &&& forall|i: int, a: int, b: int| 0 <= i < groups.len() && 0 <= a < b < groups[i].windows.len() ==>
        #[trigger] groups[i].windows[a].key != #[trigger] groups[i].windows[b].key
}

proof fn lemma_find_own_group(groups: Seq<QuotaGroupView>, i: int, from: int)
    requires
        0 <= from <= i < groups.len(),
        forall|a: int, b: int| 0 <= a < b < groups.len() ==> #[trigger] groups[a].id != #[trigger] groups[b].id,
    ensures
        find_group(groups, groups[i].id, from) == Some(groups[i]),
    decreases i - from,
{
    if from < i {
        assert(groups[from].id != groups[i].id);
        lemma_find_own_group(groups, i, from + 1);
    }
}

proof fn lemma_find_own_window(windows: Seq<QuotaWindowView>, j: int, from: int)
    requires
        0 <= from <= j < windows.len(),
        forall|a: int, b: int| 0 <= a < b < windows.len() ==> #[trigger] windows[a].key != #[trigger] windows[b].key,
    ensures
        find_window(windows, windows[j].key, from) == Some(windows[j]),
    decreases j - from,
{
    if from < j {
        assert(windows[from].key != windows[j].key);
        lemma_find_own_window(windows, j, from + 1);
    }
}

/// A refresh that finds the same usage as before reports no checkpoint: each window is
/// compared with itself, the window of the same key in the group of the same id, so nothing
/// has fallen, whatever the checkpoints.
pub proof fn law_unchanged_snapshot_reports_nothing(s: UsageSnapshotView, checkpoints: Seq<u8>)
    requires
        distinct_ids_and_keys(s.quota_groups),
    ensures
        checkpoint_message_spec(Some(s), s, checkpoints) is None,
{
    let groups = s.quota_groups;
    assert forall|i: int, j: int|
        #![trigger groups[i].windows[j]]
        0 <= i < groups.len() && 0 <= j < groups[i].windows.len() implies match find_group(groups, groups[i].id, 0) {
            Some(pg) => match find_window(pg.windows, groups[i].windows[j].key, 0) {
                Some(pw) => percent_at_most(groups[i].windows[j].used_percent, pw.used_percent),
                None => true,
            },
            None => true,
        } by {
        lemma_find_own_group(groups, i, 0);
        let ws = groups[i].windows;
        assert forall|a: int, b: int| 0 <= a < b < ws.len() implies #[trigger] ws[a].key != #[trigger] ws[b].key by {
            assert(groups[i].windows[a].key != groups[i].windows[b].key);
        }
        lemma_find_own_window(ws, j, 0);
        let p = ws[j].used_percent;
        assert(p.mantissa * pow2(p.shift as nat) <= p.mantissa * pow2(p.shift as nat));
    }
    assert(nothing_fell(groups, groups));
    law_checkpoints_only_report_a_fall(s, s, checkpoints);
}

/// Reading the same usage twice reports no checkpoint: for every snapshot built from the
/// app-server's results, comparing it with itself gives no message, whatever the checkpoints.
pub proof fn law_same_usage_twice_reports_nothing(
    r: JsonValue,
    usage: Option<JsonValue>,
    today: Seq<char>,
    updated_at: i64,
    checkpoints: Seq<u8>,
)
    ensures
        snapshot_spec(r, usage, today, updated_at) matches Ok(snap) ==>
            checkpoint_message_spec(Some(snap), snap, checkpoints) is None,
{
    law_snapshot_groups_are_distinct(r, usage, today, updated_at);
    law_snapshot_window_keys_are_distinct(r, usage, today, updated_at);
    match snapshot_spec(r, usage, today, updated_at) {
        Ok(snap) => {
            let groups = snap.quota_groups;
            assert forall|i: int, a: int, b: int| 0 <= i < groups.len() && 0 <= a < b < groups[i].windows.len() implies
                #[trigger] groups[i].windows[a].key != #[trigger] groups[i].windows[b].key by {
                assert(window_keys_distinct(groups[i].windows));
            }
            law_unchanged_snapshot_reports_nothing(snap, checkpoints);
        },
        Err(_) => {},
    }
}

} // verus!
