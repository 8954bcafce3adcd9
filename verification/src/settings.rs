//! Persisted user settings and their normalisation.

use vstd::prelude::*;
use std::path::PathBuf;

verus! {

pub const DEFAULT_REFRESH_INTERVAL_SECS: u64 = 60;
pub const MIN_REFRESH_INTERVAL_SECS: u64 = 15;
pub const MAX_REFRESH_INTERVAL_SECS: u64 = 300;
pub const MIN_CHECKPOINT_PERCENT: u8 = 1;
pub const MAX_CHECKPOINT_PERCENT: u8 = 99;

/// `std::path::PathBuf`, carried through unchanged.
#[verifier::external_type_specification]
#[verifier::external_body]
pub struct ExPathBuf(PathBuf);

/// A refresh interval clamped to `15..=300` seconds.
pub open spec fn refresh_interval_spec(value: u64) -> u64 {
    if value < MIN_REFRESH_INTERVAL_SECS {
        MIN_REFRESH_INTERVAL_SECS
    } else if value > MAX_REFRESH_INTERVAL_SECS {
        MAX_REFRESH_INTERVAL_SECS
    } else {
        value
    }
}

/// Clamps a refresh interval to the supported range of 15 to 300 seconds.
pub fn normalize_refresh_interval_secs(value: u64) -> (r: u64)
    ensures
        r == refresh_interval_spec(value),
        MIN_REFRESH_INTERVAL_SECS <= r <= MAX_REFRESH_INTERVAL_SECS,
{
    if value < MIN_REFRESH_INTERVAL_SECS {
        MIN_REFRESH_INTERVAL_SECS
    } else if value > MAX_REFRESH_INTERVAL_SECS {
        MAX_REFRESH_INTERVAL_SECS
    } else {
        value
    }
}

/// A checkpoint percentage that the overlay accepts.
pub open spec fn valid_checkpoint(x: u8) -> bool {
    MIN_CHECKPOINT_PERCENT <= x <= MAX_CHECKPOINT_PERCENT
}

/// Strictly descending.
pub open spec fn strictly_descending(s: Seq<u8>) -> bool {
    forall|i: int, j: int| 0 <= i < j < s.len() ==> s[i] > s[j]
}

/// `r` holds the distinct values of `values` within `1..=99`, in descending order.
pub open spec fn is_normalized_checkpoints(values: Seq<u8>, r: Seq<u8>) -> bool {
    &&& strictly_descending(r)
    &&& forall|x: u8| #[trigger] r.contains(x) <==> (values.contains(x) && valid_checkpoint(x))
}

/// Keeps the checkpoint percentages within `1..=99`, sorted from highest to lowest, each once.
pub fn normalize_checkpoint_percentages(values: &[u8]) -> (r: Vec<u8>)
    ensures
        is_normalized_checkpoints(values@, r@),
{
    let mut present: Vec<bool> = Vec::new();
    let mut k: usize = 0;
    while k < 100
        invariant
            k <= 100,
            present@.len() == k,
            forall|x: int| 0 <= x < k ==> !present@[x],
        decreases 100 - k,
    {
        present.push(false);
        k = k + 1;
    }
    let mut i: usize = 0;
    while i < values.len()
        invariant
            i <= values.len(),
            present@.len() == 100,
            forall|x: u8| x < 100 ==> (#[trigger] present@[x as int] <==> (values@.take(i as int).contains(x) && valid_checkpoint(x))),
        decreases values.len() - i,
    {
        let v = values[i];
        let ghost old_present = present@;
        if MIN_CHECKPOINT_PERCENT <= v && v <= MAX_CHECKPOINT_PERCENT {
            present.set(v as usize, true);
        }
        proof {
            let next = values@.take(i + 1);
            let prev = values@.take(i as int);
            assert(next =~= prev.push(v));
            assert forall|x: u8| x < 100 implies (#[trigger] present@[x as int] <==> (next.contains(x) && valid_checkpoint(x))) by {
                if x == v {
                    assert(next[i as int] == v);
                }
                if next.contains(x) {
                    let j = choose|j: int| 0 <= j < next.len() && next[j] == x;
                    if j < i {
                        assert(prev[j] == x);
                    }
                }
                if prev.contains(x) {
                    let j = choose|j: int| 0 <= j < prev.len() && prev[j] == x;
                    assert(next[j] == x);
                }
                assert(old_present[x as int] <==> (prev.contains(x) && valid_checkpoint(x)));
            }
        }
        i = i + 1;
    }
    proof {
        assert(values@.take(values.len() as int) =~= values@);
        assert forall|x: u8| x < 100 implies (#[trigger] present@[x as int] <==> (values@.contains(x) && valid_checkpoint(x))) by {
            assert(present@[x as int] <==> (values@.take(values.len() as int).contains(x) && valid_checkpoint(x)));
        }
    }
    let mut r: Vec<u8> = Vec::new();
    let mut p: u8 = 100;
    while p > 0
        invariant
            p <= 100,
            present@.len() == 100,
            forall|x: u8| x < 100 ==> (#[trigger] present@[x as int] <==> (values@.contains(x) && valid_checkpoint(x))),
            strictly_descending(r@),
            forall|j: int| 0 <= j < r@.len() ==> r@[j] >= p,
            forall|x: u8| r@.contains(x) <==> (x >= p && x < 100 && present@[x as int]),
        decreases p,
    {
        p = p - 1;
        let ghost before = r@;
        if present[p as usize] {
            r.push(p);
        }
        proof {
            assert forall|x: u8| r@.contains(x) <==> (x >= p && x < 100 && present@[x as int]) by {
                if x == p && present@[p as int] {
                    assert(r@[before.len() as int] == p);
                }
                if r@.contains(x) {
                    let j = choose|j: int| 0 <= j < r@.len() && r@[j] == x;
                    if j < before.len() {
                        assert(before[j] == x);
                        assert(before.contains(x));
                    }
                }
                if x > p && x < 100 && present@[x as int] {
                    assert(before.contains(x));
                    let j = choose|j: int| 0 <= j < before.len() && before[j] == x;
                    assert(r@[j] == x);
                }
            }
        }
    }
    proof {
        assert forall|x: u8| r@.contains(x) <==> (values@.contains(x) && valid_checkpoint(x)) by {
            if x < 100 {
                assert(present@[x as int] <==> (values@.contains(x) && valid_checkpoint(x)));
            }
        }
    }
    r
}

/// Two strictly descending sequences with the same elements are equal.
proof fn lemma_descending_unique(a: Seq<u8>, b: Seq<u8>)
    requires
        strictly_descending(a),
        strictly_descending(b),
        forall|x: u8| a.contains(x) <==> b.contains(x),
    ensures
        a == b,
    decreases a.len(),
{
    if a.len() == 0 {
        if b.len() > 0 {
            assert(b.contains(b[0]));
        }
        assert(a =~= b);
    } else {
        assert(a.contains(a[0]));
        assert(b.len() > 0);
        assert(b.contains(b[0]));
        let k = choose|k: int| 0 <= k < b.len() && b[k] == a[0];
        let j = choose|j: int| 0 <= j < a.len() && a[j] == b[0];
        assert(a[0] == b[0]) by {
            if k > 0 {
                assert(b[0] > b[k]);
            }
            if j > 0 {
                assert(a[0] > a[j]);
            }
        }
        let a1 = a.drop_first();
        let b1 = b.drop_first();
        assert forall|x: u8| a1.contains(x) <==> b1.contains(x) by {
            if a1.contains(x) {
                let i = choose|i: int| 0 <= i < a1.len() && a1[i] == x;
                assert(a[i + 1] == x && x < a[0]);
                assert(a.contains(x));
                let m = choose|m: int| 0 <= m < b.len() && b[m] == x;
                assert(m != 0);
                assert(b1[m - 1] == x);
            }
            if b1.contains(x) {
                let i = choose|i: int| 0 <= i < b1.len() && b1[i] == x;
                assert(b[i + 1] == x && x < b[0]);
                assert(b.contains(x));
                let m = choose|m: int| 0 <= m < a.len() && a[m] == x;
                assert(m != 0);
                assert(a1[m - 1] == x);
            }
        }
        lemma_descending_unique(a1, b1);
        assert(a.len() == b.len());
        assert forall|i: int| 0 <= i < a.len() implies a[i] == b[i] by {
            if i > 0 {
                assert(a[i] == a1[i - 1]);
                assert(b[i] == b1[i - 1]);
            }
        }
        assert(a =~= b);
    }
}

/// Normalising checkpoint percentages has exactly one outcome for given input.
pub proof fn law_checkpoints_normalization_is_determined(values: Seq<u8>, r1: Seq<u8>, r2: Seq<u8>)
    requires
        is_normalized_checkpoints(values, r1),
        is_normalized_checkpoints(values, r2),
    ensures
        r1 == r2,
{
    assert forall|x: u8| r1.contains(x) <==> r2.contains(x) by {
        assert(r1.contains(x) <==> (values.contains(x) && valid_checkpoint(x)));
        assert(r2.contains(x) <==> (values.contains(x) && valid_checkpoint(x)));
    }
    lemma_descending_unique(r1, r2);
}

/// Normalising already normalised checkpoint percentages leaves them unchanged.
pub proof fn law_checkpoints_normalization_is_idempotent(values: Seq<u8>, r: Seq<u8>, r2: Seq<u8>)
    requires
        is_normalized_checkpoints(values, r),
        is_normalized_checkpoints(r, r2),
    ensures
        r2 == r,
{
    assert forall|x: u8| r2.contains(x) <==> r.contains(x) by {
        assert(r.contains(x) <==> (values.contains(x) && valid_checkpoint(x)));
        assert(r2.contains(x) <==> (r.contains(x) && valid_checkpoint(x)));
    }
    lemma_descending_unique(r2, r);
}

/// A normalised refresh interval lies in 15..=300 seconds, an interval already in that range
/// is kept, and normalising twice changes nothing.
pub proof fn law_refresh_interval_bounds(value: u64)
    ensures
        MIN_REFRESH_INTERVAL_SECS <= refresh_interval_spec(value) <= MAX_REFRESH_INTERVAL_SECS,
        MIN_REFRESH_INTERVAL_SECS <= value <= MAX_REFRESH_INTERVAL_SECS ==> refresh_interval_spec(value) == value,
        refresh_interval_spec(refresh_interval_spec(value)) == refresh_interval_spec(value),
{
}

/// The checkpoints used when none were chosen: 50 %, 20 % and 10 %.
pub fn default_checkpoint_percentages() -> (r: Vec<u8>)
    ensures
        r@ == seq![50u8, 20u8, 10u8],
{
    let mut r: Vec<u8> = Vec::new();
    r.push(50);
    r.push(20);
    r.push(10);
    r
}

/// The user's settings.
#[derive(Debug)]
pub struct Settings {
    pub codex_executable: Option<String>,
    pub window_x: Option<i32>,
    pub window_y: Option<i32>,
    pub expanded: bool,
    pub autostart_initialized: bool,
    pub refresh_interval_secs: u64,
    pub checkpoint_percentages: Vec<u8>,
}

impl Default for Settings {
    fn default() -> (s: Settings)
        ensures
            s.codex_executable is None,
            s.window_x is None,
            s.window_y is None,
            !s.expanded,
            !s.autostart_initialized,
            s.refresh_interval_secs == DEFAULT_REFRESH_INTERVAL_SECS,
            s.checkpoint_percentages@ == seq![50u8, 20u8, 10u8],
    {
        Settings {
            codex_executable: None,
            window_x: None,
            window_y: None,
            expanded: false,
            autostart_initialized: false,
            refresh_interval_secs: DEFAULT_REFRESH_INTERVAL_SECS,
            checkpoint_percentages: default_checkpoint_percentages(),
        }
    }
}

/// Settings together with the file they were read from.
pub struct LoadedSettings {
    pub value: Settings,
    pub path: PathBuf,
}

} // verus!
