//! Rolling per-phase capture performance statistics for the Diagnostics view.
//!
//! The last samples of each phase are kept per monitor; overall statistics
//! are computed over the samples of all monitors together, so the overall
//! minimum and maximum never lose a sample because another monitor is active.

use crate::stats::{
    lemma_min_max_of_concat, opt_max, opt_min, summarize_ms, summary_spec, StageTimingStats,
};
use crate::text::{push_signed, push_str, signed_decimal, string_from_chars};
use std::collections::{HashMap, VecDeque};
use vstd::prelude::*;
use vstd::seq_lib::group_to_multiset_ensures;
use vstd::std_specs::hash::{group_hash_axioms, spec_keys_iter};
use vstd::std_specs::iter::IteratorSpec;

verus! {

broadcast use group_hash_axioms;

/// Samples kept per monitor and phase.
pub const PER_MONITOR_WINDOW: usize = 120;

/// `s` after appending `v`, first dropping its oldest sample when it holds
/// `cap` or more.
pub open spec fn capped_push(s: Seq<u64>, v: u64, cap: nat) -> Seq<u64> {
    if s.len() >= cap && s.len() > 0 {
        s.subrange(1, s.len() as int).push(v)
    } else {
        s.push(v)
    }
}

/// Appends `value`, dropping the oldest sample when the deque is full.
pub fn push_capped(deque: &mut VecDeque<u64>, value: u64, cap: usize)
    ensures
        final(deque)@ == capped_push(old(deque)@, value, cap as nat),
{
    if deque.len() >= cap {
        deque.pop_front();
    }
    deque.push_back(value);
}

/// A window kept with `push_capped` never holds more than `cap` samples:
/// it ends with the newest sample and keeps the most recent ones in order.
pub proof fn lemma_capped_window(s: Seq<u64>, v: u64, cap: nat)
    requires
        s.len() <= cap,
        cap > 0,
    ensures
        capped_push(s, v, cap).len() <= cap,
        capped_push(s, v, cap).last() == v,
        capped_push(s, v, cap) == s.push(v).skip(s.push(v).len() - capped_push(s, v, cap).len()),
{
    if s.len() >= cap && s.len() > 0 {
        assert(capped_push(s, v, cap) =~= s.push(v).skip(1));
    } else {
        assert(capped_push(s, v, cap) =~= s.push(v).skip(0));
    }
}

/// The per-phase sample windows of one monitor.
pub struct PhaseView {
    pub capture: Seq<u64>,
    pub dhash: Seq<u64>,
    pub downscale: Seq<u64>,
    pub save: Seq<u64>,
    pub db: Seq<u64>,
    pub total: Seq<u64>,
}

/// No samples yet.
pub open spec fn empty_phases() -> PhaseView {
    PhaseView {
        capture: Seq::empty(),
        dhash: Seq::empty(),
        downscale: Seq::empty(),
        save: Seq::empty(),
        db: Seq::empty(),
        total: Seq::empty(),
    }
}

/// The windows after recording one capture's phase timings.
pub open spec fn push_phases(
    v: PhaseView,
    capture: u64,
    dhash: u64,
    downscale: u64,
    save: u64,
    db: u64,
    total: u64,
) -> PhaseView {
    PhaseView {
        capture: capped_push(v.capture, capture, PER_MONITOR_WINDOW as nat),
        dhash: capped_push(v.dhash, dhash, PER_MONITOR_WINDOW as nat),
        downscale: capped_push(v.downscale, downscale, PER_MONITOR_WINDOW as nat),
        save: capped_push(v.save, save, PER_MONITOR_WINDOW as nat),
        db: capped_push(v.db, db, PER_MONITOR_WINDOW as nat),
        total: capped_push(v.total, total, PER_MONITOR_WINDOW as nat),
    }
}

/// Rolling samples of every capture phase for one monitor.
pub struct PhaseSamples {
    pub capture: VecDeque<u64>,
    pub dhash: VecDeque<u64>,
    pub downscale: VecDeque<u64>,
    pub save: VecDeque<u64>,
    pub db: VecDeque<u64>,
    pub total: VecDeque<u64>,
}

impl View for PhaseSamples {
    type V = PhaseView;

    open spec fn view(&self) -> PhaseView {
        PhaseView {
            capture: self.capture@,
            dhash: self.dhash@,
            downscale: self.downscale@,
            save: self.save@,
            db: self.db@,
            total: self.total@,
        }
    }
}

/// Statistics of each phase of a monitor.
#[derive(Clone, Debug, Default, PartialEq, Eq)]
pub struct PerPhaseStats {
    pub sample_count: usize,
    pub capture: StageTimingStats,
    pub dhash: StageTimingStats,
    pub downscale: StageTimingStats,
    pub save: StageTimingStats,
    pub db: StageTimingStats,
    pub total: StageTimingStats,
}

/// Statistics of a monitor's sample windows; the sample count is that of
/// the total-duration window.
pub open spec fn phase_summary(v: PhaseView) -> PerPhaseStats {
    PerPhaseStats {
        sample_count: v.total.len() as usize,
        capture: summary_spec(v.capture),
        dhash: summary_spec(v.dhash),
        downscale: summary_spec(v.downscale),
        save: summary_spec(v.save),
        db: summary_spec(v.db),
        total: summary_spec(v.total),
    }
}

/// The samples of a deque, oldest first.
pub fn deque_to_vec(d: &VecDeque<u64>) -> (v: Vec<u64>)
    ensures
        v@ == d@,
{
    let mut v: Vec<u64> = Vec::new();
    let mut i: usize = 0;
    while i < d.len()
        invariant
            i <= d@.len(),
            v@ == d@.subrange(0, i as int),
        decreases d@.len() - i,
    {
        v.push(d[i]);
        i = i + 1;
        proof {
            assert(v@ =~= d@.subrange(0, i as int));
        }
    }
    proof {
        assert(d@.subrange(0, d@.len() as int) =~= d@);
    }
    v
}

impl PhaseSamples {
    /// No samples.
    pub fn new() -> (s: Self)
        ensures
            s@ == empty_phases(),
    {
        PhaseSamples {
            capture: VecDeque::new(),
            dhash: VecDeque::new(),
            downscale: VecDeque::new(),
            save: VecDeque::new(),
            db: VecDeque::new(),
            total: VecDeque::new(),
        }
    }

    /// Records one capture's phase timings.
    pub fn push(&mut self, capture: u64, dhash: u64, downscale: u64, save: u64, db: u64, total: u64)
        ensures
            final(self)@ == push_phases(old(self)@, capture, dhash, downscale, save, db, total),
    {
        push_capped(&mut self.capture, capture, PER_MONITOR_WINDOW);
        push_capped(&mut self.dhash, dhash, PER_MONITOR_WINDOW);
        push_capped(&mut self.downscale, downscale, PER_MONITOR_WINDOW);
        push_capped(&mut self.save, save, PER_MONITOR_WINDOW);
        push_capped(&mut self.db, db, PER_MONITOR_WINDOW);
        push_capped(&mut self.total, total, PER_MONITOR_WINDOW);
    }

    /// Statistics of each phase.
    pub fn summarize(&self) -> (st: PerPhaseStats)
        ensures
            st == phase_summary(self@),
    {
        PerPhaseStats {
            sample_count: self.total.len(),
            capture: summarize_ms(&deque_to_vec(&self.capture)),
            dhash: summarize_ms(&deque_to_vec(&self.dhash)),
            downscale: summarize_ms(&deque_to_vec(&self.downscale)),
            save: summarize_ms(&deque_to_vec(&self.save)),
            db: summarize_ms(&deque_to_vec(&self.db)),
            total: summarize_ms(&deque_to_vec(&self.total)),
        }
    }
}


/// The name shown for a monitor without a recorded name.
pub open spec fn default_monitor_name(id: i32) -> Seq<char> {
    "Monitor "@ + signed_decimal(id as int)
}

/// The default name of a monitor.
pub fn monitor_default_name(id: i32) -> (s: String)
    ensures
        s@ == default_monitor_name(id),
{
    let mut v: Vec<char> = Vec::new();
    push_str(&mut v, "Monitor ");
    push_signed(&mut v, id as i64);
    string_from_chars(&v)
}

/// One phase's window: 0 capture, 1 dhash, 2 downscale, 3 save, 4 db, 5 total.
pub open spec fn select_phase(p: PhaseView, which: u8) -> Seq<u64> {
    if which == 0 {
        p.capture
    } else if which == 1 {
        p.dhash
    } else if which == 2 {
        p.downscale
    } else if which == 3 {
        p.save
    } else if which == 4 {
        p.db
    } else {
        p.total
    }
}

/// The samples of one phase of all monitors, monitor after monitor.
pub open spec fn concat_phase(v: Seq<(i32, PhaseView)>, which: u8) -> Seq<u64>
    decreases v.len(),
{
    if v.len() == 0 {
        Seq::empty()
    } else {
        concat_phase(v.drop_last(), which) + select_phase(v.last().1, which)
    }
}

/// Statistics over the samples of all monitors together; the sample count
/// is the number of total-duration samples.
pub open spec fn aggregate_spec(v: Seq<(i32, PhaseView)>) -> PerPhaseStats {
    PerPhaseStats {
        sample_count: concat_phase(v, 5).len() as usize,
        capture: summary_spec(concat_phase(v, 0)),
        dhash: summary_spec(concat_phase(v, 1)),
        downscale: summary_spec(concat_phase(v, 2)),
        save: summary_spec(concat_phase(v, 3)),
        db: summary_spec(concat_phase(v, 4)),
        total: summary_spec(concat_phase(v, 5)),
    }
}

/// The newest `cap` values of `s` followed by `vs` (all of them when fewer).
pub open spec fn capped_history(s: Seq<u64>, vs: Seq<u64>, cap: nat) -> Seq<u64> {
    let h = s + vs;
    if h.len() > cap {
        h.skip(h.len() - cap)
    } else {
        h
    }
}

/// Pushing one more value into a capped window extends its history.
proof fn lemma_capped_history_step(s: Seq<u64>, vs: Seq<u64>, x: u64, cap: nat)
    requires
        s.len() <= cap,
        cap > 0,
    ensures
        capped_push(capped_history(s, vs, cap), x, cap) == capped_history(s, vs.push(x), cap),
{
    let h = s + vs;
    assert(s + vs.push(x) =~= h.push(x));
    let w = capped_history(s, vs, cap);
    if h.len() > cap {
        assert(w.len() == cap);
        assert(capped_push(w, x, cap) =~= h.push(x).skip(h.len() + 1 - cap));
    } else if h.len() == cap {
        assert(w =~= h);
        assert(capped_push(w, x, cap) =~= h.push(x).skip(1));
    } else {
        assert(w =~= h);
    }
}

/// The timings of one capture: capture, dhash, downscale, save, db, total.
pub type PhaseTimings = (u64, u64, u64, u64, u64, u64);

/// One phase's timing of a capture (0 capture ... 5 total).
pub open spec fn timing_of(t: PhaseTimings, which: u8) -> u64 {
    if which == 0 {
        t.0
    } else if which == 1 {
        t.1
    } else if which == 2 {
        t.2
    } else if which == 3 {
        t.3
    } else if which == 4 {
        t.4
    } else {
        t.5
    }
}

/// One phase's timings of a run of captures, oldest first.
pub open spec fn phase_values(ts: Seq<PhaseTimings>, which: u8) -> Seq<u64> {
    ts.map_values(|t: PhaseTimings| timing_of(t, which))
}

/// One phase's statistics: 0 capture, 1 dhash, 2 downscale, 3 save, 4 db,
/// 5 total.
pub open spec fn stats_of(st: PerPhaseStats, which: u8) -> StageTimingStats {
    if which == 0 {
        st.capture
    } else if which == 1 {
        st.dhash
    } else if which == 2 {
        st.downscale
    } else if which == 3 {
        st.save
    } else if which == 4 {
        st.db
    } else {
        st.total
    }
}

/// The least of the per-monitor minima of one phase.
pub open spec fn monitors_min(v: Seq<(i32, PhaseView)>, which: u8) -> Option<u64>
    decreases v.len(),
{
    if v.len() == 0 {
        None
    } else {
        opt_min(monitors_min(v.drop_last(), which), stats_of(phase_summary(v.last().1), which).min_ms)
    }
}

/// The greatest of the per-monitor maxima of one phase.
pub open spec fn monitors_max(v: Seq<(i32, PhaseView)>, which: u8) -> Option<u64>
    decreases v.len(),
{
    if v.len() == 0 {
        None
    } else {
        opt_max(monitors_max(v.drop_last(), which), stats_of(phase_summary(v.last().1), which).max_ms)
    }
}

/// The sum of the per-monitor sample counts.
pub open spec fn monitors_count(v: Seq<(i32, PhaseView)>) -> nat
    decreases v.len(),
{
    if v.len() == 0 {
        0
    } else {
        monitors_count(v.drop_last()) + v.last().1.total.len()
    }
}

/// The overall statistics aggregate the per-monitor ones: the overall
/// sample count is the sum of the monitors' counts, and each phase's overall
/// minimum and maximum are the least minimum and the greatest maximum among
/// the monitors, so no sample is lost.
pub proof fn lemma_overall_aggregates_monitors(v: Seq<(i32, PhaseView)>, which: u8)
    requires
        which < 6,
    ensures
        concat_phase(v, 5).len() == monitors_count(v),
        aggregate_spec(v).sample_count == monitors_count(v) as usize,
        stats_of(aggregate_spec(v), which).min_ms == monitors_min(v, which),
        stats_of(aggregate_spec(v), which).max_ms == monitors_max(v, which),
    decreases v.len(),
{
    if v.len() > 0 {
        lemma_overall_aggregates_monitors(v.drop_last(), which);
        lemma_min_max_of_concat(
            concat_phase(v.drop_last(), which),
            select_phase(v.last().1, which),
        );
    }
}

/// Statistics of one monitor.
#[derive(Clone, Debug, Default)]
pub struct MonitorCapturePerf {
    pub monitor_id: i32,
    pub monitor_name: String,
    pub stats: PerPhaseStats,
}

/// Everything the Diagnostics view shows about capture performance.
#[derive(Clone, Debug, Default)]
pub struct CapturePerfSnapshot {
    pub overall: PerPhaseStats,
    pub by_monitor: Vec<MonitorCapturePerf>,
    /// Statistics of frames that were saved to disk (skipped ones excluded).
    pub saved_overall: PerPhaseStats,
    pub saved_by_monitor: Vec<MonitorCapturePerf>,
    /// Duration of the last full tick, ms.
    pub last_tick_ms: u64,
    /// Duration of monitor enumeration in the last tick, ms.
    pub last_tick_enum_ms: u64,
}

/// The windows stored per monitor id.
pub open spec fn samples_view(m: Map<i32, PhaseSamples>) -> Map<i32, PhaseView> {
    Map::new(|k: i32| m.dom().contains(k), |k: i32| m[k]@)
}

/// The names stored per monitor id.
pub open spec fn names_view_of(m: Map<i32, String>) -> Map<i32, Seq<char>> {
    Map::new(|k: i32| m.dom().contains(k), |k: i32| m[k]@)
}

/// The windows of monitor `id`, or none.
pub open spec fn phases_of(m: Map<i32, PhaseView>, id: i32) -> PhaseView {
    if m.contains_key(id) {
        m[id]
    } else {
        empty_phases()
    }
}

/// The recorded name of monitor `id`, or its default name.
pub open spec fn name_of(m: Map<i32, Seq<char>>, id: i32) -> Seq<char> {
    if m.contains_key(id) {
        m[id]
    } else {
        default_monitor_name(id)
    }
}

/// The windows after recording a capture for monitor `id`.
pub open spec fn record_into(
    m: Map<i32, PhaseView>,
    id: i32,
    capture: u64,
    dhash: u64,
    downscale: u64,
    save: u64,
    db: u64,
    total: u64,
) -> Map<i32, PhaseView> {
    m.insert(id, push_phases(phases_of(m, id), capture, dhash, downscale, save, db, total))
}

/// The names after naming monitor `id`.
pub open spec fn set_name(m: Map<i32, Seq<char>>, id: i32, name: Seq<char>) -> Map<i32, Seq<char>> {
    m.insert(id, name)
}

/// The names after giving monitor `id` its default name unless it has one.
pub open spec fn ensure_name(m: Map<i32, Seq<char>>, id: i32) -> Map<i32, Seq<char>> {
    if m.contains_key(id) {
        m
    } else {
        m.insert(id, default_monitor_name(id))
    }
}

/// Ids strictly increase along the list.
pub open spec fn strictly_sorted(k: Seq<i32>) -> bool {
    forall|i: int, j: int| 0 <= i < j < k.len() ==> k[i] < k[j]
}

/// The windows of the monitors `ks`, in that order.
pub open spec fn entries(m: Map<i32, PhaseView>, ks: Seq<i32>) -> Seq<(i32, PhaseView)> {
    ks.map_values(|k: i32| (k, phases_of(m, k)))
}

/// The ids of a map, in the order its key iterator gives them.
fn map_keys<V>(m: &HashMap<i32, V>) -> (r: Vec<i32>)
    ensures
        r@.to_set() == m@.dom(),
        r@.no_duplicates(),
{
    let mut r: Vec<i32> = Vec::new();
    for k in it: m.keys()
        invariant
            r@.len() == it.index(),
            forall|j: int| 0 <= j < it.index() ==> r@[j] == *it.seq()[j],
    {
        r.push(*k);
    }
    proof {
        let ks = spec_keys_iter(m).remaining().unref();
        assert(r@ =~= ks);
    }
    r
}

proof fn lemma_insert_strict(r: Seq<i32>, k: int, x: i32)
    requires
        strictly_sorted(r),
        0 <= k <= r.len(),
        forall|j: int| 0 <= j < k ==> r[j] < x,
        k < r.len() ==> r[k] > x,
    ensures
        strictly_sorted(r.insert(k, x)),
{
    let w = r.insert(k, x);
    r.insert_ensures(k, x);
    assert forall|i: int, j: int| 0 <= i < j < w.len() implies w[i] < w[j] by {
        if j < k {
        } else if j == k {
        } else if i < k {
            assert(w[j] == r[j - 1]);
            assert(r[k] <= r[j - 1]) by {
                if k < j - 1 {
                    assert(r[k] < r[j - 1]);
                }
            }
        } else if i == k {
            assert(w[j] == r[j - 1]);
            assert(r[k] <= r[j - 1]) by {
                if k < j - 1 {
                    assert(r[k] < r[j - 1]);
                }
            }
        } else {
            assert(r[i - 1] < r[j - 1]);
        }
    }
}

/// The ids in increasing order.
fn sort_ids(v: &Vec<i32>) -> (r: Vec<i32>)
    requires
        v@.no_duplicates(),
    ensures
        strictly_sorted(r@),
        r@.to_set() == v@.to_set(),
{
    broadcast use group_to_multiset_ensures;

    let mut r: Vec<i32> = Vec::new();
    let mut i: usize = 0;
    while i < v.len()
        invariant
            i <= v@.len(),
            v@.no_duplicates(),
            strictly_sorted(r@),
            r@.to_multiset() == v@.subrange(0, i as int).to_multiset(),
        decreases v@.len() - i,
    {
        let x = v[i];
        proof {
            assert(!v@.subrange(0, i as int).contains(x)) by {
                if v@.subrange(0, i as int).contains(x) {
                    let j = choose|j: int| 0 <= j < i && v@.subrange(0, i as int)[j] == x;
                    assert(v@[j] == v@[i as int]);
                }
            }
            vstd::seq_lib::to_multiset_contains(v@.subrange(0, i as int), x);
            vstd::seq_lib::to_multiset_contains(r@, x);
            assert(!r@.contains(x));
        }
        let mut k: usize = 0;
        while k < r.len() && r[k] < x
            invariant
                k <= r@.len(),
                forall|j: int| 0 <= j < k ==> r@[j] < x,
            decreases r@.len() - k,
        {
            k = k + 1;
        }
        let ghost before = r@;
        proof {
            if k < r@.len() {
                assert(r@[k as int] != x);
            }
        }
        r.insert(k, x);
        proof {
            lemma_insert_strict(before, k as int, x);
            assert(v@.subrange(0, i as int + 1) =~= v@.subrange(0, i as int).push(x));
            vstd::seq_lib::to_multiset_insert(before, k as int, x);
            vstd::seq_lib::to_multiset_build(v@.subrange(0, i as int), x);
            assert(r@.to_multiset() =~= v@.subrange(0, i as int + 1).to_multiset());
        }
        i = i + 1;
    }
    proof {
        assert(v@.subrange(0, v@.len() as int) =~= v@);
        assert forall|a: i32| r@.to_set().contains(a) == v@.to_set().contains(a) by {
            vstd::seq_lib::to_multiset_contains(r@, a);
            vstd::seq_lib::to_multiset_contains(v@, a);
        }
        assert(r@.to_set() =~= v@.to_set());
    }
    r
}

/// The ids of a map in increasing order.
fn sorted_ids<V>(m: &HashMap<i32, V>) -> (r: Vec<i32>)
    ensures
        strictly_sorted(r@),
        r@.to_set() == m@.dom(),
{
    let ks = map_keys(m);
    sort_ids(&ks)
}

/// Recording a capture of monitor `id` pushes the timings into that
/// monitor's windows (starting from empty ones for a new monitor), gives it
/// an entry, and leaves every other monitor's windows as they were.
pub proof fn lemma_record_touches_only_its_monitor(
    m: Map<i32, PhaseView>,
    id: i32,
    t: PhaseTimings,
    x: i32,
)
    ensures
        record_into(m, id, t.0, t.1, t.2, t.3, t.4, t.5).dom() == m.dom().insert(id),
        phases_of(record_into(m, id, t.0, t.1, t.2, t.3, t.4, t.5), id) == push_phases(
            phases_of(m, id),
            t.0,
            t.1,
            t.2,
            t.3,
            t.4,
            t.5,
        ),
        x != id ==> phases_of(record_into(m, id, t.0, t.1, t.2, t.3, t.4, t.5), x) == phases_of(
            m,
            x,
        ),
{
}

/// Every window of a monitor holds at most the window size.
pub open spec fn window_ok(p: PhaseView) -> bool {
    &&& p.capture.len() <= PER_MONITOR_WINDOW
    &&& p.dhash.len() <= PER_MONITOR_WINDOW
    &&& p.downscale.len() <= PER_MONITOR_WINDOW
    &&& p.save.len() <= PER_MONITOR_WINDOW
    &&& p.db.len() <= PER_MONITOR_WINDOW
    &&& p.total.len() <= PER_MONITOR_WINDOW
}

/// Every monitor's windows hold at most the window size.
pub open spec fn windows_bounded(m: Map<i32, PhaseView>) -> bool {
    forall|k: i32| #[trigger] m.contains_key(k) ==> window_ok(m[k])
}

/// Recording a capture keeps every window within the window size.
proof fn lemma_record_keeps_bounded(m: Map<i32, PhaseView>, id: i32, t: PhaseTimings)
    requires
        windows_bounded(m),
    ensures
        windows_bounded(record_into(m, id, t.0, t.1, t.2, t.3, t.4, t.5)),
{
    let p = phases_of(m, id);
    lemma_capped_window(p.capture, t.0, PER_MONITOR_WINDOW as nat);
    lemma_capped_window(p.dhash, t.1, PER_MONITOR_WINDOW as nat);
    lemma_capped_window(p.downscale, t.2, PER_MONITOR_WINDOW as nat);
    lemma_capped_window(p.save, t.3, PER_MONITOR_WINDOW as nat);
    lemma_capped_window(p.db, t.4, PER_MONITOR_WINDOW as nat);
    lemma_capped_window(p.total, t.5, PER_MONITOR_WINDOW as nat);
}

/// Naming monitor `id` gives it exactly that name and leaves every other
/// monitor's name as it was.
pub proof fn lemma_set_name_touches_only_its_monitor(
    m: Map<i32, Seq<char>>,
    id: i32,
    name: Seq<char>,
    x: i32,
)
    ensures
        name_of(set_name(m, id, name), id) == name,
        x != id ==> name_of(set_name(m, id, name), x) == name_of(m, x),
{
}

/// Giving monitor `id` its default name gives it an entry and changes no
/// monitor's name: an existing name is never overwritten, and a missing one
/// was already shown as the default.
pub proof fn lemma_ensure_name_keeps_names(m: Map<i32, Seq<char>>, id: i32, x: i32)
    ensures
        ensure_name(m, id).contains_key(id),
        name_of(ensure_name(m, id), x) == name_of(m, x),
{
}

/// The windows after recording a run of captures of monitor `id`, oldest
/// first.
pub open spec fn record_all(m: Map<i32, PhaseView>, id: i32, ts: Seq<PhaseTimings>) -> Map<
    i32,
    PhaseView,
>
    decreases ts.len(),
{
    if ts.len() == 0 {
        m
    } else {
        let t = ts.last();
        record_into(record_all(m, id, ts.drop_last()), id, t.0, t.1, t.2, t.3, t.4, t.5)
    }
}

/// After any run of captures of monitor `id`, each of its windows holds the
/// newest values of its history (at most the window size, oldest first),
/// the monitor has an entry once a capture was recorded, and every other
/// monitor's windows are unchanged.
pub proof fn lemma_records_keep_newest_window(
    m: Map<i32, PhaseView>,
    id: i32,
    ts: Seq<PhaseTimings>,
    which: u8,
    x: i32,
)
    requires
        which < 6,
        select_phase(phases_of(m, id), which).len() <= PER_MONITOR_WINDOW,
    ensures
        ts.len() > 0 ==> record_all(m, id, ts).contains_key(id),
        select_phase(phases_of(record_all(m, id, ts), id), which) == capped_history(
            select_phase(phases_of(m, id), which),
            phase_values(ts, which),
            PER_MONITOR_WINDOW as nat,
        ),
        x != id ==> phases_of(record_all(m, id, ts), x) == phases_of(m, x),
    decreases ts.len(),
{
    let s0 = select_phase(phases_of(m, id), which);
    if ts.len() == 0 {
        assert(s0 + phase_values(ts, which) =~= s0);
    } else {
        let p = ts.drop_last();
        let t = ts.last();
        lemma_records_keep_newest_window(m, id, p, which, x);
        let w1 = phases_of(record_all(m, id, p), id);
        assert(select_phase(push_phases(w1, t.0, t.1, t.2, t.3, t.4, t.5), which) == capped_push(
            select_phase(w1, which),
            timing_of(t, which),
            PER_MONITOR_WINDOW as nat,
        ));
        lemma_capped_history_step(
            s0,
            phase_values(p, which),
            timing_of(t, which),
            PER_MONITOR_WINDOW as nat,
        );
        assert(phase_values(ts, which) =~= phase_values(p, which).push(timing_of(t, which)));
    }
}

/// The samples of one phase of the monitors `ids`, monitor after monitor.
fn concat_samples(m: &HashMap<i32, PhaseSamples>, ids: &Vec<i32>, which: u8) -> (r: Vec<u64>)
    ensures
        r@ == concat_phase(entries(samples_view(m@), ids@), which),
{
    let mut r: Vec<u64> = Vec::new();
    let mut i: usize = 0;
    while i < ids.len()
        invariant
            i <= ids@.len(),
            r@ == concat_phase(entries(samples_view(m@), ids@.subrange(0, i as int)), which),
        decreases ids@.len() - i,
    {
        let id = ids[i];
        let d = match m.get(&id) {
            Some(p) => if which == 0 {
                deque_to_vec(&p.capture)
            } else if which == 1 {
                deque_to_vec(&p.dhash)
            } else if which == 2 {
                deque_to_vec(&p.downscale)
            } else if which == 3 {
                deque_to_vec(&p.save)
            } else if which == 4 {
                deque_to_vec(&p.db)
            } else {
                deque_to_vec(&p.total)
            },
            None => Vec::new(),
        };
        crate::text::push_all_u64(&mut r, &d);
        proof {
            let pre = entries(samples_view(m@), ids@.subrange(0, i as int));
            let post = entries(samples_view(m@), ids@.subrange(0, i as int + 1));
            assert(post.drop_last() =~= pre);
            assert(post.last() == (id, phases_of(samples_view(m@), id)));
        }
        i = i + 1;
    }
    proof {
        assert(ids@.subrange(0, ids@.len() as int) =~= ids@);
    }
    r
}

/// Statistics over the monitors `ids` together.
fn aggregate_overall(m: &HashMap<i32, PhaseSamples>, ids: &Vec<i32>) -> (st: PerPhaseStats)
    ensures
        st == aggregate_spec(entries(samples_view(m@), ids@)),
{
    let total = concat_samples(m, ids, 5);
    PerPhaseStats {
        sample_count: total.len(),
        capture: summarize_ms(&concat_samples(m, ids, 0)),
        dhash: summarize_ms(&concat_samples(m, ids, 1)),
        downscale: summarize_ms(&concat_samples(m, ids, 2)),
        save: summarize_ms(&concat_samples(m, ids, 3)),
        db: summarize_ms(&concat_samples(m, ids, 4)),
        total: summarize_ms(&total),
    }
}

/// The recorded or default name of monitor `id`.
fn lookup_name(names: &HashMap<i32, String>, id: i32) -> (s: String)
    ensures
        s@ == name_of(names_view_of(names@), id),
{
    match names.get(&id) {
        Some(n) => n.clone(),
        None => monitor_default_name(id),
    }
}

/// Statistics of monitor `id`, or of no samples.
fn lookup_summary(m: &HashMap<i32, PhaseSamples>, id: i32) -> (st: PerPhaseStats)
    ensures
        st == phase_summary(phases_of(samples_view(m@), id)),
{
    match m.get(&id) {
        Some(p) => p.summarize(),
        None => PhaseSamples::new().summarize(),
    }
}

/// The ids of a list of monitor statistics.
pub open spec fn monitor_ids(v: Seq<MonitorCapturePerf>) -> Seq<i32> {
    v.map_values(|e: MonitorCapturePerf| e.monitor_id)
}

/// A list of monitor statistics shows exactly the monitors `dom`, sorted by
/// id, each with its recorded or default name and the statistics of its
/// windows in `windows`.
pub open spec fn monitor_list_matches(
    list: Seq<MonitorCapturePerf>,
    windows: Map<i32, PhaseView>,
    names: Map<i32, Seq<char>>,
    dom: Set<i32>,
) -> bool {
    let ids = monitor_ids(list);
    &&& strictly_sorted(ids)
    &&& ids.to_set() == dom
    &&& forall|i: int|
        0 <= i < ids.len() ==> {
            &&& (#[trigger] list[i]).monitor_name@ == name_of(names, ids[i])
            &&& list[i].stats == phase_summary(phases_of(windows, ids[i]))
        }
}

/// What a snapshot shows of the windows of all captures `all`, of saved
/// captures `saved`, of the names `names` and of the last tick `tick`.
pub open spec fn snapshot_matches(
    all: Map<i32, PhaseView>,
    saved: Map<i32, PhaseView>,
    names: Map<i32, Seq<char>>,
    tick: (u64, u64),
    snap: CapturePerfSnapshot,
) -> bool {
    &&& monitor_list_matches(snap.by_monitor@, all, names, all.dom())
    &&& snap.overall == aggregate_spec(entries(all, monitor_ids(snap.by_monitor@)))
    &&& monitor_list_matches(snap.saved_by_monitor@, saved, names, names.dom())
    &&& exists|ks: Seq<i32>|
        strictly_sorted(ks) && ks.to_set() == saved.dom() && snap.saved_overall
            == aggregate_spec(entries(saved, ks))
    &&& snap.last_tick_ms == tick.0
    &&& snap.last_tick_enum_ms == tick.1
}

/// The sum of the sample counts of a list of monitor statistics.
pub open spec fn list_count(l: Seq<MonitorCapturePerf>) -> nat
    decreases l.len(),
{
    if l.len() == 0 {
        0
    } else {
        list_count(l.drop_last()) + l.last().stats.sample_count as nat
    }
}

/// The least minimum of one phase over a list of monitor statistics.
pub open spec fn list_min(l: Seq<MonitorCapturePerf>, which: u8) -> Option<u64>
    decreases l.len(),
{
    if l.len() == 0 {
        None
    } else {
        opt_min(list_min(l.drop_last(), which), stats_of(l.last().stats, which).min_ms)
    }
}

/// The greatest maximum of one phase over a list of monitor statistics.
pub open spec fn list_max(l: Seq<MonitorCapturePerf>, which: u8) -> Option<u64>
    decreases l.len(),
{
    if l.len() == 0 {
        None
    } else {
        opt_max(list_max(l.drop_last(), which), stats_of(l.last().stats, which).max_ms)
    }
}

/// A list whose entries are the statistics of the windows `e`, entry by
/// entry, has the same counts, minima and maxima as `e`.
proof fn lemma_list_follows_entries(l: Seq<MonitorCapturePerf>, e: Seq<(i32, PhaseView)>, which: u8)
    requires
        l.len() == e.len(),
        forall|i: int|
            0 <= i < l.len() ==> (#[trigger] l[i]).stats == phase_summary(e[i].1) && window_ok(
                e[i].1,
            ),
    ensures
        list_count(l) == monitors_count(e),
        list_min(l, which) == monitors_min(e, which),
        list_max(l, which) == monitors_max(e, which),
    decreases l.len(),
{
    if l.len() > 0 {
        let n = l.len() - 1;
        assert(l[n].stats == phase_summary(e[n].1) && window_ok(e[n].1));
        assert forall|i: int| 0 <= i < l.drop_last().len() implies (
        #[trigger] l.drop_last()[i]).stats == phase_summary(e.drop_last()[i].1) && window_ok(
            e.drop_last()[i].1,
        ) by {
            assert(l[i].stats == phase_summary(e[i].1) && window_ok(e[i].1));
        }
        lemma_list_follows_entries(l.drop_last(), e.drop_last(), which);
    }
}

/// A snapshot's overall statistics aggregate its per-monitor statistics:
/// the overall sample count is the sum of the monitors' counts, and each
/// phase's overall minimum and maximum are the least minimum and the
/// greatest maximum among the monitors, so no sample is lost.
proof fn lemma_snapshot_overall_aggregates_of_views(
    all: Map<i32, PhaseView>,
    saved: Map<i32, PhaseView>,
    names: Map<i32, Seq<char>>,
    tick: (u64, u64),
    snap: CapturePerfSnapshot,
    which: u8,
)
    requires
        which < 6,
        windows_bounded(all),
        snapshot_matches(all, saved, names, tick, snap),
    ensures
        snap.overall.sample_count == list_count(snap.by_monitor@) as usize,
        stats_of(snap.overall, which).min_ms == list_min(snap.by_monitor@, which),
        stats_of(snap.overall, which).max_ms == list_max(snap.by_monitor@, which),
{
    let l = snap.by_monitor@;
    let ids = monitor_ids(l);
    let e = entries(all, ids);
    assert forall|i: int| 0 <= i < l.len() implies (#[trigger] l[i]).stats == phase_summary(
        e[i].1,
    ) && window_ok(e[i].1) by {
        assert(ids[i] == l[i].monitor_id);
        assert(ids.to_set().contains(ids[i]));
    }
    lemma_list_follows_entries(l, e, which);
    lemma_overall_aggregates_monitors(e, which);
}

/// The ids of `s` that have windows in `m`, in the order of `s`.
pub open spec fn present_ids(m: Map<i32, PhaseView>, s: Seq<i32>) -> Seq<i32>
    decreases s.len(),
{
    if s.len() == 0 {
        s
    } else {
        let p = present_ids(m, s.drop_last());
        if m.contains_key(s.last()) {
            p.push(s.last())
        } else {
            p
        }
    }
}

/// Leaving out the ids without windows keeps a sorted list sorted, keeps
/// exactly the ids that have windows, and changes no phase's samples.
proof fn lemma_present_ids(m: Map<i32, PhaseView>, s: Seq<i32>, which: u8)
    requires
        strictly_sorted(s),
    ensures
        strictly_sorted(present_ids(m, s)),
        forall|x: i32|
            #[trigger] present_ids(m, s).contains(x) <==> (s.contains(x) && m.contains_key(x)),
        concat_phase(entries(m, s), which) == concat_phase(entries(m, present_ids(m, s)), which),
    decreases s.len(),
{
    if s.len() > 0 {
        let s0 = s.drop_last();
        let x = s.last();
        assert(strictly_sorted(s0));
        lemma_present_ids(m, s0, which);
        let p0 = present_ids(m, s0);
        assert forall|y: i32| s.contains(y) <==> (s0.contains(y) || y == x) by {
            if s.contains(y) && y != x {
                let i = choose|i: int| 0 <= i < s.len() && s[i] == y;
                assert(s0[i] == y);
            }
            if s0.contains(y) {
                let i = choose|i: int| 0 <= i < s0.len() && s0[i] == y;
                assert(s[i] == y);
            }
            if y == x {
                assert(s[s.len() - 1] == y);
            }
        }
        assert forall|i: int| 0 <= i < p0.len() implies p0[i] < x by {
            assert(p0.contains(p0[i]));
            let j = choose|j: int| 0 <= j < s0.len() && s0[j] == p0[i];
            assert(s[j] < s[s.len() - 1]);
        }
        assert(entries(m, s).drop_last() =~= entries(m, s0));
        if m.contains_key(x) {
            let p = p0.push(x);
            assert(entries(m, p).drop_last() =~= entries(m, p0));
            assert forall|y: i32| p.contains(y) <==> (p0.contains(y) || y == x) by {
                if p.contains(y) && y != x {
                    let i = choose|i: int| 0 <= i < p.len() && p[i] == y;
                    assert(p0[i] == y);
                }
                if p0.contains(y) {
                    let i = choose|i: int| 0 <= i < p0.len() && p0[i] == y;
                    assert(p[i] == y);
                }
                if y == x {
                    assert(p[p.len() - 1] == y);
                }
            }
        } else {
            assert(select_phase(phases_of(m, x), which) =~= Seq::<u64>::empty());
            assert(concat_phase(entries(m, s0), which) + Seq::<u64>::empty() =~= concat_phase(
                entries(m, s0),
                which,
            ));
        }
    }
}

/// A snapshot's saved-frame overall statistics aggregate its saved-frame
/// per-monitor statistics in the same way (monitors listed without saved
/// samples add nothing): the sample count is the sum of the counts, and each
/// phase's minimum and maximum are the least minimum and the greatest maximum.
proof fn lemma_snapshot_saved_overall_aggregates_of_views(
    all: Map<i32, PhaseView>,
    saved: Map<i32, PhaseView>,
    names: Map<i32, Seq<char>>,
    tick: (u64, u64),
    snap: CapturePerfSnapshot,
    which: u8,
)
    requires
        which < 6,
        windows_bounded(saved),
        saved.dom().subset_of(names.dom()),
        snapshot_matches(all, saved, names, tick, snap),
    ensures
        snap.saved_overall.sample_count == list_count(snap.saved_by_monitor@) as usize,
        stats_of(snap.saved_overall, which).min_ms == list_min(snap.saved_by_monitor@, which),
        stats_of(snap.saved_overall, which).max_ms == list_max(snap.saved_by_monitor@, which),
{
    let l = snap.saved_by_monitor@;
    let sn = monitor_ids(l);
    let e = entries(saved, sn);
    assert forall|i: int| 0 <= i < l.len() implies (#[trigger] l[i]).stats == phase_summary(
        e[i].1,
    ) && window_ok(e[i].1) by {
        assert(sn[i] == l[i].monitor_id);
    }
    lemma_list_follows_entries(l, e, which);
    lemma_overall_aggregates_monitors(e, which);
    let ks = choose|ks: Seq<i32>|
        strictly_sorted(ks) && ks.to_set() == saved.dom() && snap.saved_overall == aggregate_spec(
            entries(saved, ks),
        );
    let p = present_ids(saved, sn);
    lemma_present_ids(saved, sn, 0);
    lemma_present_ids(saved, sn, 1);
    lemma_present_ids(saved, sn, 2);
    lemma_present_ids(saved, sn, 3);
    lemma_present_ids(saved, sn, 4);
    lemma_present_ids(saved, sn, 5);
    assert forall|x: i32| p.to_set().contains(x) == ks.to_set().contains(x) by {
        assert(p.contains(x) == (sn.contains(x) && saved.contains_key(x)));
        assert(sn.to_set().contains(x) == names.dom().contains(x));
    }
    assert(p.to_set() =~= ks.to_set());
    lemma_sorted_unique(p, ks);
    assert(aggregate_spec(e) == aggregate_spec(entries(saved, ks)));
}

/// Two strictly increasing lists of the same ids are the same list.
proof fn lemma_sorted_unique(a: Seq<i32>, b: Seq<i32>)
    requires
        strictly_sorted(a),
        strictly_sorted(b),
        a.to_set() == b.to_set(),
    ensures
        a == b,
    decreases a.len(),
{
    if a.len() == 0 {
        if b.len() > 0 {
            assert(b.to_set().contains(b[0]));
            assert(a.to_set().contains(b[0]));
        }
        assert(a =~= b);
    } else if b.len() == 0 {
        assert(a.to_set().contains(a[0]));
        assert(b.to_set().contains(a[0]));
    } else {
        let ma = a.last();
        let mb = b.last();
        assert(a.to_set().contains(mb));
        assert(b.to_set().contains(ma));
        assert(ma == mb) by {
            let i = choose|i: int| 0 <= i < a.len() && a[i] == mb;
            let j = choose|j: int| 0 <= j < b.len() && b[j] == ma;
            assert(mb <= ma) by {
                if i < a.len() - 1 {
                    assert(a[i] < a[a.len() - 1]);
                }
            }
            assert(ma <= mb) by {
                if j < b.len() - 1 {
                    assert(b[j] < b[b.len() - 1]);
                }
            }
        }
        let a0 = a.drop_last();
        let b0 = b.drop_last();
        assert forall|x: i32| a0.to_set().contains(x) == b0.to_set().contains(x) by {
            if a0.to_set().contains(x) {
                let i = choose|i: int| 0 <= i < a0.len() && a0[i] == x;
                assert(a[i] < a[a.len() - 1]);
                assert(a.to_set().contains(x));
                assert(b.to_set().contains(x));
                let j = choose|j: int| 0 <= j < b.len() && b[j] == x;
                assert(j != b.len() - 1);
                assert(b0[j] == x);
            }
            if b0.to_set().contains(x) {
                let j = choose|j: int| 0 <= j < b0.len() && b0[j] == x;
                assert(b[j] < b[b.len() - 1]);
                assert(b.to_set().contains(x));
                assert(a.to_set().contains(x));
                let i = choose|i: int| 0 <= i < a.len() && a[i] == x;
                assert(i != a.len() - 1);
                assert(a0[i] == x);
            }
        }
        assert(a0.to_set() =~= b0.to_set());
        lemma_sorted_unique(a0, b0);
        assert(a =~= a0.push(ma));
        assert(b =~= b0.push(mb));
    }
}

/// What recording a capture of monitor `id` (named `name` when that is not
/// empty) changes in a snapshot: the monitor is listed with the capture
/// pushed into its windows and with that name (else the name it had); the
/// saved-frame overall statistics and the last tick stay as they were; and
/// every monitor listed for saved frames stays listed with the same
/// statistics.
proof fn lemma_record_snapshot_effect_of_views(
    all: Map<i32, PhaseView>,
    saved: Map<i32, PhaseView>,
    names: Map<i32, Seq<char>>,
    tick: (u64, u64),
    a: CapturePerfSnapshot,
    id: i32,
    name: Seq<char>,
    t: PhaseTimings,
    b: CapturePerfSnapshot,
)
    requires
        snapshot_matches(all, saved, names, tick, a),
        snapshot_matches(
            record_into(all, id, t.0, t.1, t.2, t.3, t.4, t.5),
            saved,
            if name.len() > 0 {
                set_name(names, id, name)
            } else {
                names
            },
            tick,
            b,
        ),
    ensures
        monitor_ids(b.by_monitor@).contains(id),
        forall|j: int|
            0 <= j < b.by_monitor@.len() && (#[trigger] b.by_monitor@[j]).monitor_id == id ==> {
                &&& b.by_monitor@[j].stats == phase_summary(
                    push_phases(phases_of(all, id), t.0, t.1, t.2, t.3, t.4, t.5),
                )
                &&& b.by_monitor@[j].monitor_name@ == if name.len() > 0 {
                    name
                } else {
                    name_of(names, id)
                }
            },
        b.saved_overall == a.saved_overall,
        b.last_tick_ms == a.last_tick_ms,
        b.last_tick_enum_ms == a.last_tick_enum_ms,
        forall|i: int|
            0 <= i < a.saved_by_monitor@.len() ==> exists|j: int|
                0 <= j < b.saved_by_monitor@.len() && (#[trigger] b.saved_by_monitor@[j]).monitor_id
                    == (#[trigger] a.saved_by_monitor@[i]).monitor_id
                    && b.saved_by_monitor@[j].stats == a.saved_by_monitor@[i].stats,
{
    let all2 = record_into(all, id, t.0, t.1, t.2, t.3, t.4, t.5);
    let names2 = if name.len() > 0 {
        set_name(names, id, name)
    } else {
        names
    };
    let ids_b = monitor_ids(b.by_monitor@);
    assert(ids_b.to_set().contains(id));
    assert forall|j: int|
        0 <= j < b.by_monitor@.len() && (#[trigger] b.by_monitor@[j]).monitor_id == id implies {
        &&& b.by_monitor@[j].stats == phase_summary(
            push_phases(phases_of(all, id), t.0, t.1, t.2, t.3, t.4, t.5),
        )
        &&& b.by_monitor@[j].monitor_name@ == if name.len() > 0 {
            name
        } else {
            name_of(names, id)
        }
    } by {
        assert(ids_b[j] == id);
    }
    let ka = choose|ks: Seq<i32>|
        strictly_sorted(ks) && ks.to_set() == saved.dom() && a.saved_overall == aggregate_spec(
            entries(saved, ks),
        );
    let kb = choose|ks: Seq<i32>|
        strictly_sorted(ks) && ks.to_set() == saved.dom() && b.saved_overall == aggregate_spec(
            entries(saved, ks),
        );
    lemma_sorted_unique(ka, kb);
    let sa = monitor_ids(a.saved_by_monitor@);
    let sb = monitor_ids(b.saved_by_monitor@);
    assert forall|i: int| 0 <= i < a.saved_by_monitor@.len() implies exists|j: int|
        0 <= j < b.saved_by_monitor@.len() && (#[trigger] b.saved_by_monitor@[j]).monitor_id
            == (#[trigger] a.saved_by_monitor@[i]).monitor_id && b.saved_by_monitor@[j].stats
            == a.saved_by_monitor@[i].stats by {
        let x = sa[i];
        assert(sa.to_set().contains(x));
        assert(names2.dom().contains(x));
        assert(sb.to_set().contains(x));
        let j = choose|j: int| 0 <= j < sb.len() && sb[j] == x;
        assert(b.saved_by_monitor@[j].monitor_id == x);
    }
}

/// What recording a saved capture of monitor `id` changes in a snapshot:
/// the statistics of all captures and their overall statistics stay as they
/// were (names included), the monitor is listed for saved frames with the
/// capture pushed into its saved windows and with the name it had (its
/// default name if it had none), and the last tick stays as it was.
proof fn lemma_record_saved_snapshot_effect_of_views(
    all: Map<i32, PhaseView>,
    saved: Map<i32, PhaseView>,
    names: Map<i32, Seq<char>>,
    tick: (u64, u64),
    a: CapturePerfSnapshot,
    id: i32,
    t: PhaseTimings,
    b: CapturePerfSnapshot,
)
    requires
        snapshot_matches(all, saved, names, tick, a),
        snapshot_matches(
            all,
            record_into(saved, id, t.0, t.1, t.2, t.3, t.4, t.5),
            ensure_name(names, id),
            tick,
            b,
        ),
    ensures
        b.overall == a.overall,
        b.by_monitor@.len() == a.by_monitor@.len(),
        forall|i: int|
            0 <= i < a.by_monitor@.len() ==> {
                &&& (#[trigger] b.by_monitor@[i]).monitor_id == a.by_monitor@[i].monitor_id
                &&& b.by_monitor@[i].stats == a.by_monitor@[i].stats
                &&& b.by_monitor@[i].monitor_name@ == a.by_monitor@[i].monitor_name@
            },
        monitor_ids(b.saved_by_monitor@).contains(id),
        forall|j: int|
            0 <= j < b.saved_by_monitor@.len() && (#[trigger] b.saved_by_monitor@[j]).monitor_id
                == id ==> {
                &&& b.saved_by_monitor@[j].stats == phase_summary(
                    push_phases(phases_of(saved, id), t.0, t.1, t.2, t.3, t.4, t.5),
                )
                &&& b.saved_by_monitor@[j].monitor_name@ == name_of(names, id)
            },
        b.last_tick_ms == a.last_tick_ms,
        b.last_tick_enum_ms == a.last_tick_enum_ms,
{
    let ia = monitor_ids(a.by_monitor@);
    let ib = monitor_ids(b.by_monitor@);
    lemma_sorted_unique(ia, ib);
    assert forall|i: int| 0 <= i < a.by_monitor@.len() implies {
        &&& (#[trigger] b.by_monitor@[i]).monitor_id == a.by_monitor@[i].monitor_id
        &&& b.by_monitor@[i].stats == a.by_monitor@[i].stats
        &&& b.by_monitor@[i].monitor_name@ == a.by_monitor@[i].monitor_name@
    } by {
        assert(ia[i] == ib[i]);
        lemma_ensure_name_keeps_names(names, id, ia[i]);
    }
    let sb = monitor_ids(b.saved_by_monitor@);
    assert(sb.to_set().contains(id));
    assert forall|j: int|
        0 <= j < b.saved_by_monitor@.len() && (#[trigger] b.saved_by_monitor@[j]).monitor_id
            == id implies {
        &&& b.saved_by_monitor@[j].stats == phase_summary(
            push_phases(phases_of(saved, id), t.0, t.1, t.2, t.3, t.4, t.5),
        )
        &&& b.saved_by_monitor@[j].monitor_name@ == name_of(names, id)
    } by {
        assert(sb[j] == id);
        lemma_ensure_name_keeps_names(names, id, id);
    }
}

/// Rolling capture statistics of all monitors.
pub struct CapturePerf {
    by_monitor: HashMap<i32, PhaseSamples>,
    monitor_names: HashMap<i32, String>,
    saved_by_monitor: HashMap<i32, PhaseSamples>,
    /// (total, monitor enumeration) duration of the last tick, ms.
    last_tick: (u64, u64),
}

impl CapturePerf {
    /// Windows of every capture, by monitor.
    pub closed spec fn all_view(&self) -> Map<i32, PhaseView> {
        samples_view(self.by_monitor@)
    }

    /// Windows of saved captures only, by monitor.
    pub closed spec fn saved_view(&self) -> Map<i32, PhaseView> {
        samples_view(self.saved_by_monitor@)
    }

    /// Known monitor names, by monitor.
    pub closed spec fn names_view(&self) -> Map<i32, Seq<char>> {
        names_view_of(self.monitor_names@)
    }

    /// Durations of the last tick: (total, enumeration).
    pub closed spec fn last_tick_view(&self) -> (u64, u64) {
        self.last_tick
    }

    /// Every window holds at most the window size, and every monitor with
    /// saved samples has a name.
    pub open spec fn wf(&self) -> bool {
        &&& windows_bounded(self.all_view())
        &&& windows_bounded(self.saved_view())
        &&& self.saved_view().dom().subset_of(self.names_view().dom())
    }

    /// `q` is `self` after recording a capture of monitor `id` with timings
    /// `t`, named `name` when that is not empty.
    pub open spec fn recorded(&self, q: Self, id: i32, name: Seq<char>, t: PhaseTimings) -> bool {
        &&& q.all_view() == record_into(self.all_view(), id, t.0, t.1, t.2, t.3, t.4, t.5)
        &&& q.names_view() == if name.len() > 0 {
            set_name(self.names_view(), id, name)
        } else {
            self.names_view()
        }
        &&& q.saved_view() == self.saved_view()
        &&& q.last_tick_view() == self.last_tick_view()
    }

    /// `q` is `self` after recording a saved capture of monitor `id` with
    /// timings `t`.
    pub open spec fn saved_recorded(&self, q: Self, id: i32, t: PhaseTimings) -> bool {
        &&& q.saved_view() == record_into(self.saved_view(), id, t.0, t.1, t.2, t.3, t.4, t.5)
        &&& q.names_view() == ensure_name(self.names_view(), id)
        &&& q.all_view() == self.all_view()
        &&& q.last_tick_view() == self.last_tick_view()
    }

    /// `snap` is what a snapshot of `self` shows.
    pub open spec fn shown_by(&self, snap: CapturePerfSnapshot) -> bool {
        snapshot_matches(
            self.all_view(),
            self.saved_view(),
            self.names_view(),
            self.last_tick_view(),
            snap,
        )
    }

    /// No samples, no names, last tick zero.
    pub fn new() -> (p: Self)
        ensures
            p.wf(),
            p.all_view() == Map::<i32, PhaseView>::empty(),
            p.saved_view() == Map::<i32, PhaseView>::empty(),
            p.names_view() == Map::<i32, Seq<char>>::empty(),
            p.last_tick_view() == (0u64, 0u64),
    {
        let p = CapturePerf {
            by_monitor: HashMap::new(),
            monitor_names: HashMap::new(),
            saved_by_monitor: HashMap::new(),
            last_tick: (0, 0),
        };
        proof {
            assert(samples_view(p.by_monitor@) =~= Map::<i32, PhaseView>::empty());
            assert(samples_view(p.saved_by_monitor@) =~= Map::<i32, PhaseView>::empty());
            assert(names_view_of(p.monitor_names@) =~= Map::<i32, Seq<char>>::empty());
        }
        p
    }

    /// Records the phase timings of one capture of a monitor (saved or
    /// skipped), and its name when one is given.
    pub fn record(
        &mut self,
        monitor_id: i32,
        monitor_name: &str,
        capture_ms: u64,
        dhash_ms: u64,
        downscale_ms: u64,
        save_ms: u64,
        db_ms: u64,
        total_ms: u64,
    )
        requires
            old(self).wf(),
        ensures
            final(self).wf(),
            old(self).recorded(
                *final(self),
                monitor_id,
                monitor_name@,
                (capture_ms, dhash_ms, downscale_ms, save_ms, db_ms, total_ms),
            ),
    {
        let ghost before = self.by_monitor@;
        proof {
            lemma_record_keeps_bounded(
                samples_view(before),
                monitor_id,
                (capture_ms, dhash_ms, downscale_ms, save_ms, db_ms, total_ms),
            );
        }
        let mut p = match self.by_monitor.remove(&monitor_id) {
            Some(p) => p,
            None => PhaseSamples::new(),
        };
        proof {
            assert(p@ == phases_of(samples_view(before), monitor_id));
        }
        p.push(capture_ms, dhash_ms, downscale_ms, save_ms, db_ms, total_ms);
        self.by_monitor.insert(monitor_id, p);
        proof {
            assert(samples_view(self.by_monitor@) =~= record_into(
                samples_view(before),
                monitor_id,
                capture_ms,
                dhash_ms,
                downscale_ms,
                save_ms,
                db_ms,
                total_ms,
            ));
        }
        if !monitor_name.is_empty() {
            let ghost names_before = self.monitor_names@;
            let n = monitor_name.to_owned();
            self.monitor_names.insert(monitor_id, n);
            proof {
                assert(names_view_of(self.monitor_names@) =~= set_name(
                    names_view_of(names_before),
                    monitor_id,
                    monitor_name@,
                ));
            }
        }
    }

    /// Records the phase timings of a capture that was saved to disk, and
    /// gives the monitor its default name if it has none.
    pub fn record_saved(
        &mut self,
        monitor_id: i32,
        capture_ms: u64,
        dhash_ms: u64,
        downscale_ms: u64,
        save_ms: u64,
        db_ms: u64,
        total_ms: u64,
    )
        requires
            old(self).wf(),
        ensures
            final(self).wf(),
            old(self).saved_recorded(
                *final(self),
                monitor_id,
                (capture_ms, dhash_ms, downscale_ms, save_ms, db_ms, total_ms),
            ),
    {
        let ghost before = self.saved_by_monitor@;
        proof {
            lemma_record_keeps_bounded(
                samples_view(before),
                monitor_id,
                (capture_ms, dhash_ms, downscale_ms, save_ms, db_ms, total_ms),
            );
        }
        let mut p = match self.saved_by_monitor.remove(&monitor_id) {
            Some(p) => p,
            None => PhaseSamples::new(),
        };
        proof {
            assert(p@ == phases_of(samples_view(before), monitor_id));
        }
        p.push(capture_ms, dhash_ms, downscale_ms, save_ms, db_ms, total_ms);
        self.saved_by_monitor.insert(monitor_id, p);
        proof {
            assert(samples_view(self.saved_by_monitor@) =~= record_into(
                samples_view(before),
                monitor_id,
                capture_ms,
                dhash_ms,
                downscale_ms,
                save_ms,
                db_ms,
                total_ms,
            ));
        }
        if !self.monitor_names.contains_key(&monitor_id) {
            let ghost names_before = self.monitor_names@;
            let n = monitor_default_name(monitor_id);
            self.monitor_names.insert(monitor_id, n);
            proof {
                assert(names_view_of(self.monitor_names@) =~= ensure_name(
                    names_view_of(names_before),
                    monitor_id,
                ));
            }
        } else {
            proof {
                assert(names_view_of(self.monitor_names@).contains_key(monitor_id));
            }
        }
    }

    /// Statistics per monitor (sorted by id, named by recorded or default
    /// name), statistics of saved frames for every named monitor (sorted by
    /// id), the overall statistics of both, and the last tick's durations.
    pub fn snapshot(&self) -> (snap: CapturePerfSnapshot)
        ensures
            self.shown_by(snap),
    {
        let ids = sorted_ids(&self.by_monitor);
        let mut monitors: Vec<MonitorCapturePerf> = Vec::new();
        let mut i: usize = 0;
        while i < ids.len()
            invariant
                i <= ids@.len(),
                monitors@.len() == i,
                forall|j: int|
                    0 <= j < i ==> {
                        &&& (#[trigger] monitors@[j]).monitor_id == ids@[j]
                        &&& monitors@[j].monitor_name@ == name_of(self.names_view(), ids@[j])
                        &&& monitors@[j].stats == phase_summary(
                            phases_of(self.all_view(), ids@[j]),
                        )
                    },
            decreases ids@.len() - i,
        {
            let id = ids[i];
            let m = MonitorCapturePerf {
                monitor_id: id,
                monitor_name: lookup_name(&self.monitor_names, id),
                stats: lookup_summary(&self.by_monitor, id),
            };
            monitors.push(m);
            i = i + 1;
        }
        let name_ids = sorted_ids(&self.monitor_names);
        let mut saved: Vec<MonitorCapturePerf> = Vec::new();
        let mut i: usize = 0;
        while i < name_ids.len()
            invariant
                i <= name_ids@.len(),
                saved@.len() == i,
                forall|j: int|
                    0 <= j < i ==> {
                        &&& (#[trigger] saved@[j]).monitor_id == name_ids@[j]
                        &&& saved@[j].monitor_name@ == name_of(self.names_view(), name_ids@[j])
                        &&& saved@[j].stats == phase_summary(
                            phases_of(self.saved_view(), name_ids@[j]),
                        )
                    },
            decreases name_ids@.len() - i,
        {
            let id = name_ids[i];
            let m = MonitorCapturePerf {
                monitor_id: id,
                monitor_name: lookup_name(&self.monitor_names, id),
                stats: lookup_summary(&self.saved_by_monitor, id),
            };
            saved.push(m);
            i = i + 1;
        }
        let saved_ids = sorted_ids(&self.saved_by_monitor);
        proof {
            assert(monitor_ids(monitors@) =~= ids@);
            assert(monitor_ids(saved@) =~= name_ids@);
            assert(samples_view(self.by_monitor@).dom() =~= self.by_monitor@.dom());
            assert(samples_view(self.saved_by_monitor@).dom() =~= self.saved_by_monitor@.dom());
            assert(names_view_of(self.monitor_names@).dom() =~= self.monitor_names@.dom());
        }
        CapturePerfSnapshot {
            overall: aggregate_overall(&self.by_monitor, &ids),
            by_monitor: monitors,
            saved_overall: aggregate_overall(&self.saved_by_monitor, &saved_ids),
            saved_by_monitor: saved,
            last_tick_ms: self.last_tick.0,
            last_tick_enum_ms: self.last_tick.1,
        }
    }

    /// Records the durations of the last full tick.
    pub fn set_last_tick(&mut self, total_ms: u64, enum_ms: u64)
        requires
            old(self).wf(),
        ensures
            final(self).wf(),
            final(self).last_tick_view() == (total_ms, enum_ms),
            final(self).all_view() == old(self).all_view(),
            final(self).saved_view() == old(self).saved_view(),
            final(self).names_view() == old(self).names_view(),
    {
        self.last_tick = (total_ms, enum_ms);
    }
}


/// A snapshot's overall statistics aggregate its per-monitor statistics,
/// for all captures and for saved ones: each overall sample count is the sum
/// of the listed monitors' counts, and each phase's overall minimum and
/// maximum are the least minimum and the greatest maximum among them, so no
/// sample is lost (monitors listed without saved samples add nothing).
pub proof fn lemma_snapshot_overall_aggregates(p: CapturePerf, snap: CapturePerfSnapshot, which: u8)
    requires
        which < 6,
        p.wf(),
        p.shown_by(snap),
    ensures
        snap.overall.sample_count == list_count(snap.by_monitor@) as usize,
        stats_of(snap.overall, which).min_ms == list_min(snap.by_monitor@, which),
        stats_of(snap.overall, which).max_ms == list_max(snap.by_monitor@, which),
        snap.saved_overall.sample_count == list_count(snap.saved_by_monitor@) as usize,
        stats_of(snap.saved_overall, which).min_ms == list_min(snap.saved_by_monitor@, which),
        stats_of(snap.saved_overall, which).max_ms == list_max(snap.saved_by_monitor@, which),
{
    lemma_snapshot_overall_aggregates_of_views(
        p.all_view(),
        p.saved_view(),
        p.names_view(),
        p.last_tick_view(),
        snap,
        which,
    );
    lemma_snapshot_saved_overall_aggregates_of_views(
        p.all_view(),
        p.saved_view(),
        p.names_view(),
        p.last_tick_view(),
        snap,
        which,
    );
}

/// What `record` changes between a snapshot `a` taken before it and a
/// snapshot `b` taken after it: monitor `id` is listed with the capture
/// pushed into its windows and with the given name (else the name it had);
/// the saved-frame overall statistics and the last tick stay as they were;
/// and every monitor listed for saved frames stays listed with the same
/// statistics.
pub proof fn lemma_record_snapshot_effect(
    p: CapturePerf,
    q: CapturePerf,
    a: CapturePerfSnapshot,
    b: CapturePerfSnapshot,
    id: i32,
    name: Seq<char>,
    t: PhaseTimings,
)
    requires
        p.recorded(q, id, name, t),
        p.shown_by(a),
        q.shown_by(b),
    ensures
        monitor_ids(b.by_monitor@).contains(id),
        forall|j: int|
            0 <= j < b.by_monitor@.len() && (#[trigger] b.by_monitor@[j]).monitor_id == id ==> {
                &&& b.by_monitor@[j].stats == phase_summary(
                    push_phases(phases_of(p.all_view(), id), t.0, t.1, t.2, t.3, t.4, t.5),
                )
                &&& b.by_monitor@[j].monitor_name@ == if name.len() > 0 {
                    name
                } else {
                    name_of(p.names_view(), id)
                }
            },
        b.saved_overall == a.saved_overall,
        b.last_tick_ms == a.last_tick_ms,
        b.last_tick_enum_ms == a.last_tick_enum_ms,
        forall|i: int|
            0 <= i < a.saved_by_monitor@.len() ==> exists|j: int|
                0 <= j < b.saved_by_monitor@.len() && (#[trigger] b.saved_by_monitor@[j]).monitor_id
                    == (#[trigger] a.saved_by_monitor@[i]).monitor_id
                    && b.saved_by_monitor@[j].stats == a.saved_by_monitor@[i].stats,
{
    lemma_record_snapshot_effect_of_views(
        p.all_view(),
        p.saved_view(),
        p.names_view(),
        p.last_tick_view(),
        a,
        id,
        name,
        t,
        b,
    );
}

/// What `record_saved` changes between a snapshot `a` taken before it and a
/// snapshot `b` taken after it: the statistics of all captures and their
/// overall statistics stay as they were (names included); monitor `id` is
/// listed for saved frames with the capture pushed into its saved windows
/// and with the name it had (its default name if it had none); the last tick
/// stays as it was.
pub proof fn lemma_record_saved_snapshot_effect(
    p: CapturePerf,
    q: CapturePerf,
    a: CapturePerfSnapshot,
    b: CapturePerfSnapshot,
    id: i32,
    t: PhaseTimings,
)
    requires
        p.saved_recorded(q, id, t),
        p.shown_by(a),
        q.shown_by(b),
    ensures
        b.overall == a.overall,
        b.by_monitor@.len() == a.by_monitor@.len(),
        forall|i: int|
            0 <= i < a.by_monitor@.len() ==> {
                &&& (#[trigger] b.by_monitor@[i]).monitor_id == a.by_monitor@[i].monitor_id
                &&& b.by_monitor@[i].stats == a.by_monitor@[i].stats
                &&& b.by_monitor@[i].monitor_name@ == a.by_monitor@[i].monitor_name@
            },
        monitor_ids(b.saved_by_monitor@).contains(id),
        forall|j: int|
            0 <= j < b.saved_by_monitor@.len() && (#[trigger] b.saved_by_monitor@[j]).monitor_id
                == id ==> {
                &&& b.saved_by_monitor@[j].stats == phase_summary(
                    push_phases(phases_of(p.saved_view(), id), t.0, t.1, t.2, t.3, t.4, t.5),
                )
                &&& b.saved_by_monitor@[j].monitor_name@ == name_of(p.names_view(), id)
            },
        b.last_tick_ms == a.last_tick_ms,
        b.last_tick_enum_ms == a.last_tick_enum_ms,
{
    lemma_record_saved_snapshot_effect_of_views(
        p.all_view(),
        p.saved_view(),
        p.names_view(),
        p.last_tick_view(),
        a,
        id,
        t,
        b,
    );
}

/// One more `record` of monitor `id` extends a run of its captures: if `p`
/// holds the windows of `p0` after the captures `ts`, then after recording
/// `t` the windows are those of `p0` after `ts` followed by `t`.
pub proof fn lemma_record_extends_run(
    p0: CapturePerf,
    p: CapturePerf,
    q: CapturePerf,
    id: i32,
    ts: Seq<PhaseTimings>,
    name: Seq<char>,
    t: PhaseTimings,
)
    requires
        p.all_view() == record_all(p0.all_view(), id, ts),
        p.recorded(q, id, name, t),
    ensures
        q.all_view() == record_all(p0.all_view(), id, ts.push(t)),
{
    assert(ts.push(t).drop_last() =~= ts);
}

/// After a run of captures `ts` of monitor `id` recorded from `p`, a
/// snapshot lists the monitor, and each phase's statistics summarize exactly
/// the newest values of that phase (at most the window size, oldest first,
/// the newest being the last capture's); its sample count is the length of
/// the total-duration window.
pub proof fn lemma_records_shown_in_snapshot(
    p: CapturePerf,
    q: CapturePerf,
    b: CapturePerfSnapshot,
    id: i32,
    ts: Seq<PhaseTimings>,
    which: u8,
)
    requires
        which < 6,
        p.wf(),
        ts.len() > 0,
        q.all_view() == record_all(p.all_view(), id, ts),
        q.shown_by(b),
    ensures
        monitor_ids(b.by_monitor@).contains(id),
        forall|j: int|
            0 <= j < b.by_monitor@.len() && (#[trigger] b.by_monitor@[j]).monitor_id == id ==> {
                &&& stats_of(b.by_monitor@[j].stats, which) == summary_spec(
                    capped_history(
                        select_phase(phases_of(p.all_view(), id), which),
                        phase_values(ts, which),
                        PER_MONITOR_WINDOW as nat,
                    ),
                )
                &&& b.by_monitor@[j].stats.sample_count == capped_history(
                    phases_of(p.all_view(), id).total,
                    phase_values(ts, 5),
                    PER_MONITOR_WINDOW as nat,
                ).len()
            },
{
    let m = p.all_view();
    assert(window_ok(phases_of(m, id))) by {
        if m.contains_key(id) {
        }
    }
    lemma_records_keep_newest_window(m, id, ts, which, id);
    lemma_records_keep_newest_window(m, id, ts, 5, id);
    let ids = monitor_ids(b.by_monitor@);
    assert(ids.to_set().contains(id));
    let w = phases_of(q.all_view(), id);
    let h = capped_history(phases_of(m, id).total, phase_values(ts, 5), PER_MONITOR_WINDOW as nat);
    assert(h.len() <= PER_MONITOR_WINDOW);
    assert forall|j: int|
        0 <= j < b.by_monitor@.len() && (#[trigger] b.by_monitor@[j]).monitor_id == id implies {
        &&& stats_of(b.by_monitor@[j].stats, which) == summary_spec(
            capped_history(
                select_phase(phases_of(m, id), which),
                phase_values(ts, which),
                PER_MONITOR_WINDOW as nat,
            ),
        )
        &&& b.by_monitor@[j].stats.sample_count == h.len()
    } by {
        assert(ids[j] == id);
        assert(b.by_monitor@[j].stats == phase_summary(w));
        assert(stats_of(phase_summary(w), which) == summary_spec(select_phase(w, which)));
        assert(w.total == select_phase(w, 5));
    }
}

} // verus!
