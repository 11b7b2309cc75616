//! Per-monitor capture decisions: perceptual-hash distance and the adaptive
//! classification of noisy sources (CCTV feeds and similar).

use crate::text::{
    ascii_lower_seq, chars_of, contains_chars, contains_seq, eq_ignore_ascii_case, occurs_at, string_views,
};
use std::collections::VecDeque;
use vstd::arithmetic::power2::{lemma2_to64, lemma_pow2_unfold, pow2};
use vstd::prelude::*;

verus! {

/// Number of recent capture ticks remembered per monitor.
pub const ADAPTIVE_WINDOW: usize = 20;

/// Minimum number of ticks (and of saved ticks) before a monitor can be noisy.
pub const ADAPTIVE_MIN_TICKS: usize = 15;

/// A saved frame whose distance reaches this bound is a real scene change.
pub const ADAPTIVE_REAL_CHANGE: u32 = 13;

/// Number of saved ticks (`Some(distance)`) in a tick window.
pub open spec fn saved_count(ticks: Seq<Option<u32>>) -> nat
    decreases ticks.len(),
{
    if ticks.len() == 0 {
        0
    } else {
        saved_count(ticks.drop_last()) + if ticks.last() is Some {
            1nat
        } else {
            0nat
        }
    }
}

/// Every saved tick of the window stayed below the real-change bound.
pub open spec fn all_saved_small(ticks: Seq<Option<u32>>) -> bool {
    forall|i: int|
        0 <= i < ticks.len() && (#[trigger] ticks[i]) is Some ==> ticks[i]->0
            < ADAPTIVE_REAL_CHANGE
}

/// The classification a window of ticks gets: enough ticks, enough saved
/// ticks, and no real scene change among them.
pub open spec fn noisy_spec(ticks: Seq<Option<u32>>) -> bool {
    &&& ticks.len() >= ADAPTIVE_MIN_TICKS
    &&& saved_count(ticks) >= ADAPTIVE_MIN_TICKS
    &&& all_saved_small(ticks)
}

/// The tick window after recording one more tick: append, then drop the
/// oldest tick if the window grew past its size.
pub open spec fn pushed_window(ticks: Seq<Option<u32>>, saved: bool, distance: u32) -> Seq<
    Option<u32>,
> {
    let t = ticks.push(if saved { Some(distance) } else { None });
    if t.len() > ADAPTIVE_WINDOW {
        t.subrange(1, t.len() as int)
    } else {
        t
    }
}

/// Rolling window of capture outcomes for a single monitor.
#[derive(Clone, Debug)]
pub struct AdaptiveState {
    /// Last ticks, oldest first: `Some(distance)` if saved, `None` if skipped.
    pub ticks: VecDeque<Option<u32>>,
    /// True when this monitor is classified as a noisy source.
    pub is_noisy: bool,
}

impl Default for AdaptiveState {
    fn default() -> (s: Self)
        ensures
            s.ticks@ == Seq::<Option<u32>>::empty(),
            !s.is_noisy,
    {
        AdaptiveState { ticks: VecDeque::new(), is_noisy: false }
    }
}

impl AdaptiveState {
    /// Record one capture tick.
    pub fn push(&mut self, saved: bool, distance: u32)
        ensures
            final(self).ticks@ == pushed_window(old(self).ticks@, saved, distance),
            final(self).is_noisy == old(self).is_noisy,
    {
        self.ticks.push_back(if saved { Some(distance) } else { None });
        if self.ticks.len() > ADAPTIVE_WINDOW {
            self.ticks.pop_front();
        }
    }

    /// Re-classify the monitor from its tick window.
    pub fn evaluate(&mut self)
        ensures
            final(self).ticks@ == old(self).ticks@,
            final(self).is_noisy == noisy_spec(old(self).ticks@),
    {
        let n = self.ticks.len();
        if n < ADAPTIVE_MIN_TICKS {
            self.is_noisy = false;
            return;
        }
        let mut count: usize = 0;
        let mut all_small = true;
        let mut i: usize = 0;
        while i < n
            invariant
                n == self.ticks@.len(),
                i <= n,
                count == saved_count(self.ticks@.subrange(0, i as int)),
                count <= i,
                all_small == all_saved_small(self.ticks@.subrange(0, i as int)),
            decreases n - i,
        {
            let t = self.ticks[i];
            proof {
                let s = self.ticks@.subrange(0, i as int + 1);
                assert(s.drop_last() =~= self.ticks@.subrange(0, i as int));
            }
            match t {
                Some(d) => {
                    count = count + 1;
                    if d >= ADAPTIVE_REAL_CHANGE {
                        all_small = false;
                    }
                },
                None => {},
            }
            i = i + 1;
        }
        proof {
            assert(self.ticks@.subrange(0, n as int) =~= self.ticks@);
        }
        self.is_noisy = count >= ADAPTIVE_MIN_TICKS && all_small;
    }
}


/// The tick window never grows past its size, and its newest entry is the
/// tick just recorded.
pub proof fn lemma_window_bounded(ticks: Seq<Option<u32>>, saved: bool, distance: u32)
    requires
        ticks.len() <= ADAPTIVE_WINDOW,
    ensures
        pushed_window(ticks, saved, distance).len() <= ADAPTIVE_WINDOW,
        pushed_window(ticks, saved, distance).len() > 0,
        pushed_window(ticks, saved, distance).last() == (if saved {
            Some(distance)
        } else {
            None
        }),
{
}

/// A saved frame at real-change distance clears the noisy flag on the very
/// tick it is recorded.
pub proof fn lemma_real_change_clears(ticks: Seq<Option<u32>>, distance: u32)
    requires
        distance >= ADAPTIVE_REAL_CHANGE,
    ensures
        !noisy_spec(pushed_window(ticks, true, distance)),
{
    let w = pushed_window(ticks, true, distance);
    let i = w.len() - 1;
    assert(w[i] is Some && w[i]->0 >= ADAPTIVE_REAL_CHANGE);
}

/// A monitor is never classified noisy with fewer than the minimum number of
/// ticks, nor with fewer than that many saved ticks in its window.
pub proof fn lemma_noisy_needs_saves(ticks: Seq<Option<u32>>)
    ensures
        noisy_spec(ticks) ==> ticks.len() >= ADAPTIVE_MIN_TICKS,
        saved_count(ticks) < ADAPTIVE_MIN_TICKS ==> !noisy_spec(ticks),
{
}

/// A window holding a saved tick at distance 13 or more, at any position,
/// is never classified noisy: one real scene change anywhere in the recent
/// ticks is enough to keep the normal threshold.
pub proof fn lemma_real_change_anywhere_not_noisy(ticks: Seq<Option<u32>>, i: int, d: u32)
    requires
        0 <= i < ticks.len(),
        ticks[i] == Some(d),
        d >= 13,
    ensures
        !noisy_spec(ticks),
{
    assert(ticks[i] is Some && ticks[i]->0 >= ADAPTIVE_REAL_CHANGE);
}

/// A window of at least 15 ticks, every one of them saved at a distance
/// below 13, is classified noisy.
pub proof fn lemma_quiet_saved_window_is_noisy(ticks: Seq<Option<u32>>)
    requires
        ticks.len() >= 15,
        forall|i: int| 0 <= i < ticks.len() ==> ((#[trigger] ticks[i]) matches Some(d) && d < 13),
    ensures
        noisy_spec(ticks),
{
    assert forall|i: int| 0 <= i < ticks.len() implies (#[trigger] ticks[i]) is Some by {
        assert((ticks[i] matches Some(d) && d < 13));
    }
    lemma_saved_count_all_saved(ticks);
    assert forall|i: int| 0 <= i < ticks.len() && (#[trigger] ticks[i]) is Some implies ticks[i]->0
        < ADAPTIVE_REAL_CHANGE by {
        assert((ticks[i] matches Some(d) && d < 13));
    }
}

/// Ticks that were not saved never count as saved: the saved ticks of a
/// window number at most its length, and a window without a saved tick has
/// none.
pub proof fn lemma_saved_count_bounds(ticks: Seq<Option<u32>>)
    ensures
        saved_count(ticks) <= ticks.len(),
        (forall|i: int| 0 <= i < ticks.len() ==> (#[trigger] ticks[i]) is None) ==> saved_count(
            ticks,
        ) == 0,
    decreases ticks.len(),
{
    if ticks.len() > 0 {
        let t = ticks.drop_last();
        lemma_saved_count_bounds(t);
        if forall|i: int| 0 <= i < ticks.len() ==> (#[trigger] ticks[i]) is None {
            assert forall|i: int| 0 <= i < t.len() implies (#[trigger] t[i]) is None by {
                assert(ticks[i] is None);
            }
            assert(ticks[ticks.len() - 1] is None);
        }
    }
}

/// The tick window after recording a run of saved ticks with distances `ds`.
pub open spec fn push_saved_ticks(ticks: Seq<Option<u32>>, ds: Seq<u32>) -> Seq<Option<u32>>
    decreases ds.len(),
{
    if ds.len() == 0 {
        ticks
    } else {
        pushed_window(push_saved_ticks(ticks, ds.drop_last()), true, ds.last())
    }
}

/// Saved ticks with distances `ds`.
pub open spec fn saved_ticks(ds: Seq<u32>) -> Seq<Option<u32>> {
    ds.map_values(|d: u32| Some(d))
}

proof fn lemma_push_saved_window(ticks: Seq<Option<u32>>, ds: Seq<u32>)
    requires
        ticks.len() <= ADAPTIVE_WINDOW,
    ensures
        push_saved_ticks(ticks, ds) == (ticks + saved_ticks(ds)).skip(
            if ticks.len() + ds.len() > ADAPTIVE_WINDOW {
                ticks.len() + ds.len() - ADAPTIVE_WINDOW
            } else {
                0
            },
        ),
    decreases ds.len(),
{
    if ds.len() == 0 {
        assert((ticks + saved_ticks(ds)).skip(0) =~= ticks);
    } else {
        let p = ds.drop_last();
        lemma_push_saved_window(ticks, p);
        let h = ticks + saved_ticks(p);
        assert(ticks + saved_ticks(ds) =~= h.push(Some(ds.last())));
        let n = ticks.len() + ds.len();
        if n - 1 > ADAPTIVE_WINDOW {
            let w = h.skip(n - 1 - ADAPTIVE_WINDOW);
            assert(w.push(Some(ds.last())).subrange(1, w.len() as int + 1) =~= h.push(
                Some(ds.last()),
            ).skip(n - ADAPTIVE_WINDOW));
        } else if n - 1 == ADAPTIVE_WINDOW {
            assert(h.skip(0) =~= h);
            assert(h.push(Some(ds.last())).subrange(1, h.len() as int + 1) =~= h.push(
                Some(ds.last()),
            ).skip(1));
        } else {
            assert(h.skip(0) =~= h);
            assert(h.push(Some(ds.last())).skip(0) =~= h.push(Some(ds.last())));
        }
    }
}

proof fn lemma_saved_count_all_saved(t: Seq<Option<u32>>)
    requires
        forall|i: int| 0 <= i < t.len() ==> (#[trigger] t[i]) is Some,
    ensures
        saved_count(t) == t.len(),
    decreases t.len(),
{
    if t.len() > 0 {
        let p = t.drop_last();
        assert forall|i: int| 0 <= i < p.len() implies (#[trigger] p[i]) is Some by {
            assert(p[i] == t[i]);
        }
        lemma_saved_count_all_saved(p);
    }
}

/// Detection works: a monitor that saves twenty ticks in a row, each below
/// the real-change bound, is classified noisy, whatever its window held
/// before.
pub proof fn lemma_steady_noise_is_flagged(ticks: Seq<Option<u32>>, ds: Seq<u32>)
    requires
        ticks.len() <= ADAPTIVE_WINDOW,
        ds.len() >= ADAPTIVE_WINDOW,
        forall|i: int| 0 <= i < ds.len() ==> #[trigger] ds[i] < ADAPTIVE_REAL_CHANGE,
    ensures
        noisy_spec(push_saved_ticks(ticks, ds)),
{
    lemma_push_saved_window(ticks, ds);
    let w = push_saved_ticks(ticks, ds);
    let k = ticks.len() + ds.len() - ADAPTIVE_WINDOW;
    assert(w.len() == ADAPTIVE_WINDOW);
    assert forall|i: int| 0 <= i < w.len() implies (#[trigger] w[i]) is Some && w[i]->0
        < ADAPTIVE_REAL_CHANGE by {
        let j = k + i - ticks.len();
        assert(w[i] == (ticks + saved_ticks(ds))[k + i]);
        assert((ticks + saved_ticks(ds))[k + i] == saved_ticks(ds)[j]);
        assert(saved_ticks(ds)[j] == Some(ds[j]));
    }
    lemma_saved_count_all_saved(w);
}

/// Number of one bits of `x`.
pub open spec fn popcount(x: nat) -> nat
    decreases x,
{
    if x == 0 {
        0
    } else {
        x % 2 + popcount(x / 2)
    }
}

/// Hamming distance between two 64-bit perceptual hashes.
pub open spec fn hamming_spec(a: u64, b: u64) -> nat {
    popcount((a ^ b) as nat)
}

proof fn lemma_popcount_bound(x: nat, k: nat)
    requires
        x < pow2(k),
    ensures
        popcount(x) <= k,
    decreases k,
{
    if k > 0 {
        lemma_pow2_unfold(k);
        lemma_popcount_bound(x / 2, (k - 1) as nat);
    } else {
        vstd::arithmetic::power2::lemma2_to64();
    }
}

/// The distance between two hashes never exceeds their 64 bits.
pub proof fn lemma_hamming_bounded(a: u64, b: u64)
    ensures
        hamming_spec(a, b) <= 64,
{
    lemma2_to64();
    lemma_popcount_bound((a ^ b) as nat, 64);
}

/// A hash is at distance zero from itself.
pub proof fn lemma_hamming_self(a: u64)
    ensures
        hamming_spec(a, a) == 0,
{
    assert(a ^ a == 0) by (bit_vector);
}

/// Distance does not depend on the order of its arguments.
pub proof fn lemma_hamming_symmetric(a: u64, b: u64)
    ensures
        hamming_spec(a, b) == hamming_spec(b, a),
{
    assert(a ^ b == b ^ a) by (bit_vector);
}

/// Number of differing bits between two perceptual hashes.
pub fn hamming(a: u64, b: u64) -> (d: u32)
    ensures
        d == hamming_spec(a, b),
        d <= 64,
{
    let mut x = a ^ b;
    let mut c: u32 = 0;
    proof {
        lemma_hamming_bounded(a, b);
    }
    while x != 0
        invariant
            c + popcount(x as nat) == hamming_spec(a, b),
            hamming_spec(a, b) <= 64,
        decreases x,
    {
        c = c + (x % 2) as u32;
        x = x / 2;
    }
    c
}


/// A captured frame as 8-bit RGBA pixels, row-major.
pub struct FrameImage {
    pub width: u32,
    pub height: u32,
    /// Four bytes (R, G, B, A) per pixel.
    pub rgba: Vec<u8>,
}

impl FrameImage {
    /// The pixel buffer holds exactly `width * height` pixels.
    pub open spec fn wf(&self) -> bool {
        self.rgba@.len() == self.width as nat * self.height as nat * 4
    }
}

/// Luma of the pixel at byte offset `i`: `(R + 2G + B) / 4`.
pub open spec fn gray_at(px: Seq<u8>, i: int) -> u8 {
    ((px[i] as int + 2 * (px[i + 1] as int) + px[i + 2] as int) / 4) as u8
}

/// Column sampled for grid column `x` (of 9) in an image `w` pixels wide.
pub open spec fn sample_x(w: u32, x: nat) -> nat {
    let a = (x * w as nat) / 9;
    if a < w - 1 {
        a
    } else {
        (w - 1) as nat
    }
}

/// Row sampled for grid row `y` (of 8) in an image `h` pixels high.
pub open spec fn sample_y(h: u32, y: nat) -> nat {
    let a = (y * h as nat) / 8;
    if a < h - 1 {
        a
    } else {
        (h - 1) as nat
    }
}

/// Luma of grid cell `(x, y)` of the 9x8 sampling grid.
pub open spec fn grid_gray(img: &FrameImage, x: nat, y: nat) -> u8 {
    gray_at(
        img.rgba@,
        ((sample_y(img.height, y) * img.width as nat + sample_x(img.width, x)) * 4) as int,
    )
}

/// Bit `k` of the difference hash: the cell is brighter than its right neighbour.
pub open spec fn dhash_bit(img: &FrameImage, k: nat) -> bool {
    grid_gray(img, k % 8, k / 8) > grid_gray(img, k % 8 + 1, k / 8)
}

/// Bit `k` of `v` is set.
pub open spec fn bit_set(v: u64, k: nat) -> bool {
    (v >> (k as u64)) & 1 == 1
}

proof fn lemma_or_bit(b: u64, k: u64, j: u64)
    requires
        k < 64,
        j < 64,
    ensures
        ((b | (1u64 << k)) >> j) & 1 == (if j == k {
            1u64
        } else {
            (b >> j) & 1
        }),
{
    assert(((b | (1u64 << k)) >> j) & 1 == (if j == k {
        1u64
    } else {
        (b >> j) & 1
    })) by (bit_vector)
        requires
            k < 64,
            j < 64,
    ;
}

proof fn lemma_zero_bits(j: u64)
    requires
        j < 64,
    ensures
        (0u64 >> j) & 1 == 0,
{
    assert((0u64 >> j) & 1 == 0) by (bit_vector);
}

/// Luma of the sampled pixel for grid cell `(x, y)`.
fn grid_cell(img: &FrameImage, x: u32, y: u32) -> (g: u8)
    requires
        img.wf(),
        img.width >= 1,
        img.height >= 1,
        x < 9,
        y < 8,
        img.width as nat * 8 <= u32::MAX,
        img.height as nat * 7 <= u32::MAX,
    ensures
        g == grid_gray(img, x as nat, y as nat),
{
    let w = img.width;
    let h = img.height;
    proof {
        assert(x * w <= 8 * w) by (nonlinear_arith)
            requires
                x < 9,
        ;
        assert(y * h <= 7 * h) by (nonlinear_arith)
            requires
                y < 8,
        ;
    }
    let ax = (x * w) / 9;
    let sx = if ax < w - 1 {
        ax
    } else {
        w - 1
    };
    let ay = (y * h) / 8;
    let sy = if ay < h - 1 {
        ay
    } else {
        h - 1
    };
    proof {
        assert((sy as nat) * (w as nat) + (sx as nat) < (h as nat) * (w as nat)) by (nonlinear_arith)
            requires
                sy < h,
                sx < w,
        ;
    }
    proof {
        assert(((sy as nat) * (w as nat) + (sx as nat)) * 4 + 3 < (h as nat) * (w as nat) * 4)
            by (nonlinear_arith)
            requires
                (sy as nat) * (w as nat) + (sx as nat) < (h as nat) * (w as nat),
        ;
        assert((sy as nat) * (w as nat) <= (h as nat) * (w as nat)) by (nonlinear_arith)
            requires
                sy < h,
        ;
        assert(img.rgba@.len() == img.rgba.len());
    }
    let i = ((sy as usize) * (w as usize) + sx as usize) * 4;
    let r = img.rgba[i] as u16;
    let g = img.rgba[i + 1] as u16;
    let b = img.rgba[i + 2] as u16;
    ((r + g * 2 + b) / 4) as u8
}

/// 64-bit difference hash of a frame: sample a 9x8 grid of lumas and set
/// bit `8y + x` when cell `(x, y)` is brighter than cell `(x + 1, y)`.
pub fn dhash_u64(img: &FrameImage) -> (bits: u64)
    requires
        img.wf(),
        img.width >= 1,
        img.height >= 1,
        img.width as nat * 8 <= u32::MAX,
        img.height as nat * 7 <= u32::MAX,
    ensures
        forall|k: nat| k < 64 ==> (bit_set(bits, k) <==> dhash_bit(img, k)),
{
    let mut small: Vec<u8> = Vec::new();
    let mut idx: usize = 0;
    while idx < 72
        invariant
            img.wf(),
            img.width >= 1,
            img.height >= 1,
            img.width as nat * 8 <= u32::MAX,
            img.height as nat * 7 <= u32::MAX,
            idx <= 72,
            small@.len() == idx,
            forall|j: int|
                0 <= j < idx ==> #[trigger] small@[j] == grid_gray(
                    img,
                    (j % 9) as nat,
                    (j / 9) as nat,
                ),
        decreases 72 - idx,
    {
        let g = grid_cell(img, (idx % 9) as u32, (idx / 9) as u32);
        small.push(g);
        idx = idx + 1;
    }
    let mut bits: u64 = 0;
    let mut k: u64 = 0;
    proof {
        assert forall|j: nat| 0 <= j < 64 implies !bit_set(bits, j) by {
            lemma_zero_bits(j as u64);
        }
    }
    while k < 64
        invariant
            k <= 64,
            small@.len() == 72,
            forall|j: int|
                0 <= j < 72 ==> #[trigger] small@[j] == grid_gray(
                    img,
                    (j % 9) as nat,
                    (j / 9) as nat,
                ),
            forall|j: nat| j < k ==> (bit_set(bits, j) <==> dhash_bit(img, j)),
            forall|j: nat| k <= j < 64 ==> !bit_set(bits, j),
        decreases 64 - k,
    {
        let y = (k / 8) as usize;
        let x = (k % 8) as usize;
        let a = small[y * 9 + x];
        let b = small[y * 9 + x + 1];
        proof {
            assert(((y * 9 + x) as int) % 9 == x as int && ((y * 9 + x) as int) / 9 == y as int);
            assert(((y * 9 + x + 1) as int) % 9 == x as int + 1 && ((y * 9 + x + 1) as int) / 9
                == y as int);
        }
        let old_bits = bits;
        if a > b {
            bits = bits | (1u64 << k);
        }
        proof {
            assert forall|j: nat| j < k + 1 implies (bit_set(bits, j) <==> dhash_bit(img, j)) by {
                lemma_or_bit(old_bits, k, j as u64);
                if j < k {
                    assert(bit_set(old_bits, j) <==> dhash_bit(img, j));
                } else {
                    assert(!bit_set(old_bits, j));
                }
            }
            assert forall|j: nat| k + 1 <= j < 64 implies !bit_set(bits, j) by {
                lemma_or_bit(old_bits, k, j as u64);
                assert(!bit_set(old_bits, j));
            }
        }
        k = k + 1;
    }
    bits
}


/// Dedupe threshold in force for a monitor: the noisy threshold when adaptive
/// de-duplication is on, de-duplication is on, and the monitor is noisy;
/// otherwise the configured threshold.
pub open spec fn effective_threshold_spec(
    adaptive_enabled: bool,
    dedupe_threshold: u32,
    is_noisy: bool,
    noisy_threshold: u32,
) -> u32 {
    if adaptive_enabled && dedupe_threshold > 0 && is_noisy {
        noisy_threshold
    } else {
        dedupe_threshold
    }
}

/// The dedupe threshold in force for a monitor this tick.
pub fn effective_threshold(
    adaptive_enabled: bool,
    dedupe_threshold: u32,
    is_noisy: bool,
    noisy_threshold: u32,
) -> (t: u32)
    ensures
        t == effective_threshold_spec(adaptive_enabled, dedupe_threshold, is_noisy, noisy_threshold),
        !adaptive_enabled ==> t == dedupe_threshold,
{
    if adaptive_enabled && dedupe_threshold > 0 && is_noisy {
        noisy_threshold
    } else {
        dedupe_threshold
    }
}

/// Distance of a hash from the last kept frame's (0 when there is none).
pub open spec fn tick_distance_spec(fingerprint: Option<(i64, u64)>, phash: u64) -> nat {
    match fingerprint {
        Some((_, prev)) => hamming_spec(prev, phash),
        None => 0,
    }
}

/// Distance of this tick's hash from the last kept frame (0 when there is none).
pub fn tick_distance(fingerprint: Option<(i64, u64)>, phash: u64) -> (d: u32)
    ensures
        d == tick_distance_spec(fingerprint, phash),
{
    match fingerprint {
        Some((_, prev)) => hamming(prev, phash),
        None => 0,
    }
}

/// The frame whose static interval is extended instead of saving a new one:
/// the last kept frame, when de-duplication is on and the distance is below
/// the threshold in force; `None` means the frame is saved.
pub open spec fn extend_candidate_spec(
    fingerprint: Option<(i64, u64)>,
    dedupe_threshold: u32,
    distance: int,
    effective: u32,
) -> Option<i64> {
    match fingerprint {
        Some((last_id, _)) => if dedupe_threshold > 0 && distance < effective {
            Some(last_id)
        } else {
            None
        },
        None => None,
    }
}

/// The frame whose static interval should be extended instead of saving a
/// new one (see `extend_candidate_spec`).
pub fn extend_candidate(
    fingerprint: Option<(i64, u64)>,
    dedupe_threshold: u32,
    distance: u32,
    effective: u32,
) -> (r: Option<i64>)
    ensures
        r == extend_candidate_spec(fingerprint, dedupe_threshold, distance as int, effective),
{
    match fingerprint {
        Some((last_id, _)) => if dedupe_threshold > 0 && distance < effective {
            Some(last_id)
        } else {
            None
        },
        None => None,
    }
}

/// An unchanged screen is never saved again while de-duplication is on: a
/// frame whose hash equals the last kept frame's is at distance zero and
/// extends that frame, whatever non-zero threshold is in force.
pub proof fn lemma_unchanged_frame_extends(
    last_id: i64,
    hash: u64,
    dedupe_threshold: u32,
    effective: u32,
)
    requires
        dedupe_threshold > 0,
        effective > 0,
    ensures
        tick_distance_spec(Some((last_id, hash)), hash) == 0,
        extend_candidate_spec(
            Some((last_id, hash)),
            dedupe_threshold,
            tick_distance_spec(Some((last_id, hash)), hash) as int,
            effective,
        ) == Some(last_id),
{
    lemma_hamming_self(hash);
}

/// Records the outcome of a tick in the monitor's adaptive state, and
/// re-classifies it when adaptive de-duplication is active.
pub fn record_tick(
    state: &mut AdaptiveState,
    saved: bool,
    distance: u32,
    adaptive_enabled: bool,
    dedupe_threshold: u32,
)
    ensures
        final(state).ticks@ == pushed_window(old(state).ticks@, saved, distance),
        final(state).is_noisy == if adaptive_enabled && dedupe_threshold > 0 {
            noisy_spec(pushed_window(old(state).ticks@, saved, distance))
        } else {
            old(state).is_noisy
        },
{
    state.push(saved, distance);
    if adaptive_enabled && dedupe_threshold > 0 {
        state.evaluate();
    }
}

/// How a monitor's classification changed over one tick.
#[derive(Clone, Copy, Debug, PartialEq, Eq)]
pub enum NoisyTransition {
    /// Newly classified noisy: a retroactive cleanup of its recent frames runs.
    BecameNoisy,
    /// The noisy flag was cleared.
    Cleared,
    /// No change.
    Unchanged,
}

/// Classifies the change of the noisy flag.
pub fn noisy_transition(old_noisy: bool, new_noisy: bool) -> (t: NoisyTransition)
    ensures
        t == (if !old_noisy && new_noisy {
            NoisyTransition::BecameNoisy
        } else if old_noisy && !new_noisy {
            NoisyTransition::Cleared
        } else {
            NoisyTransition::Unchanged
        }),
{
    if !old_noisy && new_noisy {
        NoisyTransition::BecameNoisy
    } else if old_noisy && !new_noisy {
        NoisyTransition::Cleared
    } else {
        NoisyTransition::Unchanged
    }
}

/// Per-monitor adaptive dedupe state shown in Diagnostics.
#[derive(Clone, Debug, Default)]
pub struct AdaptiveMonitorInfo {
    pub is_noisy: bool,
    pub tick_count: usize,
    pub saved_tick_count: usize,
    pub last_distance: u32,
    pub merged_frames_count: u64,
}

/// Distance of the newest tick, 0 when it was skipped or there is none.
pub open spec fn last_distance_spec(ticks: Seq<Option<u32>>) -> u32 {
    if ticks.len() > 0 && ticks.last() is Some {
        ticks.last()->0
    } else {
        0
    }
}

impl AdaptiveMonitorInfo {
    /// Mirrors a monitor's adaptive state into its diagnostics entry.
    pub fn update_from(&mut self, st: &AdaptiveState)
        ensures
            final(self).is_noisy == st.is_noisy,
            final(self).tick_count == st.ticks@.len(),
            final(self).saved_tick_count == saved_count(st.ticks@),
            final(self).last_distance == last_distance_spec(st.ticks@),
            final(self).merged_frames_count == old(self).merged_frames_count,
    {
        let n = st.ticks.len();
        let mut count: usize = 0;
        let mut i: usize = 0;
        while i < n
            invariant
                n == st.ticks@.len(),
                i <= n,
                count == saved_count(st.ticks@.subrange(0, i as int)),
                count <= i,
            decreases n - i,
        {
            proof {
                assert(st.ticks@.subrange(0, i as int + 1).drop_last() =~= st.ticks@.subrange(
                    0,
                    i as int,
                ));
            }
            if st.ticks[i].is_some() {
                count = count + 1;
            }
            i = i + 1;
        }
        proof {
            assert(st.ticks@.subrange(0, n as int) =~= st.ticks@);
        }
        self.is_noisy = st.is_noisy;
        self.tick_count = n;
        self.saved_tick_count = count;
        self.last_distance = if n > 0 {
            match st.ticks[n - 1] {
                Some(d) => d,
                None => 0,
            }
        } else {
            0
        };
    }

    /// Adds the frames merged by a retroactive cleanup.
    pub fn add_merged(&mut self, merged: u64)
        requires
            old(self).merged_frames_count + merged <= u64::MAX,
        ensures
            final(self).merged_frames_count == old(self).merged_frames_count + merged,
            final(self).is_noisy == old(self).is_noisy,
            final(self).tick_count == old(self).tick_count,
            final(self).saved_tick_count == old(self).saved_tick_count,
            final(self).last_distance == old(self).last_distance,
    {
        self.merged_frames_count = self.merged_frames_count + merged;
    }
}


/// A recent unarchived frame of one monitor, oldest first in a list.
#[derive(Clone, Debug)]
pub struct FingerprintRow {
    pub id: i64,
    pub ts: i64,
    pub path: String,
    pub phash: u64,
}

/// One merge of a run of near-identical frames into its earliest frame.
#[derive(Clone, Debug)]
pub struct MergeGroup {
    /// The earliest frame of the run, kept.
    pub keeper_id: i64,
    /// The other frames of the run, deleted (rows and files).
    pub delete_ids: Vec<i64>,
    pub delete_paths: Vec<String>,
    /// Timestamp of the last frame of the run: the keeper's new static-until.
    pub last_ts: i64,
}

/// What a merge group holds, as plain sequences.
pub struct MergeGroupView {
    pub keeper_id: i64,
    pub delete_ids: Seq<i64>,
    pub delete_paths: Seq<String>,
    pub last_ts: i64,
}

impl View for MergeGroup {
    type V = MergeGroupView;

    open spec fn view(&self) -> MergeGroupView {
        MergeGroupView {
            keeper_id: self.keeper_id,
            delete_ids: self.delete_ids@,
            delete_paths: self.delete_paths@,
            last_ts: self.last_ts,
        }
    }
}

/// Last index of the run that starts at `i`: frames stay in the run while
/// each is within `threshold` of the one before it.
pub open spec fn run_end(f: Seq<FingerprintRow>, i: int, threshold: u32) -> int
    decreases f.len() - i,
{
    if 0 <= i && i + 1 < f.len() && hamming_spec(f[i].phash, f[i + 1].phash) <= threshold {
        run_end(f, i + 1, threshold)
    } else {
        i
    }
}

/// The merge of frames `i..=e` into frame `i`.
pub open spec fn merge_group_spec(f: Seq<FingerprintRow>, i: int, e: int) -> MergeGroupView {
    MergeGroupView {
        keeper_id: f[i].id,
        delete_ids: f.subrange(i + 1, e + 1).map_values(|r: FingerprintRow| r.id),
        delete_paths: f.subrange(i + 1, e + 1).map_values(|r: FingerprintRow| r.path),
        last_ts: f[e].ts,
    }
}

/// Merges for the frames from index `i` on: each maximal run of two or more
/// frames becomes one merge; single frames stay as they are.
pub open spec fn merge_plan(f: Seq<FingerprintRow>, i: int, threshold: u32) -> Seq<MergeGroupView>
    decreases f.len() - i,
{
    if i < 0 || i >= f.len() {
        Seq::empty()
    } else {
        let e = run_end(f, i, threshold);
        proof {
            lemma_run_end_bounds(f, i, threshold);
        }
        if e >= i + 1 && e < f.len() {
            seq![merge_group_spec(f, i, e)] + merge_plan(f, e + 1, threshold)
        } else {
            merge_plan(f, e + 1, threshold)
        }
    }
}

/// The run starting at a frame ends at or after it, within the list.
pub proof fn lemma_run_end_bounds(f: Seq<FingerprintRow>, i: int, threshold: u32)
    requires
        0 <= i < f.len(),
    ensures
        i <= run_end(f, i, threshold) < f.len(),
    decreases f.len() - i,
{
    if i + 1 < f.len() && hamming_spec(f[i].phash, f[i + 1].phash) <= threshold {
        lemma_run_end_bounds(f, i + 1, threshold);
    }
}

/// Every planned merge removes at least one frame and keeps the earliest
/// frame of its run, whose timestamp is not after the new static-until
/// time when the frames are in time order.
pub proof fn lemma_merge_groups_nonempty(f: Seq<FingerprintRow>, i: int, threshold: u32)
    requires
        forall|a: int, b: int| 0 <= a <= b < f.len() ==> f[a].ts <= f[b].ts,
    ensures
        forall|k: int|
            0 <= k < merge_plan(f, i, threshold).len() ==> {
                let g = #[trigger] merge_plan(f, i, threshold)[k];
                g.delete_ids.len() >= 1 && exists|j: int|
                    0 <= j < f.len() && f[j].id == g.keeper_id && f[j].ts <= g.last_ts
            },
    decreases f.len() - i,
{
    if 0 <= i < f.len() {
        let e = run_end(f, i, threshold);
        lemma_run_end_bounds(f, i, threshold);
        lemma_merge_groups_nonempty(f, e + 1, threshold);
        let rest = merge_plan(f, e + 1, threshold);
        if e >= i + 1 && e < f.len() {
            let g0 = merge_group_spec(f, i, e);
            assert(g0.delete_ids.len() == e - i);
            assert(f[i].id == g0.keeper_id && f[i].ts <= g0.last_ts);
            assert forall|k: int| 0 <= k < merge_plan(f, i, threshold).len() implies {
                let g = #[trigger] merge_plan(f, i, threshold)[k];
                g.delete_ids.len() >= 1 && exists|j: int|
                    0 <= j < f.len() && f[j].id == g.keeper_id && f[j].ts <= g.last_ts
            } by {
                if k == 0 {
                    assert(merge_plan(f, i, threshold)[k] == g0);
                } else {
                    assert(merge_plan(f, i, threshold)[k] == rest[k - 1]);
                }
            }
        }
    }
}

/// The index range `(first, last)` of each planned merge, in plan order.
pub open spec fn merge_ranges(f: Seq<FingerprintRow>, i: int, threshold: u32) -> Seq<(int, int)>
    decreases f.len() - i,
{
    if i < 0 || i >= f.len() {
        Seq::empty()
    } else {
        let e = run_end(f, i, threshold);
        proof {
            lemma_run_end_bounds(f, i, threshold);
        }
        if e >= i + 1 && e < f.len() {
            seq![(i, e)] + merge_ranges(f, e + 1, threshold)
        } else {
            merge_ranges(f, e + 1, threshold)
        }
    }
}

/// Each planned merge covers an index range of at least two frames; the
/// ranges lie after `i`, within the list, in increasing order and apart.
proof fn lemma_merge_ranges(f: Seq<FingerprintRow>, i: int, threshold: u32)
    requires
        0 <= i,
    ensures
        merge_plan(f, i, threshold).len() == merge_ranges(f, i, threshold).len(),
        forall|k: int|
            0 <= k < merge_ranges(f, i, threshold).len() ==> {
                let r = #[trigger] merge_ranges(f, i, threshold)[k];
                &&& i <= r.0 < r.1 < f.len()
                &&& merge_plan(f, i, threshold)[k] == merge_group_spec(f, r.0, r.1)
            },
        forall|k1: int, k2: int|
            0 <= k1 < k2 < merge_ranges(f, i, threshold).len() ==> (#[trigger] merge_ranges(
                f,
                i,
                threshold,
            )[k1]).1 < (#[trigger] merge_ranges(f, i, threshold)[k2]).0,
    decreases f.len() - i,
{
    if i < f.len() {
        let e = run_end(f, i, threshold);
        lemma_run_end_bounds(f, i, threshold);
        lemma_merge_ranges(f, e + 1, threshold);
        let rest_r = merge_ranges(f, e + 1, threshold);
        let rest_p = merge_plan(f, e + 1, threshold);
        let rs = merge_ranges(f, i, threshold);
        let ps = merge_plan(f, i, threshold);
        if e >= i + 1 && e < f.len() {
            assert forall|k: int| 0 <= k < rs.len() implies {
                let r = #[trigger] rs[k];
                &&& i <= r.0 < r.1 < f.len()
                &&& ps[k] == merge_group_spec(f, r.0, r.1)
            } by {
                if k > 0 {
                    assert(rs[k] == rest_r[k - 1]);
                    assert(ps[k] == rest_p[k - 1]);
                }
            }
            assert forall|k1: int, k2: int| 0 <= k1 < k2 < rs.len() implies (#[trigger] rs[k1]).1 < (
            #[trigger] rs[k2]).0 by {
                assert(rs[k2] == rest_r[k2 - 1]);
                if k1 > 0 {
                    assert(rs[k1] == rest_r[k1 - 1]);
                }
            }
        }
    }
}

/// Retroactive cleanup never loses a kept frame: when frame ids are
/// distinct, no planned merge deletes the keeper of any merge, and no frame
/// is deleted by two merges (or twice by one).
pub proof fn lemma_merge_never_deletes_keeper(f: Seq<FingerprintRow>, threshold: u32)
    requires
        forall|a: int, b: int| 0 <= a < b < f.len() ==> f[a].id != f[b].id,
    ensures
        ({
            let ps = merge_plan(f, 0, threshold);
            forall|k1: int, k2: int, j: int|
                #![trigger ps[k1], ps[k2].delete_ids[j]]
                0 <= k1 < ps.len() && 0 <= k2 < ps.len() && 0 <= j < ps[k2].delete_ids.len()
                    ==> ps[k1].keeper_id != ps[k2].delete_ids[j]
        }),
        ({
            let ps = merge_plan(f, 0, threshold);
            forall|k1: int, j1: int, k2: int, j2: int|
                #![trigger ps[k1].delete_ids[j1], ps[k2].delete_ids[j2]]
                0 <= k1 < ps.len() && 0 <= k2 < ps.len() && 0 <= j1 < ps[k1].delete_ids.len() && 0
                    <= j2 < ps[k2].delete_ids.len() && (k1 != k2 || j1 != j2)
                    ==> ps[k1].delete_ids[j1] != ps[k2].delete_ids[j2]
        }),
{
    lemma_merge_ranges(f, 0, threshold);
    let ps = merge_plan(f, 0, threshold);
    let rs = merge_ranges(f, 0, threshold);
    assert forall|k: int, j: int|
        0 <= k < ps.len() && 0 <= j < ps[k].delete_ids.len() implies #[trigger] ps[k].delete_ids[j]
        == f[rs[k].0 + 1 + j].id && ps[k].delete_ids.len() == rs[k].1 - rs[k].0 by {
        let r = rs[k];
        assert(ps[k] == merge_group_spec(f, r.0, r.1));
    }
    assert forall|k1: int, k2: int, j: int|
        #![trigger ps[k1], ps[k2].delete_ids[j]]
        0 <= k1 < ps.len() && 0 <= k2 < ps.len() && 0 <= j < ps[k2].delete_ids.len() implies ps[k1].keeper_id
        != ps[k2].delete_ids[j] by {
        let r1 = rs[k1];
        let r2 = rs[k2];
        assert(ps[k1] == merge_group_spec(f, r1.0, r1.1));
        assert(ps[k2] == merge_group_spec(f, r2.0, r2.1));
        assert(ps[k2].delete_ids[j] == f[r2.0 + 1 + j].id);
        let a = r1.0;
        let b = r2.0 + 1 + j;
        if k1 < k2 {
            assert(rs[k1].1 < rs[k2].0);
        } else if k2 < k1 {
            assert(rs[k2].1 < rs[k1].0);
        }
        assert(a != b);
        if a < b {
            assert(f[a].id != f[b].id);
        } else {
            assert(f[b].id != f[a].id);
        }
    }
    assert forall|k1: int, j1: int, k2: int, j2: int|
        #![trigger ps[k1].delete_ids[j1], ps[k2].delete_ids[j2]]
        0 <= k1 < ps.len() && 0 <= k2 < ps.len() && 0 <= j1 < ps[k1].delete_ids.len() && 0 <= j2
            < ps[k2].delete_ids.len() && (k1 != k2 || j1 != j2) implies ps[k1].delete_ids[j1]
        != ps[k2].delete_ids[j2] by {
        let r1 = rs[k1];
        let r2 = rs[k2];
        assert(ps[k1] == merge_group_spec(f, r1.0, r1.1));
        assert(ps[k2] == merge_group_spec(f, r2.0, r2.1));
        assert(ps[k1].delete_ids[j1] == f[r1.0 + 1 + j1].id);
        assert(ps[k2].delete_ids[j2] == f[r2.0 + 1 + j2].id);
        let a = r1.0 + 1 + j1;
        let b = r2.0 + 1 + j2;
        if k1 < k2 {
            assert(rs[k1].1 < rs[k2].0);
        } else if k2 < k1 {
            assert(rs[k2].1 < rs[k1].0);
        }
        assert(a != b);
        if a < b {
            assert(f[a].id != f[b].id);
        } else {
            assert(f[b].id != f[a].id);
        }
    }
}

/// Views of a list of merge groups.
pub open spec fn group_views(v: Seq<MergeGroup>) -> Seq<MergeGroupView> {
    v.map_values(|g: MergeGroup| g@)
}

/// Plans the retroactive cleanup of a monitor newly classified noisy: runs of
/// consecutive frames, each within `noisy_threshold` of the previous one, are
/// merged into the earliest frame of the run.
pub fn plan_noisy_merges(frames: &Vec<FingerprintRow>, noisy_threshold: u32) -> (plan: Vec<
    MergeGroup,
>)
    ensures
        group_views(plan@) == merge_plan(frames@, 0, noisy_threshold),
{
    let n = frames.len();
    let mut plan: Vec<MergeGroup> = Vec::new();
    if n < 2 {
        proof {
            if n == 1 {
                assert(run_end(frames@, 0, noisy_threshold) == 0);
                assert(merge_plan(frames@, 1, noisy_threshold) =~= Seq::<MergeGroupView>::empty());
            }
        }
        return plan;
    }
    let mut i: usize = 0;
    while i < n
        invariant
            n == frames@.len(),
            i <= n,
            group_views(plan@) + merge_plan(frames@, i as int, noisy_threshold) == merge_plan(
                frames@,
                0,
                noisy_threshold,
            ),
        decreases n - i,
    {
        let mut group_end = i;
        let mut j = i + 1;
        while j < n && hamming(frames[j - 1].phash, frames[j].phash) <= noisy_threshold
            invariant
                n == frames@.len(),
                i < n,
                j == group_end + 1,
                i <= group_end < n,
                run_end(frames@, i as int, noisy_threshold) == run_end(
                    frames@,
                    group_end as int,
                    noisy_threshold,
                ),
            decreases n - j,
        {
            group_end = j;
            j = j + 1;
        }
        proof {
            assert(run_end(frames@, group_end as int, noisy_threshold) == group_end);
            lemma_run_end_bounds(frames@, i as int, noisy_threshold);
        }
        let ghost before = group_views(plan@);
        if group_end > i {
            let keeper_id = frames[i].id;
            let last_ts = frames[group_end].ts;
            let mut delete_ids: Vec<i64> = Vec::new();
            let mut delete_paths: Vec<String> = Vec::new();
            let mut k = i + 1;
            while k <= group_end
                invariant
                    n == frames@.len(),
                    i < k <= group_end + 1,
                    group_end < n,
                    delete_ids@ == frames@.subrange(i as int + 1, k as int).map_values(
                        |r: FingerprintRow| r.id,
                    ),
                    delete_paths@ == frames@.subrange(i as int + 1, k as int).map_values(
                        |r: FingerprintRow| r.path,
                    ),
                decreases group_end + 1 - k,
            {
                delete_ids.push(frames[k].id);
                delete_paths.push(frames[k].path.clone());
                k = k + 1;
                proof {
                    assert(delete_ids@ =~= frames@.subrange(i as int + 1, k as int).map_values(
                        |r: FingerprintRow| r.id,
                    ));
                    assert(delete_paths@ =~= frames@.subrange(i as int + 1, k as int).map_values(
                        |r: FingerprintRow| r.path,
                    ));
                }
            }
            let g = MergeGroup { keeper_id, delete_ids, delete_paths, last_ts };
            plan.push(g);
            proof {
                assert(g@ == merge_group_spec(frames@, i as int, group_end as int));
                assert(group_views(plan@) =~= before.push(g@));
                assert(merge_plan(frames@, i as int, noisy_threshold) == seq![
                    merge_group_spec(frames@, i as int, group_end as int),
                ] + merge_plan(frames@, group_end as int + 1, noisy_threshold));
                assert(before.push(g@) + merge_plan(frames@, group_end as int + 1, noisy_threshold)
                    =~= before + merge_plan(frames@, i as int, noisy_threshold));
            }
        }
        i = group_end + 1;
    }
    proof {
        assert(merge_plan(frames@, n as int, noisy_threshold) =~= Seq::<MergeGroupView>::empty());
        assert(group_views(plan@) + Seq::<MergeGroupView>::empty() =~= group_views(plan@));
    }
    plan
}


/// What std's `str::to_lowercase` returns for a string (Unicode lower case).
pub uninterp spec fn unicode_lowercase(s: Seq<char>) -> Seq<char>;

/// std's `str::to_lowercase`. The contract names the result and states the
/// ASCII case: a string of ASCII characters is lower-cased letter by letter
/// as `to_ascii_lowercase` does. The mapping of other characters (which can
/// change the length) is not stated.
#[verifier::external_body]
fn str_to_lowercase(s: &str) -> (r: String)
    ensures
        r@ == unicode_lowercase(s@),
        (forall|i: int| 0 <= i < s@.len() ==> (#[trigger] s@[i] as u32) < 128) ==> r@
            == ascii_lower_seq(s@),
{
    s.to_lowercase()
}

/// Capture is skipped for the active window when its process name equals an
/// excluded process (ASCII case ignored) or its title contains an excluded
/// substring (both lower-cased).
pub open spec fn window_excluded_spec(
    excluded_processes: Seq<Seq<char>>,
    excluded_substrings: Seq<Seq<char>>,
    process: Seq<char>,
    title: Seq<char>,
) -> bool {
    ||| exists|i: int|
        0 <= i < excluded_processes.len() && ascii_lower_seq(#[trigger] excluded_processes[i])
            == ascii_lower_seq(process)
    ||| exists|i: int|
        0 <= i < excluded_substrings.len() && contains_seq(
            unicode_lowercase(title),
            unicode_lowercase(#[trigger] excluded_substrings[i]),
        )
}

/// Every entry of the substring list counts: when the lowercased title
/// holds the lowercased entry `i` at some position `k`, the window is
/// excluded, whatever the other entries and the process lists hold.
pub proof fn lemma_every_excluded_substring_counts(
    excluded_processes: Seq<Seq<char>>,
    excluded_substrings: Seq<Seq<char>>,
    process: Seq<char>,
    title: Seq<char>,
    i: int,
    k: int,
)
    requires
        0 <= i < excluded_substrings.len(),
        0 <= k,
        k + unicode_lowercase(excluded_substrings[i]).len() <= unicode_lowercase(title).len(),
        unicode_lowercase(title).subrange(k, k + unicode_lowercase(excluded_substrings[i]).len())
            == unicode_lowercase(excluded_substrings[i]),
    ensures
        window_excluded_spec(excluded_processes, excluded_substrings, process, title),
{
    assert(occurs_at(unicode_lowercase(title), unicode_lowercase(excluded_substrings[i]), k));
}

/// Every entry of the process list counts: a process whose name equals
/// entry `i` up to ASCII case is excluded.
pub proof fn lemma_every_excluded_process_counts(
    excluded_processes: Seq<Seq<char>>,
    excluded_substrings: Seq<Seq<char>>,
    process: Seq<char>,
    title: Seq<char>,
    i: int,
)
    requires
        0 <= i < excluded_processes.len(),
        ascii_lower_seq(excluded_processes[i]) == ascii_lower_seq(process),
    ensures
        window_excluded_spec(excluded_processes, excluded_substrings, process, title),
{
}

/// A window is excluded only for a reason: when no process entry matches
/// the process up to ASCII case and no lowercased substring entry occurs in
/// the lowercased title, the window is captured.
pub proof fn lemma_excluded_only_by_a_match(
    excluded_processes: Seq<Seq<char>>,
    excluded_substrings: Seq<Seq<char>>,
    process: Seq<char>,
    title: Seq<char>,
)
    requires
        forall|i: int|
            0 <= i < excluded_processes.len() ==> ascii_lower_seq(#[trigger] excluded_processes[i])
                != ascii_lower_seq(process),
        forall|i: int, k: int|
            0 <= i < excluded_substrings.len() && 0 <= k && k + unicode_lowercase(
                #[trigger] excluded_substrings[i],
            ).len() <= unicode_lowercase(title).len() ==> #[trigger] unicode_lowercase(
                title,
            ).subrange(k, k + unicode_lowercase(excluded_substrings[i]).len())
                != unicode_lowercase(excluded_substrings[i]),
    ensures
        !window_excluded_spec(excluded_processes, excluded_substrings, process, title),
{
    if window_excluded_spec(excluded_processes, excluded_substrings, process, title) {
        if exists|i: int|
            0 <= i < excluded_substrings.len() && contains_seq(
                unicode_lowercase(title),
                unicode_lowercase(#[trigger] excluded_substrings[i]),
            ) {
            let i = choose|i: int|
                0 <= i < excluded_substrings.len() && contains_seq(
                    unicode_lowercase(title),
                    unicode_lowercase(#[trigger] excluded_substrings[i]),
                );
            let k = choose|k: int|
                occurs_at(unicode_lowercase(title), unicode_lowercase(excluded_substrings[i]), k);
            assert(unicode_lowercase(title).subrange(
                k,
                k + unicode_lowercase(excluded_substrings[i]).len(),
            ) == unicode_lowercase(excluded_substrings[i]));
        }
    }
}

/// Whether the settings exclude the active window from capture.
pub fn window_excluded(
    excluded_processes: &Vec<String>,
    excluded_substrings: &Vec<String>,
    process: &str,
    title: &str,
) -> (b: bool)
    ensures
        b == window_excluded_spec(
            string_views(excluded_processes@),
            string_views(excluded_substrings@),
            process@,
            title@,
        ),
{
    let p = chars_of(process);
    let mut i: usize = 0;
    while i < excluded_processes.len()
        invariant
            i <= excluded_processes@.len(),
            p@ == process@,
            forall|j: int|
                0 <= j < i ==> ascii_lower_seq(#[trigger] string_views(excluded_processes@)[j])
                    != ascii_lower_seq(process@),
        decreases excluded_processes@.len() - i,
    {
        proof {
            assert(string_views(excluded_processes@)[i as int] == excluded_processes@[i as int]@);
        }
        if eq_ignore_ascii_case(&chars_of(excluded_processes[i].as_str()), &p) {
            return true;
        }
        i = i + 1;
    }
    let t = chars_of(str_to_lowercase(title).as_str());
    let mut k: usize = 0;
    while k < excluded_substrings.len()
        invariant
            k <= excluded_substrings@.len(),
            t@ == unicode_lowercase(title@),
            forall|j: int| 0 <= j < excluded_processes@.len() ==> ascii_lower_seq(
                #[trigger] string_views(excluded_processes@)[j],
            ) != ascii_lower_seq(process@),
            forall|j: int|
                0 <= j < k ==> !contains_seq(
                    unicode_lowercase(title@),
                    unicode_lowercase(#[trigger] string_views(excluded_substrings@)[j]),
                ),
        decreases excluded_substrings@.len() - k,
    {
        proof {
            assert(string_views(excluded_substrings@)[k as int] == excluded_substrings@[k as int]@);
        }
        let sub = str_to_lowercase(excluded_substrings[k].as_str());
        if contains_chars(&t, &chars_of(sub.as_str())) {
            return true;
        }
        k = k + 1;
    }
    false
}

/// Capture is skipped while the session is locked, if the setting says so.
pub fn skip_capture_for_session_lock(pause_when_locked: bool, locked: bool) -> (b: bool)
    ensures
        b == (pause_when_locked && locked),
{
    pause_when_locked && locked
}

/// The JPEG quality used: the setting kept within 1..=100.
pub fn jpeg_quality(q: u8) -> (r: u8)
    ensures
        r == (if q < 1 {
            1
        } else if q > 100 {
            100
        } else {
            q
        }),
{
    if q < 1 {
        1
    } else if q > 100 {
        100
    } else {
        q
    }
}

/// A frame is downscaled when a maximum edge is set and its long edge
/// exceeds it.
pub fn needs_downscale(width: u32, height: u32, max_edge: u32) -> (b: bool)
    ensures
        b == (max_edge > 0 && (if width > height {
            width
        } else {
            height
        }) > max_edge),
{
    let long = if width > height {
        width
    } else {
        height
    };
    max_edge > 0 && long > max_edge
}

/// Milliseconds to sleep after a capture tick that took `elapsed_ms`: the
/// rest of the interval (at least one second), or 50 ms when the tick
/// overran it.
pub fn tick_sleep_ms(interval_secs: u64, elapsed_ms: u64) -> (r: u64)
    ensures
        ({
            let target = (if interval_secs < 1 {
                1
            } else if interval_secs > u64::MAX / 1000 {
                u64::MAX / 1000
            } else {
                interval_secs
            }) * 1000;
            r == (if elapsed_ms < target {
                target - elapsed_ms
            } else {
                50
            })
        }),
{
    let secs = if interval_secs < 1 {
        1
    } else if interval_secs > u64::MAX / 1000 {
        u64::MAX / 1000
    } else {
        interval_secs
    };
    let target = secs * 1000;
    if elapsed_ms < target {
        target - elapsed_ms
    } else {
        50
    }
}

} // verus!
