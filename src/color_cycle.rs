use vstd::prelude::*;

verus! {

// Color channels are fixed-point numbers in ten-thousandths: `FULL` is full
// intensity (1.0), `STEP` the amount moved per pair and frame (0.01), and a
// channel within `NEAR` (0.0005) of a value counts as equal to it.

/// Full intensity of one channel.
pub const FULL: i32 = 10000;

/// The amount of color moved from one channel to the next in one step.
pub const STEP: i32 = 100;

/// The tolerance of the near-zero and near-full guards.
pub const NEAR: i32 = 5;

/// The largest magnitude of a channel that one step can take without overflow:
/// a step moves any channel by at most two `STEP`s.
pub const CHANNEL_BOUND: i32 = 2147483447;

/// The channels as mathematical integers.
pub open spec fn channels(s: Seq<i32>) -> Seq<int> {
    s.map_values(|c: i32| c as int)
}

/// Every channel fits the bound that a step needs.
pub open spec fn channels_in_bound(s: Seq<i32>) -> bool {
    forall|k: int| 0 <= k < s.len() ==> -CHANNEL_BOUND <= #[trigger] s[k] <= CHANNEL_BOUND
}

pub open spec fn near_zero(c: int) -> bool {
    -NEAR < c < NEAR
}

pub open spec fn near_full(c: int) -> bool {
    FULL - NEAR <= c <= FULL + NEAR
}

/// The channel that channel `i` passes color to: the next one, circularly.
pub open spec fn successor(len: int, i: int) -> int {
    if i + 1 == len {
        0
    } else {
        i + 1
    }
}

/// Whether the pair starting at channel `i` is left alone: the source is
/// (near) empty, or the target is empty while the source is not full.
pub open spec fn pair_blocked(s: Seq<int>, i: int) -> bool {
    let j = successor(s.len() as int, i);
    near_zero(s[i]) || (near_zero(s[j]) && !near_full(s[i]))
}

/// Moves `STEP` from channel `i` to its successor unless the pair is blocked.
pub open spec fn shift_pair(s: Seq<int>, i: int) -> Seq<int> {
    let j = successor(s.len() as int, i);
    if pair_blocked(s, i) {
        s
    } else {
        let t = s.update(i, s[i] - STEP);
        t.update(j, t[j] + STEP)
    }
}

/// Visits the pairs from channel `i` to the last, in order, each seeing the
/// changes made by the ones before it.
pub open spec fn pass_from(s: Seq<int>, i: int) -> Seq<int>
    decreases s.len() - i,
{
    if 0 <= i < s.len() {
        pass_from(shift_pair(s, i), i + 1)
    } else {
        s
    }
}

/// One step of the color cycle: a pass over every pair.
pub open spec fn cycle_once(s: Seq<int>) -> Seq<int> {
    pass_from(s, 0)
}

/// `n` steps of the color cycle.
pub open spec fn cycle_times(s: Seq<int>, n: nat) -> Seq<int>
    decreases n,
{
    if n == 0 {
        s
    } else {
        cycle_once(cycle_times(s, (n - 1) as nat))
    }
}

/// The sum of all channels.
pub open spec fn total(s: Seq<int>) -> int
    decreases s.len(),
{
    if s.len() == 0 {
        0
    } else {
        total(s.drop_last()) + s.last()
    }
}

/// How often channel `k` has been changed once the pairs before `i` were
/// visited: once as a source (pair `k`), once as a target (pair `k - 1`, or
/// the last pair for channel 0).
spec fn touches(n: int, k: int, i: int) -> int {
    (if k < i {
        1int
    } else {
        0int
    }) + (if (1 <= k <= i) || (k == 0 && i == n) {
        1int
    } else {
        0int
    })
}

fn is_near_zero(c: i32) -> (r: bool)
    ensures
        r == near_zero(c as int),
{
    -NEAR < c && c < NEAR
}

fn is_near_full(c: i32) -> (r: bool)
    ensures
        r == near_full(c as int),
{
    FULL - NEAR <= c && c <= FULL + NEAR
}

/// Advances the color cycle by one step: for each channel `i` in order, with
/// `j` the next channel circularly, `STEP` moves from `i` to `j` unless `i` is
/// near zero, or `j` is near zero while `i` is not near full.
pub fn cycle_step(colors: &mut Vec<i32>)
    requires
        channels_in_bound(old(colors)@),
    ensures
        final(colors)@.len() == old(colors)@.len(),
        channels(final(colors)@) == cycle_once(channels(old(colors)@)),
{
    let n = colors.len();
    let ghost orig = channels(colors@);
    let mut i: usize = 0;
    while i < n
        invariant
            i <= n,
            colors@.len() == n,
            orig.len() == n,
            orig == channels(old(colors)@),
            channels_in_bound(old(colors)@),
            pass_from(channels(colors@), i as int) == cycle_once(orig),
            forall|k: int|
                0 <= k < n ==> -STEP * touches(n as int, k, i as int) <= #[trigger] colors@[k]
                    - orig[k] <= STEP * touches(n as int, k, i as int),
        decreases n - i,
    {
        let ghost before = channels(colors@);
        let ghost prev = colors@;
        let j: usize = if i + 1 == n {
            0
        } else {
            i + 1
        };
        let ci = colors[i];
        let cj = colors[j];
        assert(before[i as int] == ci && before[j as int] == cj);
        assert(-CHANNEL_BOUND <= old(colors)@[i as int] <= CHANNEL_BOUND);
        assert(-CHANNEL_BOUND <= old(colors)@[j as int] <= CHANNEL_BOUND);
        assert(-STEP * touches(n as int, i as int, i as int) <= prev[i as int] - orig[i as int]);
        assert(prev[j as int] - orig[j as int] <= STEP * touches(n as int, j as int, i as int));
        if !(is_near_zero(ci) || (is_near_zero(cj) && !is_near_full(ci))) {
            colors[i] = ci - STEP;
            let cj2 = colors[j];
            colors[j] = cj2 + STEP;
        }
        assert(channels(colors@) =~= shift_pair(before, i as int));
        assert forall|k: int| 0 <= k < n implies -STEP * touches(n as int, k, i + 1) <= #[trigger] colors@[k]
            - orig[k] <= STEP * touches(n as int, k, i + 1) by {
            assert(-STEP * touches(n as int, k, i as int) <= prev[k] - orig[k] <= STEP * touches(
                n as int,
                k,
                i as int,
            ));
        }
        i += 1;
    }
    assert(channels(colors@) == cycle_once(orig));
}

proof fn lemma_total_update(s: Seq<int>, k: int, v: int)
    requires
        0 <= k < s.len(),
    ensures
        total(s.update(k, v)) == total(s) - s[k] + v,
    decreases s.len(),
{
    let u = s.update(k, v);
    if k == s.len() - 1 {
        assert(u.drop_last() =~= s.drop_last());
    } else {
        lemma_total_update(s.drop_last(), k, v);
        assert(u.drop_last() =~= s.drop_last().update(k, v));
    }
}

proof fn lemma_pass_keeps_total(s: Seq<int>, i: int)
    requires
        0 <= i,
    ensures
        pass_from(s, i).len() == s.len(),
        total(pass_from(s, i)) == total(s),
    decreases s.len() - i,
{
    if i < s.len() {
        let j = successor(s.len() as int, i);
        if !pair_blocked(s, i) {
            let t = s.update(i, s[i] - STEP);
            lemma_total_update(s, i, s[i] - STEP);
            lemma_total_update(t, j, t[j] + STEP);
        }
        lemma_pass_keeps_total(shift_pair(s, i), i + 1);
    }
}

/// A step of the color cycle only moves color between channels: however many
/// steps are taken, the sum of all channels stays what it was.
pub proof fn lemma_cycle_conserves_total(s: Seq<int>, n: nat)
    ensures
        cycle_times(s, n).len() == s.len(),
        total(cycle_times(s, n)) == total(s),
    decreases n,
{
    if n > 0 {
        lemma_cycle_conserves_total(s, (n - 1) as nat);
        lemma_pass_keeps_total(cycle_times(s, (n - 1) as nat), 0);
    }
}

} // verus!
