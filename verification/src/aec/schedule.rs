//! The bookkeeping of the echo canceller: which samples each analysis hop reads, when the
//! delay is estimated anew, how much output is queued, and what to make of an estimate. The
//! signal arithmetic itself is elsewhere.

use super::reference::MAX_LAG_SAMPLES;
use vstd::arithmetic::power2::*;
use vstd::prelude::*;

verus! {

/// The length of an analysis window, in samples.
pub const FFT_N: usize = 256;

/// How far the analysis advances at a time.
pub const HOP: usize = 64;

/// By how many samples the output trails the input.
pub const LATENCY: usize = 256;

/// How many samples of each signal are remembered.
pub const HIST: usize = 65536;

/// How many hops lie between two estimates of the delay.
pub const EST_INTERVAL_HOPS: usize = 188;

/// How many captured samples an estimate looks at.
pub const DELAY_WIN: usize = 16384;

/// How many samples a frame has, per channel.
pub const FRAME: usize = 960;

/// How far from the winning peak another one has to lie to count as a rival, in samples.
pub const EXCLUDE: usize = 240;

/// The lowest `bits` bits of `i` in reverse order.
pub open spec fn reversed(i: nat, bits: nat) -> nat
    decreases bits,
{
    if bits == 0 {
        0
    } else {
        (i % 2) * pow2((bits - 1) as nat) + reversed(i / 2, (bits - 1) as nat)
    }
}

proof fn lemma_reversed_fits(i: nat, bits: nat)
    ensures
        reversed(i, bits) < pow2(bits),
    decreases bits,
{
    if bits == 0 {
        lemma2_to64();
    } else {
        let half = pow2((bits - 1) as nat);
        lemma_reversed_fits(i / 2, (bits - 1) as nat);
        lemma_pow2_unfold(bits);
        assert((i % 2) * half <= half) by (nonlinear_arith)
            requires
                i % 2 <= 1,
        ;
    }
}

/// Reversing a number by its highest bit instead of its lowest.
proof fn lemma_reversed_high(high: nat, low: nat, bits: nat)
    requires
        bits > 0,
        high <= 1,
        low < pow2((bits - 1) as nat),
    ensures
        reversed(high * pow2((bits - 1) as nat) + low, bits) == 2 * reversed(low, (bits - 1) as nat) + high,
    decreases bits,
{
    let half = pow2((bits - 1) as nat);
    let i = high * half + low;
    if bits == 1 {
        lemma2_to64();
        assert(half == 1);
        assert(low == 0);
        assert(i == high) by (nonlinear_arith)
            requires
                i == high * half + low,
                half == 1,
                low == 0,
        ;
        assert(reversed(i / 2, 0) == 0);
        assert(reversed(i, 1) == (i % 2) * pow2(0) + reversed(i / 2, 0));
        assert((i % 2) * pow2(0) == i % 2) by (nonlinear_arith)
            requires
                pow2(0) == 1,
        ;
    } else {
        let quarter = pow2((bits - 2) as nat);
        lemma_pow2_unfold((bits - 1) as nat);
        assert(half == 2 * quarter);
        let inner = high * quarter + low / 2;
        assert(high * half == 2 * (high * quarter)) by (nonlinear_arith)
            requires
                half == 2 * quarter,
        ;
        assert(i % 2 == low % 2);
        assert(i / 2 == inner);
        lemma_reversed_high(high, low / 2, (bits - 1) as nat);
        assert(reversed(i, bits) == (low % 2) * half + reversed(inner, (bits - 1) as nat));
        assert(reversed(low, (bits - 1) as nat) == (low % 2) * quarter + reversed(
            low / 2,
            (bits - 2) as nat,
        ));
        assert((low % 2) * half == 2 * ((low % 2) * quarter)) by (nonlinear_arith)
            requires
                half == 2 * quarter,
        ;
    }
}

/// Reversing twice gives the number back, so the reordering a transform begins with is made of
/// swaps.
pub proof fn lemma_reversing_twice_is_nothing(i: nat, bits: nat)
    requires
        i < pow2(bits),
    ensures
        reversed(i, bits) < pow2(bits),
        reversed(reversed(i, bits), bits) == i,
    decreases bits,
{
    lemma_reversed_fits(i, bits);
    if bits == 0 {
        lemma2_to64();
    } else {
        lemma_pow2_unfold(bits);
        let rest = reversed(i / 2, (bits - 1) as nat);
        lemma_reversed_fits(i / 2, (bits - 1) as nat);
        lemma_reversing_twice_is_nothing(i / 2, (bits - 1) as nat);
        lemma_reversed_high(i % 2, rest, bits);
    }
}

/// The lowest `bits` bits of `i` in reverse order.
fn reverse(i: u32, bits: u32) -> (r: u32)
    requires
        bits <= 31,
    ensures
        r == reversed(i as nat, bits as nat),
        r < pow2(bits as nat),
{
    let mut r: u32 = 0;
    let mut x: u32 = i;
    let mut k: u32 = 0;
    proof {
        lemma2_to64();
        lemma_pow2_pos(bits as nat);
    }
    while k < bits
        invariant
            k <= bits <= 31,
            r < pow2(k as nat),
            reversed(i as nat, bits as nat) == r * pow2((bits - k) as nat) + reversed(
                x as nat,
                (bits - k) as nat,
            ),
        decreases bits - k,
    {
        let ghost left = (bits - k) as nat;
        let ghost half = pow2((left - 1) as nat);
        proof {
            lemma_pow2_unfold(left);
            lemma_pow2_unfold((k + 1) as nat);
            lemma_pow2_strictly_increases_up_to(k as nat);
            assert(r * pow2(left) == (2 * r) * half) by (nonlinear_arith)
                requires
                    pow2(left) == 2 * half,
            ;
            assert((2 * r + x % 2) * half == (2 * r) * half + (x % 2) * half) by (nonlinear_arith);
        }
        r = 2 * r + x % 2;
        x = x / 2;
        k = k + 1;
    }
    assert(r * pow2(0) == r) by {
        lemma2_to64();
    }
    r
}

proof fn lemma_pow2_strictly_increases_up_to(k: nat)
    requires
        k <= 30,
    ensures
        pow2(k) <= 0x4000_0000,
{
    lemma2_to64();
    if k < 30 {
        lemma_pow2_strictly_increases(k, 30);
    }
}

/// The order in which a transform of `2^bits` points takes its input.
pub fn bit_reversal(bits: u32) -> (r: Vec<u32>)
    requires
        1 <= bits <= 31,
    ensures
        r@.len() == pow2(bits as nat),
        forall|i: int| 0 <= i < r@.len() ==> #[trigger] r@[i] == reversed(i as nat, bits as nat),
        reorders(r@),
{
    let mut n: u32 = 1;
    let mut k: u32 = 0;
    proof {
        lemma2_to64();
    }
    while k < bits
        invariant
            k <= bits <= 31,
            n == pow2(k as nat),
        decreases bits - k,
    {
        proof {
            lemma_pow2_unfold((k + 1) as nat);
            lemma_pow2_strictly_increases_up_to(k as nat);
        }
        n = 2 * n;
        k = k + 1;
    }
    let mut out: Vec<u32> = Vec::new();
    let mut i: u32 = 0;
    while i < n
        invariant
            i <= n,
            n == pow2(bits as nat),
            bits <= 31,
            out@.len() == i,
            forall|j: int| 0 <= j < i ==> #[trigger] out@[j] == reversed(j as nat, bits as nat),
        decreases n - i,
    {
        out.push(reverse(i, bits));
        i = i + 1;
    }
    proof {
        assert forall|j: int| 0 <= j < out@.len() implies (#[trigger] out@[j]) < out@.len() && out@[out@[j] as int]
            == j by {
            lemma_reversing_twice_is_nothing(j as nat, bits as nat);
        }
    }
    out
}

/// A reordering made of swaps.
pub open spec fn reorders(order: Seq<u32>) -> bool {
    forall|i: int| 0 <= i < order.len() ==> (#[trigger] order[i]) < order.len() && order[order[i] as int] == i
}

/// Put values into the order a transform takes them in.
pub fn reorder<T: Copy>(values: &mut Vec<T>, order: &Vec<u32>)
    requires
        reorders(order@),
        old(values)@.len() == order@.len(),
    ensures
        final(values)@ == Seq::new(order@.len(), |i: int| old(values)@[order@[i] as int]),
{
    let n: usize = values.len();
    let ghost before = values@;
    let mut i: usize = 0;
    while i < n
        invariant
            n == values@.len(),
            n == order@.len(),
            n == before.len(),
            i <= n,
            reorders(order@),
            forall|k: int|
                0 <= k < n && (k < i || order@[k] < i) ==> #[trigger] values@[k] == before[order@[k] as int],
            forall|k: int|
                0 <= k < n && !(k < i || order@[k] < i) ==> #[trigger] values@[k] == before[k],
        decreases n - i,
    {
        let j: usize = order[i] as usize;
        let ghost was = values@;
        if j > i {
            let a: T = values[i];
            let b: T = values[j];
            values[i] = b;
            values[j] = a;
        }
        proof {
            assert(order@[order@[i as int] as int] == i);
            assert forall|k: int| 0 <= k < n && (k < i + 1 || order@[k] < i + 1) implies #[trigger] values@[k]
                == before[order@[k] as int] by {
                assert(order@[order@[k] as int] == k);
                if k == i || order@[k] == i {
                } else {
                    assert(values@[k] == was[k]);
                }
            }
            assert forall|k: int| 0 <= k < n && !(k < i + 1 || order@[k] < i + 1) implies #[trigger] values@[k]
                == before[k] by {
                assert(values@[k] == was[k]);
            }
        }
        i = i + 1;
    }
    assert(values@ =~= Seq::new(order@.len(), |i: int| before[order@[i] as int]));
}

/// Where in a signal's history the sample with this index is kept.
pub fn hist_index(index: u64) -> (r: usize)
    ensures
        r == index % 65536,
        r < HIST,
{
    (index % 65536) as usize
}

/// Where the window that ends at `end` begins.
pub fn window_start(end: u64) -> (r: u64)
    ensures
        r == if end < FFT_N {
            0
        } else {
            end - FFT_N
        },
{
    end.saturating_sub(FFT_N as u64)
}

/// Two samples that are both still remembered do not share a place, and the deepest read of
/// the canceller is of samples that are.
pub proof fn lemma_the_history_is_deep_enough(end: u64, a: u64, b: u64)
    requires
        a < b < end,
        end - a <= DELAY_WIN + MAX_LAG_SAMPLES + FFT_N,
    ensures
        end - a <= HIST,
        a % 65536 != b % 65536,
{
}

/// How far input, analysis and output have come.
#[derive(Clone, Copy, Debug, PartialEq, Eq, Structural)]
pub struct Schedule {
    /// The index of the next sample to come in.
    pub pos: u64,
    /// How far the analysis has come.
    pub hopped: u64,
    /// How many hops ago the delay was estimated.
    pub since_est: usize,
    /// How many finished samples wait to be taken, per channel.
    pub queued: usize,
}

impl Schedule {
    /// The analysis trails the input by less than a frame and a hop; what is neither queued nor
    /// still to be analysed has been taken.
    pub open spec fn wf(self) -> bool {
        &&& FFT_N <= self.hopped <= self.pos
        &&& self.since_est < EST_INTERVAL_HOPS
        &&& self.queued <= HOP + FRAME
    }

    /// Between two frames: the analysis trails the input by less than a hop, and the queue
    /// holds what makes up the latency.
    pub open spec fn rests(self) -> bool {
        self.wf() && self.pos - self.hopped < HOP && self.queued == HOP - (self.pos - self.hopped)
    }

    /// Within a frame, before its output is taken.
    pub open spec fn working(self) -> bool {
        self.wf() && self.queued + (self.pos - self.hopped) == HOP + FRAME
    }

    /// Nothing has come in. What precedes the first sample reads as silence, and so much
    /// silence is queued that the output trails the input by exactly [`LATENCY`].
    pub fn new() -> (r: Schedule)
        ensures
            r == (Schedule { pos: 256, hopped: 256, since_est: 0, queued: 64 }),
            r.rests(),
            r.queued + (FFT_N - HOP) == LATENCY,
    {
        Schedule { pos: 256, hopped: 256, since_est: 0, queued: 64 }
    }

    /// A frame came in.
    pub fn ingest(&mut self)
        requires
            old(self).rests(),
            old(self).pos + FRAME <= u64::MAX,
        ensures
            *final(self) == (Schedule { pos: (old(self).pos + FRAME) as u64, ..*old(self) }),
            final(self).working(),
    {
        self.pos = self.pos + FRAME as u64;
    }

    /// Whether a whole hop has come in that has not been analysed.
    pub fn hop_due(&self) -> (r: bool)
        requires
            self.wf(),
        ensures
            r == (self.pos - self.hopped >= HOP),
    {
        self.pos - self.hopped >= HOP as u64
    }

    /// Analyse one hop, which finishes as many samples. Says whether the delay is to be
    /// estimated first.
    pub fn hop(&mut self) -> (estimate: bool)
        requires
            old(self).working(),
            old(self).pos - old(self).hopped >= HOP,
        ensures
            final(self).working(),
            estimate == (old(self).since_est + 1 == EST_INTERVAL_HOPS),
            *final(self) == (Schedule {
                pos: old(self).pos,
                hopped: (old(self).hopped + HOP) as u64,
                since_est: if estimate {
                    0
                } else {
                    (old(self).since_est + 1) as usize
                },
                queued: (old(self).queued + HOP) as usize,
            }),
    {
        self.hopped = self.hopped + HOP as u64;
        self.queued = self.queued + HOP;
        self.since_est = self.since_est + 1;
        if self.since_est >= EST_INTERVAL_HOPS {
            self.since_est = 0;
            return true;
        }
        false
    }

    /// Take a frame of finished samples. The queue never runs dry.
    pub fn drain(&mut self)
        requires
            old(self).working(),
            old(self).pos - old(self).hopped < HOP,
        ensures
            old(self).queued >= FRAME,
            *final(self) == (Schedule { queued: (old(self).queued - FRAME) as usize, ..*old(self) }),
            final(self).rests(),
            final(self).queued > 0,
    {
        self.queued = self.queued - FRAME;
    }

    /// The delay is to be estimated anew, from the beginning.
    pub fn restart_estimates(&mut self)
        requires
            old(self).wf(),
        ensures
            *final(self) == (Schedule { since_est: 0, ..*old(self) }),
            final(self).wf(),
    {
        self.since_est = 0;
    }

    /// Where the captured window of an estimate begins, and where the reference does, which
    /// reaches further back by all the delay that is searched. Nothing before there is that
    /// much to look at.
    pub fn estimate_windows(&self) -> (r: Option<(u64, u64)>)
        ensures
            r == if self.hopped < DELAY_WIN + MAX_LAG_SAMPLES {
                None
            } else {
                Some(
                    (
                        (self.hopped - DELAY_WIN) as u64,
                        (self.hopped - DELAY_WIN - MAX_LAG_SAMPLES) as u64,
                    ),
                )
            },
    {
        if self.hopped < (DELAY_WIN + MAX_LAG_SAMPLES) as u64 {
            return None;
        }
        let capture: u64 = self.hopped - DELAY_WIN as u64;
        Some((capture, capture - MAX_LAG_SAMPLES as u64))
    }
}

/// The delay that the `k`th place of a correlation stands for: the reference begins `max_lag`
/// samples before the capture.
pub fn lag_at(k: usize, max_lag: usize) -> (r: usize)
    requires
        k <= max_lag,
    ensures
        r == max_lag - k,
{
    max_lag - k
}

/// The part of a reference of `len` samples that the `k`th place of a correlation with a
/// window of `win` samples read.
pub fn read_window(k: usize, win: usize, len: usize) -> (r: (usize, usize))
    requires
        k + win <= usize::MAX,
    ensures
        r.1 == if k + win < len {
            k + win
        } else {
            len as int
        },
        r.0 == if k < r.1 {
            k
        } else {
            r.1
        },
        r.0 <= r.1 <= len,
{
    let hi: usize = if k + win < len {
        k + win
    } else {
        len
    };
    let lo: usize = if k < hi {
        k
    } else {
        hi
    };
    (lo, hi)
}

/// Whether a place of the correlation is far enough from the winner to be its rival.
pub fn is_rival(k: usize, best: usize) -> (r: bool)
    ensures
        r == (k - best > EXCLUDE || best - k > EXCLUDE),
{
    if k > best {
        k - best > EXCLUDE
    } else {
        best - k > EXCLUDE
    }
}

/// What to make of an estimate of the delay.
#[derive(Clone, Copy, Debug, PartialEq, Eq, Structural)]
pub enum LagStep {
    /// Nothing: it did not stand out enough.
    Ignore,
    /// Remember it: a large disagreement has to come twice to be believed.
    Remember,
    /// Drop the alignment and begin with this one.
    Restart,
    /// Fold it into the delay that is tracked.
    Track,
}

/// Decide what to make of an estimate. `stands_out` says whether its peak is the only credible
/// one, `far` whether it lies far from the delay that is tracked (`None` while none is), and
/// `confirms` whether it lies near a remembered one.
pub fn lag_step(stands_out: bool, far: Option<bool>, confirms: Option<bool>) -> (r: LagStep)
    ensures
        r == if !stands_out {
            LagStep::Ignore
        } else if far != Some(true) {
            LagStep::Track
        } else if confirms == Some(true) {
            LagStep::Restart
        } else {
            LagStep::Remember
        },
{
    if !stands_out {
        return LagStep::Ignore;
    }
    match far {
        Some(true) => match confirms {
            Some(true) => LagStep::Restart,
            _ => LagStep::Remember,
        },
        _ => LagStep::Track,
    }
}

/// The lowest bit of a number becomes the highest of its reverse, the next the next, and so on.
pub proof fn lemma_each_bit_goes_to_the_other_end(i: nat, bits: nat, k: nat)
    requires
        k < bits,
    ensures
        (i / pow2(k)) % 2 == (reversed(i, bits) / pow2((bits - 1 - k) as nat)) % 2,
    decreases bits,
{
    let m = (bits - 1) as nat;
    let top = pow2(m);
    let rest = reversed(i / 2, m);
    let low = i % 2;
    lemma2_to64();
    lemma_reversed_fits(i / 2, m);
    lemma_pow2_pos(m);
    assert(reversed(i, bits) == low * top + rest);
    if k == 0 {
        assert(pow2(0) == 1);
        assert(i / 1 == i) by (nonlinear_arith);
        assert((low * top + rest) / top == low) by (nonlinear_arith)
            requires
                rest < top,
                top > 0,
        ;
    } else {
        let j = (m - k) as nat;
        let q = pow2(j);
        let h = pow2((k - 1) as nat);
        lemma_each_bit_goes_to_the_other_end(i / 2, m, (k - 1) as nat);
        lemma_pow2_unfold(k);
        lemma_pow2_pos((k - 1) as nat);
        lemma_pow2_pos(j);
        vstd::arithmetic::div_mod::lemma_div_denominator(i as int, 2, h as int);
        assert(i / pow2(k) == (i / 2) / h);
        assert((m - 1 - (k - 1)) as nat == j);
        vstd::arithmetic::power2::lemma_pow2_adds(j, k);
        assert(top == q * pow2(k));
        assert(pow2(k) == 2 * h);
        let c = low * h;
        assert(low * top + rest == (2 * c) * q + rest) by (nonlinear_arith)
            requires
                top == q * (2 * h),
                c == low * h,
        ;
        assert(((2 * c) * q + rest) / q == 2 * c + rest / q) by (nonlinear_arith)
            requires
                q > 0,
        ;
        assert((2 * c + rest / q) % 2 == (rest / q) % 2);
    }
}

} // verus!
