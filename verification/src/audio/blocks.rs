//! Cutting streams of samples into blocks. Devices deliver pieces of any length; the echo
//! canceller, the noise suppressor and the call engine each take blocks of their own.

use vstd::prelude::*;

verus! {

/// How many samples the echo canceller and the noise suppressor take at a time.
pub const BLOCK: usize = 480;

/// The whole frames of `n` samples at the start of a run of samples.
pub open spec fn frames_in<T>(samples: Seq<T>, n: nat) -> Seq<Seq<T>>
    decreases samples.len(),
{
    if n == 0 || samples.len() < n {
        Seq::empty()
    } else {
        seq![samples.take(n as int)] + frames_in(samples.skip(n as int), n)
    }
}

/// The samples that are left over after the whole frames.
pub open spec fn left_over<T>(samples: Seq<T>, n: nat) -> Seq<T>
    decreases samples.len(),
{
    if n == 0 || samples.len() < n {
        samples
    } else {
        left_over(samples.skip(n as int), n)
    }
}

/// All the samples of some frames, in order.
pub open spec fn flattened<T>(frames: Seq<Seq<T>>) -> Seq<T>
    decreases frames.len(),
{
    if frames.len() == 0 {
        Seq::empty()
    } else {
        frames[0] + flattened(frames.skip(1))
    }
}

/// Cutting a run of samples into frames loses none and repeats none: the frames and what is
/// left over are the run, and less than a frame is left over.
pub proof fn lemma_rechunking_keeps_every_sample<T>(samples: Seq<T>, n: nat)
    requires
        n > 0,
    ensures
        flattened(frames_in(samples, n)) + left_over(samples, n) == samples,
        left_over(samples, n).len() < n,
        forall|i: int| 0 <= i < frames_in(samples, n).len() ==> (#[trigger] frames_in(samples, n)[i]).len() == n,
    decreases samples.len(),
{
    if samples.len() >= n {
        let rest = samples.skip(n as int);
        lemma_rechunking_keeps_every_sample(rest, n);
        let frames = frames_in(samples, n);
        assert(frames.skip(1) =~= frames_in(rest, n));
        assert(frames[0] == samples.take(n as int));
        assert(flattened(frames) + left_over(samples, n) =~= samples.take(n as int) + (flattened(
            frames_in(rest, n),
        ) + left_over(rest, n)));
        assert(samples.take(n as int) + rest =~= samples);
        assert forall|i: int| 0 <= i < frames.len() implies (#[trigger] frames[i]).len() == n by {
            if i > 0 {
                assert(frames[i] == frames_in(rest, n)[i - 1]);
            }
        }
    } else {
        assert(flattened(frames_in(samples, n)) + samples =~= samples);
    }
}

/// Blocks as runs of samples.
pub open spec fn runs<T>(blocks: Seq<Vec<T>>) -> Seq<Seq<T>> {
    Seq::new(blocks.len(), |i: int| blocks[i]@)
}

proof fn lemma_frames_from_the_front<T>(samples: Seq<T>, n: nat, taken: Seq<Seq<T>>)
    requires
        n > 0,
        samples.len() >= n,
    ensures
        taken + frames_in(samples, n) == taken.push(samples.take(n as int)) + frames_in(
            samples.skip(n as int),
            n,
        ),
{
    assert(taken + frames_in(samples, n) =~= taken.push(samples.take(n as int)) + frames_in(
        samples.skip(n as int),
        n,
    ));
}

/// Take as many whole blocks as have come in; what is left over waits.
pub fn take_blocks<T>(pending: &mut Vec<T>, block: usize) -> (r: Vec<Vec<T>>)
    requires
        block > 0,
    ensures
        runs(r@) == frames_in(old(pending)@, block as nat),
        final(pending)@ == left_over(old(pending)@, block as nat),
{
    let mut out: Vec<Vec<T>> = Vec::new();
    let ghost all = pending@;
    assert(runs(out@) + frames_in(all, block as nat) =~= frames_in(all, block as nat));
    while pending.len() >= block
        invariant
            block > 0,
            frames_in(all, block as nat) == runs(out@) + frames_in(pending@, block as nat),
            left_over(all, block as nat) == left_over(pending@, block as nat),
        decreases pending@.len(),
    {
        let ghost before = pending@;
        let ghost taken = runs(out@);
        let rest: Vec<T> = pending.split_off(block);
        let mut head: Vec<T> = rest;
        std::mem::swap(&mut head, pending);
        out.push(head);
        proof {
            assert(head@ =~= before.take(block as int));
            assert(pending@ =~= before.skip(block as int));
            assert(runs(out@) =~= taken.push(before.take(block as int)));
            lemma_frames_from_the_front(before, block as nat, taken);
        }
    }
    assert(runs(out@) + frames_in(pending@, block as nat) =~= runs(out@));
    out
}

/// What the echo canceller is given.
pub enum EchoWork<T> {
    /// Pairs of blocks: what was captured, and what was played meanwhile.
    Cancel(Vec<(Vec<T>, Vec<T>)>),
    /// Everything that was captured, as it is.
    Pass(Vec<T>),
}

/// How many pairs of blocks have come in.
pub open spec fn pairs_in(captured: nat, played: nat, block: nat) -> nat {
    if captured / block < played / block {
        captured / block
    } else {
        played / block
    }
}

/// Take what the echo canceller is given. With one at work, captured and played audio go in
/// step, a block of each; without one the captured audio passes and the played audio is let go,
/// so that neither piles up.
pub fn echo_work<T>(capture: &mut Vec<T>, render: &mut Vec<T>, block: usize, cancelling: bool) -> (r:
    EchoWork<T>)
    requires
        block > 0,
    ensures
        !cancelling ==> {
            &&& r matches EchoWork::Pass(all) && all@ == old(capture)@
            &&& final(capture)@ == Seq::<T>::empty()
            &&& final(render)@ == Seq::<T>::empty()
        },
        cancelling ==> {
            let n = pairs_in(old(capture)@.len(), old(render)@.len(), block as nat);
            &&& r matches EchoWork::Cancel(pairs) && pairs@.len() == n && forall|i: int|
                0 <= i < n ==> (#[trigger] pairs@[i]).0@ == old(capture)@.subrange(
                    i * block,
                    (i + 1) * block,
                ) && pairs@[i].1@ == old(render)@.subrange(i * block, (i + 1) * block)
            &&& final(capture)@ == old(capture)@.skip(n * block)
            &&& final(render)@ == old(render)@.skip(n * block)
        },
{
    let ghost c0 = capture@;
    let ghost r0 = render@;
    if !cancelling {
        let mut all: Vec<T> = Vec::new();
        std::mem::swap(&mut all, capture);
        render.clear();
        return EchoWork::Pass(all);
    }
    let mut pairs: Vec<(Vec<T>, Vec<T>)> = Vec::new();
    let ghost mut n: nat = 0;
    proof {
        assert(c0.skip(0) =~= c0);
        assert(r0.skip(0) =~= r0);
        assert(0 * block == 0) by (nonlinear_arith);
    }
    while capture.len() >= block && render.len() >= block
        invariant
            block > 0,
            pairs@.len() == n,
            n * block <= c0.len(),
            n * block <= r0.len(),
            capture@ == c0.skip(n * block),
            render@ == r0.skip(n * block),
            forall|i: int|
                0 <= i < n ==> (#[trigger] pairs@[i]).0@ == c0.subrange(i * block, (i + 1) * block)
                    && pairs@[i].1@ == r0.subrange(i * block, (i + 1) * block),
        decreases capture@.len(),
    {
        let ghost was = pairs@;
        let rest: Vec<T> = capture.split_off(block);
        let mut near: Vec<T> = rest;
        std::mem::swap(&mut near, capture);
        let rest: Vec<T> = render.split_off(block);
        let mut far: Vec<T> = rest;
        std::mem::swap(&mut far, render);
        proof {
            assert((n + 1) * block == n * block + block) by (nonlinear_arith);
            assert(near@ =~= c0.subrange(n * block, (n + 1) * block));
            assert(far@ =~= r0.subrange(n * block, (n + 1) * block));
            assert(capture@ =~= c0.skip((n + 1) * block));
            assert(render@ =~= r0.skip((n + 1) * block));
        }
        pairs.push((near, far));
        proof {
            assert forall|i: int| 0 <= i < n + 1 implies (#[trigger] pairs@[i]).0@ == c0.subrange(
                i * block,
                (i + 1) * block,
            ) && pairs@[i].1@ == r0.subrange(i * block, (i + 1) * block) by {
                if i < n {
                    assert(pairs@[i] == was[i]);
                }
            }
            n = n + 1;
        }
    }
    proof {
        let c = c0.len();
        let r = r0.len();
        assert(n == pairs_in(c, r, block as nat)) by {
            assert(c / block as nat >= n && r / block as nat >= n) by (nonlinear_arith)
                requires
                    n * block <= c,
                    n * block <= r,
                    block > 0,
            ;
            if c - n * block < block {
                assert(c / block as nat <= n) by (nonlinear_arith)
                    requires
                        c - n * block < block,
                        block > 0,
                ;
            } else {
                assert(r / block as nat <= n) by (nonlinear_arith)
                    requires
                        r - n * block < block,
                        block > 0,
                ;
            }
        }
    }
    EchoWork::Cancel(pairs)
}

/// Take what a device asks for out of the playout queue. Where the queue falls short the rest
/// is silence.
pub fn take_playout<T: Copy>(queue: &mut Vec<T>, needed: usize, silence: T) -> (r: Vec<T>)
    ensures
        r@.len() == needed,
        forall|i: int|
            0 <= i < needed ==> #[trigger] r@[i] == if i < old(queue)@.len() {
                old(queue)@[i]
            } else {
                silence
            },
        final(queue)@ == old(queue)@.skip(
            if needed < old(queue)@.len() {
                needed as int
            } else {
                old(queue)@.len() as int
            },
        ),
{
    let ghost before = queue@;
    let len: usize = queue.len();
    let mut out: Vec<T> = Vec::new();
    let mut i: usize = 0;
    while i < needed
        invariant
            i <= needed,
            len == before.len(),
            queue@ == before,
            out@.len() == i,
            forall|j: int|
                0 <= j < i ==> #[trigger] out@[j] == if j < before.len() {
                    before[j]
                } else {
                    silence
                },
        decreases needed - i,
    {
        if i < len {
            out.push(queue[i]);
        } else {
            out.push(silence);
        }
        i = i + 1;
    }
    let consumed: usize = if needed < len {
        needed
    } else {
        len
    };
    let mut rest: Vec<T> = queue.split_off(consumed);
    std::mem::swap(&mut rest, queue);
    assert(queue@ =~= before.skip(consumed as int));
    out
}

/// As many pairs are taken as there are whole blocks on both sides: one more would be missing on
/// one of them.
pub proof fn lemma_as_many_pairs_as_both_sides_have(captured: nat, played: nat, block: nat)
    requires
        block > 0,
    ensures
        pairs_in(captured, played, block) * block <= captured,
        pairs_in(captured, played, block) * block <= played,
        (pairs_in(captured, played, block) + 1) * block > captured || (pairs_in(captured, played, block) + 1) * block
            > played,
{
    let c = captured / block;
    let p = played / block;
    let n = pairs_in(captured, played, block);
    assert(c * block <= captured && (c + 1) * block > captured) by (nonlinear_arith)
        requires
            c == captured / block,
            block > 0,
    ;
    assert(p * block <= played && (p + 1) * block > played) by (nonlinear_arith)
        requires
            p == played / block,
            block > 0,
    ;
    assert(n * block <= c * block && n * block <= p * block) by (nonlinear_arith)
        requires
            n <= c,
            n <= p,
    ;
}

/// The `i`th frame of a run is its `i`th stretch of samples.
pub proof fn lemma_frames_follow_each_other<T>(samples: Seq<T>, n: nat, i: int)
    requires
        n > 0,
        0 <= i < frames_in(samples, n).len(),
    ensures
        i * n + n <= samples.len(),
        frames_in(samples, n)[i] == samples.subrange(i * n, i * n + n),
    decreases samples.len(),
{
    let rest = samples.skip(n as int);
    if i == 0 {
        assert(frames_in(samples, n)[0] == samples.take(n as int));
        assert(0 * n == 0);
        assert(samples.take(n as int) =~= samples.subrange(0, n as int));
    } else {
        lemma_frames_follow_each_other(rest, n, i - 1);
        assert(frames_in(samples, n)[i] == frames_in(rest, n)[i - 1]);
        assert((i - 1) * n + n == i * n) by (nonlinear_arith);
        assert(rest.subrange((i - 1) * n, (i - 1) * n + n) =~= samples.subrange(i * n, i * n + n));
    }
}

} // verus!
