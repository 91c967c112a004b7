//! The playout mixer's output, published for the capture side to subtract.
//!
//! One publisher at a time writes a timeline of samples; the capture side reads it back in
//! lockstep, one reference sample for each captured one.

use vstd::prelude::*;

verus! {

/// How far the reader may trail the writer and still be lined up with it.
pub const MAX_LAG_SAMPLES: usize = 24576;

/// How many samples the ring remembers.
pub const RING: usize = 65536;

/// What one pull did.
#[derive(Clone, Copy, Debug, PartialEq, Eq, Structural)]
pub enum Pull {
    /// Continued where the last pull left off.
    Aligned,
    /// The reader had overtaken the writer.
    ReseatAhead,
    /// The reader had fallen too far behind the writer, or had not started.
    ReseatBehind,
}

/// The published timeline. Samples are of any type with a value that stands for silence.
pub struct Reference<T> {
    pub buf: Vec<T>,
    /// How many samples were ever written; the next is written at this index.
    pub wpos: u64,
    /// Who may publish.
    pub owner: u64,
    pub silence: T,
    /// Every sample ever written.
    pub timeline: Ghost<Seq<T>>,
}

/// The sample a timeline gives at an index: silence outside the ring's live window.
pub open spec fn heard<T>(timeline: Seq<T>, silence: T, idx: int) -> T {
    if 0 <= idx < timeline.len() && timeline.len() - idx <= RING {
        timeline[idx]
    } else {
        silence
    }
}

impl<T: Copy> Reference<T> {
    /// The ring holds the newest part of the timeline.
    pub open spec fn wf(self) -> bool {
        &&& self.buf@.len() == RING
        &&& self.timeline@.len() == self.wpos
        &&& forall|idx: int|
            0 <= idx < self.wpos && self.wpos - idx <= RING ==> self.buf@[idx % RING as int] == (
            #[trigger] self.timeline@[idx])
    }

    /// An empty timeline nobody publishes to.
    pub fn new(silence: T) -> (r: Reference<T>)
        ensures
            r.wf(),
            r.timeline@ == Seq::<T>::empty(),
            r.owner == 0,
            r.silence == silence,
    {
        let mut buf: Vec<T> = Vec::new();
        let mut i: usize = 0;
        while i < RING
            invariant
                i <= RING,
                buf@.len() == i,
            decreases RING - i,
        {
            buf.push(silence);
            i = i + 1;
        }
        Reference { buf, wpos: 0, owner: 0, silence, timeline: Ghost(Seq::empty()) }
    }

    /// Take over publishing. What an earlier holder publishes from here on is dropped.
    pub fn claim(&mut self) -> (token: u64)
        requires
            old(self).owner < u64::MAX,
        ensures
            token == old(self).owner + 1,
            *final(self) == (Reference { owner: token, ..*old(self) }),
    {
        self.owner = self.owner + 1;
        self.owner
    }

    fn write(&mut self, v: T)
        requires
            old(self).wf(),
            old(self).wpos < u64::MAX,
        ensures
            final(self).wf(),
            final(self).timeline@ == old(self).timeline@.push(v),
            final(self).owner == old(self).owner,
            final(self).silence == old(self).silence,
            final(self).wpos == old(self).wpos + 1,
    {
        let i: usize = (self.wpos % 65536) as usize;
        self.buf[i] = v;
        self.wpos = self.wpos + 1;
        proof {
            self.timeline@ = self.timeline@.push(v);
            assert forall|idx: int| 0 <= idx < self.wpos && self.wpos - idx <= RING implies self.buf@[idx
                % RING as int] == (#[trigger] self.timeline@[idx]) by {
                if idx < old(self).wpos {
                    assert(old(self).timeline@[idx] == self.timeline@[idx]);
                    assert(idx % 65536 != (old(self).wpos as int) % 65536) by {
                        let a = idx;
                        let b = old(self).wpos as int;
                        assert(0 < b - a < 65536);
                    }
                }
            }
        }
    }

    /// Append the mixer's output. Only the current holder is heard.
    pub fn publish(&mut self, token: u64, samples: &[T])
        requires
            old(self).wf(),
            old(self).wpos + samples@.len() <= u64::MAX,
        ensures
            final(self).wf(),
            final(self).owner == old(self).owner,
            final(self).silence == old(self).silence,
            token == old(self).owner ==> final(self).timeline@ == old(self).timeline@ + samples@,
            token != old(self).owner ==> *final(self) == *old(self),
    {
        if self.owner != token {
            return;
        }
        let n: usize = samples.len();
        let mut k: usize = 0;
        assert(old(self).timeline@ + samples@.take(0) =~= old(self).timeline@);
        while k < n
            invariant
                n == samples@.len(),
                k <= n,
                self.wf(),
                self.owner == old(self).owner,
                self.silence == old(self).silence,
                self.wpos == old(self).wpos + k,
                old(self).wpos + n <= u64::MAX,
                self.timeline@ == old(self).timeline@ + samples@.take(k as int),
            decreases n - k,
        {
            self.write(samples[k]);
            assert(self.timeline@ =~= old(self).timeline@ + samples@.take(k + 1));
            k = k + 1;
        }
        assert(samples@.take(k as int) =~= samples@);
    }

    /// Advance the timeline by `n` samples of silence: what the device played while the mixer
    /// had nothing to give it. Only the current holder is heard.
    pub fn publish_silence(&mut self, token: u64, n: usize)
        requires
            old(self).wf(),
            old(self).wpos + n <= u64::MAX,
        ensures
            final(self).wf(),
            final(self).owner == old(self).owner,
            final(self).silence == old(self).silence,
            token == old(self).owner ==> final(self).timeline@ == old(self).timeline@ + Seq::new(
                n as nat,
                |i: int| old(self).silence,
            ),
            token != old(self).owner ==> *final(self) == *old(self),
    {
        if self.owner != token {
            return;
        }
        let quiet: T = self.silence;
        let mut k: usize = 0;
        assert(old(self).timeline@ + Seq::new(0, |i: int| old(self).silence) =~= old(self).timeline@);
        while k < n
            invariant
                k <= n,
                self.wf(),
                quiet == old(self).silence,
                self.owner == old(self).owner,
                self.silence == old(self).silence,
                self.wpos == old(self).wpos + k,
                old(self).wpos + n <= u64::MAX,
                self.timeline@ == old(self).timeline@ + Seq::new(k as nat, |i: int| old(self).silence),
            decreases n - k,
        {
            self.write(quiet);
            assert(self.timeline@ =~= old(self).timeline@ + Seq::new(
                (k + 1) as nat,
                |i: int| old(self).silence,
            ));
            k = k + 1;
        }
    }

    /// How many samples were ever written.
    pub fn wpos(&self) -> (r: u64)
        requires
            self.wf(),
        ensures
            r == self.timeline@.len(),
    {
        self.wpos
    }

    /// Copy samples starting at index `from`.
    pub fn read(&self, from: u64, out: &mut Vec<T>)
        requires
            self.wf(),
        ensures
            final(out)@.len() == old(out)@.len(),
            forall|k: int|
                0 <= k < old(out)@.len() ==> #[trigger] final(out)@[k] == heard(
                    self.timeline@,
                    self.silence,
                    from.wrapping_add(k as u64) as int,
                ),
    {
        let n: usize = out.len();
        let mut k: usize = 0;
        while k < n
            invariant
                self.wf(),
                n == old(out)@.len(),
                out@.len() == n,
                k <= n,
                forall|j: int|
                    0 <= j < k ==> #[trigger] out@[j] == heard(
                        self.timeline@,
                        self.silence,
                        from.wrapping_add(j as u64) as int,
                    ),
            decreases n - k,
        {
            let idx: u64 = from.wrapping_add(k as u64);
            let live = idx < self.wpos && self.wpos - idx <= 65536;
            if live {
                assert(self.timeline@[idx as int] == self.buf@[idx as int % RING as int]);
            }
            out[k] = if live {
                self.buf[(idx % 65536) as usize]
            } else {
                self.silence
            };
            k = k + 1;
        }
    }
}

/// What was just published is what is read back from where it began. `timeline` is what had
/// been published before, and `out` what a read from its end gives.
pub proof fn lemma_read_gives_back_what_was_published<T>(
    timeline: Seq<T>,
    samples: Seq<T>,
    silence: T,
    out: Seq<T>,
)
    requires
        samples.len() <= RING,
        timeline.len() + samples.len() <= u64::MAX,
        out.len() == samples.len(),
        forall|k: int|
            0 <= k < out.len() ==> #[trigger] out[k] == heard(
                timeline + samples,
                silence,
                (timeline.len() as u64).wrapping_add(k as u64) as int,
            ),
    ensures
        out == samples,
{
    assert forall|k: int| 0 <= k < out.len() implies #[trigger] out[k] == samples[k] by {
        assert((timeline.len() as u64).wrapping_add(k as u64) == timeline.len() + k);
        assert((timeline + samples)[timeline.len() + k] == samples[k]);
    }
    assert(out =~= samples);
}

/// Whatever lies outside the window that is kept reads as silence: what has not been written
/// yet, and what has been overwritten.
pub proof fn lemma_outside_the_window_is_silence<T>(timeline: Seq<T>, silence: T, idx: int)
    requires
        idx >= timeline.len() || timeline.len() - idx > RING,
    ensures
        heard(timeline, silence, idx) == silence,
{
}

/// Reads the timeline in lockstep with the capture.
pub struct RefReader {
    pub cursor: Option<u64>,
}

/// Where a pull of `n` samples reads from, and how that came about.
pub open spec fn pull_at(cursor: Option<u64>, n: int, wpos: int) -> (int, Pull) {
    let seat = if wpos >= n {
        wpos - n
    } else {
        0
    };
    match cursor {
        None => (seat, Pull::ReseatBehind),
        Some(c) => if c + n > wpos {
            (seat, Pull::ReseatAhead)
        } else if wpos - (c + n) > MAX_LAG_SAMPLES {
            (seat, Pull::ReseatBehind)
        } else {
            (c as int, Pull::Aligned)
        },
    }
}

/// A full block of `n` samples is there to be read at the cursor. A reader that has not started
/// always has one.
pub open spec fn ready_at(cursor: Option<u64>, n: int, wpos: int) -> bool {
    cursor matches Some(c) ==> c + n <= wpos
}

/// A reader is ready exactly when the pull it would make now does not find it ahead of the
/// writer.
pub proof fn lemma_ready_means_not_ahead(cursor: Option<u64>, n: int, wpos: int)
    ensures
        ready_at(cursor, n, wpos) <==> !(pull_at(cursor, n, wpos).1 is ReseatAhead),
        ready_at(None, n, wpos),
{
}

impl RefReader {
    pub fn new() -> (r: RefReader)
        ensures
            r.cursor is None,
    {
        RefReader { cursor: None }
    }

    /// Whether a full block is there to be read. A reader that has not started always may.
    pub fn ready<T: Copy>(&self, r: &Reference<T>, n: usize) -> (b: bool)
        requires
            r.wf(),
            self.cursor matches Some(c) ==> c + n <= u64::MAX,
        ensures
            b == ready_at(self.cursor, n as int, r.timeline@.len() as int),
    {
        match self.cursor {
            Some(c) => c + n as u64 <= r.wpos(),
            None => true,
        }
    }

    /// Pull the block of reference for the next captured samples; `false` says that the index
    /// space moved and any alignment learned so far is void.
    pub fn pull<T: Copy>(&mut self, r: &Reference<T>, out: &mut Vec<T>) -> (b: bool)
        requires
            r.wf(),
            old(self).cursor matches Some(c) ==> c + old(out)@.len() <= u64::MAX,
            r.timeline@.len() + old(out)@.len() <= u64::MAX,
        ensures
            ({
                let n = old(out)@.len() as int;
                let (from, how) = pull_at(old(self).cursor, n, r.timeline@.len() as int);
                &&& b == (how is Aligned)
                &&& final(self).cursor == Some((from + n) as u64)
                &&& final(out)@.len() == n
                &&& forall|k: int|
                    0 <= k < n ==> #[trigger] final(out)@[k] == heard(
                        r.timeline@,
                        r.silence,
                        from + k,
                    )
            }),
    {
        match self.pull_detail(r, out) {
            Pull::Aligned => true,
            _ => false,
        }
    }

    /// As `pull`, saying which way alignment was lost when it was.
    pub fn pull_detail<T: Copy>(&mut self, r: &Reference<T>, out: &mut Vec<T>) -> (how: Pull)
        requires
            r.wf(),
            old(self).cursor matches Some(c) ==> c + old(out)@.len() <= u64::MAX,
            r.timeline@.len() + old(out)@.len() <= u64::MAX,
        ensures
            ({
                let n = old(out)@.len() as int;
                let (from, h) = pull_at(old(self).cursor, n, r.timeline@.len() as int);
                &&& how == h
                &&& final(self).cursor == Some((from + n) as u64)
                &&& final(out)@.len() == n
                &&& forall|k: int|
                    0 <= k < n ==> #[trigger] final(out)@[k] == heard(
                        r.timeline@,
                        r.silence,
                        from + k,
                    )
            }),
    {
        let n: u64 = out.len() as u64;
        let wpos: u64 = r.wpos();
        let seat: u64 = wpos.saturating_sub(n);
        let (cursor, how): (u64, Pull) = match self.cursor {
            None => (seat, Pull::ReseatBehind),
            Some(c) => if c + n > wpos {
                (seat, Pull::ReseatAhead)
            } else if wpos - (c + n) > MAX_LAG_SAMPLES as u64 {
                (seat, Pull::ReseatBehind)
            } else {
                (c, Pull::Aligned)
            },
        };
        r.read(cursor, out);
        assert forall|k: int| 0 <= k < n implies #[trigger] out@[k] == heard(
            r.timeline@,
            r.silence,
            cursor + k,
        ) by {
            assert(cursor.wrapping_add(k as u64) == cursor + k);
        }
        self.cursor = Some(cursor + n);
        how
    }
}

/// While the writer stays ahead of the reader, and no further ahead than the search range,
/// pulls follow each other without a gap: each begins where the one before it ended.
pub proof fn lemma_lockstep_holds_while_the_streams_keep_pace(cursor: u64, n: int, wpos: int)
    requires
        0 <= n,
        cursor + n <= wpos,
        wpos - (cursor + n) <= MAX_LAG_SAMPLES,
    ensures
        pull_at(Some(cursor), n, wpos) == (cursor as int, Pull::Aligned),
{
}

/// Every sample that is still remembered is read back as it was written.
pub proof fn lemma_what_is_remembered_is_read_back<T>(timeline: Seq<T>, silence: T, idx: int)
    requires
        0 <= idx < timeline.len(),
        timeline.len() - idx <= 65536,
    ensures
        heard(timeline, silence, idx) == timeline[idx],
{
}

/// A pull begins where the last one ended unless that is ahead of the writer or more than the
/// longest delay behind it; then, and at the first, it is seated so that it ends at the newest
/// sample. So no pull reads what has not been written, where there is that much.
pub proof fn lemma_where_a_pull_reads(cursor: Option<u64>, n: int, wpos: int)
    requires
        0 <= n,
        0 <= wpos,
    ensures
        ({
            let (from, how) = pull_at(cursor, n, wpos);
            &&& cursor is None ==> how is ReseatBehind
            &&& cursor matches Some(c) ==> (how is Aligned <==> c + n <= wpos && wpos - (c + n) <= 24576)
            &&& cursor matches Some(c) ==> (how is ReseatAhead <==> c + n > wpos)
            &&& how is Aligned ==> cursor is Some && from == cursor->0
            &&& !(how is Aligned) && wpos >= n ==> from + n == wpos
            &&& !(how is Aligned) && wpos < n ==> from == 0
            &&& wpos >= n ==> 0 <= from && from + n <= wpos
            &&& n <= wpos ==> wpos - (from + n) <= 24576
        }),
{
}

/// A reader that has started is ready when a whole block lies before the writer.
pub proof fn lemma_when_a_block_is_there(c: u64, n: int, wpos: int)
    ensures
        ready_at(Some(c), n, wpos) <==> c + n <= wpos,
        ready_at(None, n, wpos),
{
}

} // verus!
