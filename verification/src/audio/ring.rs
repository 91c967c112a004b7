//! Bounded frame queues. A queue that is full drops its oldest frame, so a consumer that
//! fell behind once hears fresh audio with a bounded delay.

use std::collections::VecDeque;
use vstd::prelude::*;
use vstd::std_specs::vecdeque::*;

verus! {

/// Samples in one engine frame: 20 ms of mono audio at 48 kHz.
pub const SAMPLES_PER_FRAME: usize = 960;

/// Samples in one frame of shared system audio: 20 ms of stereo at 48 kHz.
pub const SCREEN_AUDIO_SAMPLES: usize = 1920;

/// The engine's sample rate.
pub const SAMPLE_RATE: u32 = 48000;

/// Frames buffered toward the sound card and from the microphone.
pub const RING_FRAMES: usize = 6;

/// Frames the playout queue must hold before the device starts draining it.
pub const PLAYOUT_PREFILL: usize = 2;

/// The newest `n` items of a sequence, or all of it.
pub open spec fn newest<T>(s: Seq<T>, n: nat) -> Seq<T> {
    if s.len() <= n {
        s
    } else {
        s.skip(s.len() - n)
    }
}

/// A bounded queue of frames between an audio callback and the call engine.
pub struct FrameRing<T> {
    pub q: VecDeque<T>,
    pub cap: usize,
}

impl<T> View for FrameRing<T> {
    type V = Seq<T>;

    open spec fn view(&self) -> Seq<T> {
        self.q@
    }
}

impl<T> FrameRing<T> {
    /// The queue holds no more than it may.
    pub open spec fn wf(self) -> bool {
        self@.len() <= self.cap
    }

    pub fn new(cap: usize) -> (r: FrameRing<T>)
        ensures
            r@ == Seq::<T>::empty(),
            r.cap == cap,
            r.wf(),
    {
        FrameRing { q: VecDeque::new(), cap }
    }

    /// Append a frame; the oldest make room for it.
    pub fn push(&mut self, frame: T)
        requires
            old(self).cap > 0,
        ensures
            final(self)@ == newest(old(self)@.push(frame), old(self).cap as nat),
            final(self).cap == old(self).cap,
            final(self).wf(),
    {
        let ghost before = self.q@;
        let ghost mut dropped: int = 0;
        assert(before.skip(0) =~= before);
        while self.q.len() >= self.cap
            invariant
                self.cap == old(self).cap,
                self.cap > 0,
                before == old(self)@,
                0 <= dropped <= before.len(),
                self.q@ == before.skip(dropped),
                dropped > 0 ==> before.len() - dropped >= self.cap - 1,
            decreases self.q@.len(),
        {
            let _ = self.q.pop_front();
            proof {
                assert(before.skip(dropped).drop_first() =~= before.skip(dropped + 1));
                dropped = dropped + 1;
            }
        }
        let ghost f = frame;
        self.q.push_back(frame);
        assert(self.q@ =~= newest(before.push(f), self.cap as nat));
    }

    /// Take the oldest frame.
    pub fn pop(&mut self) -> (r: Option<T>)
        ensures
            final(self).cap == old(self).cap,
            old(self).wf() ==> final(self).wf(),
            match r {
                Some(frame) => old(self)@.len() > 0 && frame == old(self)@[0] && final(self)@
                    == old(self)@.skip(1),
                None => old(self)@.len() == 0 && final(self)@ == old(self)@,
            },
    {
        let r = self.q.pop_front();
        assert(old(self)@.len() > 0 ==> old(self)@.drop_first() =~= old(self)@.skip(1));
        r
    }

    pub fn len(&self) -> (n: usize)
        ensures
            n == self@.len(),
    {
        self.q.len()
    }

    /// Forget everything queued.
    pub fn clear(&mut self)
        ensures
            final(self)@ == Seq::<T>::empty(),
            final(self).cap == old(self).cap,
            final(self).wf(),
    {
        self.q.clear();
    }
}

/// What a queue of this capacity holds after these frames were pushed onto it, one by one.
pub open spec fn after_pushes<T>(held: Seq<T>, frames: Seq<T>, cap: nat) -> Seq<T>
    decreases frames.len(),
{
    if frames.len() == 0 {
        held
    } else {
        newest(after_pushes(held, frames.drop_last(), cap).push(frames.last()), cap)
    }
}

/// However many frames are pushed, the queue holds exactly the newest of all it was ever
/// given, in the order they came.
pub proof fn lemma_ring_keeps_the_newest<T>(held: Seq<T>, frames: Seq<T>, cap: nat)
    requires
        cap > 0,
        held.len() <= cap,
    ensures
        after_pushes(held, frames, cap) == newest(held + frames, cap),
    decreases frames.len(),
{
    if frames.len() == 0 {
        assert(held + frames =~= held);
    } else {
        let head = frames.drop_last();
        lemma_ring_keeps_the_newest(held, head, cap);
        assert((held + head).push(frames.last()) =~= held + frames);
        assert(newest(newest(held + head, cap).push(frames.last()), cap) =~= newest(
            held + frames,
            cap,
        ));
    }
}

/// The engine's two ends of the audio path.
pub struct ShellAudio {
    pub cap: FrameRing<[i16; 960]>,
    pub play: FrameRing<[i16; 960]>,
}

impl ShellAudio {
    pub fn new() -> (r: ShellAudio)
        ensures
            r.cap@ == Seq::<[i16; 960]>::empty(),
            r.play@ == Seq::<[i16; 960]>::empty(),
            r.cap.cap == RING_FRAMES,
            r.play.cap == RING_FRAMES,
    {
        ShellAudio { cap: FrameRing::new(RING_FRAMES), play: FrameRing::new(RING_FRAMES) }
    }

    /// Read one captured frame; `false` leaves `buf` as it is, and the engine sends silence.
    pub fn read_frame(&mut self, buf: &mut [i16; 960]) -> (r: bool)
        ensures
            r == (old(self).cap@.len() > 0),
            r ==> *final(buf) == old(self).cap@[0] && final(self).cap@ == old(self).cap@.skip(1),
            !r ==> *final(buf) == *old(buf) && final(self).cap@ == old(self).cap@,
            final(self).play == old(self).play,
            final(self).cap.cap == old(self).cap.cap,
    {
        match self.cap.pop() {
            Some(frame) => {
                *buf = frame;
                true
            },
            None => false,
        }
    }

    /// Queue one frame for playout.
    pub fn write_frame(&mut self, frame: &[i16; 960])
        requires
            old(self).play.cap > 0,
        ensures
            final(self).play@ == newest(old(self).play@.push(*frame), old(self).play.cap as nat),
            final(self).play.cap == old(self).play.cap,
            final(self).cap == old(self).cap,
    {
        self.play.push(*frame);
    }

    /// Frames waiting for the device.
    pub fn playout_queued(&self) -> (r: Option<usize>)
        ensures
            r matches Some(n) && n == self.play@.len(),
    {
        Some(self.play.len())
    }
}

/// What is kept of a run is its end: as much of it as fits, in the order it came, the last item
/// last.
pub proof fn lemma_the_end_of_a_run_is_kept<T>(s: Seq<T>, n: nat)
    ensures
        newest(s, n).len() == if s.len() < n {
            s.len()
        } else {
            n
        },
        forall|i: int|
            0 <= i < newest(s, n).len() ==> #[trigger] newest(s, n)[i] == s[s.len() - newest(s, n).len() + i],
        n > 0 && s.len() > 0 ==> newest(s, n).last() == s.last(),
{
}

} // verus!
