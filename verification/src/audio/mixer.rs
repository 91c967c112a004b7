//! Mixing the peer's voice with the audio of the peer's screen share, and the bookkeeping
//! around the streams that carry the result.

use super::ring::{FrameRing, PLAYOUT_PREFILL};
use vstd::prelude::*;
use vstd::string::*;

verus! {

/// A value cut to what a sample can hold.
pub open spec fn clamp16(x: int) -> int {
    if x < -32768 {
        -32768
    } else if x > 32767 {
        32767
    } else {
        x
    }
}

/// Half of `x`, rounded toward zero.
pub open spec fn half(x: int) -> int {
    if x >= 0 {
        x / 2
    } else {
        -((-x) / 2)
    }
}

/// One mixed sample: the voice plus the mean of the two shared channels, cut to the range of
/// a sample and rounded toward zero.
pub open spec fn mixed_sample(voice: int, left: int, right: int) -> int {
    half(if 2 * voice + left + right < -65536 {
        -65536
    } else if 2 * voice + left + right > 65534 {
        65534
    } else {
        2 * voice + left + right
    })
}

/// Where the two shared channels have a whole mean, a mixed sample is the plain sum cut to the
/// range of a sample; and it always is in that range.
pub proof fn lemma_mixed_sample_is_the_cut_sum(voice: int, left: int, right: int)
    ensures
        (left + right) % 2 == 0 ==> mixed_sample(voice, left, right) == clamp16(
            voice + (left + right) / 2,
        ),
        -32768 <= mixed_sample(voice, left, right) <= 32767,
{
}

/// A mixed sample is the voice plus the mean of the two shared channels, whatever they are: twice
/// the sample misses twice the voice plus both channels by at most one, and never on the far side
/// of it from silence. What a sample cannot hold is the loudest it can.
pub proof fn lemma_a_mixed_sample_is_the_voice_and_the_mean(voice: int, left: int, right: int)
    ensures
        ({
            let twice = 2 * voice + left + right;
            let m = mixed_sample(voice, left, right);
            &&& 0 <= twice <= 65534 ==> 2 * m <= twice <= 2 * m + 1
            &&& -65536 <= twice <= 0 ==> 2 * m - 1 <= twice <= 2 * m
            &&& twice > 65534 ==> m == 32767
            &&& twice < -65536 ==> m == -32768
        }),
{
}

/// The voice comes through whatever is shared: a voice that is louder by `d` makes a sample that
/// is louder by `d`, as long as neither is cut and both lie on one side of silence.
pub proof fn lemma_the_voice_comes_through(voice: int, d: int, left: int, right: int)
    requires
        -65536 <= 2 * voice + left + right <= 65534,
        -65536 <= 2 * (voice + d) + left + right <= 65534,
        2 * voice + left + right >= 0 <==> 2 * (voice + d) + left + right >= 0,
    ensures
        mixed_sample(voice + d, left, right) == mixed_sample(voice, left, right) + d,
{
}

/// Neither shared channel counts for more than the other, a sample is never lowered by something
/// louder, silence on one side leaves the other as it is, and the sign of everything is the sign
/// of the sample.
pub proof fn lemma_mixing_is_even_handed(voice: int, left: int, right: int, voice2: int, left2: int, right2: int)
    ensures
        mixed_sample(voice, left, right) == mixed_sample(voice, right, left),
        voice <= voice2 && left <= left2 && right <= right2 ==> mixed_sample(voice, left, right)
            <= mixed_sample(voice2, left2, right2),
        -32768 <= voice <= 32767 ==> mixed_sample(voice, 0, 0) == voice,
        -32768 <= left <= 32767 ==> mixed_sample(0, left, left) == left,
        -65534 <= 2 * voice + left + right <= 65534 ==> mixed_sample(-voice, -left, -right) == -mixed_sample(
            voice,
            left,
            right,
        ),
{
}

fn mix_one(voice: i16, left: i16, right: i16) -> (r: i16)
    ensures
        r == mixed_sample(voice as int, left as int, right as int),
{
    let sum: i32 = 2 * (voice as i32) + left as i32 + right as i32;
    let cut: i32 = if sum < -65536 {
        -65536
    } else if sum > 65534 {
        65534
    } else {
        sum
    };
    if cut >= 0 {
        (cut / 2) as i16
    } else {
        let up: i32 = -cut;
        (-(up / 2)) as i16
    }
}

/// The sample of a frame that may be missing.
pub open spec fn voice_at(voice: Option<[i16; 960]>, i: int) -> int {
    match voice {
        Some(f) => f@[i] as int,
        None => 0,
    }
}

/// The sample of a stereo frame that may be missing.
pub open spec fn aux_at(aux: Option<[i16; 1920]>, i: int) -> int {
    match aux {
        Some(f) => f@[i] as int,
        None => 0,
    }
}

/// A mixed frame keeps every sample in its place: with nothing shared it is the voice; with no
/// voice each sample is within one of the sum of its own two shared samples; and with both, of
/// that sum and twice the voice, where a sample can hold it.
pub open spec fn in_step(voice: Option<[i16; 960]>, aux: Option<[i16; 1920]>, out: Seq<i16>) -> bool {
    match (voice, aux) {
        (Some(v), None) => out == v@,
        (None, None) => forall|i: int| 0 <= i < 960 ==> #[trigger] out[i] == 0,
        (None, Some(a)) => forall|i: int|
            0 <= i < 960 ==> -1 <= 2 * (#[trigger] out[i]) - (a@[2 * i] + a@[2 * i + 1]) <= 1,
        (Some(v), Some(a)) => forall|i: int|
            0 <= i < 960 && -65536 <= 2 * v@[i] + a@[2 * i] + a@[2 * i + 1] <= 65534 ==> -1 <= 2 * (
            #[trigger] out[i]) - (2 * v@[i] + a@[2 * i] + a@[2 * i + 1]) <= 1,
    }
}

/// Mix one 20 ms step. A missing side counts as silence.
pub fn mix_frame(voice: &Option<[i16; 960]>, aux: &Option<[i16; 1920]>) -> (out: [i16; 960])
    ensures
        forall|i: int|
            0 <= i < 960 ==> #[trigger] out@[i] == mixed_sample(
                voice_at(*voice, i),
                aux_at(*aux, 2 * i),
                aux_at(*aux, 2 * i + 1),
            ),
        in_step(*voice, *aux, out@),
{
    let mut out: [i16; 960] = [0i16;960];
    let mut i: usize = 0;
    while i < 960
        invariant
            i <= 960,
            forall|j: int|
                0 <= j < i ==> #[trigger] out@[j] == mixed_sample(
                    voice_at(*voice, j),
                    aux_at(*aux, 2 * j),
                    aux_at(*aux, 2 * j + 1),
                ),
        decreases 960 - i,
    {
        let v: i16 = match voice {
            Some(f) => f[i],
            None => 0,
        };
        let (l, r): (i16, i16) = match aux {
            Some(f) => (f[2 * i], f[2 * i + 1]),
            None => (0, 0),
        };
        out[i] = mix_one(v, l, r);
        i = i + 1;
    }
    assert(in_step(*voice, *aux, out@)) by {
        assert forall|k: int| 0 <= k < 960 implies voice_at(*voice, k) == (match voice {
            Some(f) => f@[k] as int,
            None => 0,
        }) && #[trigger] out@[k] == mixed_sample(
            voice_at(*voice, k),
            aux_at(*aux, 2 * k),
            aux_at(*aux, 2 * k + 1),
        ) by {}
        if aux is None && voice is Some {
            assert(out@ =~= voice->0@);
        }
    }
    out
}

/// One step of the playout: take a frame from each queue and mix them. With neither there is
/// nothing to play.
pub fn playout_step(play: &mut FrameRing<[i16; 960]>, aux: &mut FrameRing<[i16; 1920]>) -> (r: Option<
    [i16; 960],
>)
    ensures
        r is None == (old(play)@.len() == 0 && old(aux)@.len() == 0),
        final(play)@ == if old(play)@.len() > 0 {
            old(play)@.skip(1)
        } else {
            old(play)@
        },
        final(aux)@ == if old(aux)@.len() > 0 {
            old(aux)@.skip(1)
        } else {
            old(aux)@
        },
        final(play).cap == old(play).cap,
        final(aux).cap == old(aux).cap,
        r matches Some(out) ==> forall|i: int|
            0 <= i < 960 ==> #[trigger] out@[i] == mixed_sample(
                if old(play)@.len() > 0 {
                    old(play)@[0]@[i] as int
                } else {
                    0
                },
                if old(aux)@.len() > 0 {
                    old(aux)@[0]@[2 * i] as int
                } else {
                    0
                },
                if old(aux)@.len() > 0 {
                    old(aux)@[0]@[2 * i + 1] as int
                } else {
                    0
                },
            ),
{
    let voice: Option<[i16; 960]> = play.pop();
    let shared: Option<[i16; 1920]> = aux.pop();
    if voice.is_none() && shared.is_none() {
        return None;
    }
    Some(mix_frame(&voice, &shared))
}

/// Whether the playout may drain its queues: it already does, or one of them has built its
/// cushion.
pub fn playout_armed(armed: bool, voice_queued: usize, aux_queued: usize) -> (r: bool)
    ensures
        r == (armed || voice_queued >= PLAYOUT_PREFILL || aux_queued >= PLAYOUT_PREFILL),
{
    armed || voice_queued >= PLAYOUT_PREFILL || aux_queued >= PLAYOUT_PREFILL
}

/// What one more step of a device's playout mixes: a voice frame, a frame of shared audio, or
/// both.
pub struct PlayoutPair {
    pub voice: Option<[i16; 960]>,
    pub shared: Option<[i16; 1920]>,
}

/// Take what the next step of a device's playout mixes, if one is due: the playout is armed,
/// and what is queued for the device falls short of what it asks for. Queues that have both run
/// dry disarm the playout, which then waits for its cushion again.
pub fn next_pair(
    armed: &mut bool,
    play: &mut FrameRing<[i16; 960]>,
    aux: &mut FrameRing<[i16; 1920]>,
    queued: usize,
    needed: usize,
) -> (r: Option<PlayoutPair>)
    ensures
        ({
            let due = *old(armed) && queued < needed;
            let dry = old(play)@.len() == 0 && old(aux)@.len() == 0;
            &&& r is Some == (due && !dry)
            &&& *final(armed) == (*old(armed) && !(due && dry))
            &&& !(r is Some) ==> *final(play) == *old(play) && *final(aux) == *old(aux)
            &&& r matches Some(pair) ==> {
                &&& pair.voice == first_of(old(play)@)
                &&& pair.shared == first_of(old(aux)@)
                &&& final(play)@ == rest_of(old(play)@)
                &&& final(aux)@ == rest_of(old(aux)@)
                &&& final(play).cap == old(play).cap
                &&& final(aux).cap == old(aux).cap
            }
        }),
{
    if !*armed || queued >= needed {
        return None;
    }
    if play.len() == 0 && aux.len() == 0 {
        *armed = false;
        return None;
    }
    let voice: Option<[i16; 960]> = play.pop();
    let shared: Option<[i16; 1920]> = aux.pop();
    Some(PlayoutPair { voice, shared })
}

/// The first item, if there is one.
pub open spec fn first_of<T>(s: Seq<T>) -> Option<T> {
    if s.len() > 0 {
        Some(s[0])
    } else {
        None
    }
}

/// All but the first item.
pub open spec fn rest_of<T>(s: Seq<T>) -> Seq<T> {
    if s.len() > 0 {
        s.skip(1)
    } else {
        s
    }
}

/// How many running calls want the fine system timer.
pub struct TimerHolders {
    pub n: usize,
}

impl TimerHolders {
    pub fn new() -> (r: TimerHolders)
        ensures
            r.n == 0,
    {
        TimerHolders { n: 0 }
    }

    /// One more call wants it; says whether the period has to begin.
    pub fn begin(&mut self) -> (start: bool)
        requires
            old(self).n < usize::MAX,
        ensures
            final(self).n == old(self).n + 1,
            start == (old(self).n == 0),
    {
        let start = self.n == 0;
        self.n = self.n + 1;
        start
    }

    /// One call less; says whether the period has to end. An end without a beginning does
    /// nothing.
    pub fn end(&mut self) -> (stop: bool)
        ensures
            final(self).n == if old(self).n > 0 {
                (old(self).n - 1) as usize
            } else {
                0
            },
            stop == (old(self).n == 1),
    {
        if self.n == 0 {
            return false;
        }
        self.n = self.n - 1;
        self.n == 0
    }
}

/// How many calls hold the timer, and whether the period runs, after these calls to `begin`
/// (`true`) and `end` (`false`).
pub open spec fn timer_after(events: Seq<bool>) -> (nat, bool)
    decreases events.len(),
{
    if events.len() == 0 {
        (0, false)
    } else {
        let (n, running) = timer_after(events.drop_last());
        if events.last() {
            (n + 1, running || n == 0)
        } else {
            (if n > 0 {
                (n - 1) as nat
            } else {
                0
            }, running && n != 1)
        }
    }
}

/// The period runs exactly while a call holds it, however calls begin and end.
pub proof fn lemma_timer_period_is_balanced(events: Seq<bool>)
    ensures
        timer_after(events).1 == (timer_after(events).0 > 0),
    decreases events.len(),
{
    if events.len() > 0 {
        lemma_timer_period_is_balanced(events.drop_last());
    }
}

/// The voice sessions that share the platform's microphone and speaker. Only the newest may
/// switch them off.
pub struct VoiceSessions {
    pub newest: u64,
}

impl VoiceSessions {
    /// Begin a session and take its number.
    pub fn begin(&mut self) -> (ticket: u64)
        requires
            old(self).newest < u64::MAX,
        ensures
            ticket == old(self).newest + 1,
            final(self).newest == ticket,
    {
        self.newest = self.newest + 1;
        self.newest
    }

    /// Whether a session that ends may switch the platform's audio off.
    pub fn may_stop(&self, ticket: u64) -> (r: bool)
        ensures
            r == (self.newest == ticket),
    {
        self.newest == ticket
    }
}

/// Whether the microphone has been quiet long enough to be started again.
pub fn needs_kick(secs_since_frame: u64, secs_since_kick: u64) -> (r: bool)
    ensures
        r == (secs_since_frame >= 2 && secs_since_kick >= 2),
{
    secs_since_frame >= 2 && secs_since_kick >= 2
}

/// Opening the streams of a call: three attempts, the last without the pinned devices.
pub struct StreamOpener {
    pub attempt: u8,
    pub errors: Vec<String>,
}

/// What to do next.
pub enum OpenStep {
    /// Try every host, with the pinned devices or without.
    Try { pinned: bool },
    /// Give up, with this message.
    Failed(String),
}

/// The errors of one attempt, separated by semicolons.
pub open spec fn joined(errors: Seq<String>) -> Seq<char>
    decreases errors.len(),
{
    if errors.len() == 0 {
        Seq::empty()
    } else if errors.len() == 1 {
        errors[0]@
    } else {
        joined(errors.drop_last()) + "; "@ + errors.last()@
    }
}

impl StreamOpener {
    pub fn new() -> (r: StreamOpener)
        ensures
            r.attempt == 0,
            r.errors@ == Seq::<String>::empty(),
    {
        StreamOpener { attempt: 0, errors: Vec::new() }
    }

    /// Begin the next attempt, unless there is none left or the call is already gone. What the
    /// attempt before it reported is forgotten.
    pub fn next_attempt(&mut self, stopped: bool) -> (r: OpenStep)
        requires
            old(self).attempt <= 3,
        ensures
            final(self).attempt <= 3,
            old(self).attempt >= 3 ==> *final(self) == *old(self) && (r matches OpenStep::Failed(text) && text@
                == failure(old(self).errors@)),
            old(self).attempt < 3 ==> {
                &&& final(self).errors@ == Seq::<String>::empty()
                &&& stopped ==> final(self).attempt == 3 && (r matches OpenStep::Failed(text) && text@
                    == failure(Seq::<String>::empty()))
                &&& !stopped ==> final(self).attempt == old(self).attempt + 1 && r == (OpenStep::Try {
                    pinned: old(self).attempt < 2,
                })
            },
    {
        if self.attempt >= 3 {
            return OpenStep::Failed(self.failure_text());
        }
        self.errors = Vec::new();
        if stopped {
            self.attempt = 3;
            return OpenStep::Failed(self.failure_text());
        }
        let pinned = self.attempt < 2;
        self.attempt = self.attempt + 1;
        OpenStep::Try { pinned }
    }

    /// Note that a host could not be opened.
    pub fn host_failed(&mut self, host: &str, error: &str)
        ensures
            final(self).attempt == old(self).attempt,
            final(self).errors@.len() == old(self).errors@.len() + 1,
            final(self).errors@.drop_last() == old(self).errors@,
            final(self).errors@.last()@ == host@ + ": "@ + error@,
    {
        let mut text: String = host.to_owned();
        text.append(": ");
        text.append(error);
        self.errors.push(text);
        assert(self.errors@.drop_last() =~= old(self).errors@);
    }

    fn failure_text(&self) -> (r: String)
        ensures
            r@ == failure(self.errors@),
    {
        if self.errors.len() == 0 {
            return "no audio host available".to_owned();
        }
        let mut out: String = self.errors[0].clone();
        let mut i: usize = 1;
        assert(self.errors@.take(1) =~= seq![self.errors@[0]]);
        while i < self.errors.len()
            invariant
                1 <= i <= self.errors@.len(),
                out@ == joined(self.errors@.take(i as int)),
            decreases self.errors.len() - i,
        {
            let ghost upto = self.errors@.take(i + 1);
            assert(upto.drop_last() =~= self.errors@.take(i as int));
            out.append("; ");
            out.append(self.errors[i].as_str());
            i = i + 1;
        }
        assert(self.errors@.take(i as int) =~= self.errors@);
        out
    }
}

/// Why no stream could be opened.
pub open spec fn failure(errors: Seq<String>) -> Seq<char> {
    if errors.len() == 0 {
        "no audio host available"@
    } else {
        joined(errors)
    }
}

/// Whether running streams have to be rebuilt: the pinned devices changed since `seen`, which
/// moves up to now.
pub fn devices_changed(seen: &mut u64, epoch: u64) -> (r: bool)
    ensures
        r == (*old(seen) != epoch),
        *final(seen) == epoch,
{
    let r = *seen != epoch;
    *seen = epoch;
    r
}

/// The next of a queue is its first item, and what is left are the others, in order.
pub proof fn lemma_the_first_comes_first<T>(s: Seq<T>)
    ensures
        s.len() == 0 ==> first_of(s) is None && rest_of(s).len() == 0,
        s.len() > 0 ==> first_of(s) == Some(s[0]) && rest_of(s).len() == s.len() - 1 && forall|i: int|
            0 <= i < rest_of(s).len() ==> #[trigger] rest_of(s)[i] == s[i + 1],
{
}

/// What is missing on one side counts as silence, and what is there as it is.
pub proof fn lemma_what_is_missing_is_silent(voice: [i16; 960], aux: [i16; 1920], i: int)
    ensures
        voice_at(Some(voice), i) == voice@[i],
        voice_at(None, i) == 0,
        aux_at(Some(aux), i) == aux@[i],
        aux_at(None, i) == 0,
{
}

/// Every error of an attempt is reported, in order, apart from each other; without any it is said
/// that there was no host.
pub proof fn lemma_every_error_is_reported(errors: Seq<String>, last: String)
    ensures
        failure(Seq::<String>::empty()) == "no audio host available"@,
        failure(seq![last]) == last@,
        errors.len() > 0 ==> failure(errors.push(last)) == failure(errors) + "; "@ + last@,
{
    assert(errors.push(last).drop_last() =~= errors);
    assert(seq![last].drop_last() =~= Seq::<String>::empty());
}

/// The timer's period is held by as many calls as have begun and not ended: a beginning adds one,
/// an end takes one away while there is one.
pub proof fn lemma_the_timer_counts_its_holders(events: Seq<bool>)
    ensures
        timer_after(Seq::<bool>::empty()).0 == 0,
        timer_after(events.push(true)).0 == timer_after(events).0 + 1,
        timer_after(events).0 > 0 ==> timer_after(events.push(false)).0 == timer_after(events).0 - 1,
        timer_after(events).0 == 0 ==> timer_after(events.push(false)).0 == 0,
{
    assert(events.push(true).drop_last() =~= events);
    assert(events.push(false).drop_last() =~= events);
}

} // verus!
