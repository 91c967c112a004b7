//! Media handed over by the platform's capture bridge: the newest video frame of each track,
//! bounded queues of audio, and which bridge method each switch calls.

use crate::audio::blocks::{frames_in, left_over};
use crate::audio::mixer::{mixed_sample, playout_step};
use crate::audio::ring::{after_pushes, newest, FrameRing};
use vstd::prelude::*;

verus! {

/// One picture in planar form.
pub struct VideoFrame {
    pub width: usize,
    pub height: usize,
    pub i420: Vec<u8>,
}

/// Frames of shared system audio that are kept.
pub const SYS_AUDIO_QUEUE_FRAMES: usize = 8;

/// Microphone frames that are kept.
pub const VOICE_QUEUE_FRAMES: usize = 8;

/// Playout frames that are kept.
pub const VOICE_PLAYOUT_QUEUE_FRAMES: usize = 6;

/// Everything the bridge has handed over and nobody has taken yet.
pub struct MediaQueues {
    pub camera: Option<VideoFrame>,
    pub screen: Option<VideoFrame>,
    pub sys_audio: FrameRing<[i16; 1920]>,
    pub sys_pending: Vec<i16>,
    pub voice_audio: FrameRing<[i16; 960]>,
    pub voice_pending: Vec<i16>,
    pub voice_playout: FrameRing<[i16; 960]>,
}

impl MediaQueues {
    /// Each queue keeps to its bound.
    pub open spec fn wf(self) -> bool {
        &&& self.sys_audio.cap == SYS_AUDIO_QUEUE_FRAMES && self.sys_audio.wf()
        &&& self.voice_audio.cap == VOICE_QUEUE_FRAMES && self.voice_audio.wf()
        &&& self.voice_playout.cap == VOICE_PLAYOUT_QUEUE_FRAMES && self.voice_playout.wf()
    }

    /// Nothing handed over yet.
    pub fn new() -> (r: MediaQueues)
        ensures
            r.wf(),
            r.camera is None,
            r.screen is None,
            r.sys_audio@ == Seq::<[i16; 1920]>::empty(),
            r.voice_audio@ == Seq::<[i16; 960]>::empty(),
            r.voice_playout@ == Seq::<[i16; 960]>::empty(),
            r.sys_pending@ == Seq::<i16>::empty(),
            r.voice_pending@ == Seq::<i16>::empty(),
    {
        MediaQueues {
            camera: None,
            screen: None,
            sys_audio: FrameRing::new(SYS_AUDIO_QUEUE_FRAMES),
            sys_pending: Vec::new(),
            voice_audio: FrameRing::new(VOICE_QUEUE_FRAMES),
            voice_pending: Vec::new(),
            voice_playout: FrameRing::new(VOICE_PLAYOUT_QUEUE_FRAMES),
        }
    }
}

/// Take the newest camera or screen frame.
pub fn take_frame(m: &mut MediaQueues, camera: bool) -> (r: Option<VideoFrame>)
    ensures
        camera ==> r == old(m).camera && *final(m) == (MediaQueues { camera: None, ..*old(m) }),
        !camera ==> r == old(m).screen && *final(m) == (MediaQueues { screen: None, ..*old(m) }),
{
    if camera {
        m.camera.take()
    } else {
        m.screen.take()
    }
}

/// Take one frame of system audio; `false` leaves `buf` as it is.
pub fn read_system_audio(m: &mut MediaQueues, buf: &mut [i16; 1920]) -> (r: bool)
    ensures
        r == (old(m).sys_audio@.len() > 0),
        r ==> *final(buf) == old(m).sys_audio@[0] && final(m).sys_audio@ == old(m).sys_audio@.skip(1),
        !r ==> *final(buf) == *old(buf) && final(m).sys_audio@ == old(m).sys_audio@,
        *final(m) == (MediaQueues { sys_audio: final(m).sys_audio, ..*old(m) }),
        old(m).wf() ==> final(m).wf(),
{
    match m.sys_audio.pop() {
        Some(frame) => {
            *buf = frame;
            true
        },
        None => false,
    }
}

/// Take one microphone frame; `false` leaves `buf` as it is.
pub fn read_voice_frame(m: &mut MediaQueues, buf: &mut [i16; 960]) -> (r: bool)
    ensures
        r == (old(m).voice_audio@.len() > 0),
        r ==> *final(buf) == old(m).voice_audio@[0] && final(m).voice_audio@ == old(m).voice_audio@.skip(
            1,
        ),
        !r ==> *final(buf) == *old(buf) && final(m).voice_audio@ == old(m).voice_audio@,
        *final(m) == (MediaQueues { voice_audio: final(m).voice_audio, ..*old(m) }),
        old(m).wf() ==> final(m).wf(),
{
    match m.voice_audio.pop() {
        Some(frame) => {
            *buf = frame;
            true
        },
        None => false,
    }
}

/// Queue one mixed frame for playout; a full queue drops its oldest.
pub fn push_playout_frame(m: &mut MediaQueues, frame: &[i16; 960])
    requires
        old(m).wf(),
    ensures
        final(m).wf(),
        final(m).voice_playout@ == newest(
            old(m).voice_playout@.push(*frame),
            VOICE_PLAYOUT_QUEUE_FRAMES as nat,
        ),
        *final(m) == (MediaQueues { voice_playout: final(m).voice_playout, ..*old(m) }),
{
    m.voice_playout.push(*frame);
}

/// The sample two little-endian bytes stand for.
pub open spec fn sample_of(lo: u8, hi: u8) -> i16 {
    (if hi >= 128 {
        lo + 256 * hi - 65536
    } else {
        lo + 256 * hi
    }) as i16
}

/// The samples in a run of bytes. A last byte without its second half is not one.
pub open spec fn samples_of(bytes: Seq<u8>) -> Seq<i16> {
    Seq::new(bytes.len() / 2, |i: int| sample_of(bytes[2 * i], bytes[2 * i + 1]))
}

fn push_samples(pending: &mut Vec<i16>, bytes: &[u8])
    ensures
        final(pending)@ == old(pending)@ + samples_of(bytes@),
{
    let len: usize = bytes.len();
    let pairs: usize = len / 2;
    let mut i: usize = 0;
    let ghost before = pending@;
    assert(before + samples_of(bytes@).take(0) =~= before);
    while i < pairs
        invariant
            len == bytes@.len(),
            pairs == len / 2,
            i <= pairs,
            pending@ == before + samples_of(bytes@).take(i as int),
        decreases pairs - i,
    {
        let lo: i32 = bytes[2 * i] as i32;
        let hi: i32 = bytes[2 * i + 1] as i32;
        let s: i32 = if hi >= 128 {
            lo + 256 * hi - 65536
        } else {
            lo + 256 * hi
        };
        pending.push(s as i16);
        assert(pending@ =~= before + samples_of(bytes@).take(i + 1));
        i = i + 1;
    }
    assert(samples_of(bytes@).take(i as int) =~= samples_of(bytes@));
}

/// The queued mono frames, as runs of samples.
pub open spec fn mono_frames(q: Seq<[i16; 960]>) -> Seq<Seq<i16>> {
    Seq::new(q.len(), |i: int| q[i]@)
}

/// The queued stereo frames, as runs of samples.
pub open spec fn stereo_frames(q: Seq<[i16; 1920]>) -> Seq<Seq<i16>> {
    Seq::new(q.len(), |i: int| q[i]@)
}

/// Pushing frames one after the other is pushing the first and then the rest.
proof fn lemma_pushes_from_the_front<T>(held: Seq<T>, first: T, rest: Seq<T>, cap: nat)
    ensures
        after_pushes(held, seq![first] + rest, cap) == after_pushes(newest(held.push(first), cap), rest, cap),
    decreases rest.len(),
{
    let all = seq![first] + rest;
    if rest.len() == 0 {
        assert(all.drop_last() =~= Seq::<T>::empty());
        assert(after_pushes(held, all.drop_last(), cap) == held);
        assert(all.last() == first);
    } else {
        assert(all.drop_last() =~= seq![first] + rest.drop_last());
        lemma_pushes_from_the_front(held, first, rest.drop_last(), cap);
    }
}

/// Hand over microphone audio, in pieces of any length. It is cut into frames of 20 ms; what
/// is left over waits for the next piece.
pub fn push_voice_audio(m: &mut MediaQueues, bytes: &[u8])
    requires
        old(m).wf(),
    ensures
        final(m).wf(),
        ({
            let all = old(m).voice_pending@ + samples_of(bytes@);
            &&& mono_frames(final(m).voice_audio@) == after_pushes(
                mono_frames(old(m).voice_audio@),
                frames_in(all, 960),
                VOICE_QUEUE_FRAMES as nat,
            )
            &&& final(m).voice_pending@ == left_over(all, 960)
        }),
        *final(m) == (MediaQueues {
            voice_audio: final(m).voice_audio,
            voice_pending: final(m).voice_pending,
            ..*old(m)
        }),
{
    push_samples(&mut m.voice_pending, bytes);
    let ghost all = m.voice_pending@;
    let ghost start = mono_frames(m.voice_audio@);
    while m.voice_pending.len() >= 960
        invariant
            m.wf(),
            *m == (MediaQueues {
                voice_audio: m.voice_audio,
                voice_pending: m.voice_pending,
                ..*old(m)
            }),
            after_pushes(start, frames_in(all, 960), 8) == after_pushes(
                mono_frames(m.voice_audio@),
                frames_in(m.voice_pending@, 960),
                8,
            ),
            left_over(all, 960) == left_over(m.voice_pending@, 960),
        decreases m.voice_pending@.len(),
    {
        let ghost before = m.voice_pending@;
        let ghost held = m.voice_audio@;
        let mut frame: [i16; 960] = [0i16;960];
        let mut i: usize = 0;
        while i < 960
            invariant
                i <= 960,
                m.voice_pending@.len() >= 960,
                forall|j: int| 0 <= j < i ==> #[trigger] frame@[j] == m.voice_pending@[j],
            decreases 960 - i,
        {
            frame[i] = m.voice_pending[i];
            i = i + 1;
        }
        let rest: Vec<i16> = m.voice_pending.split_off(960);
        m.voice_pending = rest;
        m.voice_audio.push(frame);
        proof {
            assert(frame@ =~= before.take(960));
            assert(m.voice_pending@ =~= before.skip(960));
            assert(mono_frames(m.voice_audio@) =~= newest(mono_frames(held).push(before.take(960)), 8));
            lemma_pushes_from_the_front(
                mono_frames(held),
                before.take(960),
                frames_in(before.skip(960), 960),
                8,
            );
        }
    }
}

/// Hand over shared system audio, in pieces of any length.
pub fn push_system_audio(m: &mut MediaQueues, bytes: &[u8])
    requires
        old(m).wf(),
    ensures
        final(m).wf(),
        ({
            let all = old(m).sys_pending@ + samples_of(bytes@);
            &&& stereo_frames(final(m).sys_audio@) == after_pushes(
                stereo_frames(old(m).sys_audio@),
                frames_in(all, 1920),
                SYS_AUDIO_QUEUE_FRAMES as nat,
            )
            &&& final(m).sys_pending@ == left_over(all, 1920)
        }),
        *final(m) == (MediaQueues {
            sys_audio: final(m).sys_audio,
            sys_pending: final(m).sys_pending,
            ..*old(m)
        }),
{
    push_samples(&mut m.sys_pending, bytes);
    let ghost all = m.sys_pending@;
    let ghost start = stereo_frames(m.sys_audio@);
    while m.sys_pending.len() >= 1920
        invariant
            m.wf(),
            *m == (MediaQueues { sys_audio: m.sys_audio, sys_pending: m.sys_pending, ..*old(m) }),
            after_pushes(start, frames_in(all, 1920), 8) == after_pushes(
                stereo_frames(m.sys_audio@),
                frames_in(m.sys_pending@, 1920),
                8,
            ),
            left_over(all, 1920) == left_over(m.sys_pending@, 1920),
        decreases m.sys_pending@.len(),
    {
        let ghost before = m.sys_pending@;
        let ghost held = m.sys_audio@;
        let mut frame: [i16; 1920] = [0i16;1920];
        let mut i: usize = 0;
        while i < 1920
            invariant
                i <= 1920,
                m.sys_pending@.len() >= 1920,
                forall|j: int| 0 <= j < i ==> #[trigger] frame@[j] == m.sys_pending@[j],
            decreases 1920 - i,
        {
            frame[i] = m.sys_pending[i];
            i = i + 1;
        }
        let rest: Vec<i16> = m.sys_pending.split_off(1920);
        m.sys_pending = rest;
        m.sys_audio.push(frame);
        proof {
            assert(frame@ =~= before.take(1920));
            assert(m.sys_pending@ =~= before.skip(1920));
            assert(stereo_frames(m.sys_audio@) =~= newest(stereo_frames(held).push(before.take(1920)), 8));
            lemma_pushes_from_the_front(
                stereo_frames(held),
                before.take(1920),
                frames_in(before.skip(1920), 1920),
                8,
            );
        }
    }
}

/// The low byte of a sample.
pub open spec fn low_byte(s: i16) -> u8 {
    ((s as int) % 256) as u8
}

/// The high byte of a sample.
pub open spec fn high_byte(s: i16) -> u8 {
    (if s >= 0 {
        s as int / 256
    } else {
        (s + 65536) / 256
    }) as u8
}

/// A frame as little-endian bytes.
pub open spec fn bytes_of(samples: Seq<i16>) -> Seq<u8> {
    Seq::new(
        2 * samples.len(),
        |i: int| if i % 2 == 0 {
            low_byte(samples[i / 2])
        } else {
            high_byte(samples[i / 2])
        },
    )
}

/// Writing a frame as bytes and reading the bytes gives the frame back.
pub proof fn lemma_bytes_round_trip(samples: Seq<i16>)
    ensures
        samples_of(bytes_of(samples)) == samples,
{
    let bytes = bytes_of(samples);
    assert forall|i: int| 0 <= i < samples.len() implies sample_of(bytes[2 * i], bytes[2 * i + 1])
        == samples[i] by {
        assert((2 * i) % 2 == 0 && (2 * i) / 2 == i);
        assert((2 * i + 1) % 2 == 1 && (2 * i + 1) / 2 == i);
    }
    assert(samples_of(bytes) =~= samples);
}

/// The next playout frame as bytes, or `None` when nothing is queued and the platform plays
/// silence.
pub fn next_playout_bytes(m: &mut MediaQueues) -> (r: Option<Vec<u8>>)
    ensures
        r is None == (old(m).voice_playout@.len() == 0),
        r matches Some(bytes) ==> bytes@ == bytes_of(old(m).voice_playout@[0]@) && bytes@.len() == 1920
            && final(m).voice_playout@ == old(m).voice_playout@.skip(1),
        r is None ==> final(m).voice_playout@ == old(m).voice_playout@,
        *final(m) == (MediaQueues { voice_playout: final(m).voice_playout, ..*old(m) }),
        old(m).wf() ==> final(m).wf(),
{
    match m.voice_playout.pop() {
        None => None,
        Some(frame) => {
            let mut bytes: Vec<u8> = Vec::new();
            let mut i: usize = 0;
            while i < 960
                invariant
                    i <= 960,
                    bytes@.len() == 2 * i,
                    forall|j: int| 0 <= j < 2 * i ==> #[trigger] bytes@[j] == bytes_of(frame@)[j],
                decreases 960 - i,
            {
                let s: i16 = frame[i];
                let u: i32 = if s >= 0 {
                    s as i32
                } else {
                    s as i32 + 65536
                };
                let ghost was = bytes@;
                bytes.push((u % 256) as u8);
                bytes.push((u / 256) as u8);
                assert forall|j: int| 0 <= j < 2 * (i + 1) implies #[trigger] bytes@[j] == bytes_of(
                    frame@,
                )[j] by {
                    if j < 2 * i {
                        assert(bytes@[j] == was[j]);
                    } else {
                        assert(j / 2 == i);
                    }
                }
                i = i + 1;
            }
            assert(bytes@ =~= bytes_of(frame@));
            Some(bytes)
        },
    }
}

/// The frame that one step of the playout mixes from the `k`th frames of two queues. A queue
/// that is shorter counts as silent.
pub open spec fn mixed_at(play: Seq<[i16; 960]>, aux: Seq<[i16; 1920]>, k: int) -> Seq<i16> {
    Seq::new(
        960,
        |i: int|
            mixed_sample(
                if k < play.len() {
                    play[k]@[i] as int
                } else {
                    0
                },
                if k < aux.len() {
                    aux[k]@[2 * i] as int
                } else {
                    0
                },
                if k < aux.len() {
                    aux[k]@[2 * i + 1] as int
                } else {
                    0
                },
            ) as i16,
    )
}

/// Everything that two queues mix to, until both are empty.
pub open spec fn mixed_frames(play: Seq<[i16; 960]>, aux: Seq<[i16; 1920]>) -> Seq<Seq<i16>> {
    Seq::new(
        if play.len() < aux.len() {
            aux.len()
        } else {
            play.len()
        },
        |k: int| mixed_at(play, aux, k),
    )
}

/// Carry a call's audio between the bridge and the engine: every microphone frame goes to the
/// engine, and everything the engine has to play, mixed, goes to the platform. Says whether the
/// microphone delivered anything.
pub fn pump_voice(
    m: &mut MediaQueues,
    cap: &mut FrameRing<[i16; 960]>,
    play: &mut FrameRing<[i16; 960]>,
    aux: &mut FrameRing<[i16; 1920]>,
) -> (heard: bool)
    requires
        old(m).wf(),
        old(cap).cap > 0,
    ensures
        final(m).wf(),
        heard == (old(m).voice_audio@.len() > 0),
        final(cap)@ == after_pushes(old(cap)@, old(m).voice_audio@, old(cap).cap as nat),
        final(cap).cap == old(cap).cap,
        final(m).voice_audio@ == Seq::<[i16; 960]>::empty(),
        final(play)@ == Seq::<[i16; 960]>::empty(),
        final(play).cap == old(play).cap,
        final(aux)@ == Seq::<[i16; 1920]>::empty(),
        final(aux).cap == old(aux).cap,
        mono_frames(final(m).voice_playout@) == after_pushes(
            mono_frames(old(m).voice_playout@),
            mixed_frames(old(play)@, old(aux)@),
            VOICE_PLAYOUT_QUEUE_FRAMES as nat,
        ),
        *final(m) == (MediaQueues {
            voice_audio: final(m).voice_audio,
            voice_playout: final(m).voice_playout,
            ..*old(m)
        }),
{
    let heard = m.voice_audio.len() > 0;
    let ghost captured = m.voice_audio@;
    let ghost queued = cap@;
    while m.voice_audio.len() > 0
        invariant
            m.wf(),
            cap.cap > 0,
            cap.cap == old(cap).cap,
            *m == (MediaQueues { voice_audio: m.voice_audio, ..*old(m) }),
            after_pushes(queued, captured, cap.cap as nat) == after_pushes(
                cap@,
                m.voice_audio@,
                cap.cap as nat,
            ),
        decreases m.voice_audio@.len(),
    {
        let ghost before = m.voice_audio@;
        let ghost held = cap@;
        if let Some(frame) = m.voice_audio.pop() {
            cap.push(frame);
            proof {
                assert(before =~= seq![frame] + m.voice_audio@);
                lemma_pushes_from_the_front(held, frame, m.voice_audio@, cap.cap as nat);
            }
        }
    }
    assert(m.voice_audio@ =~= Seq::<[i16; 960]>::empty());
    let ghost start = mono_frames(m.voice_playout@);
    let ghost all = mixed_frames(play@, aux@);
    while play.len() > 0 || aux.len() > 0
        invariant
            m.wf(),
            m.voice_audio@ == Seq::<[i16; 960]>::empty(),
            play.cap == old(play).cap,
            aux.cap == old(aux).cap,
            *m == (MediaQueues {
                voice_audio: m.voice_audio,
                voice_playout: m.voice_playout,
                ..*old(m)
            }),
            after_pushes(start, all, 6) == after_pushes(
                mono_frames(m.voice_playout@),
                mixed_frames(play@, aux@),
                6,
            ),
        decreases play@.len() + aux@.len(),
    {
        let ghost p = play@;
        let ghost a = aux@;
        let ghost held = m.voice_playout@;
        if let Some(frame) = playout_step(play, aux) {
            m.voice_playout.push(frame);
            proof {
                assert(frame@ =~= mixed_at(p, a, 0));
                let rest = mixed_frames(play@, aux@);
                assert forall|k: int| 0 <= k < rest.len() implies #[trigger] mixed_at(p, a, k + 1)
                    == rest[k] by {
                    assert(mixed_at(p, a, k + 1) =~= mixed_at(play@, aux@, k));
                }
                assert(mixed_frames(p, a) =~= seq![frame@] + rest);
                assert(mono_frames(newest(held.push(frame), 6)) =~= newest(
                    mono_frames(held).push(frame@),
                    6,
                ));
                lemma_pushes_from_the_front(mono_frames(held), frame@, rest, 6);
            }
        }
    }
    assert(play@ =~= Seq::<[i16; 960]>::empty());
    assert(aux@ =~= Seq::<[i16; 1920]>::empty());
    assert(mixed_frames(play@, aux@) =~= Seq::<Seq<i16>>::empty());
    heard
}

/// The picture's size, where both sides are counts at all.
pub fn frame_size(width: i32, height: i32) -> (r: Option<(usize, usize)>)
    ensures
        r == if width >= 0 && height >= 0 {
            Some((width as usize, height as usize))
        } else {
            None::<(usize, usize)>
        },
{
    if width >= 0 && height >= 0 {
        Some((width as usize, height as usize))
    } else {
        None
    }
}

/// A quarter turn the picture can be turned by; anything else is no turn.
pub fn quarter_turn(rot: i32) -> (r: u32)
    ensures
        r == if rot == 90 || rot == 180 || rot == 270 {
            rot as u32
        } else {
            0
        },
{
    if rot == 90 || rot == 180 || rot == 270 {
        rot as u32
    } else {
        0
    }
}

/// Keep the newest picture of a track: track 1 is the camera, track 2 the screen, and there
/// is no other.
pub fn store_frame(m: &mut MediaQueues, track: i32, frame: VideoFrame)
    ensures
        *final(m) == if track == 1 {
            MediaQueues { camera: Some(frame), ..*old(m) }
        } else if track == 2 {
            MediaQueues { screen: Some(frame), ..*old(m) }
        } else {
            *old(m)
        },
{
    if track == 1 {
        m.camera = Some(frame);
    } else if track == 2 {
        m.screen = Some(frame);
    }
}

/// A call into the bridge: the method, and whether it takes the activity.
pub struct BridgeCall {
    pub method: &'static str,
    pub activity: bool,
}

/// Ask for the microphone permission.
pub fn ensure_mic_permission() -> (r: BridgeCall)
    ensures
        r.method@ == "ensureMic"@,
        r.activity,
{
    BridgeCall { method: "ensureMic", activity: true }
}

/// Start or stop the camera. Stopping forgets the last picture.
pub fn set_camera_capture(m: &mut MediaQueues, on: bool) -> (r: BridgeCall)
    ensures
        on ==> r.method@ == "startCamera"@ && r.activity && *final(m) == *old(m),
        !on ==> r.method@ == "stopCamera"@ && !r.activity && *final(m) == (MediaQueues {
            camera: None,
            ..*old(m)
        }),
{
    if on {
        BridgeCall { method: "startCamera", activity: true }
    } else {
        m.camera = None;
        BridgeCall { method: "stopCamera", activity: false }
    }
}

/// Start or stop sharing the screen. Stopping forgets the last picture.
pub fn set_screen_capture(m: &mut MediaQueues, on: bool) -> (r: BridgeCall)
    ensures
        r.activity,
        on ==> r.method@ == "startScreen"@ && *final(m) == *old(m),
        !on ==> r.method@ == "stopScreen"@ && *final(m) == (MediaQueues { screen: None, ..*old(m) }),
{
    if on {
        BridgeCall { method: "startScreen", activity: true }
    } else {
        m.screen = None;
        BridgeCall { method: "stopScreen", activity: true }
    }
}

/// Start or stop capturing system audio alongside the screen.
pub fn set_screen_audio_capture(on: bool) -> (r: BridgeCall)
    ensures
        !r.activity,
        on ==> r.method@ == "startScreenAudio"@,
        !on ==> r.method@ == "stopScreenAudio"@,
{
    if on {
        BridgeCall { method: "startScreenAudio", activity: false }
    } else {
        BridgeCall { method: "stopScreenAudio", activity: false }
    }
}

/// Start or stop the call's microphone. Stopping forgets what it has delivered.
pub fn set_voice_capture(m: &mut MediaQueues, on: bool) -> (r: BridgeCall)
    ensures
        r.activity,
        on ==> r.method@ == "startVoiceMic"@ && *final(m) == *old(m),
        !on ==> {
            &&& r.method@ == "stopVoiceMic"@
            &&& final(m).voice_audio@ == Seq::<[i16; 960]>::empty()
            &&& final(m).voice_pending@ == Seq::<i16>::empty()
            &&& *final(m) == (MediaQueues {
                voice_audio: final(m).voice_audio,
                voice_pending: final(m).voice_pending,
                ..*old(m)
            })
        },
        old(m).wf() ==> final(m).wf(),
{
    if on {
        return BridgeCall { method: "startVoiceMic", activity: true };
    }
    m.voice_audio.clear();
    m.voice_pending = Vec::new();
    BridgeCall { method: "stopVoiceMic", activity: true }
}

/// Start or stop the call's speaker. Stopping forgets what it has not played.
pub fn set_voice_playout(m: &mut MediaQueues, on: bool) -> (r: BridgeCall)
    ensures
        !r.activity,
        on ==> r.method@ == "startVoicePlayout"@ && *final(m) == *old(m),
        !on ==> {
            &&& r.method@ == "stopVoicePlayout"@
            &&& final(m).voice_playout@ == Seq::<[i16; 960]>::empty()
            &&& *final(m) == (MediaQueues { voice_playout: final(m).voice_playout, ..*old(m) })
        },
        old(m).wf() ==> final(m).wf(),
{
    if on {
        return BridgeCall { method: "startVoicePlayout", activity: false };
    }
    m.voice_playout.clear();
    BridgeCall { method: "stopVoicePlayout", activity: false }
}

/// A sample is written with its low byte first, and two bytes stand for the sample whose bits they
/// are: their number below the middle, and what is left of the whole range above it.
pub proof fn lemma_the_low_byte_comes_first(samples: Seq<i16>, i: int, lo: u8, hi: u8)
    ensures
        bytes_of(samples).len() == 2 * samples.len(),
        0 <= i < samples.len() ==> ({
            let value = bytes_of(samples)[2 * i] + 256 * bytes_of(samples)[2 * i + 1];
            value == samples[i] || value == samples[i] + 65536
        }),
        sample_of(lo, hi) == lo + 256 * hi || sample_of(lo, hi) == lo + 256 * hi - 65536,
        samples_of(seq![lo, hi]) == seq![sample_of(lo, hi)],
{
    if 0 <= i < samples.len() {
        assert((2 * i) % 2 == 0 && (2 * i) / 2 == i);
        assert((2 * i + 1) % 2 == 1 && (2 * i + 1) / 2 == i);
    }
    assert(samples_of(seq![lo, hi]) =~= seq![sample_of(lo, hi)]);
}

/// A piece of bytes is read two by two, from its beginning, and a byte too many is no sample.
pub proof fn lemma_bytes_are_read_two_by_two(bytes: Seq<u8>, more: Seq<u8>)
    requires
        bytes.len() % 2 == 0,
    ensures
        samples_of(bytes + more) == samples_of(bytes) + samples_of(more),
        samples_of(bytes).len() == bytes.len() / 2,
        more.len() == 1 ==> samples_of(more).len() == 0,
{
    let all = bytes + more;
    let n = samples_of(bytes).len();
    assert(all.len() / 2 == bytes.len() / 2 + more.len() / 2);
    assert forall|i: int| 0 <= i < samples_of(all).len() implies #[trigger] samples_of(all)[i] == (samples_of(bytes)
        + samples_of(more))[i] by {
        if i >= n {
            assert(all[2 * i] == more[2 * (i - n)]);
            assert(all[2 * i + 1] == more[2 * (i - n) + 1]);
        }
    }
    assert(samples_of(all) =~= samples_of(bytes) + samples_of(more));
}

/// Two queues mix frame by frame until the longer is empty: each sample is the voice and the mean
/// of its own two shared samples, where a sample can hold that, and a queue that ran out is silent.
pub proof fn lemma_queues_mix_in_step(play: Seq<[i16; 960]>, aux: Seq<[i16; 1920]>, k: int, i: int)
    requires
        0 <= i < 960,
        0 <= k < mixed_frames(play, aux).len(),
    ensures
        mixed_frames(play, aux).len() >= play.len() && mixed_frames(play, aux).len() >= aux.len(),
        mixed_frames(play, aux).len() == play.len() || mixed_frames(play, aux).len() == aux.len(),
        mixed_frames(play, aux)[k].len() == 960,
        ({
            let v: int = if k < play.len() {
                play[k]@[i] as int
            } else {
                0
            };
            let shared: int = if k < aux.len() {
                aux[k]@[2 * i] + aux[k]@[2 * i + 1]
            } else {
                0
            };
            let m = mixed_frames(play, aux)[k][i];
            -65536 <= 2 * v + shared <= 65534 ==> -1 <= 2 * m - (2 * v + shared) <= 1
        }),
{
}

} // verus!
