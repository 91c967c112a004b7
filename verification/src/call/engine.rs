//! Bringing a 1:1 call up, following its media session, and the entries calls leave in the
//! conversation.

use super::error::CallError;
use super::handles::{
    accounts_for, displaced, end_displaced, ends, lemma_displaced, lemma_displaced_after, lemma_one_dropped, no_orphans,
};
use super::session::{call_retention_secs, call_slot_free, chip, is_current, log_call_event, retention_of, slot_free, Session};
use super::signal::{call_in_room, JoinPlan};
use super::types::{
    CallCtl, CallEvent, CallKind, CallTerminalReason, DisconnectCause, Effect, Label,
    PendingReconnect, Track, TransitionDecision,
};
use crate::names::NameSet;
use crate::text::{decimal, digit, lowercase_of, push_decimal, push_two_digits, same, to_lowercase};
use vstd::prelude::*;
use vstd::string::*;

verus! {

/// Seconds from `then` to `now`, none if the clock went back.
pub open spec fn seconds_between(then: u64, now: u64) -> nat {
    if now >= then {
        (now - then) as nat
    } else {
        0
    }
}

/// How a call is entered into the conversation: its length if it connected; as unanswered if
/// this device placed it; else by its kind alone.
pub open spec fn end_label(kind: Seq<char>, caller: bool, connected_at: u64, now: u64) -> Seq<char> {
    if connected_at > 0 {
        let secs = seconds_between(connected_at, now);
        "📞 "@ + kind + " · "@ + decimal(secs / 60) + ":"@ + seq![
            digit(secs % 60 / 10),
            digit(secs % 60 % 10),
        ]
    } else if caller {
        "📞 Unanswered "@ + lowercase_of(kind)
    } else {
        "📞 "@ + kind
    }
}

/// How a call this device was part of is entered into the conversation.
pub fn call_end_label(kind: &str, caller: bool, connected_at: u64, now: u64) -> (r: String)
    ensures
        r@ == end_label(kind@, caller, connected_at, now),
{
    if connected_at > 0 {
        let secs: u64 = now.saturating_sub(connected_at);
        let mut out: String = "📞 ".to_owned();
        out.append(kind);
        out.append(" · ");
        push_decimal(&mut out, secs / 60);
        out.append(":");
        push_two_digits(&mut out, secs % 60);
        out
    } else if caller {
        let mut out: String = "📞 Unanswered ".to_owned();
        out.append(to_lowercase(kind).as_str());
        out
    } else {
        let mut out: String = "📞 ".to_owned();
        out.append(kind);
        out
    }
}

impl CallKind {
    /// What a call of this kind is called.
    pub open spec fn word(self) -> Seq<char> {
        match self {
            CallKind::Direct => "Call"@,
            CallKind::Group => "Group call"@,
        }
    }

    /// What a call of this kind is called.
    pub fn name(self) -> (r: &'static str)
        ensures
            r@ == self.word(),
    {
        match self {
            CallKind::Direct => "Call",
            CallKind::Group => "Group call",
        }
    }
}

impl Label {
    /// The text of an entry written at `now`.
    pub open spec fn shown(self, now: u64) -> Seq<char> {
        match self {
            Label::MissedCall => "📞 Missed call"@,
            Label::DeclinedCall => "📞 Declined call"@,
            Label::CallEnded => "📞 Call ended"@,
            Label::MissedGroupCall { from } => "📞 Missed group call from "@ + from@,
            Label::DeclinedGroupCall => "📞 Declined group call"@,
            Label::GroupCallEnded => "📞 Group call ended"@,
            Label::UnansweredGroupCall => "📞 Unanswered group call"@,
            Label::Ended { kind, caller, connected_at } => end_label(
                kind.word(),
                caller,
                connected_at,
                now,
            ),
        }
    }

    /// The text of an entry written at `now`.
    pub fn text(&self, now: u64) -> (r: String)
        ensures
            r@ == self.shown(now),
    {
        match self {
            Label::MissedCall => "📞 Missed call".to_owned(),
            Label::DeclinedCall => "📞 Declined call".to_owned(),
            Label::CallEnded => "📞 Call ended".to_owned(),
            Label::MissedGroupCall { from } => {
                let mut out: String = "📞 Missed group call from ".to_owned();
                out.append(from.as_str());
                out
            },
            Label::DeclinedGroupCall => "📞 Declined group call".to_owned(),
            Label::GroupCallEnded => "📞 Group call ended".to_owned(),
            Label::UnansweredGroupCall => "📞 Unanswered group call".to_owned(),
            Label::Ended { kind, caller, connected_at } => call_end_label(
                kind.name(),
                *caller,
                *connected_at,
                now,
            ),
        }
    }
}

/// How long setting a call up may wait for the room, and for the audio devices.
pub const CALL_SETUP_GIVEUP_SECS: u64 = 15;

/// What a wait that was bounded came to.
pub enum Waited {
    Done,
    Failed(String),
    TimedOut,
}

/// Why setting a call up is given up, if so: first the room is waited for, then the audio
/// devices.
pub open spec fn setup_given_up(room: Waited, audio: Waited) -> Option<CallError> {
    match (room, audio) {
        (Waited::Failed(text), _) => Some(CallError::Other(text)),
        (Waited::TimedOut, _) => Some(CallError::RoomNotJoined),
        (Waited::Done, Waited::Failed(text)) => Some(CallError::Other(text)),
        (Waited::Done, Waited::TimedOut) => Some(CallError::AudioNotStarted),
        (Waited::Done, Waited::Done) => None,
    }
}

/// Whether setting a call up goes on, once its room and its audio devices have been waited for.
pub fn call_set_up(room: Waited, audio: Waited) -> (r: Result<(), CallError>)
    ensures
        match setup_given_up(room, audio) {
            Some(e) => r == Err::<(), CallError>(e),
            None => r is Ok,
        },
{
    match room {
        Waited::Failed(text) => {
            return Err(CallError::Other(text));
        },
        Waited::TimedOut => {
            return Err(CallError::RoomNotJoined);
        },
        Waited::Done => {},
    }
    match audio {
        Waited::Failed(text) => Err(CallError::Other(text)),
        Waited::TimedOut => Err(CallError::AudioNotStarted),
        Waited::Done => Ok(()),
    }
}

/// Hold the one call slot while a call is being started.
pub fn reserve_call_slot(s: &mut Session) -> (r: Result<(), CallError>)
    ensures
        slot_free(*old(s)) ==> r is Ok && *final(s) == (Session { call_setup: true, ..*old(s) }),
        !slot_free(*old(s)) ==> r == Err::<(), CallError>(CallError::AlreadyInACall) && *final(s)
            == *old(s),
{
    if !call_slot_free(s) {
        return Err(CallError::AlreadyInACall);
    }
    s.call_setup = true;
    Ok(())
}

/// While the slot is held for a call that is being set up, it is held against everything else:
/// a second call, a ring, and a group's ring.
pub proof fn lemma_a_held_slot_is_busy(
    s: Session,
    offer: super::group_offer::GroupOffer,
    decision: Option<super::types::OfferDecision>,
)
    requires
        s.call_setup,
    ensures
        !slot_free(s),
        !(super::group_offer::group_case(s, offer, decision) is Ring),
{
}

/// Let the slot go, and with it the claims that were waiting for the room. Says how many of
/// those will never be answered.
pub fn release_call_slot(s: &mut Session) -> (unanswered: usize)
    ensures
        *final(s) == (Session { call_setup: false, outgoing_setup: None, ..*old(s) }),
        unanswered == match old(s).outgoing_setup {
            Some(setup) => setup.claims@.len(),
            None => 0,
        },
{
    s.call_setup = false;
    match s.outgoing_setup.take() {
        Some(setup) => setup.claims.len(),
        None => 0,
    }
}

/// Why a call that is being started may not go on, if so: the connection changed, the vault
/// closed, or the call ended.
pub open spec fn not_live(s: Session, client: u64, ended: Option<CallTerminalReason>) -> Option<CallError> {
    if s.client != Some(client) {
        Some(CallError::NotConfigured)
    } else if s.account is None {
        Some(CallError::Locked)
    } else {
        match ended {
            Some(reason) => Some(CallError::AlreadyEnded(reason)),
            None => None,
        }
    }
}

/// Whether a call that is being started may go on. `ended` is the outcome the registry holds
/// for it.
pub fn call_still_live(s: &Session, client: u64, ended: Option<CallTerminalReason>) -> (r: Result<(), CallError>)
    ensures
        match not_live(*s, client, ended) {
            Some(e) => r == Err::<(), CallError>(e),
            None => r is Ok,
        },
{
    if !is_current(s, client) {
        return Err(CallError::NotConfigured);
    }
    if s.account.is_none() {
        return Err(CallError::Locked);
    }
    match ended {
        Some(reason) => Err(CallError::AlreadyEnded(reason)),
        None => Ok(()),
    }
}

/// What the media session of a call has reported so far.
#[derive(Clone, Copy, Debug, PartialEq, Eq, Structural)]
pub struct MediaFlags {
    pub connected: bool,
    pub connected_at: u64,
    pub peer_media2: bool,
    pub video_ready: bool,
    pub peer_camera: bool,
    pub peer_screen: bool,
}

impl MediaFlags {
    /// Nothing reported.
    pub fn new(peer_media2: bool) -> (r: MediaFlags)
        ensures
            r == (MediaFlags {
                connected: false,
                connected_at: 0,
                peer_media2,
                video_ready: false,
                peer_camera: false,
                peer_screen: false,
            }),
    {
        MediaFlags {
            connected: false,
            connected_at: 0,
            peer_media2,
            video_ready: false,
            peer_camera: false,
            peer_screen: false,
        }
    }
}

/// The live call a joined room becomes. Until an answer settles it, the other end is the
/// account's own key.
pub open spec fn installed(plan: JoinPlan, flags: MediaFlags, transport: String, busy: NameSet) -> CallCtl {
    CallCtl {
        call_instance_id: plan.call_instance_id,
        offer_id: plan.offer_id,
        ring_handle: plan.ring_handle,
        call_id: plan.call_id,
        peer_username: plan.peer_username,
        peer_key: plan.peer_key,
        peer_device_key: plan.peer_key,
        peer_reply_to_mailbox: plan.peer_reply_to_mailbox,
        caller: plan.caller,
        muted: false,
        camera_on: false,
        screen_on: false,
        screen_audio_on: false,
        connected: flags.connected,
        connected_at: flags.connected_at,
        peer_media2: flags.peer_media2,
        video_ready: flags.video_ready,
        peer_camera: flags.peer_camera,
        peer_screen: flags.peer_screen,
        transport,
        ring_fanout: plan.ring_fanout,
        busy_devices: busy,
    }
}

/// The handle of the live call.
pub open spec fn live_handle(s: Session) -> Option<String> {
    match s.call {
        Some(c) => Some(c.ring_handle),
        None => None,
    }
}

/// The handle of the call that is being resumed.
pub open spec fn resumed_handle(s: Session) -> Option<String> {
    match s.reconnect {
        Some(rc) => Some(rc.ring_handle),
        None => None,
    }
}

/// What a room that is up makes of the session: its live call, unless the call may not go on; then
/// the session stays as it is and the room's media is stopped.
pub open spec fn call_installed(
    before: Session,
    plan: JoinPlan,
    flags: MediaFlags,
    transport: String,
    client: u64,
    ended: Option<CallTerminalReason>,
    after: Session,
    result: Result<(), CallError>,
    out: Seq<Effect>,
) -> bool {
    match not_live(before, client, ended) {
        Some(e) => {
            &&& result == Err::<(), CallError>(e)
            &&& out =~= seq![Effect::ResetVolumes, Effect::StopMedia { room: plan.call_id }]
            &&& after == before
        },
        None => {
            &&& result is Ok
            &&& out =~= seq![
                Effect::ResetVolumes,
                Effect::ApplyGain { peer_key: plan.peer_key, username: plan.peer_username },
            ] + displaced(live_handle(before), plan.ring_handle@)
            &&& after.call matches Some(c) && c == installed(plan, flags, transport, c.busy_devices)
                && c.busy_devices@ == Set::<Seq<char>>::empty()
            &&& after == (Session { call: after.call, ..before })
        },
    }
}

/// The room is up: make it the live call, unless the call ended while the room was coming up;
/// then its media is stopped, and the plan is still the caller's to give up. Its volumes begin
/// anew, and the peer is played at the volume remembered for them.
pub fn install_call(
    s: &mut Session,
    plan: JoinPlan,
    flags: MediaFlags,
    transport: String,
    client: u64,
    ended: Option<CallTerminalReason>,
) -> (r: (Result<(), CallError>, Vec<Effect>))
    ensures
        call_installed(*old(s), plan, flags, transport, client, ended, *final(s), r.0, r.1@),
        accounts_for(
            *old(s),
            Some(plan.ring_handle@),
            *final(s),
            if r.0 is Ok {
                None
            } else {
                Some(plan.ring_handle@)
            },
            r.1@,
        ),
{
    let mut out: Vec<Effect> = Vec::new();
    out.push(Effect::ResetVolumes);
    match call_still_live(s, client, ended) {
        Err(e) => {
            out.push(Effect::StopMedia { room: plan.call_id });
            return (Err(e), out);
        },
        Ok(_) => {},
    }
    out.push(
        Effect::ApplyGain { peer_key: plan.peer_key.clone(), username: plan.peer_username.clone() },
    );
    let ghost head = out@;
    let live: Option<String> = match s.call.take() {
        Some(c) => Some(c.ring_handle),
        None => None,
    };
    end_displaced(&mut out, live, plan.ring_handle.as_str());
    proof {
        lemma_displaced_after(head, live, plan.ring_handle@);
        assert(out@ =~= head + displaced(live, plan.ring_handle@));
    }
    s.call = Some(
        CallCtl {
            call_instance_id: plan.call_instance_id,
            offer_id: plan.offer_id,
            ring_handle: plan.ring_handle,
            call_id: plan.call_id,
            peer_username: plan.peer_username,
            peer_device_key: plan.peer_key.clone(),
            peer_key: plan.peer_key,
            peer_reply_to_mailbox: plan.peer_reply_to_mailbox,
            caller: plan.caller,
            muted: false,
            camera_on: false,
            screen_on: false,
            screen_audio_on: false,
            connected: flags.connected,
            connected_at: flags.connected_at,
            peer_media2: flags.peer_media2,
            video_ready: flags.video_ready,
            peer_camera: flags.peer_camera,
            peer_screen: flags.peer_screen,
            transport,
            ring_fanout: plan.ring_fanout,
            busy_devices: NameSet::new(),
        },
    );
    (Ok(()), out)
}

fn in_room(s: &Session, call_id: &str) -> (r: bool)
    ensures
        r == call_in_room(*s, call_id@),
{
    match &s.call {
        Some(c) => same(c.call_id.as_str(), call_id),
        None => false,
    }
}

/// The registry lets the call's media run: the winner has been settled.
pub open spec fn media_admitted(decision: TransitionDecision) -> bool {
    decision is Applied || decision is Duplicate
}

/// The media session reports the other end in the room. `true` says the call goes on.
///
/// A room connection is no answer: unless the registry says that the winner has been settled,
/// the media is stopped and the call ends, and the other end is told, unless the call had
/// ended already.
pub fn media_connected(
    s: &mut Session,
    flags: &mut MediaFlags,
    call: &String,
    offer: &String,
    call_id: &String,
    ring: &String,
    decision: TransitionDecision,
) -> (r: (bool, Vec<Effect>))
    ensures
        r.0 == media_admitted(decision),
        r.0 ==> {
            &&& r.1@ == Seq::<Effect>::empty()
            &&& *final(flags) == (MediaFlags { connected: true, ..*old(flags) })
            &&& call_in_room(*old(s), call_id@) ==> *final(s) == (Session {
                call: Some(CallCtl { connected: true, ..old(s).call->0 }),
                ..*old(s)
            })
            &&& !call_in_room(*old(s), call_id@) ==> *final(s) == *old(s)
        },
        !r.0 ==> {
            let signal = !(decision is Terminal);
            &&& *final(flags) == *old(flags)
            &&& *final(s) == if call_in_room(*old(s), call_id@) {
                Session { call: None, ..*old(s) }
            } else {
                *old(s)
            }
            &&& r.1@ == seq![Effect::StopMedia { room: *call_id }] + (if signal {
                seq![
                    Effect::RecordTerminal {
                        call: *call,
                        offer: *offer,
                        reason: CallTerminalReason::TransportError,
                        retention: retention_of(*old(s)),
                    },
                ]
            } else {
                Seq::<Effect>::empty()
            }) + (if call_in_room(*old(s), call_id@) {
                refused_media_effects(old(s).call->0, signal) + displaced(live_handle(*old(s)), ring@)
            } else {
                Seq::<Effect>::empty()
            }) + seq![
                Effect::EndSystemCall { ring: *ring, cause: DisconnectCause::Error },
                Effect::Emit(CallEvent::Ended),
            ]
        },
        no_orphans(*old(s), *final(s), r.1@),
{
    let mut out: Vec<Effect> = Vec::new();
    let admitted = match decision {
        TransitionDecision::Applied => true,
        TransitionDecision::Duplicate => true,
        _ => false,
    };
    let here = in_room(s, call_id.as_str());
    if admitted {
        flags.connected = true;
        if here {
            match &mut s.call {
                Some(c) => {
                    c.connected = true;
                },
                None => {},
            }
        }
        return (true, out);
    }
    let signal = match decision {
        TransitionDecision::Terminal(_) => false,
        _ => true,
    };
    out.push(Effect::StopMedia { room: call_id.clone() });
    if signal {
        out.push(
            Effect::RecordTerminal {
                call: call.clone(),
                offer: offer.clone(),
                reason: CallTerminalReason::TransportError,
                retention: call_retention_secs(s),
            },
        );
    }
    if here {
        let ghost head = out@;
        if let Some(c) = s.call.take() {
            if signal {
                if c.caller {
                    out.push(
                        Effect::SendTerminalEverywhere {
                            username: c.peer_username,
                            peer_key: c.peer_key.clone(),
                            call: c.call_instance_id,
                            offer: c.offer_id,
                            reason: CallTerminalReason::TransportError,
                        },
                    );
                } else {
                    out.push(
                        Effect::SendTerminalToDevice {
                            device_key: c.peer_device_key,
                            mailbox: c.peer_reply_to_mailbox,
                            call: c.call_instance_id,
                            offer: c.offer_id,
                            reason: CallTerminalReason::TransportError,
                        },
                    );
                }
            }
            log_call_event(
                &mut out,
                &c.peer_key,
                Label::Ended { kind: CallKind::Direct, caller: c.caller, connected_at: c.connected_at },
            );
            assert(out@ =~= head + refused_media_effects(old(s).call->0, signal));
            end_displaced(&mut out, Some(c.ring_handle), ring.as_str());
        }
    }
    let ghost before = out@;
    out.push(Effect::EndSystemCall { ring: ring.clone(), cause: DisconnectCause::Error });
    out.push(Effect::Emit(CallEvent::Ended));
    proof {
        assert(ends(out@[out@.len() - 2], ring@));
        if call_in_room(*old(s), call_id@) {
            lemma_displaced(live_handle(*old(s)), ring@);
            let c = old(s).call->0;
            if c.ring_handle@ != ring@ {
                assert(out@[before.len() - 1] == before.last());
                assert(before.last() == displaced(live_handle(*old(s)), ring@)[0]);
                assert(ends(out@[before.len() - 1], c.ring_handle@));
            }
        }
    }
    (false, out)
}

/// How a call is told to the other end, and entered into the conversation, when its media may
/// not run.
pub open spec fn refused_media_effects(c: CallCtl, signal: bool) -> Seq<Effect> {
    (if !signal {
        Seq::empty()
    } else if c.caller {
        seq![
            Effect::SendTerminalEverywhere {
                username: c.peer_username,
                peer_key: c.peer_key,
                call: c.call_instance_id,
                offer: c.offer_id,
                reason: CallTerminalReason::TransportError,
            },
        ]
    } else {
        seq![
            Effect::SendTerminalToDevice {
                device_key: c.peer_device_key,
                mailbox: c.peer_reply_to_mailbox,
                call: c.call_instance_id,
                offer: c.offer_id,
                reason: CallTerminalReason::TransportError,
            },
        ]
    }) + chip(
        c.peer_key,
        Label::Ended { kind: CallKind::Direct, caller: c.caller, connected_at: c.connected_at },
    )
}

/// The time a call connected: the first that was ever reported.
pub open spec fn first_connect(connected_at: u64, now: u64) -> u64 {
    if connected_at == 0 {
        now
    } else {
        connected_at
    }
}

/// A frame of the peer's voice has been decoded: only now is the call up. The first such time
/// is the one that counts, also across a resume.
pub fn voice_flowing(
    s: &mut Session,
    flags: &mut MediaFlags,
    call_id: &String,
    ring: &String,
    now: u64,
) -> (out: Vec<Effect>)
    ensures
        out@ == seq![
            Effect::SystemCallActive { ring: *ring },
            Effect::Emit(CallEvent::Connected),
        ],
        call_in_room(*old(s), call_id@) ==> *final(flags) == *old(flags) && *final(s) == (Session {
            call: Some(
                CallCtl {
                    connected_at: first_connect(old(s).call->0.connected_at, now),
                    ..old(s).call->0
                },
            ),
            ..*old(s)
        }),
        !call_in_room(*old(s), call_id@) ==> *final(s) == *old(s) && *final(flags) == (MediaFlags {
            connected_at: first_connect(old(flags).connected_at, now),
            ..*old(flags)
        }),
        no_orphans(*old(s), *final(s), out@),
{
    let mut out: Vec<Effect> = Vec::new();
    out.push(Effect::SystemCallActive { ring: ring.clone() });
    if in_room(s, call_id.as_str()) {
        match &mut s.call {
            Some(c) => {
                if c.connected_at == 0 {
                    c.connected_at = now;
                }
            },
            None => {},
        }
    } else if flags.connected_at == 0 {
        flags.connected_at = now;
    }
    out.push(Effect::Emit(CallEvent::Connected));
    out
}

/// The media session can or cannot carry video.
pub fn video_ready(s: &mut Session, flags: &mut MediaFlags, call_id: &String, ready: bool) -> (out: Vec<Effect>)
    ensures
        out@ == seq![Effect::Emit(CallEvent::VideoReady { ready })],
        *final(flags) == (MediaFlags { video_ready: ready, ..*old(flags) }),
        *final(s) == if call_in_room(*old(s), call_id@) {
            Session { call: Some(CallCtl { video_ready: ready, ..old(s).call->0 }), ..*old(s) }
        } else {
            *old(s)
        },
        no_orphans(*old(s), *final(s), out@),
{
    let mut out: Vec<Effect> = Vec::new();
    flags.video_ready = ready;
    if in_room(s, call_id.as_str()) {
        match &mut s.call {
            Some(c) => {
                c.video_ready = ready;
            },
            None => {},
        }
    }
    out.push(Effect::Emit(CallEvent::VideoReady { ready }));
    out
}

/// The peer switched a track. The control track is nobody's business.
pub fn peer_track(
    s: &mut Session,
    flags: &mut MediaFlags,
    call_id: &String,
    track: Track,
    on: bool,
) -> (out: Vec<Effect>)
    ensures
        out@ == if track is Control {
            Seq::<Effect>::empty()
        } else {
            seq![Effect::Emit(CallEvent::PeerTrack { track, on })]
        },
        *final(flags) == match track {
            Track::Camera => MediaFlags { peer_camera: on, ..*old(flags) },
            Track::Screen => MediaFlags { peer_screen: on, ..*old(flags) },
            _ => *old(flags),
        },
        *final(s) == if call_in_room(*old(s), call_id@) {
            match track {
                Track::Camera => Session {
                    call: Some(CallCtl { peer_camera: on, ..old(s).call->0 }),
                    ..*old(s)
                },
                Track::Screen => Session {
                    call: Some(CallCtl { peer_screen: on, ..old(s).call->0 }),
                    ..*old(s)
                },
                _ => *old(s),
            }
        } else {
            *old(s)
        },
        no_orphans(*old(s), *final(s), out@),
{
    let mut out: Vec<Effect> = Vec::new();
    let here = in_room(s, call_id.as_str());
    match track {
        Track::Camera => {
            flags.peer_camera = on;
            if here {
                match &mut s.call {
                    Some(c) => {
                        c.peer_camera = on;
                    },
                    None => {},
                }
            }
        },
        Track::Screen => {
            flags.peer_screen = on;
            if here {
                match &mut s.call {
                    Some(c) => {
                        c.peer_screen = on;
                    },
                    None => {},
                }
            }
        },
        Track::ScreenAudio => {},
        Track::Control => {
            return out;
        },
    }
    out.push(Effect::Emit(CallEvent::PeerTrack { track, on }));
    out
}

/// What is kept of a live call while it is being resumed.
pub open spec fn dropped(c: CallCtl) -> PendingReconnect {
    PendingReconnect {
        call_instance_id: c.call_instance_id,
        offer_id: c.offer_id,
        ring_handle: c.ring_handle,
        old_call_id: c.call_id,
        peer_username: c.peer_username,
        peer_key: c.peer_key,
        peer_device_key: c.peer_device_key,
        peer_reply_to_mailbox: c.peer_reply_to_mailbox,
        caller: c.caller,
        peer_media2: c.peer_media2,
        connected_at: c.connected_at,
    }
}

/// The media session is over. A connected call counts as dropped and is resumed, its system
/// call left up, and a call that still waited to be resumed gives way; any other call is gone
/// for good.
pub fn media_ended(s: &mut Session, call_id: &String) -> (out: Vec<Effect>)
    ensures
        !call_in_room(*old(s), call_id@) ==> *final(s) == *old(s) && out@ == Seq::<Effect>::empty(),
        call_in_room(*old(s), call_id@) ==> {
            let c = old(s).call->0;
            if c.connected && old(s).account is Some {
                &&& *final(s) == (Session {
                    call: None,
                    reconnect: Some(dropped(c)),
                    ..*old(s)
                })
                &&& out@ == displaced(resumed_handle(*old(s)), c.ring_handle@) + seq![
                    Effect::Emit(CallEvent::Reconnecting { username: c.peer_username }),
                    Effect::StartReconnect { old_call_id: c.call_id },
                ]
            } else {
                &&& *final(s) == (Session { call: None, ..*old(s) })
                &&& out@ == seq![
                    Effect::EndSystemCall { ring: c.ring_handle, cause: DisconnectCause::Remote },
                ] + chip(
                    c.peer_key,
                    Label::Ended {
                        kind: CallKind::Direct,
                        caller: c.caller,
                        connected_at: c.connected_at,
                    },
                ) + seq![Effect::Emit(CallEvent::Ended)]
            }
        },
        no_orphans(*old(s), *final(s), out@),
{
    let mut out: Vec<Effect> = Vec::new();
    if !in_room(s, call_id.as_str()) {
        return out;
    }
    if let Some(c) = s.call.take() {
        if c.connected && s.account.is_some() {
            let waiting: Option<String> = match s.reconnect.take() {
                Some(rc) => Some(rc.ring_handle),
                None => None,
            };
            end_displaced(&mut out, waiting, c.ring_handle.as_str());
            proof {
                lemma_displaced(waiting, c.ring_handle@);
            }
            let ghost head = out@;
            out.push(Effect::Emit(CallEvent::Reconnecting { username: c.peer_username.clone() }));
            out.push(Effect::StartReconnect { old_call_id: c.call_id.clone() });
            s.reconnect = Some(
                PendingReconnect {
                    call_instance_id: c.call_instance_id,
                    offer_id: c.offer_id,
                    ring_handle: c.ring_handle,
                    old_call_id: c.call_id,
                    peer_username: c.peer_username,
                    peer_key: c.peer_key,
                    peer_device_key: c.peer_device_key,
                    peer_reply_to_mailbox: c.peer_reply_to_mailbox,
                    caller: c.caller,
                    peer_media2: c.peer_media2,
                    connected_at: c.connected_at,
                },
            );
            assert(head.len() > 0 ==> out@[0] == head[0]);
        } else {
            out.push(Effect::EndSystemCall { ring: c.ring_handle, cause: DisconnectCause::Remote });
            log_call_event(
                &mut out,
                &c.peer_key,
                Label::Ended { kind: CallKind::Direct, caller: c.caller, connected_at: c.connected_at },
            );
            out.push(Effect::Emit(CallEvent::Ended));
            proof {
                lemma_one_dropped(*old(s), *s, out@, 0, old(s).call->0.ring_handle@);
            }
        }
    }
    out
}

/// Nobody picked the outgoing call up in time: it ends, and every rung device is told.
pub fn outgoing_timed_out(s: &mut Session, call_id: &String) -> (out: Vec<Effect>)
    ensures
        ({
            let rings_on = call_in_room(*old(s), call_id@) && !old(s).call->0.connected;
            &&& !rings_on ==> *final(s) == *old(s) && out@ == Seq::<Effect>::empty()
            &&& rings_on ==> {
                let c = old(s).call->0;
                &&& *final(s) == (Session { call: None, ..*old(s) })
                &&& out@ == seq![
                    Effect::StopMedia { room: c.call_id },
                    Effect::EndSystemCall { ring: c.ring_handle, cause: DisconnectCause::Missed },
                    Effect::SendTerminalEverywhere {
                        username: c.peer_username,
                        peer_key: c.peer_key,
                        call: c.call_instance_id,
                        offer: c.offer_id,
                        reason: CallTerminalReason::Expired,
                    },
                ] + chip(
                    c.peer_key,
                    Label::Ended { kind: CallKind::Direct, caller: true, connected_at: 0 },
                ) + seq![Effect::Emit(CallEvent::NoAnswer)]
            }
        }),
        no_orphans(*old(s), *final(s), out@),
{
    let mut out: Vec<Effect> = Vec::new();
    let rings_on = match &s.call {
        Some(c) => c.call_id == *call_id && !c.connected,
        None => false,
    };
    if !rings_on {
        return out;
    }
    if let Some(c) = s.call.take() {
        out.push(Effect::StopMedia { room: c.call_id });
        out.push(Effect::EndSystemCall { ring: c.ring_handle, cause: DisconnectCause::Missed });
        out.push(
            Effect::SendTerminalEverywhere {
                username: c.peer_username,
                peer_key: c.peer_key.clone(),
                call: c.call_instance_id,
                offer: c.offer_id,
                reason: CallTerminalReason::Expired,
            },
        );
        log_call_event(
            &mut out,
            &c.peer_key,
            Label::Ended { kind: CallKind::Direct, caller: true, connected_at: 0 },
        );
        out.push(Effect::Emit(CallEvent::NoAnswer));
        proof {
            lemma_one_dropped(*old(s), *s, out@, 1, old(s).call->0.ring_handle@);
        }
    }
    out
}

/// As whom control messages go to a peer.
pub struct ControlSender {
    pub actor_device_id: String,
    pub expires_at: u64,
    /// Whether the peer's linked devices get copies of their own.
    pub linked_devices: bool,
}

/// As whom a control message goes out now; the account cannot speak while the vault is locked.
pub open spec fn sender_now(s: Session, now: u64) -> Result<ControlSender, CallError> {
    if s.account is Some {
        Ok(
            ControlSender {
                actor_device_id: s.directory.self_device_id,
                expires_at: super::accept::later(now, s.limits.signal_ttl_secs),
                linked_devices: s.multi_device,
            },
        )
    } else {
        Err(CallError::Locked)
    }
}

/// As whom a claim, a winner, a busy or an outcome goes to a peer.
pub fn control_sender(s: &Session, now: u64) -> (r: Result<ControlSender, CallError>)
    ensures
        r == sender_now(*s, now),
{
    if s.account.is_none() {
        return Err(CallError::Locked);
    }
    Ok(
        ControlSender {
            actor_device_id: s.directory.self_device_id.clone(),
            expires_at: now.saturating_add(s.limits.signal_ttl_secs),
            linked_devices: s.multi_device,
        },
    )
}

/// As whom an outcome goes to every device of a peer, on both delivery layers; nothing while
/// the vault is locked.
pub fn send_call_terminal_everywhere(s: &Session, now: u64) -> (r: Option<ControlSender>)
    ensures
        r == match sender_now(*s, now) {
            Ok(sender) => Some(sender),
            Err(_) => None,
        },
{
    match control_sender(s, now) {
        Ok(sender) => Some(sender),
        Err(_) => None,
    }
}

/// What became of the one message in a batch that has to arrive: the first. The others are
/// copies. `none_queued` is reported where the batch came back empty.
pub fn first_outcome(results: Vec<Result<(), String>>, none_queued: CallError) -> (r: Result<(), CallError>)
    ensures
        results@.len() == 0 ==> r == Err::<(), CallError>(none_queued),
        results@.len() > 0 ==> match results@[0] {
            Ok(_) => r is Ok,
            Err(text) => r == Err::<(), CallError>(CallError::Other(text)),
        },
{
    let mut results = results;
    if results.len() == 0 {
        return Err(none_queued);
    }
    match results.remove(0) {
        Ok(_) => Ok(()),
        Err(text) => Err(CallError::Other(text)),
    }
}

/// Whether a winner acknowledgement reached the winner; the copies to its siblings do not
/// count.
pub fn winner_delivered(results: &Vec<bool>, undelivered: CallError) -> (r: Result<(), CallError>)
    ensures
        results@.len() > 0 && results@[0] ==> r is Ok,
        !(results@.len() > 0 && results@[0]) ==> r == Err::<(), CallError>(undelivered),
{
    if results.len() > 0 && results[0] {
        Ok(())
    } else {
        Err(undelivered)
    }
}

/// The first time a call is heard counts, whatever is heard later.
pub proof fn lemma_the_first_connect_counts(connected_at: u64, now: u64, again: u64)
    ensures
        first_connect(0, now) == now,
        connected_at > 0 ==> first_connect(connected_at, now) == connected_at,
        now > 0 ==> first_connect(first_connect(connected_at, now), again) == first_connect(connected_at, now),
{
}

/// A call that connected is entered with its length: whole minutes, and the seconds beyond them in
/// two digits, which together are the time from its connecting to its end. A clock that went back
/// makes it none.
pub proof fn lemma_a_connected_call_shows_its_length(
    kind: Seq<char>,
    caller: bool,
    connected_at: u64,
    now: u64,
    minutes: nat,
    seconds: nat,
)
    requires
        connected_at > 0,
        seconds < 60,
        now >= connected_at ==> minutes * 60 + seconds == now - connected_at,
        now < connected_at ==> minutes == 0 && seconds == 0,
    ensures
        end_label(kind, caller, connected_at, now) == "📞 "@ + kind + " · "@ + decimal(minutes) + ":"@ + seq![
            digit(seconds / 10),
            digit(seconds % 10),
        ],
{
}

/// A call that never connected shows no length, whenever it is entered: one placed here was not
/// answered, any other goes by its kind.
pub proof fn lemma_an_unconnected_call_shows_no_length(kind: Seq<char>, now: u64, later: u64)
    ensures
        end_label(kind, true, 0, now) == "📞 Unanswered "@ + lowercase_of(kind),
        end_label(kind, false, 0, now) == "📞 "@ + kind,
        forall|caller: bool| #[trigger] end_label(kind, caller, 0, now) == end_label(kind, caller, 0, later),
{
}

/// What the conversation shows for each outcome.
pub proof fn lemma_what_an_entry_says(now: u64, from: String, kind: CallKind, caller: bool, connected_at: u64)
    ensures
        Label::MissedCall.shown(now) == "📞 Missed call"@,
        Label::DeclinedCall.shown(now) == "📞 Declined call"@,
        Label::CallEnded.shown(now) == "📞 Call ended"@,
        (Label::MissedGroupCall { from }).shown(now) == "📞 Missed group call from "@ + from@,
        Label::DeclinedGroupCall.shown(now) == "📞 Declined group call"@,
        Label::GroupCallEnded.shown(now) == "📞 Group call ended"@,
        Label::UnansweredGroupCall.shown(now) == "📞 Unanswered group call"@,
        (Label::Ended { kind, caller, connected_at }).shown(now) == end_label(
            if kind == CallKind::Direct {
                "Call"@
            } else {
                "Group call"@
            },
            caller,
            connected_at,
            now,
        ),
{
}

/// A call goes up once its room and its devices are there; the room is waited for first, and what
/// failed says so.
pub proof fn lemma_a_call_waits_for_its_room_and_its_devices(room: Waited, audio: Waited)
    ensures
        setup_given_up(room, audio) is None <==> room is Done && audio is Done,
        room is TimedOut ==> setup_given_up(room, audio) == Some(CallError::RoomNotJoined),
        room is Done && audio is TimedOut ==> setup_given_up(room, audio) == Some(CallError::AudioNotStarted),
        room matches Waited::Failed(text) ==> setup_given_up(room, audio) == Some(CallError::Other(text)),
        room is Done && audio is Failed ==> setup_given_up(room, audio) == Some(CallError::Other(audio->Failed_0)),
{
}

/// A room connection is no answer: media runs only where the registry says a winner is settled.
/// Where it may not run, the other end is told that it failed, unless the call had ended: every
/// device of the callee by who placed the call, else the one device it is with.
pub proof fn lemma_media_runs_for_a_settled_winner(decision: TransitionDecision, c: CallCtl)
    ensures
        media_admitted(decision) <==> decision is Applied || decision is Duplicate,
        c.caller ==> refused_media_effects(c, true)[0] == (Effect::SendTerminalEverywhere {
            username: c.peer_username,
            peer_key: c.peer_key,
            call: c.call_instance_id,
            offer: c.offer_id,
            reason: CallTerminalReason::TransportError,
        }),
        !c.caller ==> refused_media_effects(c, true)[0] == (Effect::SendTerminalToDevice {
            device_key: c.peer_device_key,
            mailbox: c.peer_reply_to_mailbox,
            call: c.call_instance_id,
            offer: c.offer_id,
            reason: CallTerminalReason::TransportError,
        }),
        c.peer_key@.len() > 0 ==> refused_media_effects(c, true)[1] == (Effect::RecordChip {
            peer_key: c.peer_key,
            label: Label::Ended { kind: CallKind::Direct, caller: c.caller, connected_at: c.connected_at },
        }) && refused_media_effects(c, false)[0] == refused_media_effects(c, true)[1],
        refused_media_effects(c, true).len() == refused_media_effects(c, false).len() + 1,
{
}

/// Who speaks for this device, and until when: the device itself, only while the vault is open.
pub proof fn lemma_the_open_account_speaks(s: Session, now: u64)
    ensures
        s.account is None ==> sender_now(s, now) == Err::<ControlSender, CallError>(CallError::Locked),
        s.account is Some ==> ({
            let sender = sender_now(s, now)->Ok_0;
            &&& sender_now(s, now) is Ok
            &&& sender.actor_device_id == s.directory.self_device_id
            &&& now + s.limits.signal_ttl_secs <= u64::MAX ==> sender.expires_at == now + s.limits.signal_ttl_secs
            &&& sender.linked_devices == s.multi_device
        }),
{
}

} // verus!
