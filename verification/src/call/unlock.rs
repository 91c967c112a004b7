//! Answers that have to wait: for the vault to open, or for a person to be vouched for.
//!
//! Two things hold an answer back. The vault may be locked, and then opening it is the check
//! that a person is there. Or the device is locked while the vault is open, and then whoever
//! holds it has to be asked for. Either way the answer is for one exact call, and its wait is
//! bounded. Nothing here stands in the way of declining.

use super::accept::later;
use super::error::CallError;
use super::handles::no_orphans;
use super::session::Session;
use super::store::{find_ring, lemma_ring_pos, ring_of, ring_pending};
use super::types::{
    CallEvent, CallPhase, CallTerminalReason, DisconnectCause, Effect, PendingRing, PendingUnlock, RingName,
};
use crate::text::{is_some_text, same};
use vstd::prelude::*;

verus! {

/// What an answer means right now.
pub enum AnswerPlan {
    /// Answer the 1:1 ring.
    Direct,
    /// Answer the group ring.
    Group,
    /// Wait, and then answer this exact call. `needs_presence` says that opening the vault is
    /// not the check that a person is there.
    Unlock { deadline: u64, call_instance_id: String, needs_presence: bool },
    /// Nothing answers to that id.
    Nothing,
}

/// What an answer is for.
pub struct AnswerTarget {
    pub call_instance_id: String,
    pub offer_id: String,
    pub group: bool,
    pub ring_handle: String,
}

/// A pending ring goes by this id: its handle, or the id it is shown under.
pub open spec fn ring_goes_by(ring: PendingRing, id: Seq<char>) -> bool {
    ring.ring_handle@ == id || (ring.presented_as matches Some(shown) && shown@ == id)
}

/// Where the first pending ring stands that goes by this id; the number of rings where none
/// does.
pub open spec fn shown_pos(rings: Seq<PendingRing>, id: Seq<char>) -> int
    decreases rings.len(),
{
    if rings.len() == 0 {
        0
    } else if ring_goes_by(rings[0], id) {
        0
    } else {
        1 + shown_pos(rings.skip(1), id)
    }
}

fn find_shown(rings: &Vec<PendingRing>, id: &str) -> (r: Option<usize>)
    ensures
        match r {
            Some(i) => i < rings@.len() && i == shown_pos(rings@, id@),
            None => shown_pos(rings@, id@) == rings@.len(),
        },
{
    let mut i: usize = 0;
    assert(rings@.skip(0) =~= rings@);
    while i < rings.len()
        invariant
            i <= rings@.len(),
            shown_pos(rings@, id@) == i + shown_pos(rings@.skip(i as int), id@),
        decreases rings.len() - i,
    {
        assert(rings@.skip(i as int)[0] == rings@[i as int]);
        if same(rings[i].ring_handle.as_str(), id) || is_some_text(&rings[i].presented_as, id) {
            return Some(i);
        }
        assert(rings@.skip(i as int).skip(1) =~= rings@.skip(i + 1));
        i = i + 1;
    }
    None
}

/// What an answer under this id is for: the 1:1 ring, the group ring, or a pending ring, in
/// this order.
pub open spec fn answer_target(s: Session, id: Seq<char>) -> Option<AnswerTarget> {
    if s.incoming is Some && s.incoming->0.ring_handle@ == id {
        Some(
            AnswerTarget {
                call_instance_id: s.incoming->0.call_instance_id,
                offer_id: s.incoming->0.offer_id,
                group: false,
                ring_handle: s.incoming->0.ring_handle,
            },
        )
    } else if s.group_incoming is Some && s.group_incoming->0.ring_handle@ == id {
        Some(
            AnswerTarget {
                call_instance_id: s.group_incoming->0.call_instance,
                offer_id: s.group_incoming->0.ring_id,
                group: true,
                ring_handle: s.group_incoming->0.ring_handle,
            },
        )
    } else if shown_pos(s.rings@, id) < s.rings@.len() {
        let ring = s.rings@[shown_pos(s.rings@, id)];
        Some(
            AnswerTarget {
                call_instance_id: ring.call_instance_id,
                offer_id: ring.offer_id,
                group: ring.group,
                ring_handle: ring.ring_handle,
            },
        )
    } else {
        None
    }
}

fn answer_target_exec(s: &Session, id: &str) -> (r: Option<AnswerTarget>)
    ensures
        r == answer_target(*s, id@),
{
    if let Some(o) = &s.incoming {
        if same(o.ring_handle.as_str(), id) {
            return Some(
                AnswerTarget {
                    call_instance_id: o.call_instance_id.clone(),
                    offer_id: o.offer_id.clone(),
                    group: false,
                    ring_handle: o.ring_handle.clone(),
                },
            );
        }
    }
    if let Some(o) = &s.group_incoming {
        if same(o.ring_handle.as_str(), id) {
            return Some(
                AnswerTarget {
                    call_instance_id: o.call_instance.clone(),
                    offer_id: o.ring_id.clone(),
                    group: true,
                    ring_handle: o.ring_handle.clone(),
                },
            );
        }
    }
    match find_shown(&s.rings, id) {
        Some(i) => {
            let ring = &s.rings[i];
            Some(
                AnswerTarget {
                    call_instance_id: ring.call_instance_id.clone(),
                    offer_id: ring.offer_id.clone(),
                    group: ring.group,
                    ring_handle: ring.ring_handle.clone(),
                },
            )
        },
        None => None,
    }
}

/// The answer was given over the lock screen of a device that asks for an unlock to answer.
pub open spec fn over_keyguard(s: Session, device_locked: bool) -> bool {
    s.prefs.require_unlock_to_answer && device_locked
}

/// A person has to be asked for: opening the vault would be no check, because it is open or
/// opens by itself.
pub open spec fn presence_needed(s: Session, device_locked: bool) -> bool {
    over_keyguard(s, device_locked) && (s.account is Some || s.prefs.auto_unlock)
}

/// Decide what an answer under this id means, and arm the wait if it has to wait. A person
/// who was vouched for before does not count for it.
pub fn answer_plan(s: &mut Session, id: &str, device_locked: bool, now: u64) -> (r: (
    AnswerPlan,
    Vec<Effect>,
))
    ensures
        match answer_target(*old(s), id@) {
            None => r.0 is Nothing && r.1@ == Seq::<Effect>::empty() && *final(s) == *old(s),
            Some(t) => if old(s).account is Some && !over_keyguard(*old(s), device_locked) {
                &&& r.0 == if t.group {
                    AnswerPlan::Group
                } else {
                    AnswerPlan::Direct
                }
                &&& r.1@ == Seq::<Effect>::empty()
                &&& *final(s) == *old(s)
            } else {
                let needs_presence = presence_needed(*old(s), device_locked);
                let deadline = later(now, old(s).limits.unlock_to_answer_secs);
                &&& r.0 == (AnswerPlan::Unlock {
                    deadline,
                    call_instance_id: t.call_instance_id,
                    needs_presence,
                })
                &&& r.1@ == seq![
                    Effect::Transition {
                        call: t.call_instance_id,
                        offer: t.offer_id,
                        phase: CallPhase::AnswerPendingUnlock,
                    },
                    Effect::SaveStore,
                ]
                &&& *final(s) == (Session {
                    pending_unlock: Some(
                        PendingUnlock {
                            call_instance_id: t.call_instance_id,
                            ring_handle: t.ring_handle,
                            group: t.group,
                            needs_presence,
                            wants_credential: false,
                            expires_at: deadline,
                        },
                    ),
                    last_presence_ok_ms: if needs_presence {
                        None
                    } else {
                        old(s).last_presence_ok_ms
                    },
                    ..*old(s)
                })
            },
        },
        no_orphans(*old(s), *final(s), r.1@),
{
    let mut out: Vec<Effect> = Vec::new();
    let t: AnswerTarget = match answer_target_exec(s, id) {
        Some(t) => t,
        None => {
            return (AnswerPlan::Nothing, out);
        },
    };
    let keyguard = s.prefs.require_unlock_to_answer && device_locked;
    if s.account.is_some() && !keyguard {
        return (
            if t.group {
                AnswerPlan::Group
            } else {
                AnswerPlan::Direct
            },
            out,
        );
    }
    let needs_presence = keyguard && (s.account.is_some() || s.prefs.auto_unlock);
    if needs_presence {
        s.last_presence_ok_ms = None;
    }
    let deadline: u64 = now.saturating_add(s.limits.unlock_to_answer_secs);
    out.push(
        Effect::Transition {
            call: t.call_instance_id.clone(),
            offer: t.offer_id,
            phase: CallPhase::AnswerPendingUnlock,
        },
    );
    out.push(Effect::SaveStore);
    s.pending_unlock = Some(
        PendingUnlock {
            call_instance_id: t.call_instance_id.clone(),
            ring_handle: t.ring_handle,
            group: t.group,
            needs_presence,
            wants_credential: false,
            expires_at: deadline,
        },
    );
    (AnswerPlan::Unlock { deadline, call_instance_id: t.call_instance_id, needs_presence }, out)
}

/// An answer to this call is waiting.
pub open spec fn unlock_pending(s: Session, call: Seq<char>) -> bool {
    s.pending_unlock matches Some(p) && p.call_instance_id@ == call
}

/// Give up on a waiting answer: the prompt and the ring come down on this device, under the id
/// it was shown under and under its handle. Nothing goes on the wire.
pub fn abandon_pending_unlock(s: &mut Session, call: &str, presented_as: &String) -> (out: Vec<Effect>)
    ensures
        !unlock_pending(*old(s), call@) ==> *final(s) == *old(s) && out@ == Seq::<Effect>::empty(),
        unlock_pending(*old(s), call@) ==> {
            &&& *final(s) == (Session { pending_unlock: None, ..*old(s) })
            &&& out@ == seq![
                Effect::ClearUnlockPrompt,
                Effect::CancelRing { ring: *presented_as, name: RingName::Nobody },
                Effect::CancelRing {
                    ring: old(s).pending_unlock->0.ring_handle,
                    name: RingName::Nobody,
                },
            ]
        },
        no_orphans(*old(s), *final(s), out@),
{
    let mut out: Vec<Effect> = Vec::new();
    let here = match &s.pending_unlock {
        Some(p) => same(p.call_instance_id.as_str(), call),
        None => false,
    };
    if !here {
        return out;
    }
    if let Some(p) = s.pending_unlock.take() {
        out.push(Effect::ClearUnlockPrompt);
        out.push(Effect::CancelRing { ring: presented_as.clone(), name: RingName::Nobody });
        out.push(Effect::CancelRing { ring: p.ring_handle, name: RingName::Nobody });
    }
    out
}

/// Whether this exact answer is still waiting and its time is not up.
pub fn still_pending(s: &Session, call: &str, now: u64) -> (r: bool)
    ensures
        r == (unlock_pending(*s, call@) && s.pending_unlock->0.expires_at > now),
{
    match &s.pending_unlock {
        Some(p) => same(p.call_instance_id.as_str(), call) && p.expires_at > now,
        None => false,
    }
}

/// A person was vouched for within the window, counted in whole seconds.
pub open spec fn presence_fresh(s: Session, now_ms: u64) -> bool {
    s.last_presence_ok_ms matches Some(at) && (if now_ms < at {
        0
    } else {
        (now_ms - at) / 1000
    }) < s.limits.presence_window_secs
}

/// Whether a person was vouched for recently enough to answer on it.
pub fn presence_is_fresh(s: &Session, now_ms: u64) -> (r: bool)
    ensures
        r == presence_fresh(*s, now_ms),
{
    match s.last_presence_ok_ms {
        Some(at) => {
            let elapsed: u64 = if now_ms < at {
                0
            } else {
                (now_ms - at) / 1000
            };
            elapsed < s.limits.presence_window_secs
        },
        None => false,
    }
}

/// A person was vouched for just now.
pub fn presence_vouched(s: &mut Session, now_ms: u64)
    ensures
        *final(s) == (Session { last_presence_ok_ms: Some(now_ms), ..*old(s) }),
{
    s.last_presence_ok_ms = Some(now_ms);
}

/// What came of asking the operating system to vouch for a person.
#[derive(Clone, Copy, Debug, PartialEq, Eq, Structural)]
pub enum PresenceOutcome {
    /// It did.
    Vouched,
    /// It has nothing to ask with.
    Unavailable,
    /// The check was called off or failed.
    Refused,
}

/// The operating system was asked to vouch for whoever answered. If it did, the answer goes
/// on; if it cannot, the application's own credential is asked for; if the check was refused,
/// the answer is given up.
pub fn presence_prompted(
    s: &mut Session,
    call: &str,
    presented_as: &String,
    outcome: PresenceOutcome,
    now_ms: u64,
) -> (out: Vec<Effect>)
    ensures
        match outcome {
            PresenceOutcome::Vouched => {
                &&& *final(s) == (Session { last_presence_ok_ms: Some(now_ms), ..*old(s) })
                &&& out@ == seq![Effect::ResumeUnlock]
            },
            PresenceOutcome::Unavailable => if unlock_pending(*old(s), call@) {
                &&& *final(s) == (Session {
                    pending_unlock: Some(
                        PendingUnlock { wants_credential: true, ..old(s).pending_unlock->0 },
                    ),
                    ..*old(s)
                })
                &&& out@ == seq![Effect::Emit(CallEvent::UnlockCredential)]
            } else {
                *final(s) == *old(s) && out@ == Seq::<Effect>::empty()
            },
            PresenceOutcome::Refused => if unlock_pending(*old(s), call@) {
                &&& *final(s) == (Session { pending_unlock: None, ..*old(s) })
                &&& out@ == seq![
                    Effect::ClearUnlockPrompt,
                    Effect::CancelRing { ring: *presented_as, name: RingName::Nobody },
                    Effect::CancelRing {
                        ring: old(s).pending_unlock->0.ring_handle,
                        name: RingName::Nobody,
                    },
                ]
            } else {
                *final(s) == *old(s) && out@ == Seq::<Effect>::empty()
            },
        },
        no_orphans(*old(s), *final(s), out@),
{
    match outcome {
        PresenceOutcome::Vouched => {
            presence_vouched(s, now_ms);
            let mut out: Vec<Effect> = Vec::new();
            out.push(Effect::ResumeUnlock);
            out
        },
        PresenceOutcome::Unavailable => request_app_credential(s, call),
        PresenceOutcome::Refused => abandon_pending_unlock(s, call, presented_as),
    }
}

/// Ask for the application's own credential in place of the operating system's word. The
/// request stays on record, so that an interface that appears later finds it.
pub fn request_app_credential(s: &mut Session, call: &str) -> (out: Vec<Effect>)
    ensures
        !unlock_pending(*old(s), call@) ==> *final(s) == *old(s) && out@ == Seq::<Effect>::empty(),
        unlock_pending(*old(s), call@) ==> {
            &&& *final(s) == (Session {
                pending_unlock: Some(
                    PendingUnlock { wants_credential: true, ..old(s).pending_unlock->0 },
                ),
                ..*old(s)
            })
            &&& out@ == seq![Effect::Emit(CallEvent::UnlockCredential)]
        },
        no_orphans(*old(s), *final(s), out@),
{
    let mut out: Vec<Effect> = Vec::new();
    match &mut s.pending_unlock {
        Some(p) => {
            if same(p.call_instance_id.as_str(), call) {
                p.wants_credential = true;
                out.push(Effect::Emit(CallEvent::UnlockCredential));
            }
        },
        None => {},
    }
    out
}

/// What becomes of a waiting answer.
#[derive(Clone, Copy, Debug, PartialEq, Eq, Structural)]
pub enum UnlockStep {
    /// It goes on waiting, or there is none.
    Wait,
    /// Its time is up: it is dropped, and what it left connecting with it.
    Expired,
    /// The call is over.
    Over,
    /// It is given: `group` says to which sort of ring.
    Answer { group: bool },
}

/// The ring the answer is for has arrived in a form that can be answered.
pub open spec fn ring_ready(s: Session, p: PendingUnlock) -> bool {
    if p.group {
        s.group_incoming matches Some(o) && o.call_instance@ == p.call_instance_id@
    } else {
        s.incoming matches Some(o) && o.call_instance_id@ == p.call_instance_id@
    }
}

/// What becomes of a waiting answer now. `ended` is the outcome the registry holds for its
/// call. Nothing moves while the vault is locked. A call that ended is not answered; a person
/// has to have been vouched for where that is asked; and the ring has to be there.
pub open spec fn unlock_step(
    s: Session,
    ended: Option<CallTerminalReason>,
    now: u64,
    now_ms: u64,
) -> UnlockStep {
    match s.pending_unlock {
        None => UnlockStep::Wait,
        Some(p) => if s.account is None {
            UnlockStep::Wait
        } else if p.expires_at <= now {
            UnlockStep::Expired
        } else if ended is Some {
            UnlockStep::Over
        } else if p.needs_presence && !presence_fresh(s, now_ms) {
            UnlockStep::Wait
        } else if !ring_ready(s, p) {
            UnlockStep::Wait
        } else {
            UnlockStep::Answer { group: p.group }
        },
    }
}

/// What letting a waiting answer go does: the prompt and the ring come down on this device, under
/// the id its pending ring is shown under, if it is, and under its handle.
pub open spec fn timed_out(s: Session, p: PendingUnlock) -> Seq<Effect> {
    let call = p.call_instance_id@;
    seq![Effect::ClearUnlockPrompt] + (if ring_pending(s.rings@, call) && ring_of(s.rings@, call).presented_as is Some {
        seq![
            Effect::CancelRing {
                ring: ring_of(s.rings@, call).presented_as->0,
                name: RingName::Nobody,
            },
        ]
    } else {
        Seq::empty()
    }) + seq![Effect::CancelRing { ring: p.ring_handle, name: RingName::Nobody }]
}

/// The vault opened, an offer arrived, or a person was vouched for while an answer waited: see
/// what becomes of it. An answer that is given leaves the wait; the handle says which system
/// call it is for. One whose time is up leaves nothing connecting on this device.
pub fn resume_pending_unlock(
    s: &mut Session,
    ended: Option<CallTerminalReason>,
    now: u64,
    now_ms: u64,
) -> (r: (UnlockStep, Option<String>, Vec<Effect>))
    ensures
        r.0 == unlock_step(*old(s), ended, now, now_ms),
        r.1 == if r.0 is Answer {
            Some(old(s).pending_unlock->0.ring_handle)
        } else {
            None
        },
        *final(s) == if r.0 is Wait {
            *old(s)
        } else {
            Session { pending_unlock: None, ..*old(s) }
        },
        r.2@ == match r.0 {
            UnlockStep::Wait => Seq::<Effect>::empty(),
            UnlockStep::Over => seq![
                Effect::ClearUnlockPrompt,
                Effect::EndSystemCall {
                    ring: old(s).pending_unlock->0.ring_handle,
                    cause: DisconnectCause::Local,
                },
            ],
            UnlockStep::Expired => timed_out(*old(s), old(s).pending_unlock->0),
            UnlockStep::Answer { .. } => seq![Effect::ClearUnlockPrompt],
        },
        no_orphans(*old(s), *final(s), r.2@),
{
    let mut out: Vec<Effect> = Vec::new();
    if s.account.is_none() {
        return (UnlockStep::Wait, None, out);
    }
    let fresh = presence_is_fresh(s, now_ms);
    let ghost before = *s;
    match s.pending_unlock.take() {
        None => (UnlockStep::Wait, None, out),
        Some(p) => {
            if p.expires_at <= now {
                out.push(Effect::ClearUnlockPrompt);
                if let Some(i) = find_ring(&s.rings, p.call_instance_id.as_str()) {
                    proof {
                        lemma_ring_pos(s.rings@, p.call_instance_id@);
                    }
                    if let Some(id) = &s.rings[i].presented_as {
                        out.push(Effect::CancelRing { ring: id.clone(), name: RingName::Nobody });
                    }
                }
                out.push(Effect::CancelRing { ring: p.ring_handle, name: RingName::Nobody });
                assert(out@ =~= timed_out(before, before.pending_unlock->0));
                return (UnlockStep::Expired, None, out);
            }
            if ended.is_some() {
                out.push(Effect::ClearUnlockPrompt);
                out.push(
                    Effect::EndSystemCall { ring: p.ring_handle, cause: DisconnectCause::Local },
                );
                return (UnlockStep::Over, None, out);
            }
            let ready = if p.group {
                match &s.group_incoming {
                    Some(o) => o.call_instance == p.call_instance_id,
                    None => false,
                }
            } else {
                match &s.incoming {
                    Some(o) => o.call_instance_id == p.call_instance_id,
                    None => false,
                }
            };
            if (p.needs_presence && !fresh) || !ready {
                s.pending_unlock = Some(p);
                return (UnlockStep::Wait, None, out);
            }
            out.push(Effect::ClearUnlockPrompt);
            (UnlockStep::Answer { group: p.group }, Some(p.ring_handle), out)
        },
    }
}

/// An answer that asks for a person is not given because everything else is ready: not until
/// one has been vouched for after it was armed, whatever the vault, the ring and the clock do.
/// [`answer_plan`] clears the earlier stamp when it arms such an answer.
pub proof fn lemma_readiness_alone_answers_nothing(
    s: Session,
    ended: Option<CallTerminalReason>,
    now: u64,
    now_ms: u64,
)
    requires
        s.pending_unlock matches Some(p) && p.needs_presence,
        s.last_presence_ok_ms is None,
    ensures
        !(unlock_step(s, ended, now, now_ms) is Answer),
{
}

/// A waiting answer is given to no other call than the one it was armed for, and never after
/// its deadline.
pub proof fn lemma_a_waiting_answer_is_for_its_call_alone(
    s: Session,
    ended: Option<CallTerminalReason>,
    now: u64,
    now_ms: u64,
)
    requires
        unlock_step(s, ended, now, now_ms) is Answer,
    ensures
        s.pending_unlock is Some,
        now < s.pending_unlock->0.expires_at,
        s.pending_unlock->0.group ==> s.group_incoming is Some && s.group_incoming->0.call_instance@
            == s.pending_unlock->0.call_instance_id@,
        !s.pending_unlock->0.group ==> s.incoming is Some && s.incoming->0.call_instance_id@
            == s.pending_unlock->0.call_instance_id@,
{
}

/// Once the ring a waiting answer is for has landed, nothing holds the answer back but a locked
/// vault, its deadline, the end of the call, and a person who has still to be vouched for.
pub proof fn lemma_the_awaited_ring_lets_the_answer_go(
    s: Session,
    ended: Option<CallTerminalReason>,
    now: u64,
    now_ms: u64,
)
    requires
        s.pending_unlock is Some,
        ring_ready(s, s.pending_unlock->0),
        s.account is Some,
        now < s.pending_unlock->0.expires_at,
        ended is None,
        s.pending_unlock->0.needs_presence ==> presence_fresh(s, now_ms),
    ensures
        unlock_step(s, ended, now, now_ms) == (UnlockStep::Answer { group: s.pending_unlock->0.group }),
{
}

/// Whether the application's credential may stand in for the operating system's word: only
/// while an answer waits for a person.
pub fn answer_with_app_credential(s: &Session, now: u64) -> (r: Result<(), CallError>)
    ensures
        ({
            let waiting = s.pending_unlock matches Some(p) && p.needs_presence && p.expires_at > now;
            &&& waiting ==> r is Ok
            &&& !waiting ==> r == Err::<(), CallError>(CallError::NotWaiting)
        }),
{
    let waiting = match &s.pending_unlock {
        Some(p) => p.needs_presence && p.expires_at > now,
        None => false,
    };
    if waiting {
        Ok(())
    } else {
        Err(CallError::NotWaiting)
    }
}

/// A waiting answer is given exactly when everything it waits for is there: the vault is open, its
/// time is not up, the call has not ended, a person was vouched for within the window where one is
/// asked for, and the very ring it is for can be answered. It ends with its time, and with its
/// call; it never moves while the vault is locked.
pub proof fn lemma_when_a_waiting_answer_is_given(
    s: Session,
    ended: Option<CallTerminalReason>,
    now: u64,
    now_ms: u64,
)
    requires
        s.pending_unlock is Some,
    ensures
        ({
            let p = s.pending_unlock->0;
            let vouched = s.last_presence_ok_ms is Some && (now_ms <= s.last_presence_ok_ms->0 && 0
                < s.limits.presence_window_secs || now_ms - s.last_presence_ok_ms->0 < 1000
                * s.limits.presence_window_secs && now_ms >= s.last_presence_ok_ms->0);
            let there = if p.group {
                s.group_incoming is Some && s.group_incoming->0.call_instance@ == p.call_instance_id@
            } else {
                s.incoming is Some && s.incoming->0.call_instance_id@ == p.call_instance_id@
            };
            let step = unlock_step(s, ended, now, now_ms);
            &&& s.account is None ==> step is Wait
            &&& step is Expired <==> s.account is Some && now >= p.expires_at
            &&& step is Over <==> s.account is Some && now < p.expires_at && ended is Some
            &&& step is Answer <==> s.account is Some && now < p.expires_at && ended is None && (p.needs_presence
                ==> vouched) && there
            &&& step matches UnlockStep::Answer { group } ==> group == p.group
        }),
{
}

/// No answer is given where none waits.
pub proof fn lemma_nothing_waits_nothing_is_answered(
    s: Session,
    ended: Option<CallTerminalReason>,
    now: u64,
    now_ms: u64,
)
    requires
        s.pending_unlock is None,
    ensures
        unlock_step(s, ended, now, now_ms) is Wait,
{
}

/// A person who was vouched for counts for the window and no longer, and a clock that went back
/// does not make it longer.
pub proof fn lemma_presence_lasts_for_its_window(s: Session, at: u64, now_ms: u64)
    requires
        s.last_presence_ok_ms == Some(at),
    ensures
        now_ms >= at ==> (presence_fresh(s, now_ms) <==> now_ms - at < 1000 * s.limits.presence_window_secs),
        now_ms < at ==> (presence_fresh(s, now_ms) <==> 0 < s.limits.presence_window_secs),
{
}

/// Whether a person has to be asked for: over the lock screen of a device that asks for an unlock
/// to answer, and there only where the vault is open or opens by itself.
pub proof fn lemma_when_a_person_is_asked_for(s: Session, device_locked: bool)
    ensures
        over_keyguard(s, device_locked) <==> s.prefs.require_unlock_to_answer && device_locked,
        presence_needed(s, device_locked) <==> s.prefs.require_unlock_to_answer && device_locked && (s.account is Some
            || s.prefs.auto_unlock),
        !device_locked ==> !presence_needed(s, device_locked),
{
}

/// An answer is for the ring that goes by its id: the ring of two before the group's, both before
/// a ring that only waits in the store, which may also be shown under another id. What it is for
/// is that ring's own call and offer.
pub proof fn lemma_an_answer_is_for_the_ring_of_its_id(s: Session, id: Seq<char>, i: int)
    ensures
        s.incoming matches Some(o) && o.ring_handle@ == id ==> answer_target(s, id) == Some(
            AnswerTarget {
                call_instance_id: s.incoming->0.call_instance_id,
                offer_id: s.incoming->0.offer_id,
                group: false,
                ring_handle: s.incoming->0.ring_handle,
            },
        ),
        !(s.incoming is Some && s.incoming->0.ring_handle@ == id) && s.group_incoming is Some
            && s.group_incoming->0.ring_handle@ == id ==> answer_target(s, id) == Some(
            AnswerTarget {
                call_instance_id: s.group_incoming->0.call_instance,
                offer_id: s.group_incoming->0.ring_id,
                group: true,
                ring_handle: s.group_incoming->0.ring_handle,
            },
        ),
        !(s.incoming is Some && s.incoming->0.ring_handle@ == id) && !(s.group_incoming is Some
            && s.group_incoming->0.ring_handle@ == id) && 0 <= i < s.rings@.len() && (s.rings@[i].ring_handle@ == id
            || (s.rings@[i].presented_as is Some && s.rings@[i].presented_as->0@ == id)) && (forall|j: int|
            0 <= j < i ==> (#[trigger] s.rings@[j]).ring_handle@ != id && !(s.rings@[j].presented_as is Some
                && s.rings@[j].presented_as->0@ == id)) ==> answer_target(s, id) == Some(
            AnswerTarget {
                call_instance_id: s.rings@[i].call_instance_id,
                offer_id: s.rings@[i].offer_id,
                group: s.rings@[i].group,
                ring_handle: s.rings@[i].ring_handle,
            },
        ),
        !(s.incoming is Some && s.incoming->0.ring_handle@ == id) && !(s.group_incoming is Some
            && s.group_incoming->0.ring_handle@ == id) && (forall|j: int|
            0 <= j < s.rings@.len() ==> (#[trigger] s.rings@[j]).ring_handle@ != id && !(
            s.rings@[j].presented_as is Some && s.rings@[j].presented_as->0@ == id)) ==> answer_target(s, id) is None,
{
    lemma_shown_pos(s.rings@, id);
    let at = shown_pos(s.rings@, id);
    if at < s.rings@.len() && 0 <= i < s.rings@.len() {
        assert(ring_goes_by(s.rings@[at], id));
        if at < i {
            assert(s.rings@[at].ring_handle@ == id || (s.rings@[at].presented_as is Some
                && s.rings@[at].presented_as->0@ == id));
        }
    }
}

proof fn lemma_shown_pos(rings: Seq<PendingRing>, id: Seq<char>)
    ensures
        0 <= shown_pos(rings, id) <= rings.len(),
        shown_pos(rings, id) < rings.len() ==> ring_goes_by(rings[shown_pos(rings, id)], id),
        forall|j: int| 0 <= j < shown_pos(rings, id) ==> !ring_goes_by(#[trigger] rings[j], id),
    decreases rings.len(),
{
    if rings.len() > 0 && !ring_goes_by(rings[0], id) {
        let rest = rings.skip(1);
        lemma_shown_pos(rest, id);
        assert forall|j: int| 0 <= j < shown_pos(rings, id) implies !ring_goes_by(#[trigger] rings[j], id) by {
            if j > 0 {
                assert(rings[j] == rest[j - 1]);
            }
        }
        if shown_pos(rings, id) < rings.len() {
            assert(rings[shown_pos(rings, id)] == rest[shown_pos(rest, id)]);
        }
    }
}

/// An answer whose time is up leaves nothing connecting: the prompt goes, and the ring under its
/// handle and under the id its pending ring is shown under.
pub proof fn lemma_a_late_answer_leaves_nothing_connecting(s: Session, p: PendingUnlock, i: int)
    requires
        0 <= i < s.rings@.len(),
        s.rings@[i].call_instance_id@ == p.call_instance_id@,
        forall|j: int| 0 <= j < i ==> (#[trigger] s.rings@[j]).call_instance_id@ != p.call_instance_id@,
    ensures
        timed_out(s, p)[0] == Effect::ClearUnlockPrompt,
        timed_out(s, p).last() == (Effect::CancelRing { ring: p.ring_handle, name: RingName::Nobody }),
        s.rings@[i].presented_as matches Some(id) ==> timed_out(s, p)[1] == (Effect::CancelRing {
            ring: id,
            name: RingName::Nobody,
        }),
{
    lemma_ring_pos(s.rings@, p.call_instance_id@);
}

} // verus!
