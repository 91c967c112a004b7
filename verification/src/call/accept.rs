//! Answering an inbound ring. An answer is a claim: media starts only once the caller has
//! named this device the winner, and the wait for that is bounded.

use super::error::CallError;
use super::handles::{accounts_for, displaced, end_displaced, lemma_displaced, lemma_one_dropped, no_orphans};
use super::session::{call_retention_secs, chip, log_call_event, retention_of, Session};
use super::types::{
    CallEvent, CallPhase, CallTerminalReason, DisconnectCause, Effect, Label, PendingClaim,
    PendingOffer,
};
use crate::text::same;
use vstd::prelude::*;

verus! {

/// A claim ready to be sent to the caller.
pub struct ClaimPlan {
    pub offer: PendingOffer,
    pub claim_nonce: String,
    pub answering_device_id: String,
    pub reply_to_mailbox: String,
    pub expires_at: u64,
}

/// Something else already holds the call slot against an answer.
pub open spec fn answer_blocked(s: Session) -> bool {
    s.call is Some || s.group_call is Some || s.claiming is Some || s.call_setup
}

/// `now` plus `secs`, at most the largest time there is.
pub open spec fn later(now: u64, secs: u64) -> u64 {
    if now + secs > u64::MAX {
        u64::MAX
    } else {
        (now + secs) as u64
    }
}

/// The system call of a ring whose answer could not be given goes with it.
pub open spec fn answer_lost(ring: String) -> Effect {
    Effect::EndSystemCall { ring, cause: DisconnectCause::Error }
}

/// Answer the ringing call: stop the ringtone and make the claim. The ring is over whether or
/// not the claim can be made, and where it cannot, so is the system call. `mailbox` is the one
/// derived for this account and device.
pub fn call_accept(
    s: &mut Session,
    claim_nonce: String,
    mailbox: Result<String, String>,
    now: u64,
) -> (r: (Result<ClaimPlan, CallError>, Vec<Effect>))
    ensures
        *final(s) == (Session { incoming: None, ..*old(s) }),
        match old(s).incoming {
            None => r.0 == Err::<ClaimPlan, CallError>(CallError::NoIncomingCall) && r.1@ == Seq::<
                Effect,
            >::empty(),
            Some(o) => {
                let accepted = seq![Effect::AcceptRing { ring: o.ring_handle }];
                let lost = accepted.push(answer_lost(o.ring_handle));
                if answer_blocked(*old(s)) {
                    r.0 == Err::<ClaimPlan, CallError>(CallError::AlreadyInACall) && r.1@ == seq![
                        answer_lost(o.ring_handle),
                    ]
                } else if old(s).client is None {
                    r.0 == Err::<ClaimPlan, CallError>(CallError::NotConfigured) && r.1@ == lost
                } else if old(s).account is None {
                    r.0 == Err::<ClaimPlan, CallError>(CallError::Locked) && r.1@ == lost
                } else {
                    match mailbox {
                        Err(text) => r.0 == Err::<ClaimPlan, CallError>(CallError::Other(text)) && r.1@
                            == lost,
                        Ok(reply_to_mailbox) => {
                            &&& r.0 == Ok::<ClaimPlan, CallError>(
                                ClaimPlan {
                                    offer: o,
                                    claim_nonce,
                                    answering_device_id: old(s).directory.self_device_id,
                                    reply_to_mailbox,
                                    expires_at: later(now, old(s).limits.signal_ttl_secs),
                                },
                            )
                            &&& r.1@ == accepted.push(
                                Effect::Transition {
                                    call: o.call_instance_id,
                                    offer: o.offer_id,
                                    phase: CallPhase::Claiming,
                                },
                            )
                        },
                    }
                }
            },
        },
        accounts_for(
            *old(s),
            None,
            *final(s),
            match r.0 {
                Ok(plan) => Some(plan.offer.ring_handle@),
                Err(_) => None,
            },
            r.1@,
        ),
{
    let mut out: Vec<Effect> = Vec::new();
    let offer: PendingOffer = match s.incoming.take() {
        Some(offer) => offer,
        None => {
            return (Err(CallError::NoIncomingCall), out);
        },
    };
    let ring: String = offer.ring_handle.clone();
    if s.call.is_some() || s.group_call.is_some() || s.claiming.is_some() || s.call_setup {
        out.push(Effect::EndSystemCall { ring, cause: DisconnectCause::Error });
        proof {
            lemma_one_dropped(*old(s), *s, out@, 0, ring@);
        }
        return (Err(CallError::AlreadyInACall), out);
    }
    out.push(Effect::AcceptRing { ring: offer.ring_handle.clone() });
    let refused: Option<CallError> = if s.client.is_none() {
        Some(CallError::NotConfigured)
    } else if s.account.is_none() {
        Some(CallError::Locked)
    } else {
        None
    };
    if let Some(error) = refused {
        out.push(Effect::EndSystemCall { ring, cause: DisconnectCause::Error });
        proof {
            lemma_one_dropped(*old(s), *s, out@, 1, ring@);
        }
        return (Err(error), out);
    }
    let reply_to_mailbox: String = match mailbox {
        Ok(mailbox) => mailbox,
        Err(text) => {
            out.push(Effect::EndSystemCall { ring, cause: DisconnectCause::Error });
            proof {
                lemma_one_dropped(*old(s), *s, out@, 1, ring@);
            }
            return (Err(CallError::Other(text)), out);
        },
    };
    out.push(
        Effect::Transition {
            call: offer.call_instance_id.clone(),
            offer: offer.offer_id.clone(),
            phase: CallPhase::Claiming,
        },
    );
    let expires_at: u64 = now.saturating_add(s.limits.signal_ttl_secs);
    let answering_device_id: String = s.directory.self_device_id.clone();
    (Ok(ClaimPlan { offer, claim_nonce, answering_device_id, reply_to_mailbox, expires_at }), out)
}

/// The handle of an answer that waits for the caller's word.
pub open spec fn waiting_handle(s: Session) -> Option<String> {
    match s.claiming {
        Some(p) => Some(p.offer.ring_handle),
        None => None,
    }
}

/// The claim went out and is saved: wait for the winner, until the claim's deadline. An answer
/// that still waited gives way.
pub fn claim_sent(s: &mut Session, plan: ClaimPlan) -> (out: Vec<Effect>)
    ensures
        *final(s) == (Session {
            claiming: Some(
                PendingClaim {
                    offer: plan.offer,
                    claim_nonce: plan.claim_nonce,
                    answering_device_id: plan.answering_device_id,
                },
            ),
            ..*old(s)
        }),
        out@ == displaced(waiting_handle(*old(s)), plan.offer.ring_handle@) + seq![
            Effect::Emit(CallEvent::Claiming),
            Effect::WatchClaim {
                claim_nonce: plan.claim_nonce,
                call: plan.offer.call_instance_id,
                deadline: plan.expires_at,
            },
        ],
        accounts_for(*old(s), Some(plan.offer.ring_handle@), *final(s), None, out@),
{
    let mut out: Vec<Effect> = Vec::new();
    let waiting: Option<String> = match s.claiming.take() {
        Some(p) => Some(p.offer.ring_handle),
        None => None,
    };
    end_displaced(&mut out, waiting, plan.offer.ring_handle.as_str());
    proof {
        lemma_displaced(waiting, plan.offer.ring_handle@);
    }
    let ghost head = out@;
    out.push(Effect::Emit(CallEvent::Claiming));
    out.push(
        Effect::WatchClaim {
            claim_nonce: plan.claim_nonce.clone(),
            call: plan.offer.call_instance_id.clone(),
            deadline: plan.expires_at,
        },
    );
    s.claiming = Some(
        PendingClaim {
            offer: plan.offer,
            claim_nonce: plan.claim_nonce,
            answering_device_id: plan.answering_device_id,
        },
    );
    assert(head.len() > 0 ==> out@[0] == head[0]);
    out
}

/// This very claim is still waiting.
pub open spec fn claim_waits(s: Session, claim_nonce: Seq<char>, call: Seq<char>) -> bool {
    s.claiming matches Some(p) && p.claim_nonce@ == claim_nonce && p.offer.call_instance_id@ == call
}

/// The winner never came. This device stops waiting; nothing goes on the wire. A claim that
/// was won, lost or ended in the meantime is left alone.
pub fn claim_timed_out(s: &mut Session, claim_nonce: &str, call: &str) -> (out: Vec<Effect>)
    ensures
        !claim_waits(*old(s), claim_nonce@, call@) ==> *final(s) == *old(s) && out@ == Seq::<
            Effect,
        >::empty(),
        claim_waits(*old(s), claim_nonce@, call@) ==> {
            let o = old(s).claiming->0.offer;
            &&& *final(s) == (Session { claiming: None, ..*old(s) })
            &&& out@ == seq![
                Effect::RecordTerminal {
                    call: o.call_instance_id,
                    offer: o.offer_id,
                    reason: CallTerminalReason::Expired,
                    retention: retention_of(*old(s)),
                },
                Effect::EndSystemCall { ring: o.ring_handle, cause: DisconnectCause::Missed },
            ] + chip(o.peer_key, Label::CallEnded) + seq![
                Effect::Emit(CallEvent::Handled { reason: CallTerminalReason::Expired }),
            ]
        },
        no_orphans(*old(s), *final(s), out@),
{
    let mut out: Vec<Effect> = Vec::new();
    let waits = match &s.claiming {
        Some(p) => same(p.claim_nonce.as_str(), claim_nonce) && same(
            p.offer.call_instance_id.as_str(),
            call,
        ),
        None => false,
    };
    if !waits {
        return out;
    }
    let retention: u64 = call_retention_secs(s);
    if let Some(p) = s.claiming.take() {
        out.push(
            Effect::RecordTerminal {
                call: p.offer.call_instance_id,
                offer: p.offer.offer_id,
                reason: CallTerminalReason::Expired,
                retention,
            },
        );
        out.push(
            Effect::EndSystemCall { ring: p.offer.ring_handle, cause: DisconnectCause::Missed },
        );
        log_call_event(&mut out, &p.offer.peer_key, Label::CallEnded);
        out.push(Effect::Emit(CallEvent::Handled { reason: CallTerminalReason::Expired }));
        proof {
            lemma_one_dropped(*old(s), *s, out@, 1, old(s).claiming->0.offer.ring_handle@);
        }
    }
    out
}

/// A deadline lies as far ahead as it is asked to, never behind, and later for whoever asks later
/// or for longer; at the end of time it stays there.
pub proof fn lemma_a_deadline_lies_ahead(now: u64, secs: u64, now2: u64, secs2: u64)
    ensures
        later(now, secs) >= now,
        now + secs <= u64::MAX ==> later(now, secs) - now == secs,
        now + secs >= u64::MAX ==> later(now, secs) == u64::MAX,
        now <= now2 && secs <= secs2 ==> later(now, secs) <= later(now2, secs2),
{
}

/// An answer needs the slot: a live call of two or of a group, another answer that waits, and a
/// call that is being set up stand in its way, and nothing else does.
pub proof fn lemma_what_stands_in_the_way_of_an_answer(s: Session)
    ensures
        s.call is Some || s.group_call is Some || s.claiming is Some || s.call_setup <==> answer_blocked(s),
        s.call is None && s.group_call is None && s.claiming is None && !s.call_setup ==> !answer_blocked(s),
{
}

/// The system call of an answer that is lost goes down, and as a fault.
pub proof fn lemma_a_lost_answer_takes_its_system_call_down(ring: String)
    ensures
        answer_lost(ring) matches Effect::EndSystemCall { ring: handle, cause } && handle == ring && cause
            == DisconnectCause::Error,
{
}

/// An answer waits only under its own nonce and for its own call.
pub proof fn lemma_an_answer_waits_under_its_nonce(s: Session, nonce: Seq<char>, call: Seq<char>)
    ensures
        s.claiming is None ==> !claim_waits(s, nonce, call) && waiting_handle(s) is None,
        s.claiming matches Some(p) ==> waiting_handle(s) == Some(p.offer.ring_handle) && (claim_waits(s, nonce, call)
            <==> p.claim_nonce@ == nonce && p.offer.call_instance_id@ == call),
{
}

} // verus!
