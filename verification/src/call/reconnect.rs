//! Silently resuming a 1:1 call whose media leg dropped, and giving up on one that cannot be
//! resumed.
//!
//! Of the two ends, the one whose key sorts first owns the pair: it mints a fresh room and
//! offers it, the other end waits. Whoever gives up ends the system call, because a dropped
//! call keeps its system call up in the hope of a resume.

use super::accept::later;
use super::handles::{accounts_for, lemma_one_dropped, no_orphans};
use super::session::{chip, log_call_event, Session};
use super::signal::{JoinPlan, PeerMedia, ResumePlan};
use super::types::{CallEvent, CallKind, DisconnectCause, Effect, Label, PendingReconnect, Ticket};
use crate::text::{lemma_lex_less_total, less, lex_less, same};
use vstd::prelude::*;
use vstd::utf8::{encode_utf8, encode_utf8_decode_utf8};

verus! {

/// The dropped call that was in this room is waiting to be resumed.
pub open spec fn resuming(s: Session, old_call_id: Seq<char>) -> bool {
    s.reconnect matches Some(r) && r.old_call_id@ == old_call_id
}

fn is_resuming(s: &Session, old_call_id: &str) -> (r: bool)
    ensures
        r == resuming(*s, old_call_id@),
{
    match &s.reconnect {
        Some(r) => same(r.old_call_id.as_str(), old_call_id),
        None => false,
    }
}

/// The end with key `mine` owns the pair it forms with `theirs`: its key sorts first.
pub open spec fn owns_pair(mine: Seq<char>, theirs: Seq<char>) -> bool {
    lex_less(encode_utf8(mine), encode_utf8(theirs))
}

/// Whether the end with key `mine` owns the pair.
pub fn i_own_pair(mine: &str, theirs: &str) -> (r: bool)
    ensures
        r == owns_pair(mine@, theirs@),
{
    less(mine, theirs)
}

/// Of two ends with different keys exactly one owns the pair, so a dropped leg is replaced by
/// one fresh offer and not by two or none.
pub proof fn lemma_one_end_owns_the_pair(mine: Seq<char>, theirs: Seq<char>)
    requires
        mine != theirs,
    ensures
        owns_pair(mine, theirs) <==> !owns_pair(theirs, mine),
{
    encode_utf8_decode_utf8(mine);
    encode_utf8_decode_utf8(theirs);
    lemma_lex_less_total(encode_utf8(mine), encode_utf8(theirs));
}

/// What the owner needs to make the resume offer.
pub struct ResumeOffer {
    pub call_instance_id: String,
    pub ring_handle: String,
    pub peer_username: String,
    pub peer_key: String,
    pub peer_device_key: String,
    pub peer_reply_to_mailbox: String,
    pub peer_media2: bool,
    pub connected_at: u64,
    pub caller_device_id: String,
    pub created_at: u64,
    pub ring_expires_at: u64,
    pub expires_at: u64,
}

/// This end is the one to offer a fresh room for the dropped call.
pub open spec fn owes_resume_offer(s: Session, old_call_id: Seq<char>) -> bool {
    &&& resuming(s, old_call_id)
    &&& s.account matches Some(account) && owns_pair(
        account.identity_key@,
        s.reconnect->0.peer_device_key@,
    )
}

/// The offer that resumes a dropped call.
pub open spec fn resume_offer(s: Session, now: u64) -> ResumeOffer {
    let rc = s.reconnect->0;
    ResumeOffer {
        call_instance_id: rc.call_instance_id,
        ring_handle: rc.ring_handle,
        peer_username: rc.peer_username,
        peer_key: rc.peer_key,
        peer_device_key: rc.peer_device_key,
        peer_reply_to_mailbox: rc.peer_reply_to_mailbox,
        peer_media2: rc.peer_media2,
        connected_at: rc.connected_at,
        caller_device_id: s.directory.self_device_id,
        created_at: now,
        ring_expires_at: later(now, s.limits.ring_timeout_secs),
        expires_at: later(now, s.limits.signal_ttl_secs),
    }
}

/// The grace for a late terminal outcome is over: offer a fresh room if that is this end's to
/// do. A call that has ended meanwhile, a locked vault, or a peer that owns the pair leave
/// nothing to offer.
pub fn start_call_reconnect(s: &Session, old_call_id: &str, now: u64) -> (r: Option<ResumeOffer>)
    ensures
        r == if owes_resume_offer(*s, old_call_id@) {
            Some(resume_offer(*s, now))
        } else {
            None::<ResumeOffer>
        },
{
    if !is_resuming(s, old_call_id) {
        return None;
    }
    match (&s.reconnect, &s.account) {
        (Some(rc), Some(account)) => {
            if !i_own_pair(account.identity_key.as_str(), rc.peer_device_key.as_str()) {
                return None;
            }
            Some(
                ResumeOffer {
                    call_instance_id: rc.call_instance_id.clone(),
                    ring_handle: rc.ring_handle.clone(),
                    peer_username: rc.peer_username.clone(),
                    peer_key: rc.peer_key.clone(),
                    peer_device_key: rc.peer_device_key.clone(),
                    peer_reply_to_mailbox: rc.peer_reply_to_mailbox.clone(),
                    peer_media2: rc.peer_media2,
                    connected_at: rc.connected_at,
                    caller_device_id: s.directory.self_device_id.clone(),
                    created_at: now,
                    ring_expires_at: now.saturating_add(s.limits.ring_timeout_secs),
                    expires_at: now.saturating_add(s.limits.signal_ttl_secs),
                },
            )
        },
        _ => None,
    }
}

/// The resume offer was posted. If nothing of it got through there is no point in waiting; if
/// the call is still waiting to be resumed, the fresh room takes over, which `true` reports.
pub fn resume_offer_posted(s: &mut Session, old_call_id: &str, any_delivered: bool) -> (r: (
    bool,
    Vec<Effect>,
))
    ensures
        r.0 == (any_delivered && resuming(*old(s), old_call_id@)),
        *final(s) == if resuming(*old(s), old_call_id@) {
            Session { reconnect: None, ..*old(s) }
        } else {
            *old(s)
        },
        r.1@ == if !any_delivered && resuming(*old(s), old_call_id@) {
            give_up_effects(old(s).reconnect->0, DisconnectCause::Error)
        } else {
            Seq::<Effect>::empty()
        },
        accounts_for(
            *old(s),
            None,
            *final(s),
            if r.0 {
                Some(old(s).reconnect->0.ring_handle@)
            } else {
                None
            },
            r.1@,
        ),
{
    if !any_delivered {
        let (_, out) = give_up_reconnect(s, old_call_id, DisconnectCause::Error);
        return (false, out);
    }
    if !is_resuming(s, old_call_id) {
        return (false, Vec::new());
    }
    s.reconnect = None;
    (true, Vec::new())
}

/// The plan to join the room a resume offered.
pub open spec fn resume_join_plan(offer: ResumeOffer, offer_id: String, ticket: Ticket) -> ResumePlan {
    ResumePlan {
        join: JoinPlan {
            call_instance_id: offer.call_instance_id,
            offer_id,
            ring_handle: offer.ring_handle,
            call_id: ticket.call_id,
            key_b64: ticket.key_b64,
            peer_username: offer.peer_username,
            peer_key: offer.peer_key,
            peer_reply_to_mailbox: offer.peer_reply_to_mailbox,
            caller: true,
            peer_media: PeerMedia::Known(offer.peer_media2),
            ring_fanout: 1,
        },
        connected_at: offer.connected_at,
        peer_device_key: offer.peer_device_key,
    }
}

/// The plan to join the room a resume offered: the owner of the pair joins as the caller, and
/// the resumed session keeps the time the call first connected and the device it is with.
pub fn resume_join(offer: ResumeOffer, offer_id: String, ticket: Ticket) -> (r: ResumePlan)
    ensures
        r == resume_join_plan(offer, offer_id, ticket),
{
    ResumePlan {
        join: JoinPlan {
            call_instance_id: offer.call_instance_id,
            offer_id,
            ring_handle: offer.ring_handle,
            call_id: ticket.call_id,
            key_b64: ticket.key_b64,
            peer_username: offer.peer_username,
            peer_key: offer.peer_key,
            peer_reply_to_mailbox: offer.peer_reply_to_mailbox,
            caller: true,
            peer_media: PeerMedia::Known(offer.peer_media2),
            ring_fanout: 1,
        },
        connected_at: offer.connected_at,
        peer_device_key: offer.peer_device_key,
    }
}

/// What giving up on a resume does.
pub open spec fn give_up_effects(rc: PendingReconnect, cause: DisconnectCause) -> Seq<Effect> {
    seq![Effect::EndSystemCall { ring: rc.ring_handle, cause }] + chip(
        rc.peer_key,
        Label::Ended { kind: CallKind::Direct, caller: true, connected_at: rc.connected_at },
    ) + seq![Effect::Emit(CallEvent::Ended)]
}

/// What is given up on is given up on once: afterwards there is nothing left to resume.
pub proof fn lemma_a_resume_is_given_up_once(s: Session, old_call_id: Seq<char>)
    ensures
        !resuming(Session { reconnect: None, ..s }, old_call_id),
{
}

/// Give up on a dropped call's resume, and say whether there was one to give up on. A second
/// try finds nothing, so the system call ends once.
pub fn give_up_reconnect(s: &mut Session, old_call_id: &str, cause: DisconnectCause) -> (r: (
    bool,
    Vec<Effect>,
))
    ensures
        r.0 == resuming(*old(s), old_call_id@),
        r.0 ==> *final(s) == (Session { reconnect: None, ..*old(s) }) && r.1@ == give_up_effects(
            old(s).reconnect->0,
            cause,
        ),
        !r.0 ==> *final(s) == *old(s) && r.1@ == Seq::<Effect>::empty(),
        no_orphans(*old(s), *final(s), r.1@),
{
    let mut out: Vec<Effect> = Vec::new();
    if !is_resuming(s, old_call_id) {
        return (false, out);
    }
    if let Some(rc) = s.reconnect.take() {
        out.push(Effect::EndSystemCall { ring: rc.ring_handle, cause });
        log_call_event(
            &mut out,
            &rc.peer_key,
            Label::Ended { kind: CallKind::Direct, caller: true, connected_at: rc.connected_at },
        );
        out.push(Effect::Emit(CallEvent::Ended));
        proof {
            lemma_one_dropped(*old(s), *s, out@, 0, old(s).reconnect->0.ring_handle@);
        }
    }
    (true, out)
}

/// The resumed session in this room is up and has not connected.
pub open spec fn resumed_unconnected(s: Session, new_call_id: Seq<char>) -> bool {
    s.call matches Some(c) && c.call_id@ == new_call_id && !c.connected
}

/// Give up on a resumed session that never connected, and say whether there was one.
pub fn give_up_resumed_call(s: &mut Session, new_call_id: &str) -> (r: (bool, Vec<Effect>))
    ensures
        r.0 == resumed_unconnected(*old(s), new_call_id@),
        !r.0 ==> *final(s) == *old(s) && r.1@ == Seq::<Effect>::empty(),
        r.0 ==> {
            let c = old(s).call->0;
            &&& *final(s) == (Session { call: None, ..*old(s) })
            &&& r.1@ == seq![
                Effect::StopMedia { room: c.call_id },
                Effect::EndSystemCall { ring: c.ring_handle, cause: DisconnectCause::Remote },
            ] + chip(
                c.peer_key,
                Label::Ended {
                    kind: CallKind::Direct,
                    caller: c.caller,
                    connected_at: c.connected_at,
                },
            ) + seq![Effect::Emit(CallEvent::Ended)]
        },
        no_orphans(*old(s), *final(s), r.1@),
{
    let mut out: Vec<Effect> = Vec::new();
    let unconnected = match &s.call {
        Some(c) => same(c.call_id.as_str(), new_call_id) && !c.connected,
        None => false,
    };
    if !unconnected {
        return (false, out);
    }
    if let Some(c) = s.call.take() {
        out.push(Effect::StopMedia { room: c.call_id });
        out.push(Effect::EndSystemCall { ring: c.ring_handle, cause: DisconnectCause::Remote });
        log_call_event(
            &mut out,
            &c.peer_key,
            Label::Ended { kind: CallKind::Direct, caller: c.caller, connected_at: c.connected_at },
        );
        out.push(Effect::Emit(CallEvent::Ended));
        proof {
            lemma_one_dropped(*old(s), *s, out@, 1, old(s).call->0.ring_handle@);
        }
    }
    (true, out)
}

/// A call that cannot be resumed ends its system call, with the cause it was given up for, is
/// entered with the time it connected, and the user is told.
pub proof fn lemma_a_resume_given_up_ends_the_call(rc: PendingReconnect, cause: DisconnectCause)
    ensures
        ({
            let out = give_up_effects(rc, cause);
            &&& out[0] == (Effect::EndSystemCall { ring: rc.ring_handle, cause })
            &&& rc.peer_key@.len() > 0 ==> out[1] == (Effect::RecordChip {
                peer_key: rc.peer_key,
                label: Label::Ended { kind: CallKind::Direct, caller: true, connected_at: rc.connected_at },
            })
            &&& out.last() == Effect::Emit(CallEvent::Ended)
        }),
{
}

/// A call is being resumed by the room it lost, and a resumed session is given up on only while it
/// has not connected.
pub proof fn lemma_what_is_being_resumed(s: Session, room: Seq<char>)
    ensures
        resuming(s, room) <==> s.reconnect is Some && s.reconnect->0.old_call_id@ == room,
        resumed_unconnected(s, room) <==> s.call is Some && s.call->0.call_id@ == room && !s.call->0.connected,
{
}

} // verus!
