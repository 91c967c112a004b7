//! Inbound 1:1 signalling: offers, winners, busy reports and terminal outcomes, converged
//! with the call state this session holds, and the single cascade that ends a call whichever
//! delivery layer said so.
//!
//! Each signal is handled in the steps between which the shell consults the call registry or
//! joins a room. A step never trusts that the one before it was taken: it looks at the
//! session again.

use super::auth::{
    sender_device_verified, sender_route_verified, valid_offer_shape, verified_sender_device,
    verified_sender_route, same_peer,
};
use super::handles::{accounts_for, ends, lemma_one_dropped, no_orphans, starts_none};
use super::session::{call_retention_secs, call_slot_free, chip, log_call_event, retention_of,
    ring_title, slot_free, title_of, Session};
use super::store::{
    adoptable, adoption_effects, lemma_one_ring_out, ring_of, take_capsule_ring, take_ring_down,
    without_ring,
};
use super::types::{
    CallEvent, CallKind, CallPhase, CallTerminalReason, DisconnectCause, Effect, Label,
    OfferDecision, PendingOffer, PendingReconnect, PendingRing, ResumeDecision, RingName,
};
use crate::text::{first_chars, same};
use vstd::prelude::*;

verus! {

/// An encrypted 1:1 offer.
pub struct CallOffer {
    pub sender_identity_key: String,
    pub sender_username: String,
    pub call_instance_id: String,
    pub offer_id: String,
    pub call_id: String,
    pub key_b64: String,
    pub created_at: u64,
    pub ring_expires_at: u64,
    pub expires_at: u64,
    pub caller_device_id: String,
    pub reply_to_mailbox: String,
    pub caps: Vec<String>,
    /// The room this offer resumes; empty for a fresh ring.
    pub resume_of: String,
}

/// What the protocol layer says of an offer's parts.
pub struct OfferChecks {
    pub ids_valid: Vec<bool>,
    pub ticket_valid: bool,
    pub offer_deadline_valid: bool,
    pub signal_deadline_valid: bool,
    pub control_expiry_valid: bool,
    pub resume_of_valid: bool,
    pub device_id_valid: bool,
    /// The mailbox derived for the claimed device, where one can be.
    pub derived_mailbox: Option<String>,
}

/// Every part of the offer is well formed.
pub open spec fn shape_ok(checks: OfferChecks, ring_expires_at: u64, expires_at: u64) -> bool {
    &&& forall|i: int| 0 <= i < checks.ids_valid@.len() ==> #[trigger] checks.ids_valid@[i]
    &&& checks.ticket_valid
    &&& checks.offer_deadline_valid
    &&& checks.signal_deadline_valid
    &&& checks.control_expiry_valid
    &&& ring_expires_at <= expires_at
}

/// The offer is well formed and comes from the device it names, which is answered at the
/// mailbox it names.
pub open spec fn offer_authentic(s: Session, o: CallOffer, checks: OfferChecks) -> bool {
    &&& shape_ok(checks, o.ring_expires_at, o.expires_at)
    &&& o.resume_of@.len() == 0 || checks.resume_of_valid
    &&& sender_route_verified(
        s.directory,
        o.sender_username@,
        o.sender_identity_key@,
        o.caller_device_id@,
        checks.device_id_valid,
        checks.derived_mailbox,
        o.reply_to_mailbox@,
    )
}

/// The offer resumes the very call this session is waiting to resume, and comes from its
/// peer.
pub open spec fn resume_matches(s: Session, o: CallOffer) -> bool {
    s.reconnect matches Some(r) && r.old_call_id@ == o.resume_of@ && r.call_instance_id@
        == o.call_instance_id@ && s.directory.account_of(o.sender_identity_key@)
        == s.directory.account_of(r.peer_key@)
}

fn resume_matches_exec(s: &Session, o: &CallOffer) -> (r: bool)
    ensures
        r == resume_matches(*s, *o),
{
    match &s.reconnect {
        Some(rc) => rc.old_call_id == o.resume_of && rc.call_instance_id == o.call_instance_id && same_peer(
            &s.directory,
            o.sender_identity_key.as_str(),
            rc.peer_key.as_str(),
        ),
        None => false,
    }
}

/// What an offer is worth.
#[derive(Clone, Copy, Debug, PartialEq, Eq, Structural)]
pub enum OfferScreen {
    /// Nothing: it is dropped without a word.
    Drop,
    /// It silently resumes the dropped call.
    Resume,
    /// It may ring.
    Ring,
}

/// Decide what an offer is worth. An offer that resumes a call never rings: it resumes the
/// call it names or is dropped.
pub fn screen_call_offer(s: &Session, o: &CallOffer, checks: &OfferChecks) -> (r: OfferScreen)
    ensures
        r == if !offer_authentic(*s, *o, *checks) {
            OfferScreen::Drop
        } else if o.resume_of@.len() == 0 {
            OfferScreen::Ring
        } else if resume_matches(*s, *o) {
            OfferScreen::Resume
        } else {
            OfferScreen::Drop
        },
{
    let shape = valid_offer_shape(
        checks.ids_valid.as_slice(),
        checks.ticket_valid,
        checks.offer_deadline_valid,
        checks.signal_deadline_valid,
        checks.control_expiry_valid,
        o.ring_expires_at,
        o.expires_at,
    );
    let resuming = !o.resume_of.as_str().is_empty();
    if !shape || (resuming && !checks.resume_of_valid) || !verified_sender_route(
        &s.directory,
        o.sender_username.as_str(),
        o.sender_identity_key.as_str(),
        o.caller_device_id.as_str(),
        checks.device_id_valid,
        &checks.derived_mailbox,
        o.reply_to_mailbox.as_str(),
    ) {
        return OfferScreen::Drop;
    }
    if !resuming {
        return OfferScreen::Ring;
    }
    if resume_matches_exec(s, o) {
        OfferScreen::Resume
    } else {
        OfferScreen::Drop
    }
}

/// What is known of the peer's media when a room is joined.
pub enum PeerMedia {
    /// Whether they can do more than voice.
    Known(bool),
    /// What they said they can do, which the protocol layer reads.
    Said(Vec<String>),
}

/// What joining a room needs to know.
pub struct JoinPlan {
    pub call_instance_id: String,
    pub offer_id: String,
    pub ring_handle: String,
    pub call_id: String,
    pub key_b64: String,
    pub peer_username: String,
    pub peer_key: String,
    pub peer_reply_to_mailbox: String,
    pub caller: bool,
    pub peer_media: PeerMedia,
    pub ring_fanout: usize,
}

/// A resume this session takes part in: the room to join, and what the resumed session
/// keeps of the dropped one.
pub struct ResumePlan {
    pub join: JoinPlan,
    pub connected_at: u64,
    pub peer_device_key: String,
}

/// The plan to join a resumed room: the handle and the peer of the dropped call, the ids, room
/// and key of the offer, and what its sender said they can do.
pub open spec fn resume_plan(rc: PendingReconnect, o: CallOffer) -> ResumePlan {
    ResumePlan {
        join: JoinPlan {
            call_instance_id: o.call_instance_id,
            offer_id: o.offer_id,
            ring_handle: rc.ring_handle,
            call_id: o.call_id,
            key_b64: o.key_b64,
            peer_username: rc.peer_username,
            peer_key: rc.peer_key,
            peer_reply_to_mailbox: o.reply_to_mailbox,
            caller: false,
            peer_media: PeerMedia::Said(o.caps),
            ring_fanout: 1,
        },
        connected_at: rc.connected_at,
        peer_device_key: o.sender_identity_key,
    }
}

/// The registry let a resume through.
pub open spec fn resume_accepted(decision: ResumeDecision) -> bool {
    decision is Accepted || decision is Duplicate
}

/// What an offer that resumes a call does: one the registry let through, for the call this session
/// is waiting to resume, takes its place; any other does nothing.
pub open spec fn resume_taken_up(
    before: Session,
    o: CallOffer,
    decision: ResumeDecision,
    after: Session,
    plan: Option<ResumePlan>,
) -> bool {
    &&& resume_matches(before, o) && resume_accepted(decision) ==> after == (Session {
        reconnect: None,
        ..before
    }) && plan == Some(resume_plan(before.reconnect->0, o))
    &&& !(resume_matches(before, o) && resume_accepted(decision)) ==> after == before && plan is None
}

/// Take up a resume the registry accepted. The dropped call's state goes into the plan; the
/// resumed session takes its place.
pub fn accept_resume(
    s: &mut Session,
    o: CallOffer,
    decision: ResumeDecision,
) -> (r: Option<ResumePlan>)
    ensures
        resume_taken_up(*old(s), o, decision, *final(s), r),
        accounts_for(
            *old(s),
            None,
            *final(s),
            match r {
                Some(plan) => Some(plan.join.ring_handle@),
                None => None,
            },
            Seq::empty(),
        ),
{
    let accepted = match decision {
        ResumeDecision::Accepted => true,
        ResumeDecision::Duplicate => true,
        _ => false,
    };
    if !accepted || !resume_matches_exec(s, &o) {
        return None;
    }
    match s.reconnect.take() {
        Some(rc) => Some(
            ResumePlan {
                join: JoinPlan {
                    call_instance_id: o.call_instance_id,
                    offer_id: o.offer_id,
                    ring_handle: rc.ring_handle,
                    call_id: o.call_id,
                    key_b64: o.key_b64,
                    peer_username: rc.peer_username,
                    peer_key: rc.peer_key,
                    peer_reply_to_mailbox: o.reply_to_mailbox,
                    caller: false,
                    peer_media: PeerMedia::Said(o.caps),
                    ring_fanout: 1,
                },
                connected_at: rc.connected_at,
                peer_device_key: o.sender_identity_key,
            },
        ),
        None => None,
    }
}

/// The resumed room did not come up: the call is over, and the system call the dropped leg
/// was holding open goes with it.
pub fn resume_failed(
    ring_handle: &String,
    peer_key: &String,
    caller: bool,
    connected_at: u64,
) -> (out: Vec<Effect>)
    ensures
        out@ == seq![
            Effect::EndSystemCall { ring: *ring_handle, cause: DisconnectCause::Error },
        ] + chip(*peer_key, Label::Ended { kind: CallKind::Direct, caller, connected_at })
            + seq![Effect::Emit(CallEvent::Ended)],
        forall|s: Session| #[trigger] accounts_for(s, Some(ring_handle@), s, None, out@),
{
    let mut out: Vec<Effect> = Vec::new();
    out.push(Effect::EndSystemCall { ring: ring_handle.clone(), cause: DisconnectCause::Error });
    log_call_event(&mut out, peer_key, Label::Ended { kind: CallKind::Direct, caller, connected_at });
    out.push(Effect::Emit(CallEvent::Ended));
    assert(out@ =~= seq![
        Effect::EndSystemCall { ring: *ring_handle, cause: DisconnectCause::Error },
    ] + chip(*peer_key, Label::Ended { kind: CallKind::Direct, caller, connected_at })
        + seq![Effect::Emit(CallEvent::Ended)]);
    assert(ends(out@[0], ring_handle@));
    out
}

/// The live call is in this room.
pub open spec fn call_in_room(s: Session, call_id: Seq<char>) -> bool {
    s.call matches Some(c) && c.call_id@ == call_id
}

/// The live call in this room takes over the time the dropped call connected and the device it was
/// with; nothing else changes.
pub open spec fn resume_carried_on(
    before: Session,
    call_id: Seq<char>,
    connected_at: u64,
    peer_device_key: String,
    after: Session,
) -> bool {
    after == if call_in_room(before, call_id) {
        Session {
            call: Some(super::types::CallCtl { connected_at, peer_device_key, ..before.call->0 }),
            ..before
        }
    } else {
        before
    }
}

/// The resumed room is up: the session keeps the time the call first connected and the
/// device it is with, and is given up on if it does not connect in time.
pub fn resume_joined(
    s: &mut Session,
    call_id: &String,
    connected_at: u64,
    peer_device_key: String,
) -> (out: Vec<Effect>)
    ensures
        out@ == seq![Effect::WatchResumed { call_id: *call_id }],
        resume_carried_on(*old(s), call_id@, connected_at, peer_device_key, *final(s)),
        no_orphans(*old(s), *final(s), out@),
{
    let mut out: Vec<Effect> = Vec::new();
    match &mut s.call {
        Some(c) => {
            if c.call_id == *call_id {
                c.connected_at = connected_at;
                c.peer_device_key = peer_device_key;
            }
        },
        None => {},
    }
    out.push(Effect::WatchResumed { call_id: call_id.clone() });
    out
}

/// The name a caller is shown under: the one the offer carries, else the one known for the
/// key, else the key's first characters.
pub open spec fn caller_name(s: Session, sender_username: Seq<char>, key: Seq<char>) -> Seq<char> {
    if sender_username.len() > 0 {
        sender_username
    } else {
        match s.directory.name_of(key) {
            Some(name) => name@,
            None => key.take(if 8 < key.len() {
                8
            } else {
                key.len() as int
            }),
        }
    }
}

/// The name a caller is shown under.
pub fn name_caller(s: &Session, sender_username: &String, key: &String) -> (r: String)
    ensures
        r@ == caller_name(*s, sender_username@, key@),
{
    if !sender_username.as_str().is_empty() {
        return sender_username.clone();
    }
    match s.directory.username_for_peer(key.as_str()) {
        Some(name) => name,
        None => first_chars(key.as_str(), 8),
    }
}

/// The registry lets this offer ring: it is new, or it is the encrypted half of a ring a
/// capsule announced.
pub open spec fn may_ring(s: Session, call: Seq<char>, offer: Seq<char>, decision: OfferDecision) -> bool {
    decision is Ring || (decision is Duplicate && adoptable(s, call, offer))
}

/// The handle a ring goes by: the announced ring's, or the fresh one.
pub open spec fn ring_handle_for(s: Session, call: Seq<char>, offer: Seq<char>, fresh: String) -> String {
    if adoptable(s, call, offer) {
        ring_of(s.rings@, call).ring_handle
    } else {
        fresh
    }
}

/// An answer is waiting for exactly this call.
pub open spec fn unlock_waits_for(s: Session, call: Seq<char>) -> bool {
    s.pending_unlock matches Some(p) && p.call_instance_id@ == call
}

/// Whether an answer is waiting for exactly this call.
pub fn resume_unlock_for(s: &Session, call: &str) -> (r: bool)
    ensures
        r == unlock_waits_for(*s, call@),
{
    match &s.pending_unlock {
        Some(p) => same(p.call_instance_id.as_str(), call),
        None => false,
    }
}

/// Whether the pending inbound ring is for this call.
pub open spec fn incoming_is(s: Session, call: Seq<char>) -> bool {
    s.incoming matches Some(o) && o.call_instance_id@ == call
}

/// Whether the answered ring is for this call.
pub open spec fn claiming_is(s: Session, call: Seq<char>) -> bool {
    s.claiming matches Some(p) && p.offer.call_instance_id@ == call
}

/// Whether the live call is this call.
pub open spec fn call_is(s: Session, call: Seq<char>) -> bool {
    s.call matches Some(c) && c.call_instance_id@ == call
}

/// Whether the call being resumed is this call.
pub open spec fn reconnect_is(s: Session, call: Seq<char>) -> bool {
    s.reconnect matches Some(r) && r.call_instance_id@ == call
}

pub fn is_incoming(s: &Session, call: &str) -> (r: bool)
    ensures
        r == incoming_is(*s, call@),
{
    match &s.incoming {
        Some(o) => same(o.call_instance_id.as_str(), call),
        None => false,
    }
}

pub fn is_claiming(s: &Session, call: &str) -> (r: bool)
    ensures
        r == claiming_is(*s, call@),
{
    match &s.claiming {
        Some(p) => same(p.offer.call_instance_id.as_str(), call),
        None => false,
    }
}

pub fn is_call(s: &Session, call: &str) -> (r: bool)
    ensures
        r == call_is(*s, call@),
{
    match &s.call {
        Some(c) => same(c.call_instance_id.as_str(), call),
        None => false,
    }
}

pub fn is_reconnect(s: &Session, call: &str) -> (r: bool)
    ensures
        r == reconnect_is(*s, call@),
{
    match &s.reconnect {
        Some(r) => same(r.call_instance_id.as_str(), call),
        None => false,
    }
}

/// The session after a pending ring the offer names has been taken over.
pub open spec fn rings_after_adoption(s: Session, call: Seq<char>, offer: Seq<char>) -> Seq<super::types::PendingRing> {
    if adoptable(s, call, offer) {
        without_ring(s.rings@, call)
    } else {
        s.rings@
    }
}

/// What an offer the registry has decided on does.
pub open spec fn call_offer_received(
    before: Session,
    o: CallOffer,
    decision: OfferDecision,
    fresh_handle: String,
    on_screen: bool,
    after: Session,
    out: Seq<Effect>,
) -> bool {
    let rings = may_ring(before, o.call_instance_id@, o.offer_id@, decision);
    let blocked = before.directory.blocks(o.sender_identity_key@);
    let store = adoption_effects(
        before,
        o.call_instance_id@,
        o.offer_id@,
        rings && !blocked && slot_free(before),
    );
    &&& after.rings@ == rings_after_adoption(before, o.call_instance_id@, o.offer_id@)
    &&& if !rings {
        &&& after == (Session { rings: after.rings, ..before })
        &&& out =~= store
    } else if blocked || !slot_free(before) {
        &&& after == (Session { rings: after.rings, ..before })
        &&& out =~= store + seq![
            if blocked {
                Effect::SendTerminalToDevice {
                    device_key: o.sender_identity_key,
                    mailbox: o.reply_to_mailbox,
                    call: o.call_instance_id,
                    offer: o.offer_id,
                    reason: CallTerminalReason::DeclinedHere,
                }
            } else {
                Effect::SendBusy {
                    device_key: o.sender_identity_key,
                    mailbox: o.reply_to_mailbox,
                    call: o.call_instance_id,
                    offer: o.offer_id,
                }
            },
            Effect::Persist,
        ]
    } else {
        let username = after.incoming->0.username;
        let handle = ring_handle_for(before, o.call_instance_id@, o.offer_id@, fresh_handle);
        let name = title_of(before, username);
        &&& after == (Session {
            rings: after.rings,
            incoming: Some(
                PendingOffer {
                    call_instance_id: o.call_instance_id,
                    offer_id: o.offer_id,
                    ring_handle: handle,
                    call_id: o.call_id,
                    key_b64: o.key_b64,
                    username,
                    peer_key: o.sender_identity_key,
                    caller_device_id: o.caller_device_id,
                    caller_reply_to_mailbox: o.reply_to_mailbox,
                    expires_at: o.expires_at,
                    caps: o.caps,
                },
            ),
            ..before
        })
        &&& username@ == caller_name(before, o.sender_username@, o.sender_identity_key@)
        &&& out =~= store + seq![
            Effect::Emit(CallEvent::Incoming { username }),
            Effect::StartSystemCall { ring: handle, name, video: false, incoming: true },
        ] + (if on_screen {
            Seq::<Effect>::empty()
        } else {
            seq![Effect::ShowRing { ring: handle, name, group: false }]
        }) + (if unlock_waits_for(before, o.call_instance_id@) {
            seq![Effect::ResumeUnlock]
        } else {
            Seq::<Effect>::empty()
        }) + seq![
            Effect::WatchRing { call: o.call_instance_id, name, deadline: o.ring_expires_at },
        ]
    }
}

/// The registry's decision on an offer is in: ring, or refuse.
///
/// The announced ring for this offer is taken over whatever the decision is, and comes down
/// where the offer does not ring. A blocked caller is declined; a caller who finds this device
/// busy is told so; anyone else rings.
pub fn receive_call_offer(
    s: &mut Session,
    o: CallOffer,
    decision: OfferDecision,
    fresh_handle: String,
    on_screen: bool,
) -> (out: Vec<Effect>)
    ensures
        call_offer_received(*old(s), o, decision, fresh_handle, on_screen, *final(s), out@),
        no_orphans(*old(s), *final(s), out@),
{
    let mut out: Vec<Effect> = Vec::new();
    let adopted: Option<PendingRing> = take_capsule_ring(
        s,
        o.call_instance_id.as_str(),
        o.offer_id.as_str(),
    );
    if adopted.is_some() {
        out.push(Effect::SaveStore);
    }
    let ghost call = o.call_instance_id@;
    let ghost offer = o.offer_id@;
    proof {
        if adoptable(*old(s), call, offer) {
            lemma_one_ring_out(old(s).rings@, call);
        }
    }
    let rings = match decision {
        OfferDecision::Ring => true,
        OfferDecision::Duplicate => adopted.is_some(),
        _ => false,
    };
    let blocked = s.directory.peer_blocked(o.sender_identity_key.as_str());
    if !rings || !call_slot_free(s) || blocked {
        if let Some(ring) = adopted {
            take_ring_down(&mut out, ring);
        }
        let ghost store = out@;
        proof {
            assert(store =~= adoption_effects(*old(s), call, offer, false));
            if adoptable(*old(s), call, offer) {
                assert(ends(store[store.len() - 1], ring_of(old(s).rings@, call).ring_handle@));
            }
        }
        if !rings {
            return out;
        }
        if blocked {
            out.push(
                Effect::SendTerminalToDevice {
                    device_key: o.sender_identity_key,
                    mailbox: o.reply_to_mailbox,
                    call: o.call_instance_id,
                    offer: o.offer_id,
                    reason: CallTerminalReason::DeclinedHere,
                },
            );
        } else {
            out.push(
                Effect::SendBusy {
                    device_key: o.sender_identity_key,
                    mailbox: o.reply_to_mailbox,
                    call: o.call_instance_id,
                    offer: o.offer_id,
                },
            );
        }
        out.push(Effect::Persist);
        proof {
            if adoptable(*old(s), call, offer) {
                assert(out@[store.len() - 1] == store[store.len() - 1]);
            }
        }
        return out;
    }
    let ring_handle: String = match adopted {
        Some(ring) => ring.ring_handle,
        None => fresh_handle,
    };
    let username: String = name_caller(s, &o.sender_username, &o.sender_identity_key);
    let name: RingName = ring_title(s, &username);
    let waiting = resume_unlock_for(s, o.call_instance_id.as_str());
    out.push(Effect::Emit(CallEvent::Incoming { username: username.clone() }));
    out.push(
        Effect::StartSystemCall {
            ring: ring_handle.clone(),
            name: name.clone(),
            video: false,
            incoming: true,
        },
    );
    if !on_screen {
        out.push(Effect::ShowRing { ring: ring_handle.clone(), name: name.clone(), group: false });
    }
    if waiting {
        out.push(Effect::ResumeUnlock);
    }
    out.push(
        Effect::WatchRing { call: o.call_instance_id.clone(), name, deadline: o.ring_expires_at },
    );
    s.incoming = Some(
        PendingOffer {
            call_instance_id: o.call_instance_id,
            offer_id: o.offer_id,
            ring_handle,
            call_id: o.call_id,
            key_b64: o.key_b64,
            username,
            peer_key: o.sender_identity_key,
            caller_device_id: o.caller_device_id,
            caller_reply_to_mailbox: o.reply_to_mailbox,
            expires_at: o.expires_at,
            caps: o.caps,
        },
    );
    out
}

/// An unanswered ring reached its deadline: it is missed. A ring that was answered, ended or
/// replaced is left alone.
pub fn ring_expired(s: &mut Session, call: &str, name: RingName) -> (out: Vec<Effect>)
    ensures
        !incoming_is(*old(s), call@) ==> *final(s) == *old(s) && out@ == Seq::<Effect>::empty(),
        incoming_is(*old(s), call@) ==> {
            let o = old(s).incoming->0;
            &&& *final(s) == (Session { incoming: None, ..*old(s) })
            &&& out@ == seq![
                Effect::CancelRing { ring: o.ring_handle, name },
                Effect::RecordTerminal {
                    call: o.call_instance_id,
                    offer: o.offer_id,
                    reason: CallTerminalReason::Expired,
                    retention: retention_of(*old(s)),
                },
            ] + chip(o.peer_key, Label::MissedCall) + seq![Effect::Emit(CallEvent::Missed)]
        },
        no_orphans(*old(s), *final(s), out@),
{
    let mut out: Vec<Effect> = Vec::new();
    if !is_incoming(s, call) {
        return out;
    }
    let retention: u64 = call_retention_secs(s);
    if let Some(o) = s.incoming.take() {
        out.push(Effect::CancelRing { ring: o.ring_handle, name });
        out.push(
            Effect::RecordTerminal {
                call: o.call_instance_id,
                offer: o.offer_id,
                reason: CallTerminalReason::Expired,
                retention,
            },
        );
        log_call_event(&mut out, &o.peer_key, Label::MissedCall);
        out.push(Effect::Emit(CallEvent::Missed));
        proof {
            lemma_one_dropped(*old(s), *s, out@, 0, old(s).incoming->0.ring_handle@);
        }
    }
    out
}

/// The caller's word on which device answered.
pub struct CallWinner {
    pub sender_identity_key: String,
    pub call_instance_id: String,
    pub offer_id: String,
    pub claim_nonce: String,
    pub winner_device_id: String,
}

/// The ring a winner message can be about: the answered one if there is one, else the one
/// still ringing.
pub open spec fn winner_origin(s: Session) -> Option<PendingOffer> {
    match s.claiming {
        Some(p) => Some(p.offer),
        None => s.incoming,
    }
}

/// The device whose word a winner message is: the caller's, by the ring this session holds. It is
/// this id that has to be valid for the message to count.
pub fn winner_caller_device(s: &Session) -> (r: Option<String>)
    ensures
        r == match winner_origin(*s) {
            Some(o) => Some(o.caller_device_id),
            None => None,
        },
{
    match &s.claiming {
        Some(p) => Some(p.offer.caller_device_id.clone()),
        None => match &s.incoming {
            Some(o) => Some(o.caller_device_id.clone()),
            None => None,
        },
    }
}

/// The winner message is the caller's own word on the ring this session holds. `device_id_valid`
/// is said of the caller's device.
pub open spec fn winner_authentic(
    s: Session,
    w: CallWinner,
    control_expiry_valid: bool,
    device_id_valid: bool,
    now: u64,
) -> bool {
    &&& control_expiry_valid
    &&& winner_origin(s) matches Some(o) && {
        &&& o.call_instance_id@ == w.call_instance_id@
        &&& o.offer_id@ == w.offer_id@
        &&& o.peer_key@ == w.sender_identity_key@
        &&& o.expires_at >= now
        &&& sender_device_verified(
            s.directory,
            o.username@,
            w.sender_identity_key@,
            o.caller_device_id@,
            device_id_valid,
        )
    }
}

fn winner_authentic_exec(
    s: &Session,
    w: &CallWinner,
    control_expiry_valid: bool,
    device_id_valid: bool,
    now: u64,
) -> (r: bool)
    ensures
        r == winner_authentic(*s, *w, control_expiry_valid, device_id_valid, now),
{
    if !control_expiry_valid {
        return false;
    }
    let origin: Option<&PendingOffer> = match &s.claiming {
        Some(p) => Some(&p.offer),
        None => match &s.incoming {
            Some(o) => Some(o),
            None => None,
        },
    };
    match origin {
        Some(o) => o.call_instance_id == w.call_instance_id && o.offer_id == w.offer_id && o.peer_key
            == w.sender_identity_key && o.expires_at >= now && verified_sender_device(
            &s.directory,
            o.username.as_str(),
            w.sender_identity_key.as_str(),
            o.caller_device_id.as_str(),
            device_id_valid,
        ),
        None => false,
    }
}

/// The claim this session sent is the one the winner message names.
pub open spec fn claim_won(s: Session, w: CallWinner, now: u64) -> bool {
    s.claiming matches Some(p) && {
        &&& p.offer.call_instance_id@ == w.call_instance_id@
        &&& p.offer.offer_id@ == w.offer_id@
        &&& p.offer.peer_key@ == w.sender_identity_key@
        &&& p.claim_nonce@ == w.claim_nonce@
        &&& p.answering_device_id@ == w.winner_device_id@
        &&& p.offer.expires_at >= now
    }
}

/// What a winner message means here.
pub enum WinnerStep {
    /// Nothing.
    Ignore,
    /// This device answered first: join the room.
    Join(JoinPlan),
    /// Another device answered.
    Lost,
}

/// The plan to join the room of a ring this device won. What the caller can do, they said in the
/// offer.
pub open spec fn won_plan(o: PendingOffer) -> JoinPlan {
    JoinPlan {
        call_instance_id: o.call_instance_id,
        offer_id: o.offer_id,
        ring_handle: o.ring_handle,
        call_id: o.call_id,
        key_b64: o.key_b64,
        peer_username: o.username,
        peer_key: o.peer_key,
        peer_reply_to_mailbox: o.caller_reply_to_mailbox,
        caller: false,
        peer_media: PeerMedia::Said(o.caps),
        ring_fanout: 1,
    }
}

/// The effects of learning that another device answered.
pub open spec fn lost_effects(s: Session, w: CallWinner) -> Seq<Effect> {
    (if claiming_is(s, w.call_instance_id@) {
        seq![
            Effect::EndSystemCall {
                ring: s.claiming->0.offer.ring_handle,
                cause: DisconnectCause::AnsweredElsewhere,
            },
        ]
    } else {
        Seq::empty()
    }) + seq![
        Effect::RecordTerminal {
            call: w.call_instance_id,
            offer: w.offer_id,
            reason: CallTerminalReason::AnsweredElsewhere,
            retention: retention_of(s),
        },
    ] + (if incoming_is(s, w.call_instance_id@) {
        seq![Effect::CancelRing { ring: s.incoming->0.ring_handle, name: RingName::Nobody }]
    } else {
        Seq::empty()
    }) + seq![
        Effect::Emit(CallEvent::Handled { reason: CallTerminalReason::AnsweredElsewhere }),
    ]
}

/// The caller named a winner. If it is this device and the exact claim it sent, the room is
/// joined; if it is another device, every ring this session holds for the call comes down.
pub fn receive_call_winner(
    s: &mut Session,
    w: CallWinner,
    control_expiry_valid: bool,
    device_id_valid: bool,
    now: u64,
) -> (r: (WinnerStep, Vec<Effect>))
    ensures
        ({
            let authentic = winner_authentic(*old(s), w, control_expiry_valid, device_id_valid, now);
            let mine = w.winner_device_id@ == old(s).directory.self_device_id@;
            if !authentic || (mine && !claim_won(*old(s), w, now)) {
                &&& *final(s) == *old(s)
                &&& r.0 is Ignore
                &&& r.1@ == Seq::<Effect>::empty()
            } else if mine {
                &&& *final(s) == (Session { claiming: None, ..*old(s) })
                &&& r.0 == WinnerStep::Join(won_plan(old(s).claiming->0.offer))
                &&& r.1@ == seq![
                    Effect::Transition {
                        call: w.call_instance_id,
                        offer: w.offer_id,
                        phase: CallPhase::Winner,
                    },
                ]
            } else {
                &&& *final(s) == (Session {
                    incoming: if incoming_is(*old(s), w.call_instance_id@) {
                        None
                    } else {
                        old(s).incoming
                    },
                    claiming: if claiming_is(*old(s), w.call_instance_id@) {
                        None
                    } else {
                        old(s).claiming
                    },
                    ..*old(s)
                })
                &&& r.0 is Lost
                &&& r.1@ == lost_effects(*old(s), w)
            }
        }),
        accounts_for(
            *old(s),
            None,
            *final(s),
            match r.0 {
                WinnerStep::Join(plan) => Some(plan.ring_handle@),
                _ => None,
            },
            r.1@,
        ),
{
    let mut out: Vec<Effect> = Vec::new();
    if !winner_authentic_exec(s, &w, control_expiry_valid, device_id_valid, now) {
        return (WinnerStep::Ignore, out);
    }
    if w.winner_device_id == s.directory.self_device_id {
        let won = match &s.claiming {
            Some(p) => p.offer.call_instance_id == w.call_instance_id && p.offer.offer_id == w.offer_id
                && p.offer.peer_key == w.sender_identity_key && p.claim_nonce == w.claim_nonce
                && p.answering_device_id == w.winner_device_id && p.offer.expires_at >= now,
            None => false,
        };
        if !won {
            return (WinnerStep::Ignore, out);
        }
        match s.claiming.take() {
            Some(p) => {
                let o: PendingOffer = p.offer;
                out.push(
                    Effect::Transition {
                        call: w.call_instance_id,
                        offer: w.offer_id,
                        phase: CallPhase::Winner,
                    },
                );
                return (
                    WinnerStep::Join(
                        JoinPlan {
                            call_instance_id: o.call_instance_id,
                            offer_id: o.offer_id,
                            ring_handle: o.ring_handle,
                            call_id: o.call_id,
                            key_b64: o.key_b64,
                            peer_username: o.username,
                            peer_key: o.peer_key,
                            peer_reply_to_mailbox: o.caller_reply_to_mailbox,
                            caller: false,
                            peer_media: PeerMedia::Said(o.caps),
                            ring_fanout: 1,
                        },
                    ),
                    out,
                );
            },
            None => {
                return (WinnerStep::Ignore, out);
            },
        }
    }
    let retention: u64 = call_retention_secs(s);
    let mut cancelled: Option<String> = None;
    if is_incoming(s, w.call_instance_id.as_str()) {
        if let Some(o) = s.incoming.take() {
            cancelled = Some(o.ring_handle);
        }
    }
    if is_claiming(s, w.call_instance_id.as_str()) {
        if let Some(p) = s.claiming.take() {
            out.push(
                Effect::EndSystemCall {
                    ring: p.offer.ring_handle,
                    cause: DisconnectCause::AnsweredElsewhere,
                },
            );
        }
    }
    out.push(
        Effect::RecordTerminal {
            call: w.call_instance_id,
            offer: w.offer_id,
            reason: CallTerminalReason::AnsweredElsewhere,
            retention,
        },
    );
    if let Some(ring) = cancelled {
        out.push(Effect::CancelRing { ring, name: RingName::Nobody });
    }
    out.push(Effect::Emit(CallEvent::Handled { reason: CallTerminalReason::AnsweredElsewhere }));
    assert(out@ =~= lost_effects(*old(s), w));
    proof {
        if claiming_is(*old(s), w.call_instance_id@) {
            assert(ends(out@[0], old(s).claiming->0.offer.ring_handle@));
        }
        if incoming_is(*old(s), w.call_instance_id@) {
            assert(ends(out@[out@.len() - 2], old(s).incoming->0.ring_handle@));
        }
    }
    (WinnerStep::Lost, out)
}

/// This device won and could not bring the call up: the caller is told, and the system call
/// the ring created goes with the attempt.
pub fn won_call_failed(
    s: &Session,
    call: &String,
    offer: &String,
    ring_handle: &String,
    caller_key: &String,
    caller_mailbox: &String,
) -> (out: Vec<Effect>)
    ensures
        out@ == seq![
            Effect::RecordTerminal {
                call: *call,
                offer: *offer,
                reason: CallTerminalReason::TransportError,
                retention: retention_of(*s),
            },
            Effect::SendTerminalToDevice {
                device_key: *caller_key,
                mailbox: *caller_mailbox,
                call: *call,
                offer: *offer,
                reason: CallTerminalReason::TransportError,
            },
            Effect::EndSystemCall { ring: *ring_handle, cause: DisconnectCause::Error },
            Effect::Emit(CallEvent::Ended),
        ],
        accounts_for(*s, Some(ring_handle@), *s, None, out@),
{
    let mut out: Vec<Effect> = Vec::new();
    out.push(
        Effect::RecordTerminal {
            call: call.clone(),
            offer: offer.clone(),
            reason: CallTerminalReason::TransportError,
            retention: call_retention_secs(s),
        },
    );
    out.push(
        Effect::SendTerminalToDevice {
            device_key: caller_key.clone(),
            mailbox: caller_mailbox.clone(),
            call: call.clone(),
            offer: offer.clone(),
            reason: CallTerminalReason::TransportError,
        },
    );
    out.push(Effect::EndSystemCall { ring: ring_handle.clone(), cause: DisconnectCause::Error });
    out.push(Effect::Emit(CallEvent::Ended));
    assert(ends(out@[2], ring_handle@));
    out
}

/// This device won and the room is up: its siblings are told to stop ringing.
pub fn won_call_joined(call: &String, offer: &String) -> (out: Vec<Effect>)
    ensures
        out@ == seq![
            Effect::Emit(CallEvent::Accepted),
            Effect::SelfSyncTerminal {
                call: *call,
                offer: *offer,
                reason: CallTerminalReason::AnsweredElsewhere,
            },
        ],
        starts_none(out@),
{
    let mut out: Vec<Effect> = Vec::new();
    out.push(Effect::Emit(CallEvent::Accepted));
    out.push(
        Effect::SelfSyncTerminal {
            call: call.clone(),
            offer: offer.clone(),
            reason: CallTerminalReason::AnsweredElsewhere,
        },
    );
    out
}

/// The device the caller names joins the room of the ring it answered, as the answering end, with
/// the key, handle and peer of that ring; the ring is answered in time, and what the caller can do
/// is what they said in the offer. The caller's device is on their roster.
pub proof fn lemma_the_winner_joins_the_room_it_answered(s: Session, w: CallWinner, now: u64, at: int)
    requires
        s.claiming is Some,
        ({
            let p = s.claiming->0;
            let o = p.offer;
            &&& w.call_instance_id@ == o.call_instance_id@
            &&& w.offer_id@ == o.offer_id@
            &&& w.sender_identity_key@ == o.peer_key@
            &&& w.claim_nonce@ == p.claim_nonce@
            &&& w.winner_device_id@ == p.answering_device_id@
            &&& now <= o.expires_at
            &&& o.username@.len() > 0
            &&& s.directory.rosters@.dom().contains(o.username@)
            &&& 0 <= at < s.directory.rosters@[o.username@]@.len()
            &&& s.directory.rosters@[o.username@]@[at].device_id@ == o.caller_device_id@
            &&& s.directory.rosters@[o.username@]@[at].identity_key@ == o.peer_key@
        }),
    ensures
        winner_authentic(s, w, true, true, now),
        claim_won(s, w, now),
        ({
            let o = s.claiming->0.offer;
            let plan = won_plan(o);
            &&& plan.call_id == o.call_id
            &&& plan.key_b64 == o.key_b64
            &&& plan.call_instance_id == o.call_instance_id
            &&& plan.offer_id == o.offer_id
            &&& plan.ring_handle == o.ring_handle
            &&& plan.peer_username == o.username
            &&& plan.peer_key == o.peer_key
            &&& plan.peer_reply_to_mailbox == o.caller_reply_to_mailbox
            &&& !plan.caller
            &&& plan.peer_media == PeerMedia::Said(o.caps)
        }),
{
}

/// Nobody but the caller's own device names a winner, in time and for the very ring `o` this session
/// answered or still rings for; and nobody wins with a claim that is not the one this device sent.
pub proof fn lemma_only_the_caller_names_a_winner(
    s: Session,
    w: CallWinner,
    control_expiry_valid: bool,
    device_id_valid: bool,
    now: u64,
    o: PendingOffer,
)
    requires
        s.claiming is Some ==> o == s.claiming->0.offer,
        s.claiming is None && s.incoming is Some ==> o == s.incoming->0,
    ensures
        winner_authentic(s, w, control_expiry_valid, device_id_valid, now) ==> ({
            &&& control_expiry_valid
            &&& device_id_valid
            &&& s.claiming is Some || s.incoming is Some
            &&& w.call_instance_id@ == o.call_instance_id@
            &&& w.offer_id@ == o.offer_id@
            &&& w.sender_identity_key@ == o.peer_key@
            &&& now <= o.expires_at
            &&& s.directory.rosters@.dom().contains(o.username@) ==> exists|i: int|
                0 <= i < s.directory.rosters@[o.username@]@.len() && (
                #[trigger] s.directory.rosters@[o.username@]@[i]).device_id@ == o.caller_device_id@
                    && s.directory.rosters@[o.username@]@[i].identity_key@ == o.peer_key@
        }),
        claim_won(s, w, now) ==> s.claiming is Some && s.claiming->0.claim_nonce@ == w.claim_nonce@
            && s.claiming->0.answering_device_id@ == w.winner_device_id@
            && s.claiming->0.offer.call_instance_id@ == w.call_instance_id@ && s.claiming->0.offer.offer_id@
            == w.offer_id@ && s.claiming->0.offer.peer_key@ == w.sender_identity_key@ && now
            <= s.claiming->0.offer.expires_at,
{
}

/// A device that did not win stops ringing and lets its answer go, records that the call was
/// answered elsewhere, tells the user so, and makes no entry.
pub proof fn lemma_who_did_not_win_lets_go(s: Session, w: CallWinner)
    ensures
        ({
            let out = lost_effects(s, w);
            &&& s.claiming is Some && s.claiming->0.offer.call_instance_id@ == w.call_instance_id@ ==> out[0]
                == (Effect::EndSystemCall {
                ring: s.claiming->0.offer.ring_handle,
                cause: DisconnectCause::AnsweredElsewhere,
            })
            &&& s.incoming is Some && s.incoming->0.call_instance_id@ == w.call_instance_id@ ==> out[out.len() - 2]
                == (Effect::CancelRing { ring: s.incoming->0.ring_handle, name: RingName::Nobody })
            &&& out.last() == Effect::Emit(CallEvent::Handled { reason: CallTerminalReason::AnsweredElsewhere })
            &&& exists|i: int|
                0 <= i < out.len() && (#[trigger] out[i] matches Effect::RecordTerminal {
                    call,
                    offer,
                    reason,
                    retention,
                } && call == w.call_instance_id && offer == w.offer_id && reason
                    == CallTerminalReason::AnsweredElsewhere && retention == retention_of(s))
            &&& forall|i: int| 0 <= i < out.len() ==> !(#[trigger] out[i] is RecordChip)
        }),
{
    let out = lost_effects(s, w);
    if s.claiming is Some && s.claiming->0.offer.call_instance_id@ == w.call_instance_id@ {
        assert(out[1] is RecordTerminal);
    } else {
        assert(out[0] is RecordTerminal);
    }
}

/// A caller is shown under the name the offer carries, else under the one known for the key, else
/// under no more than eight characters of the key.
pub proof fn lemma_how_a_caller_is_named(s: Session, sender_username: Seq<char>, key: Seq<char>)
    ensures
        sender_username.len() > 0 ==> caller_name(s, sender_username, key) == sender_username,
        sender_username.len() == 0 && s.directory.devices@.dom().contains(key)
            && s.directory.devices@[key].username is Some ==> caller_name(s, sender_username, key)
            == s.directory.devices@[key].username->0@,
        sender_username.len() == 0 && !(s.directory.devices@.dom().contains(key)
            && s.directory.devices@[key].username is Some) ==> ({
            let shown = caller_name(s, sender_username, key);
            &&& shown.len() == if key.len() < 8 {
                key.len() as int
            } else {
                8
            }
            &&& forall|i: int| 0 <= i < shown.len() ==> #[trigger] shown[i] == key[i]
        }),
{
}

/// What an offer needs to be heard at all: everything in it well formed, the ring no longer than
/// the signal, and a sender whose device and mailbox are what they claim. An offer that resumes a
/// call names a valid room.
pub proof fn lemma_an_offer_is_heard_from_its_own_device(s: Session, o: CallOffer, checks: OfferChecks)
    requires
        offer_authentic(s, o, checks),
    ensures
        forall|i: int| 0 <= i < checks.ids_valid@.len() ==> #[trigger] checks.ids_valid@[i],
        checks.ticket_valid && checks.offer_deadline_valid && checks.signal_deadline_valid
            && checks.control_expiry_valid && checks.device_id_valid,
        o.ring_expires_at <= o.expires_at,
        o.resume_of@.len() > 0 ==> checks.resume_of_valid,
        o.sender_username@.len() > 0,
        checks.derived_mailbox is Some && checks.derived_mailbox->0@ == o.reply_to_mailbox@,
        s.directory.rosters@.dom().contains(o.sender_username@) ==> exists|i: int|
            0 <= i < s.directory.rosters@[o.sender_username@]@.len() && (
            #[trigger] s.directory.rosters@[o.sender_username@]@[i]).device_id@ == o.caller_device_id@
                && s.directory.rosters@[o.sender_username@]@[i].identity_key@ == o.sender_identity_key@,
{
}

/// An answer waits for a call only by that call's own id.
pub proof fn lemma_an_unlock_waits_for_one_call(s: Session, call: Seq<char>)
    ensures
        unlock_waits_for(s, call) <==> s.pending_unlock is Some && s.pending_unlock->0.call_instance_id@ == call,
{
}

/// The caller's word on who answered is heard as long as the ring it is about may be answered: on
/// a device that answered it, and as well on one that still rings.
pub proof fn lemma_the_winner_is_heard_while_it_rings(s: Session, w: CallWinner, now: u64, o: PendingOffer)
    requires
        s.claiming is Some ==> o == s.claiming->0.offer,
        s.claiming is None ==> s.incoming == Some(o),
        w.call_instance_id@ == o.call_instance_id@,
        w.offer_id@ == o.offer_id@,
        w.sender_identity_key@ == o.peer_key@,
        now <= o.expires_at,
        sender_device_verified(s.directory, o.username@, o.peer_key@, o.caller_device_id@, true),
    ensures
        winner_authentic(s, w, true, true, now),
{
}

} // verus!
