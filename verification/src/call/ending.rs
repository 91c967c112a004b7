//! How a call ends because somebody said so: busy reports, terminal outcomes from the peer or
//! from this account's other devices, and the one cascade that ends whatever the session holds
//! for a call, whichever delivery layer brought the word.

use super::accept::later;
use super::auth::{sender_device_verified, verified_sender_device, same_peer};
use super::capsule_apply::{ends_group, held_coordinator, held_coordinator_exec, is_ends_group};
use super::group::{group_live, is_group_live};
use super::handles::{lemma_no_orphans_in_a_row, lemma_one_dropped, no_orphans, starts_none};
use super::session::{
    call_retention_secs, chip, group_chip, log_call_event, log_group_call_event, retention_of, ring_title,
    title_of, Session,
};
use super::signal::{call_is, claiming_is, incoming_is, is_call, is_claiming, is_incoming, is_reconnect, reconnect_is,
    rings_after_adoption};
use super::store::{
    adoptable, adoption_effects, lemma_one_ring_out, ring_of, same_but_rings, take_capsule_ring,
    take_ring_down,
};
use super::system::{cause_of, disconnect_cause};
use super::types::{
    CallCtl, CallEvent, CallKind, CallTerminalReason, Effect, GroupEvent, Label, RingName, TerminalDecision,
};
use crate::text::same;
use vstd::prelude::*;

verus! {

/// A device of the callee reporting that it is busy.
pub struct CallBusy {
    pub sender_identity_key: String,
    pub call_instance_id: String,
    pub offer_id: String,
    pub device_id: String,
}

/// The report comes from a verified device of the peer of the live call.
pub open spec fn busy_authentic(
    s: Session,
    b: CallBusy,
    control_expiry_valid: bool,
    device_id_valid: bool,
) -> bool {
    &&& control_expiry_valid
    &&& call_is(s, b.call_instance_id@)
    &&& s.directory.account_of(b.sender_identity_key@) == s.directory.account_of(s.call->0.peer_key@)
    &&& sender_device_verified(
        s.directory,
        s.call->0.peer_username@,
        b.sender_identity_key@,
        b.device_id@,
        device_id_valid,
    )
}

/// The report bears on a ring that is still going out.
pub open spec fn busy_counts(s: Session, b: CallBusy) -> bool {
    s.call matches Some(c) && c.caller && c.call_instance_id@ == b.call_instance_id@ && c.offer_id@
        == b.offer_id@ && !c.connected
}

/// How many of the rung devices may still answer, once this device has reported busy. A
/// device counts once however often it reports.
pub open spec fn fanout_after(c: CallCtl, device_id: Seq<char>) -> usize {
    if c.busy_devices@.contains(device_id) || c.ring_fanout == 0 {
        c.ring_fanout
    } else {
        (c.ring_fanout - 1) as usize
    }
}

/// A device that has reported busy counts once, however often it reports.
pub proof fn lemma_a_busy_device_counts_once(c: CallCtl, again: CallCtl, device_id: Seq<char>)
    requires
        again.ring_fanout == fanout_after(c, device_id),
        again.busy_devices@ == c.busy_devices@.insert(device_id),
    ensures
        fanout_after(again, device_id) == again.ring_fanout,
{
}

/// A rung device is busy. When the last one is, nobody can answer and the call ends.
pub fn receive_call_busy(
    s: &mut Session,
    b: CallBusy,
    control_expiry_valid: bool,
    device_id_valid: bool,
) -> (out: Vec<Effect>)
    ensures
        ({
            let counts = busy_authentic(*old(s), b, control_expiry_valid, device_id_valid) && busy_counts(
                *old(s),
                b,
            );
            if !counts {
                *final(s) == *old(s) && out@ == Seq::<Effect>::empty()
            } else {
                let c = old(s).call->0;
                let left = fanout_after(c, b.device_id@);
                if left > 0 {
                    &&& final(s).call matches Some(after) && after == (CallCtl {
                        ring_fanout: left,
                        busy_devices: after.busy_devices,
                        ..c
                    }) && after.busy_devices@ == c.busy_devices@.insert(b.device_id@)
                    &&& *final(s) == (Session { call: final(s).call, ..*old(s) })
                    &&& out@ == Seq::<Effect>::empty()
                } else {
                    &&& *final(s) == (Session { call: None, ..*old(s) })
                    &&& out@ == seq![
                        Effect::StopMedia { room: c.call_id },
                        Effect::EndSystemCall {
                            ring: c.ring_handle,
                            cause: cause_of(CallTerminalReason::Busy),
                        },
                        Effect::RecordTerminal {
                            call: b.call_instance_id,
                            offer: b.offer_id,
                            reason: CallTerminalReason::Busy,
                            retention: retention_of(*old(s)),
                        },
                    ] + chip(
                        c.peer_key,
                        Label::Ended { kind: CallKind::Direct, caller: true, connected_at: 0 },
                    ) + seq![Effect::Emit(CallEvent::NoAnswer)]
                }
            }
        }),
        no_orphans(*old(s), *final(s), out@),
{
    let mut out: Vec<Effect> = Vec::new();
    let authentic = match &s.call {
        Some(c) => control_expiry_valid && c.call_instance_id == b.call_instance_id && same_peer(
            &s.directory,
            b.sender_identity_key.as_str(),
            c.peer_key.as_str(),
        ) && verified_sender_device(
            &s.directory,
            c.peer_username.as_str(),
            b.sender_identity_key.as_str(),
            b.device_id.as_str(),
            device_id_valid,
        ),
        None => false,
    };
    if !authentic {
        return out;
    }
    let mut end_ring = false;
    match &mut s.call {
        Some(c) => {
            if c.caller && c.offer_id == b.offer_id && !c.connected {
                let fresh = c.busy_devices.insert(b.device_id);
                if fresh && c.ring_fanout > 0 {
                    c.ring_fanout = c.ring_fanout - 1;
                }
                end_ring = c.ring_fanout == 0;
            }
        },
        None => {},
    }
    if end_ring {
        let retention: u64 = call_retention_secs(s);
        if let Some(c) = s.call.take() {
            out.push(Effect::StopMedia { room: c.call_id });
            out.push(
                Effect::EndSystemCall {
                    ring: c.ring_handle,
                    cause: disconnect_cause(CallTerminalReason::Busy),
                },
            );
            out.push(
                Effect::RecordTerminal {
                    call: b.call_instance_id,
                    offer: b.offer_id,
                    reason: CallTerminalReason::Busy,
                    retention,
                },
            );
            log_call_event(
                &mut out,
                &c.peer_key,
                Label::Ended { kind: CallKind::Direct, caller: true, connected_at: 0 },
            );
            out.push(Effect::Emit(CallEvent::NoAnswer));
            proof {
                lemma_one_dropped(*old(s), *s, out@, 1, old(s).call->0.ring_handle@);
            }
        }
    }
    out
}

/// A terminal outcome, as the peer sent it.
pub struct CallTerminal {
    pub sender_identity_key: String,
    pub sender_username: String,
    pub call_instance_id: String,
    pub offer_id: String,
    pub reason: CallTerminalReason,
    pub actor_device_id: String,
}

/// Whom this session holds the call of two with, if it holds it at all: as a live call, a ring,
/// an answered ring, or a call being resumed, in this order.
pub open spec fn expected_peer(s: Session, call: Seq<char>) -> Option<(String, String)> {
    if call_is(s, call) {
        Some((s.call->0.peer_key, s.call->0.peer_username))
    } else if incoming_is(s, call) {
        Some((s.incoming->0.peer_key, s.incoming->0.username))
    } else if claiming_is(s, call) {
        Some((s.claiming->0.offer.peer_key, s.claiming->0.offer.username))
    } else if reconnect_is(s, call) {
        Some((s.reconnect->0.peer_key, s.reconnect->0.peer_username))
    } else {
        None
    }
}

pub fn expected_peer_exec(s: &Session, call: &str) -> (r: Option<(String, String)>)
    ensures
        r == expected_peer(*s, call@),
{
    if is_call(s, call) {
        if let Some(c) = &s.call {
            return Some((c.peer_key.clone(), c.peer_username.clone()));
        }
    }
    if is_incoming(s, call) {
        if let Some(o) = &s.incoming {
            return Some((o.peer_key.clone(), o.username.clone()));
        }
    }
    if is_claiming(s, call) {
        if let Some(p) = &s.claiming {
            return Some((p.offer.peer_key.clone(), p.offer.username.clone()));
        }
    }
    if is_reconnect(s, call) {
        if let Some(rc) = &s.reconnect {
            return Some((rc.peer_key.clone(), rc.peer_username.clone()));
        }
    }
    None
}

/// The sender may end this call:
///
/// - a call this session holds as a group call is ended by the coordinating device alone, with an
///   outcome that ends one;
/// - any other call it holds by a verified device of the peer it is with;
/// - a call it does not hold by a verified device of the account the sender claims.
pub open spec fn terminal_authentic(
    s: Session,
    t: CallTerminal,
    control_expiry_valid: bool,
    device_id_valid: bool,
) -> bool {
    &&& control_expiry_valid
    &&& match held_coordinator(s, t.call_instance_id@) {
        Some(c) => {
            &&& ends_group(t.reason)
            &&& t.sender_identity_key@ == c.identity_key@
            &&& t.actor_device_id@ == c.device_id@
            &&& sender_device_verified(
                s.directory,
                c.username@,
                t.sender_identity_key@,
                t.actor_device_id@,
                device_id_valid,
            )
        },
        None => direct_terminal_authentic(s, t, device_id_valid),
    }
}

/// The sender may end this call of two.
pub open spec fn direct_terminal_authentic(s: Session, t: CallTerminal, device_id_valid: bool) -> bool {
    match expected_peer(s, t.call_instance_id@) {
        Some((peer_key, username)) => {
            &&& s.directory.account_of(t.sender_identity_key@) == s.directory.account_of(peer_key@)
            &&& sender_device_verified(
                s.directory,
                username@,
                t.sender_identity_key@,
                t.actor_device_id@,
                device_id_valid,
            )
        },
        None => sender_device_verified(
            s.directory,
            t.sender_username@,
            t.sender_identity_key@,
            t.actor_device_id@,
            device_id_valid,
        ),
    }
}

/// Whether the sender of a terminal outcome may end the call it names.
pub fn screen_call_terminal(
    s: &Session,
    t: &CallTerminal,
    control_expiry_valid: bool,
    device_id_valid: bool,
) -> (r: bool)
    ensures
        r == terminal_authentic(*s, *t, control_expiry_valid, device_id_valid),
{
    if !control_expiry_valid {
        return false;
    }
    if let Some(c) = held_coordinator_exec(s, t.call_instance_id.as_str()) {
        return is_ends_group(t.reason) && t.sender_identity_key == c.identity_key && t.actor_device_id
            == c.device_id && verified_sender_device(
            &s.directory,
            c.username.as_str(),
            t.sender_identity_key.as_str(),
            t.actor_device_id.as_str(),
            device_id_valid,
        );
    }
    match expected_peer_exec(s, t.call_instance_id.as_str()) {
        Some((peer_key, username)) => same_peer(
            &s.directory,
            t.sender_identity_key.as_str(),
            peer_key.as_str(),
        ) && verified_sender_device(
            &s.directory,
            username.as_str(),
            t.sender_identity_key.as_str(),
            t.actor_device_id.as_str(),
            device_id_valid,
        ),
        None => verified_sender_device(
            &s.directory,
            t.sender_username.as_str(),
            t.sender_identity_key.as_str(),
            t.actor_device_id.as_str(),
            device_id_valid,
        ),
    }
}

/// The outcome the registry settled on, where it settled on one.
pub open spec fn settled(decision: TerminalDecision) -> Option<CallTerminalReason> {
    match decision {
        TerminalDecision::Applied(reason) => Some(reason),
        TerminalDecision::Duplicate(reason) => Some(reason),
        _ => None,
    }
}

/// The outcome the registry settled on, where it settled on one.
pub fn settled_reason(decision: TerminalDecision) -> (r: Option<CallTerminalReason>)
    ensures
        r == settled(decision),
{
    match decision {
        TerminalDecision::Applied(reason) => Some(reason),
        TerminalDecision::Duplicate(reason) => Some(reason),
        _ => None,
    }
}

/// A screened terminal outcome, once the registry has decided on it: it ends the pending
/// ring and whatever this session holds for the call.
pub fn receive_call_terminal(
    s: &mut Session,
    call: &String,
    offer: &String,
    decision: TerminalDecision,
) -> (out: Vec<Effect>)
    ensures
        settled(decision) is None ==> *final(s) == *old(s) && out@ == Seq::<Effect>::empty(),
        settled(decision) matches Some(reason) ==> {
            &&& final(s).rings@ == rings_after_adoption(*old(s), call@, offer@)
            &&& *final(s) == (Session { rings: final(s).rings, ..after_ending(*old(s), call@) })
            &&& out@ == adoption_effects(*old(s), call@, offer@, false) + ending_effects(
                *old(s),
                call@,
                reason,
            )
        },
        no_orphans(*old(s), *final(s), out@),
{
    let mut out: Vec<Effect> = Vec::new();
    match settled_reason(decision) {
        Some(reason) => {
            if let Some(ring) = take_capsule_ring(s, call.as_str(), offer.as_str()) {
                out.push(Effect::SaveStore);
                take_ring_down(&mut out, ring);
            }
            let ghost head = out@;
            assert(head =~= adoption_effects(*old(s), call@, offer@, false));
            let ghost mid = *s;
            let mut rest: Vec<Effect> = end_local_call_state(s, call.as_str(), reason);
            let ghost tail = rest@;
            out.append(&mut rest);
            proof {
                lemma_ending_is_apart_from_the_rings(mid, *old(s), call@, reason);
                if adoptable(*old(s), call@, offer@) {
                    lemma_one_ring_out(old(s).rings@, call@);
                    lemma_one_dropped(
                        *old(s),
                        mid,
                        head,
                        head.len() - 1,
                        ring_of(old(s).rings@, call@).ring_handle@,
                    );
                }
                lemma_no_orphans_in_a_row(*old(s), mid, *s, head, tail);
            }
        },
        None => {},
    }
    out
}

/// The session with whatever it held for this call dropped: the live call, the ring, the
/// answered ring and the call being resumed, and the same of a group call.
pub open spec fn after_ending(s: Session, call: Seq<char>) -> Session {
    Session {
        call: if call_is(s, call) {
            None
        } else {
            s.call
        },
        incoming: if incoming_is(s, call) {
            None
        } else {
            s.incoming
        },
        claiming: if claiming_is(s, call) {
            None
        } else {
            s.claiming
        },
        reconnect: if reconnect_is(s, call) {
            None
        } else {
            s.reconnect
        },
        group_call: if group_live(s, call) {
            None
        } else {
            s.group_call
        },
        group_incoming: if group_incoming_is(s, call) {
            None
        } else {
            s.group_incoming
        },
        group_claiming: if group_claiming_is(s, call) {
            None
        } else {
            s.group_claiming
        },
        ..s
    }
}

/// The session holds something for this call.
pub open spec fn holds(s: Session, call: Seq<char>) -> bool {
    ||| call_is(s, call)
    ||| incoming_is(s, call)
    ||| claiming_is(s, call)
    ||| reconnect_is(s, call)
    ||| group_live(s, call)
    ||| group_incoming_is(s, call)
    ||| group_claiming_is(s, call)
}

/// Nothing is left of a call that ended, and nothing of another call is touched.
pub proof fn lemma_an_ended_call_leaves_nothing(s: Session, call: Seq<char>, other: Seq<char>)
    ensures
        !holds(after_ending(s, call), call),
        other != call ==> holds(after_ending(s, call), other) == holds(s, other),
        !holds(s, call) ==> after_ending(s, call) == s,
{
}

/// What ending the live call does.
pub open spec fn live_ending(s: Session, call: Seq<char>, reason: CallTerminalReason) -> Seq<Effect> {
    if call_is(s, call) {
        let c = s.call->0;
        seq![
            Effect::StopMedia { room: c.call_id },
            Effect::EndSystemCall { ring: c.ring_handle, cause: cause_of(reason) },
        ] + chip(
            c.peer_key,
            Label::Ended { kind: CallKind::Direct, caller: c.caller, connected_at: c.connected_at },
        ) + seq![Effect::Emit(CallEvent::Ended)]
    } else {
        Seq::empty()
    }
}

/// What ending the ring does.
pub open spec fn ring_ending(s: Session, call: Seq<char>, reason: CallTerminalReason) -> Seq<Effect> {
    if incoming_is(s, call) {
        let o = s.incoming->0;
        seq![Effect::CancelRing { ring: o.ring_handle, name: title_of(s, o.username) }] + (if reason
            is CallerCancelled {
            chip(o.peer_key, Label::MissedCall) + seq![Effect::Emit(CallEvent::Missed)]
        } else {
            seq![Effect::Emit(CallEvent::Handled { reason })]
        })
    } else {
        Seq::empty()
    }
}

/// What ending the answered ring does.
pub open spec fn claim_ending(s: Session, call: Seq<char>, reason: CallTerminalReason) -> Seq<Effect> {
    if claiming_is(s, call) {
        let o = s.claiming->0.offer;
        seq![
            Effect::EndSystemCall { ring: o.ring_handle, cause: cause_of(reason) },
            Effect::Emit(CallEvent::Handled { reason }),
        ] + chip(o.peer_key, Label::CallEnded)
    } else {
        Seq::empty()
    }
}

/// What ending the call that is being resumed does.
pub open spec fn resume_ending(s: Session, call: Seq<char>, reason: CallTerminalReason) -> Seq<Effect> {
    if reconnect_is(s, call) {
        let rc = s.reconnect->0;
        seq![Effect::EndSystemCall { ring: rc.ring_handle, cause: cause_of(reason) }] + chip(
            rc.peer_key,
            Label::Ended { kind: CallKind::Direct, caller: true, connected_at: rc.connected_at },
        ) + seq![Effect::Emit(CallEvent::Ended)]
    } else {
        Seq::empty()
    }
}

/// What ending the live group call does.
pub open spec fn group_live_ending(s: Session, call: Seq<char>, reason: CallTerminalReason) -> Seq<Effect> {
    if group_live(s, call) {
        let g = s.group_call->0;
        seq![
            Effect::StopMedia { room: g.call_instance },
            Effect::EndSystemCall { ring: g.ring_handle, cause: cause_of(reason) },
        ] + group_chip(
            g.group_id,
            Label::Ended { kind: CallKind::Group, caller: false, connected_at: g.connected_at },
        ) + seq![Effect::EmitGroup(GroupEvent::Ended)]
    } else {
        Seq::empty()
    }
}

/// What ending the group ring does: a ring its coordinator ended was missed.
pub open spec fn group_ring_ending(s: Session, call: Seq<char>, reason: CallTerminalReason) -> Seq<Effect> {
    if group_incoming_is(s, call) {
        let o = s.group_incoming->0;
        seq![Effect::CancelRing { ring: o.ring_handle, name: title_of(s, o.group_name) }] + (if ends_group(
            reason,
        ) {
            group_chip(o.group_id, Label::MissedGroupCall { from: o.rang_by_username }) + seq![
                Effect::EmitGroup(GroupEvent::Missed),
            ]
        } else {
            seq![Effect::EmitGroup(GroupEvent::Handled { reason })]
        })
    } else {
        Seq::empty()
    }
}

/// What ending the answered group ring does.
pub open spec fn group_claim_ending(s: Session, call: Seq<char>, reason: CallTerminalReason) -> Seq<Effect> {
    if group_claiming_is(s, call) {
        let o = s.group_claiming->0.offer;
        seq![Effect::EndSystemCall { ring: o.ring_handle, cause: cause_of(reason) }] + group_chip(
            o.group_id,
            Label::GroupCallEnded,
        ) + seq![Effect::EmitGroup(GroupEvent::Handled { reason })]
    } else {
        Seq::empty()
    }
}

/// What ending a group call does, for each form in which the session holds it.
pub open spec fn group_endings(s: Session, call: Seq<char>, reason: CallTerminalReason) -> Seq<Effect> {
    group_live_ending(s, call, reason) + group_ring_ending(s, call, reason) + group_claim_ending(
        s,
        call,
        reason,
    )
}

/// What ending a call with this outcome does, for each form in which the session holds it: the
/// system call goes down with an honest cause, the conversation gets its entry, and the user is
/// told what happened.
pub open spec fn ending_effects(s: Session, call: Seq<char>, reason: CallTerminalReason) -> Seq<Effect> {
    live_ending(s, call, reason) + ring_ending(s, call, reason) + (claim_ending(s, call, reason)
        + resume_ending(s, call, reason)) + group_endings(s, call, reason)
}

/// The pending rings have no bearing on how the session's own calls end.
pub proof fn lemma_ending_is_apart_from_the_rings(a: Session, b: Session, call: Seq<char>, reason: CallTerminalReason)
    requires
        same_but_rings(a, b),
    ensures
        after_ending(a, call) == (Session { rings: a.rings, ..after_ending(b, call) }),
        ending_effects(a, call, reason) == ending_effects(b, call, reason),
{
}

proof fn lemma_each_ending_is_its_own(a: Session, b: Session, call: Seq<char>, reason: CallTerminalReason)
    requires
        a.claiming == b.claiming,
        a.reconnect == b.reconnect,
    ensures
        claim_ending(a, call, reason) == claim_ending(b, call, reason),
        resume_ending(a, call, reason) == resume_ending(b, call, reason),
{
}

proof fn lemma_group_endings_are_their_own(a: Session, b: Session, call: Seq<char>, reason: CallTerminalReason)
    requires
        a.group_call == b.group_call,
        a.group_incoming == b.group_incoming,
        a.group_claiming == b.group_claiming,
        a.prefs == b.prefs,
    ensures
        group_endings(a, call, reason) == group_endings(b, call, reason),
{
}

fn end_direct(s: &mut Session, call: &str, reason: CallTerminalReason) -> (out: Vec<Effect>)
    ensures
        *final(s) == (Session {
            call: after_ending(*old(s), call@).call,
            incoming: after_ending(*old(s), call@).incoming,
            ..*old(s)
        }),
        out@ == live_ending(*old(s), call@, reason) + ring_ending(*old(s), call@, reason),
        starts_none(out@),
        no_orphans(*old(s), *final(s), out@),
{
    let mut out: Vec<Effect> = Vec::new();
    let ghost s0 = *s;
    if is_call(s, call) {
        if let Some(c) = s.call.take() {
            out.push(Effect::StopMedia { room: c.call_id });
            out.push(Effect::EndSystemCall { ring: c.ring_handle, cause: disconnect_cause(reason) });
            log_call_event(
                &mut out,
                &c.peer_key,
                Label::Ended { kind: CallKind::Direct, caller: c.caller, connected_at: c.connected_at },
            );
            out.push(Effect::Emit(CallEvent::Ended));
            proof {
                lemma_one_dropped(s0, *s, out@, 1, s0.call->0.ring_handle@);
            }
        }
    }
    let ghost s1 = *s;
    let ghost out1 = out@;
    assert(out1 =~= live_ending(s0, call@, reason));
    assert(no_orphans(s0, s1, out1));
    if is_incoming(s, call) {
        if let Some(o) = s.incoming.take() {
            let mut more: Vec<Effect> = Vec::new();
            let name: RingName = ring_title(s, &o.username);
            more.push(Effect::CancelRing { ring: o.ring_handle, name });
            if reason == CallTerminalReason::CallerCancelled {
                log_call_event(&mut more, &o.peer_key, Label::MissedCall);
                more.push(Effect::Emit(CallEvent::Missed));
            } else {
                more.push(Effect::Emit(CallEvent::Handled { reason }));
            }
            proof {
                assert(more@ =~= ring_ending(s0, call@, reason));
                lemma_one_dropped(s1, *s, more@, 0, s1.incoming->0.ring_handle@);
                lemma_no_orphans_in_a_row(s0, s1, *s, out1, more@);
            }
            out.append(&mut more);
        }
    }
    assert(out@ =~= out1 + ring_ending(s0, call@, reason));
    out
}

fn end_waiting(s: &mut Session, call: &str, reason: CallTerminalReason) -> (out: Vec<Effect>)
    ensures
        *final(s) == (Session {
            claiming: after_ending(*old(s), call@).claiming,
            reconnect: after_ending(*old(s), call@).reconnect,
            ..*old(s)
        }),
        out@ == claim_ending(*old(s), call@, reason) + resume_ending(*old(s), call@, reason),
        starts_none(out@),
        no_orphans(*old(s), *final(s), out@),
{
    let mut out: Vec<Effect> = Vec::new();
    let ghost s0 = *s;
    if is_claiming(s, call) {
        if let Some(p) = s.claiming.take() {
            out.push(
                Effect::EndSystemCall { ring: p.offer.ring_handle, cause: disconnect_cause(reason) },
            );
            out.push(Effect::Emit(CallEvent::Handled { reason }));
            log_call_event(&mut out, &p.offer.peer_key, Label::CallEnded);
            proof {
                lemma_one_dropped(s0, *s, out@, 0, s0.claiming->0.offer.ring_handle@);
            }
        }
    }
    let ghost s3 = *s;
    let ghost out3 = out@;
    assert(out3 =~= claim_ending(s0, call@, reason));
    assert(no_orphans(s0, s3, out3));
    if is_reconnect(s, call) {
        if let Some(rc) = s.reconnect.take() {
            let mut more: Vec<Effect> = Vec::new();
            more.push(Effect::EndSystemCall { ring: rc.ring_handle, cause: disconnect_cause(reason) });
            log_call_event(
                &mut more,
                &rc.peer_key,
                Label::Ended { kind: CallKind::Direct, caller: true, connected_at: rc.connected_at },
            );
            more.push(Effect::Emit(CallEvent::Ended));
            proof {
                assert(more@ =~= resume_ending(s0, call@, reason));
                lemma_one_dropped(s3, *s, more@, 0, s3.reconnect->0.ring_handle@);
                lemma_no_orphans_in_a_row(s0, s3, *s, out3, more@);
            }
            out.append(&mut more);
        }
    }
    assert(out@ =~= out3 + resume_ending(s0, call@, reason));
    out
}

fn end_group(s: &mut Session, call: &str, reason: CallTerminalReason) -> (out: Vec<Effect>)
    ensures
        *final(s) == (Session {
            group_call: after_ending(*old(s), call@).group_call,
            group_incoming: after_ending(*old(s), call@).group_incoming,
            group_claiming: after_ending(*old(s), call@).group_claiming,
            ..*old(s)
        }),
        out@ == group_endings(*old(s), call@, reason),
        starts_none(out@),
        no_orphans(*old(s), *final(s), out@),
{
    let mut out: Vec<Effect> = Vec::new();
    let ghost s0 = *s;
    if is_group_live(s, call) {
        if let Some(g) = s.group_call.take() {
            out.push(Effect::StopMedia { room: g.call_instance });
            out.push(Effect::EndSystemCall { ring: g.ring_handle, cause: disconnect_cause(reason) });
            log_group_call_event(
                &mut out,
                &g.group_id,
                Label::Ended { kind: CallKind::Group, caller: false, connected_at: g.connected_at },
            );
            out.push(Effect::EmitGroup(GroupEvent::Ended));
            proof {
                lemma_one_dropped(s0, *s, out@, 1, s0.group_call->0.ring_handle@);
            }
        }
    }
    let ghost s1 = *s;
    let ghost out1 = out@;
    assert(out1 =~= group_live_ending(s0, call@, reason));
    assert(no_orphans(s0, s1, out1));
    if is_group_incoming(s, call) {
        if let Some(o) = s.group_incoming.take() {
            let mut more: Vec<Effect> = Vec::new();
            let name: RingName = ring_title(s, &o.group_name);
            more.push(Effect::CancelRing { ring: o.ring_handle, name });
            if is_ends_group(reason) {
                log_group_call_event(
                    &mut more,
                    &o.group_id,
                    Label::MissedGroupCall { from: o.rang_by_username },
                );
                more.push(Effect::EmitGroup(GroupEvent::Missed));
            } else {
                more.push(Effect::EmitGroup(GroupEvent::Handled { reason }));
            }
            proof {
                assert(more@ =~= group_ring_ending(s0, call@, reason));
                lemma_one_dropped(s1, *s, more@, 0, s1.group_incoming->0.ring_handle@);
                lemma_no_orphans_in_a_row(s0, s1, *s, out1, more@);
            }
            out.append(&mut more);
        }
    }
    let ghost s2 = *s;
    let ghost out2 = out@;
    assert(out2 =~= out1 + group_ring_ending(s0, call@, reason));
    assert(no_orphans(s0, s2, out2));
    if is_group_claiming(s, call) {
        if let Some(p) = s.group_claiming.take() {
            let mut more: Vec<Effect> = Vec::new();
            more.push(
                Effect::EndSystemCall { ring: p.offer.ring_handle, cause: disconnect_cause(reason) },
            );
            log_group_call_event(&mut more, &p.offer.group_id, Label::GroupCallEnded);
            more.push(Effect::EmitGroup(GroupEvent::Handled { reason }));
            proof {
                assert(more@ =~= group_claim_ending(s0, call@, reason));
                lemma_one_dropped(s2, *s, more@, 0, s2.group_claiming->0.offer.ring_handle@);
                lemma_no_orphans_in_a_row(s0, s2, *s, out2, more@);
            }
            out.append(&mut more);
        }
    }
    assert(out@ =~= out2 + group_claim_ending(s0, call@, reason));
    out
}

fn end_waiting_and_group(s: &mut Session, call: &str, reason: CallTerminalReason) -> (out: Vec<Effect>)
    ensures
        *final(s) == (Session {
            call: old(s).call,
            incoming: old(s).incoming,
            ..after_ending(*old(s), call@)
        }),
        out@ == claim_ending(*old(s), call@, reason) + resume_ending(*old(s), call@, reason) + group_endings(
            *old(s),
            call@,
            reason,
        ),
        no_orphans(*old(s), *final(s), out@),
{
    let mut out: Vec<Effect> = end_waiting(s, call, reason);
    let ghost mid = *s;
    let ghost first = out@;
    let mut group: Vec<Effect> = end_group(s, call, reason);
    proof {
        lemma_group_endings_are_their_own(mid, *old(s), call@, reason);
        lemma_no_orphans_in_a_row(*old(s), mid, *s, first, group@);
    }
    out.append(&mut group);
    out
}

/// End whatever this session holds for the call, with an authenticated outcome. Both
/// delivery layers end a call through here.
pub fn end_local_call_state(s: &mut Session, call: &str, reason: CallTerminalReason) -> (out: Vec<Effect>)
    ensures
        *final(s) == after_ending(*old(s), call@),
        out@ == ending_effects(*old(s), call@, reason),
        no_orphans(*old(s), *final(s), out@),
{
    let mut out: Vec<Effect> = end_direct(s, call, reason);
    let ghost mid = *s;
    let ghost first = out@;
    let mut rest: Vec<Effect> = end_waiting_and_group(s, call, reason);
    proof {
        lemma_each_ending_is_its_own(mid, *old(s), call@, reason);
        lemma_group_endings_are_their_own(mid, *old(s), call@, reason);
        lemma_no_orphans_in_a_row(*old(s), mid, *s, first, rest@);
        assert(first + rest@ =~= ending_effects(*old(s), call@, reason));
    }
    out.append(&mut rest);
    out
}

/// A terminal outcome another of this account's devices sent is its own word and still
/// valid.
pub fn screen_self_terminal(s: &Session, sender_identity_key: &str, control_expiry_valid: bool) -> (r: bool)
    ensures
        r == (s.directory.owns(sender_identity_key@) && control_expiry_valid),
{
    s.directory.is_own_device(sender_identity_key) && control_expiry_valid
}

/// The ringing group call is this call.
pub open spec fn group_incoming_is(s: Session, call: Seq<char>) -> bool {
    s.group_incoming matches Some(o) && o.call_instance@ == call
}

fn is_group_incoming(s: &Session, call: &str) -> (r: bool)
    ensures
        r == group_incoming_is(*s, call@),
{
    match &s.group_incoming {
        Some(o) => same(o.call_instance.as_str(), call),
        None => false,
    }
}

/// The answered group ring is for this call.
pub open spec fn group_claiming_is(s: Session, call: Seq<char>) -> bool {
    s.group_claiming matches Some(p) && p.offer.call_instance@ == call
}

fn is_group_claiming(s: &Session, call: &str) -> (r: bool)
    ensures
        r == group_claiming_is(*s, call@),
{
    match &s.group_claiming {
        Some(p) => same(p.offer.call_instance.as_str(), call),
        None => false,
    }
}

/// The session with the ring or the answered ring of this call dropped; of several, the
/// first in the order 1:1 ring, group ring, answered group ring, answered 1:1 ring.
pub open spec fn after_self_terminal(s: Session, call: Seq<char>) -> Session {
    if incoming_is(s, call) {
        Session { incoming: None, ..s }
    } else if group_incoming_is(s, call) {
        Session { group_incoming: None, ..s }
    } else if group_claiming_is(s, call) {
        Session { group_claiming: None, ..s }
    } else if claiming_is(s, call) {
        Session { claiming: None, ..s }
    } else {
        s
    }
}

/// What a sibling's terminal outcome does to the ring it ends.
pub open spec fn self_terminal_effects(s: Session, call: Seq<char>, reason: CallTerminalReason) -> Seq<Effect> {
    if incoming_is(s, call) {
        seq![
            Effect::CancelRing { ring: s.incoming->0.ring_handle, name: RingName::Nobody },
            Effect::Emit(CallEvent::Handled { reason }),
        ]
    } else if group_incoming_is(s, call) {
        seq![
            Effect::CancelRing { ring: s.group_incoming->0.ring_handle, name: RingName::Nobody },
            Effect::EmitGroup(GroupEvent::Handled { reason }),
        ]
    } else if group_claiming_is(s, call) {
        seq![
            Effect::EndSystemCall {
                ring: s.group_claiming->0.offer.ring_handle,
                cause: cause_of(reason),
            },
            Effect::EmitGroup(GroupEvent::Handled { reason }),
        ]
    } else if claiming_is(s, call) {
        seq![
            Effect::EndSystemCall { ring: s.claiming->0.offer.ring_handle, cause: cause_of(reason) },
            Effect::Emit(CallEvent::Handled { reason }),
        ]
    } else {
        Seq::empty()
    }
}

/// A screened terminal outcome from a sibling, once the registry has decided on it: the ring
/// this session holds for the call comes down, with the reason the sibling gave. An outcome
/// the registry refused touches nothing.
pub fn receive_self_terminal(
    s: &mut Session,
    call: &str,
    reason: CallTerminalReason,
    decision: TerminalDecision,
) -> (out: Vec<Effect>)
    ensures
        settled(decision) is None ==> *final(s) == *old(s) && out@ == Seq::<Effect>::empty(),
        settled(decision) is Some ==> *final(s) == after_self_terminal(*old(s), call@) && out@
            == self_terminal_effects(*old(s), call@, reason),
        no_orphans(*old(s), *final(s), out@),
{
    let mut out: Vec<Effect> = Vec::new();
    if settled_reason(decision).is_none() {
        return out;
    }
    if is_incoming(s, call) {
        if let Some(o) = s.incoming.take() {
            out.push(Effect::CancelRing { ring: o.ring_handle, name: RingName::Nobody });
            out.push(Effect::Emit(CallEvent::Handled { reason }));
            proof {
                lemma_one_dropped(*old(s), *s, out@, 0, old(s).incoming->0.ring_handle@);
            }
        }
    } else if is_group_incoming(s, call) {
        if let Some(o) = s.group_incoming.take() {
            out.push(Effect::CancelRing { ring: o.ring_handle, name: RingName::Nobody });
            out.push(Effect::EmitGroup(GroupEvent::Handled { reason }));
            proof {
                lemma_one_dropped(*old(s), *s, out@, 0, old(s).group_incoming->0.ring_handle@);
            }
        }
    } else if is_group_claiming(s, call) {
        if let Some(p) = s.group_claiming.take() {
            out.push(
                Effect::EndSystemCall { ring: p.offer.ring_handle, cause: disconnect_cause(reason) },
            );
            out.push(Effect::EmitGroup(GroupEvent::Handled { reason }));
            proof {
                lemma_one_dropped(*old(s), *s, out@, 0, old(s).group_claiming->0.offer.ring_handle@);
            }
        }
    } else if is_claiming(s, call) {
        if let Some(p) = s.claiming.take() {
            out.push(
                Effect::EndSystemCall { ring: p.offer.ring_handle, cause: disconnect_cause(reason) },
            );
            out.push(Effect::Emit(CallEvent::Handled { reason }));
            proof {
                lemma_one_dropped(*old(s), *s, out@, 0, old(s).claiming->0.offer.ring_handle@);
            }
        }
    }
    out
}

/// As whom this account's other devices are told how a call ended.
pub struct SelfSync {
    pub me: String,
    pub actor_device_id: String,
    pub expires_at: u64,
}

/// As whom this account's other devices are told how a call ended, or nothing where there is
/// nobody to tell or the vault is locked.
pub fn ring_terminal_selfsync(s: &Session, now: u64) -> (r: Option<SelfSync>)
    ensures
        r == if s.multi_device && s.account is Some {
            Some(
                SelfSync {
                    me: s.account->0.account_id,
                    actor_device_id: s.directory.self_device_id,
                    expires_at: later(now, s.limits.signal_ttl_secs),
                },
            )
        } else {
            None
        },
{
    if !s.multi_device {
        return None;
    }
    match &s.account {
        Some(account) => Some(
            SelfSync {
                me: account.account_id.clone(),
                actor_device_id: s.directory.self_device_id.clone(),
                expires_at: now.saturating_add(s.limits.signal_ttl_secs),
            },
        ),
        None => None,
    }
}

/// A rung device that is busy leaves one fewer that may answer, the first time it says so, and
/// never fewer than none.
pub proof fn lemma_each_busy_device_leaves_one_fewer(c: CallCtl, device_id: Seq<char>)
    ensures
        c.busy_devices@.contains(device_id) ==> fanout_after(c, device_id) == c.ring_fanout,
        !c.busy_devices@.contains(device_id) && c.ring_fanout > 0 ==> fanout_after(c, device_id) == c.ring_fanout - 1,
        c.ring_fanout == 0 ==> fanout_after(c, device_id) == 0,
{
}

/// A busy report counts for the ring that goes out from here and has not connected, by its call
/// and its offer, and only from a verified device of the account that is called.
pub proof fn lemma_a_busy_report_is_for_the_ring_going_out(
    s: Session,
    b: CallBusy,
    control_expiry_valid: bool,
    device_id_valid: bool,
)
    ensures
        busy_counts(s, b) <==> s.call is Some && s.call->0.caller && !s.call->0.connected
            && s.call->0.call_instance_id@ == b.call_instance_id@ && s.call->0.offer_id@ == b.offer_id@,
        busy_authentic(s, b, control_expiry_valid, device_id_valid) ==> control_expiry_valid && device_id_valid
            && s.call is Some && s.call->0.call_instance_id@ == b.call_instance_id@ && s.directory.account_of(
            b.sender_identity_key@,
        ) == s.directory.account_of(s.call->0.peer_key@),
        busy_authentic(s, b, control_expiry_valid, device_id_valid) && s.directory.rosters@.dom().contains(
            s.call->0.peer_username@,
        ) ==> exists|i: int|
            0 <= i < s.directory.rosters@[s.call->0.peer_username@]@.len() && (
            #[trigger] s.directory.rosters@[s.call->0.peer_username@]@[i]).device_id@ == b.device_id@
                && s.directory.rosters@[s.call->0.peer_username@]@[i].identity_key@ == b.sender_identity_key@,
{
}

/// A terminal that names a group call this session holds counts from the coordinating device
/// alone, and only with an outcome that ends a group call.
pub proof fn lemma_a_held_group_call_is_its_coordinators_to_end(
    s: Session,
    t: CallTerminal,
    control_expiry_valid: bool,
    device_id_valid: bool,
)
    requires
        s.group_call is Some,
        s.group_call->0.call_instance@ == t.call_instance_id@,
        terminal_authentic(s, t, control_expiry_valid, device_id_valid),
    ensures
        t.reason is CallerCancelled || t.reason is Expired || t.reason is TransportError,
        t.sender_identity_key@ == s.group_call->0.coordinator.identity_key@,
        t.actor_device_id@ == s.group_call->0.coordinator.device_id@,
        control_expiry_valid && device_id_valid,
{
}

} // verus!
