//! What the user's buttons do: placing, declining and ending a 1:1 call, and switching its
//! media.

use super::engine::{call_still_live, not_live, release_call_slot, reserve_call_slot};
use super::error::CallError;
use super::handles::{accounts_for, ends, lemma_one_dropped, no_orphans, starts_none};
use super::session::{Account, Prefs, call_retention_secs, chip, is_current, log_call_event, retention_of, slot_free, Session};
use super::signal::{JoinPlan, PeerMedia};
use super::types::{
    CallCtl, CallEvent, CallKind, CallTerminalReason, DisconnectCause, Effect, Label, OutgoingSetup,
    PendingClaim, PendingReconnect, PendingUnlock, RingName, Ticket,
};
use crate::names::NameMap;
use crate::text::{same, trim, trimmed_of};
use vstd::prelude::*;

verus! {

/// What declining comes to: whether it succeeds or why not, and what is done.
pub open spec fn decline_outcome(s: Session) -> (Option<CallError>, Seq<Effect>) {
    match s.incoming {
        None => (Some(CallError::NoIncomingCall), Seq::empty()),
        Some(o) => {
            let cancel = seq![Effect::CancelRing { ring: o.ring_handle, name: RingName::Nobody }];
            if s.client is None {
                (Some(CallError::NotConfigured), cancel)
            } else {
                (
                    None,
                    cancel + seq![
                        Effect::SendTerminalToDevice {
                            device_key: o.peer_key,
                            mailbox: o.caller_reply_to_mailbox,
                            call: o.call_instance_id,
                            offer: o.offer_id,
                            reason: CallTerminalReason::DeclinedHere,
                        },
                        Effect::RecordTerminal {
                            call: o.call_instance_id,
                            offer: o.offer_id,
                            reason: CallTerminalReason::DeclinedHere,
                            retention: retention_of(s),
                        },
                        Effect::SelfSyncTerminal {
                            call: o.call_instance_id,
                            offer: o.offer_id,
                            reason: CallTerminalReason::DeclinedElsewhere,
                        },
                    ] + chip(o.peer_key, Label::DeclinedCall) + seq![Effect::Persist],
                )
            }
        },
    }
}

/// The result a command gives for an outcome.
pub open spec fn outcome_is(r: Result<(), CallError>, refused: Option<CallError>) -> bool {
    match refused {
        Some(e) => r == Err::<(), CallError>(e),
        None => r is Ok,
    }
}

/// Declining never waits for an unlock: it comes to the same whether the vault is open, whether
/// answers ask for an unlock, whether one is waiting, and whether anybody was vouched for.
pub proof fn lemma_declining_needs_no_unlock(
    s: Session,
    account: Option<Account>,
    require_unlock_to_answer: bool,
    auto_unlock: bool,
    pending_unlock: Option<PendingUnlock>,
    last_presence_ok_ms: Option<u64>,
)
    ensures
        decline_outcome(s) == decline_outcome(
            Session {
                account,
                prefs: Prefs { require_unlock_to_answer, auto_unlock, ..s.prefs },
                pending_unlock,
                last_presence_ok_ms,
                ..s
            },
        ),
{
}

/// Decline the ringing call: the ring stops whatever else happens; the caller and this
/// account's other devices are told if there is a connection to tell them through.
pub fn call_decline(s: &mut Session) -> (r: (Result<(), CallError>, Vec<Effect>))
    ensures
        *final(s) == (Session { incoming: None, ..*old(s) }),
        outcome_is(r.0, decline_outcome(*old(s)).0),
        r.1@ == decline_outcome(*old(s)).1,
        no_orphans(*old(s), *final(s), r.1@),
{
    let mut out: Vec<Effect> = Vec::new();
    let o = match s.incoming.take() {
        Some(o) => o,
        None => {
            return (Err(CallError::NoIncomingCall), out);
        },
    };
    out.push(Effect::CancelRing { ring: o.ring_handle, name: RingName::Nobody });
    if s.client.is_none() {
        proof {
            lemma_one_dropped(*old(s), *s, out@, 0, old(s).incoming->0.ring_handle@);
        }
        return (Err(CallError::NotConfigured), out);
    }
    out.push(
        Effect::SendTerminalToDevice {
            device_key: o.peer_key.clone(),
            mailbox: o.caller_reply_to_mailbox,
            call: o.call_instance_id.clone(),
            offer: o.offer_id.clone(),
            reason: CallTerminalReason::DeclinedHere,
        },
    );
    out.push(
        Effect::RecordTerminal {
            call: o.call_instance_id.clone(),
            offer: o.offer_id.clone(),
            reason: CallTerminalReason::DeclinedHere,
            retention: call_retention_secs(s),
        },
    );
    out.push(
        Effect::SelfSyncTerminal {
            call: o.call_instance_id,
            offer: o.offer_id,
            reason: CallTerminalReason::DeclinedElsewhere,
        },
    );
    log_call_event(&mut out, &o.peer_key, Label::DeclinedCall);
    out.push(Effect::Persist);
    proof {
        lemma_one_dropped(*old(s), *s, out@, 0, old(s).incoming->0.ring_handle@);
    }
    (Ok(()), out)
}

/// How the other end of a call that this device leaves is told: every device of the callee if
/// this device placed the call, else the one device it is with.
pub open spec fn leave_effect(
    caller: bool,
    username: String,
    peer_key: String,
    device_key: String,
    mailbox: String,
    call: String,
    offer: String,
) -> Effect {
    if caller {
        Effect::SendTerminalEverywhere {
            username,
            peer_key,
            call,
            offer,
            reason: CallTerminalReason::CallerCancelled,
        }
    } else {
        Effect::SendTerminalToDevice {
            device_key,
            mailbox,
            call,
            offer,
            reason: CallTerminalReason::DeclinedHere,
        }
    }
}

/// Hanging up a live call.
pub open spec fn hangup_call_effects(c: CallCtl) -> Seq<Effect> {
    seq![
        leave_effect(
            c.caller,
            c.peer_username,
            c.peer_key,
            c.peer_device_key,
            c.peer_reply_to_mailbox,
            c.call_instance_id,
            c.offer_id,
        ),
    ] + chip(
        c.peer_key,
        Label::Ended { kind: CallKind::Direct, caller: c.caller, connected_at: c.connected_at },
    ) + seq![Effect::Persist]
}

/// Hanging up an answered ring that is waiting for the winner.
pub open spec fn hangup_claim_effects(s: Session, p: PendingClaim) -> Seq<Effect> {
    seq![
        Effect::SendTerminalToDevice {
            device_key: p.offer.peer_key,
            mailbox: p.offer.caller_reply_to_mailbox,
            call: p.offer.call_instance_id,
            offer: p.offer.offer_id,
            reason: CallTerminalReason::DeclinedHere,
        },
        Effect::RecordTerminal {
            call: p.offer.call_instance_id,
            offer: p.offer.offer_id,
            reason: CallTerminalReason::DeclinedHere,
            retention: retention_of(s),
        },
    ] + chip(p.offer.peer_key, Label::CallEnded) + seq![Effect::Persist]
}

/// Hanging up a call that is being resumed.
pub open spec fn hangup_reconnect_effects(rc: PendingReconnect) -> Seq<Effect> {
    seq![
        leave_effect(
            rc.caller,
            rc.peer_username,
            rc.peer_key,
            rc.peer_device_key,
            rc.peer_reply_to_mailbox,
            rc.call_instance_id,
            rc.offer_id,
        ),
    ] + chip(
        rc.peer_key,
        Label::Ended { kind: CallKind::Direct, caller: rc.caller, connected_at: rc.connected_at },
    ) + seq![Effect::Persist]
}

/// What is hung up: a live call, else an answered ring, else a call being resumed.
pub open spec fn after_hangup(s: Session) -> Session {
    if s.call is Some {
        Session { call: None, ..s }
    } else if s.claiming is Some {
        Session { claiming: None, ..s }
    } else {
        Session { reconnect: None, ..s }
    }
}

/// What goes down whether or not there is a connection to tell anyone through.
pub open spec fn hangup_local_effects(s: Session) -> Seq<Effect> {
    if s.call is Some {
        seq![
            Effect::StopMedia { room: s.call->0.call_id },
            Effect::EndSystemCall { ring: s.call->0.ring_handle, cause: DisconnectCause::Local },
        ]
    } else if s.claiming is Some {
        seq![
            Effect::EndSystemCall {
                ring: s.claiming->0.offer.ring_handle,
                cause: DisconnectCause::Local,
            },
        ]
    } else if s.reconnect is Some {
        seq![
            Effect::EndSystemCall { ring: s.reconnect->0.ring_handle, cause: DisconnectCause::Local },
        ]
    } else {
        Seq::empty()
    }
}

/// What goes to the other end and into the conversation.
pub open spec fn hangup_remote_effects(s: Session) -> Seq<Effect> {
    if s.call is Some {
        hangup_call_effects(s.call->0)
    } else if s.claiming is Some {
        hangup_claim_effects(s, s.claiming->0)
    } else if s.reconnect is Some {
        hangup_reconnect_effects(s.reconnect->0)
    } else {
        Seq::empty()
    }
}

/// Something to hang up.
pub open spec fn something_up(s: Session) -> bool {
    s.call is Some || s.claiming is Some || s.reconnect is Some
}

/// Hang up: the live call, or the answered ring, or the call being resumed. The state and the
/// system call go whatever else happens; hanging up nothing is no error.
pub fn call_hangup(s: &mut Session) -> (r: (Result<(), CallError>, Vec<Effect>))
    ensures
        *final(s) == after_hangup(*old(s)),
        something_up(*old(s)) && old(s).client is None ==> r.0 == Err::<(), CallError>(
            CallError::NotConfigured,
        ) && r.1@ == hangup_local_effects(*old(s)),
        something_up(*old(s)) && old(s).client is Some ==> r.0 is Ok && r.1@ == hangup_local_effects(
            *old(s),
        ) + hangup_remote_effects(*old(s)),
        !something_up(*old(s)) ==> r.0 is Ok && r.1@ == Seq::<Effect>::empty(),
        no_orphans(*old(s), *final(s), r.1@),
{
    let mut out: Vec<Effect> = Vec::new();
    match s.call.take() {
        Some(c) => {
            out.push(Effect::StopMedia { room: c.call_id });
            out.push(Effect::EndSystemCall { ring: c.ring_handle, cause: DisconnectCause::Local });
            proof {
                lemma_one_dropped(*old(s), *s, out@, 1, old(s).call->0.ring_handle@);
            }
            if s.client.is_none() {
                return (Err(CallError::NotConfigured), out);
            }
            if c.caller {
                out.push(
                    Effect::SendTerminalEverywhere {
                        username: c.peer_username,
                        peer_key: c.peer_key.clone(),
                        call: c.call_instance_id,
                        offer: c.offer_id,
                        reason: CallTerminalReason::CallerCancelled,
                    },
                );
            } else {
                out.push(
                    Effect::SendTerminalToDevice {
                        device_key: c.peer_device_key,
                        mailbox: c.peer_reply_to_mailbox,
                        call: c.call_instance_id,
                        offer: c.offer_id,
                        reason: CallTerminalReason::DeclinedHere,
                    },
                );
            }
            log_call_event(
                &mut out,
                &c.peer_key,
                Label::Ended { kind: CallKind::Direct, caller: c.caller, connected_at: c.connected_at },
            );
            out.push(Effect::Persist);
            assert(out@ =~= hangup_local_effects(*old(s)) + hangup_remote_effects(*old(s)));
            proof {
                lemma_one_dropped(*old(s), *s, out@, 1, old(s).call->0.ring_handle@);
            }
            return (Ok(()), out);
        },
        None => {},
    }
    match s.claiming.take() {
        Some(p) => {
            out.push(
                Effect::EndSystemCall { ring: p.offer.ring_handle, cause: DisconnectCause::Local },
            );
            proof {
                lemma_one_dropped(*old(s), *s, out@, 0, old(s).claiming->0.offer.ring_handle@);
            }
            if s.client.is_none() {
                return (Err(CallError::NotConfigured), out);
            }
            out.push(
                Effect::SendTerminalToDevice {
                    device_key: p.offer.peer_key.clone(),
                    mailbox: p.offer.caller_reply_to_mailbox,
                    call: p.offer.call_instance_id.clone(),
                    offer: p.offer.offer_id.clone(),
                    reason: CallTerminalReason::DeclinedHere,
                },
            );
            out.push(
                Effect::RecordTerminal {
                    call: p.offer.call_instance_id,
                    offer: p.offer.offer_id,
                    reason: CallTerminalReason::DeclinedHere,
                    retention: call_retention_secs(s),
                },
            );
            log_call_event(&mut out, &p.offer.peer_key, Label::CallEnded);
            out.push(Effect::Persist);
            assert(out@ =~= hangup_local_effects(*old(s)) + hangup_remote_effects(*old(s)));
            proof {
                lemma_one_dropped(*old(s), *s, out@, 0, old(s).claiming->0.offer.ring_handle@);
            }
            return (Ok(()), out);
        },
        None => {},
    }
    match s.reconnect.take() {
        Some(rc) => {
            out.push(Effect::EndSystemCall { ring: rc.ring_handle, cause: DisconnectCause::Local });
            proof {
                lemma_one_dropped(*old(s), *s, out@, 0, old(s).reconnect->0.ring_handle@);
            }
            if s.client.is_none() {
                return (Err(CallError::NotConfigured), out);
            }
            if rc.caller {
                out.push(
                    Effect::SendTerminalEverywhere {
                        username: rc.peer_username,
                        peer_key: rc.peer_key.clone(),
                        call: rc.call_instance_id,
                        offer: rc.offer_id,
                        reason: CallTerminalReason::CallerCancelled,
                    },
                );
            } else {
                out.push(
                    Effect::SendTerminalToDevice {
                        device_key: rc.peer_device_key,
                        mailbox: rc.peer_reply_to_mailbox,
                        call: rc.call_instance_id,
                        offer: rc.offer_id,
                        reason: CallTerminalReason::DeclinedHere,
                    },
                );
            }
            log_call_event(
                &mut out,
                &rc.peer_key,
                Label::Ended { kind: CallKind::Direct, caller: rc.caller, connected_at: rc.connected_at },
            );
            out.push(Effect::Persist);
            assert(out@ =~= hangup_local_effects(*old(s)) + hangup_remote_effects(*old(s)));
            proof {
                lemma_one_dropped(*old(s), *s, out@, 0, old(s).reconnect->0.ring_handle@);
            }
        },
        None => {},
    }
    (Ok(()), out)
}

/// Begin placing a call: hold the call slot for it, and say whom it is to and through which
/// connection. The slot is let go again with [`release_call_slot`], however the call comes
/// out.
pub fn call_start(s: &mut Session, username: &str) -> (r: Result<(String, u64), CallError>)
    ensures
        !slot_free(*old(s)) ==> r == Err::<(String, u64), CallError>(CallError::AlreadyInACall)
            && *final(s) == *old(s),
        slot_free(*old(s)) && old(s).client is None ==> r == Err::<(String, u64), CallError>(
            CallError::NotConfigured,
        ) && *final(s) == (Session { outgoing_setup: None, ..*old(s) }),
        slot_free(*old(s)) && old(s).client is Some ==> {
            &&& r matches Ok((name, client)) && name@ == trimmed_of(username@) && client
                == old(s).client->0
            &&& *final(s) == (Session { call_setup: true, ..*old(s) })
        },
{
    match reserve_call_slot(s) {
        Err(e) => {
            return Err(e);
        },
        Ok(_) => {},
    }
    match s.client {
        Some(client) => Ok((trim(username), client)),
        None => {
            let _ = release_call_slot(s);
            Err(CallError::NotConfigured)
        },
    }
}

/// Open the window in which answers to a new call are kept, before its first offer leaves this
/// device.
pub fn begin_outgoing(s: &mut Session, client: u64, call: String, offer: String) -> (r: Result<(), CallError>)
    ensures
        old(s).client != Some(client) ==> r == Err::<(), CallError>(CallError::NotConfigured) && *final(s)
            == *old(s),
        old(s).client == Some(client) && old(s).account is None ==> r == Err::<(), CallError>(
            CallError::Locked,
        ) && *final(s) == *old(s),
        old(s).client == Some(client) && old(s).account is Some ==> {
            &&& r is Ok
            &&& final(s).outgoing_setup matches Some(setup) && setup.call_instance_id == call
                && setup.offer_id == offer && setup.claims@ == Seq::<super::types::BufferedClaim>::empty()
            &&& *final(s) == (Session { outgoing_setup: final(s).outgoing_setup, ..*old(s) })
        },
{
    if !is_current(s, client) {
        return Err(CallError::NotConfigured);
    }
    if s.account.is_none() {
        return Err(CallError::Locked);
    }
    s.outgoing_setup = Some(OutgoingSetup { call_instance_id: call, offer_id: offer, claims: Vec::new() });
    Ok(())
}

/// How many of the first offers arrived.
pub open spec fn delivered(results: Seq<Result<(), String>>) -> nat
    decreases results.len(),
{
    if results.len() == 0 {
        0
    } else {
        delivered(results.drop_last()) + (if results.last() is Ok {
            1nat
        } else {
            0nat
        })
    }
}

/// An error among the results, if there is one, comes with the number that arrived.
proof fn lemma_delivered(results: Seq<Result<(), String>>)
    ensures
        delivered(results) <= results.len(),
        delivered(results) == 0 && results.len() > 0 ==> results[0] is Err,
    decreases results.len(),
{
    if results.len() > 0 {
        lemma_delivered(results.drop_last());
    }
}

/// How many devices ring, out of the offers that were posted; an error where none does: the
/// first that was reported.
pub fn count_rung(results: &Vec<Result<(), String>>, none_reached: CallError) -> (r: Result<usize, CallError>)
    ensures
        delivered(results@) > 0 ==> r == Ok::<usize, CallError>(delivered(results@) as usize),
        delivered(results@) == 0 && results@.len() == 0 ==> r == Err::<usize, CallError>(none_reached),
        delivered(results@) == 0 && results@.len() > 0 ==> results@[0] is Err && r == Err::<
            usize,
            CallError,
        >(CallError::Other(results@[0]->Err_0)),
{
    let mut n: usize = 0;
    let mut i: usize = 0;
    assert(results@.take(0) =~= Seq::<Result<(), String>>::empty());
    while i < results.len()
        invariant
            i <= results@.len(),
            n == delivered(results@.take(i as int)),
            n <= i,
        decreases results.len() - i,
    {
        let ghost upto = results@.take(i + 1);
        assert(upto.drop_last() =~= results@.take(i as int));
        assert(upto.last() == results@[i as int]);
        match &results[i] {
            Ok(_) => {
                n = n + 1;
            },
            Err(_) => {},
        }
        i = i + 1;
    }
    assert(results@.take(i as int) =~= results@);
    proof {
        lemma_delivered(results@);
    }
    if n > 0 {
        return Ok(n);
    }
    if results.len() > 0 {
        match &results[0] {
            Err(text) => {
                return Err(CallError::Other(text.clone()));
            },
            Ok(_) => {},
        }
    }
    Err(none_reached)
}

/// The offers are out: if the call is still to be placed, it is registered and saved.
pub fn outgoing_registered(
    s: &Session,
    client: u64,
    ended: Option<CallTerminalReason>,
    call: &String,
    offer: &String,
    created_at: u64,
    ring_expires_at: u64,
) -> (r: Result<Vec<Effect>, CallError>)
    ensures
        match not_live(*s, client, ended) {
            Some(e) => r == Err::<Vec<Effect>, CallError>(e),
            None => r matches Ok(out) && out@ == seq![
                Effect::RegisterOffer {
                    call: *call,
                    offer: *offer,
                    created_at,
                    ring_expires_at,
                    retention: retention_of(*s),
                },
                Effect::Persist,
            ],
        },
        r matches Ok(out) ==> starts_none(out@),
{
    match call_still_live(s, client, ended) {
        Err(e) => Err(e),
        Ok(_) => {
            let mut out: Vec<Effect> = Vec::new();
            out.push(
                Effect::RegisterOffer {
                    call: call.clone(),
                    offer: offer.clone(),
                    created_at,
                    ring_expires_at,
                    retention: call_retention_secs(s),
                },
            );
            out.push(Effect::Persist);
            Ok(out)
        },
    }
}

/// The outgoing call is registered and `saved` says whether that was saved. If it was, the user
/// and the platform are told that it rings; if not, it is abandoned before either hears of it.
pub fn outgoing_ringing(saved: Result<(), String>, ring_handle: &String, username: &String) -> (r: Result<
    Vec<Effect>,
    CallError,
>)
    ensures
        match saved {
            Err(text) => r == Err::<Vec<Effect>, CallError>(CallError::Other(text)),
            Ok(_) => r matches Ok(out) && out@ == seq![
                Effect::Emit(CallEvent::Outgoing { username: *username }),
                Effect::StartSystemCall {
                    ring: *ring_handle,
                    name: RingName::Named(*username),
                    video: false,
                    incoming: false,
                },
            ] && forall|s: Session| #[trigger] accounts_for(s, None, s, Some(ring_handle@), out@),
        },
{
    match saved {
        Err(text) => Err(CallError::Other(text)),
        Ok(_) => {
            let mut out: Vec<Effect> = Vec::new();
            out.push(Effect::Emit(CallEvent::Outgoing { username: username.clone() }));
            out.push(
                Effect::StartSystemCall {
                    ring: ring_handle.clone(),
                    name: RingName::Named(username.clone()),
                    video: false,
                    incoming: false,
                },
            );
            Ok(out)
        },
    }
}

/// The plan to join the room of an outgoing call. What the callee can do, and where they are
/// answered, is not known until they answer.
pub fn outgoing_join(
    call: String,
    offer: String,
    ring_handle: String,
    ticket: Ticket,
    username: String,
    peer_key: String,
    ring_fanout: usize,
) -> (r: JoinPlan)
    ensures
        r.peer_reply_to_mailbox@.len() == 0,
        r == (JoinPlan {
            call_instance_id: call,
            offer_id: offer,
            ring_handle,
            call_id: ticket.call_id,
            key_b64: ticket.key_b64,
            peer_username: username,
            peer_key,
            peer_reply_to_mailbox: r.peer_reply_to_mailbox,
            caller: true,
            peer_media: PeerMedia::Known(false),
            ring_fanout,
        }),
{
    JoinPlan {
        call_instance_id: call,
        offer_id: offer,
        ring_handle,
        call_id: ticket.call_id,
        key_b64: ticket.key_b64,
        peer_username: username,
        peer_key,
        peer_reply_to_mailbox: String::new(),
        caller: true,
        peer_media: PeerMedia::Known(false),
        ring_fanout,
    }
}

/// The room of an outgoing call did not come up: the system call that was handed to the
/// platform comes back.
pub fn outgoing_failed(ring_handle: &String) -> (out: Vec<Effect>)
    ensures
        out@ == seq![
            Effect::EndSystemCall { ring: *ring_handle, cause: DisconnectCause::Error },
        ],
        forall|s: Session| #[trigger] accounts_for(s, Some(ring_handle@), s, None, out@),
{
    let mut out: Vec<Effect> = Vec::new();
    out.push(Effect::EndSystemCall { ring: ring_handle.clone(), cause: DisconnectCause::Error });
    assert(ends(out@[0], ring_handle@));
    out
}

/// The handle of the call the platform has, if it has one: the 1:1 call's, else the group
/// call's.
pub open spec fn system_call_of(s: Session) -> Option<String> {
    match s.call {
        Some(c) => Some(c.ring_handle),
        None => match s.group_call {
            Some(g) => Some(g.ring_handle),
            None => None,
        },
    }
}

/// The handle of the call the platform has. While it has one, it decides the audio route and
/// is asked for it.
pub fn system_call(s: &Session) -> (r: Option<String>)
    ensures
        r == system_call_of(*s),
{
    match &s.call {
        Some(c) => Some(c.ring_handle.clone()),
        None => match &s.group_call {
            Some(g) => Some(g.ring_handle.clone()),
            None => None,
        },
    }
}

/// Where a route request goes.
pub enum RouteRequest {
    /// To the platform's call.
    SystemCall { ring: String, route: String },
    /// Straight to the audio bridge.
    Bridge { route: String },
}

/// A route that can be asked for.
pub open spec fn known_route(route: Seq<char>) -> bool {
    route == "earpiece"@ || route == "speaker"@ || route == "bluetooth"@
}

/// Ask for an audio route.
pub fn call_set_route(s: &Session, route: &String) -> (r: Result<RouteRequest, CallError>)
    ensures
        !known_route(route@) ==> r == Err::<RouteRequest, CallError>(CallError::UnknownRoute),
        known_route(route@) ==> r == Ok::<RouteRequest, CallError>(
            match system_call_of(*s) {
                Some(ring) => RouteRequest::SystemCall { ring, route: *route },
                None => RouteRequest::Bridge { route: *route },
            },
        ),
{
    if !same(route.as_str(), "earpiece") && !same(route.as_str(), "speaker") && !same(
        route.as_str(),
        "bluetooth",
    ) {
        return Err(CallError::UnknownRoute);
    }
    match system_call(s) {
        Some(ring) => Ok(RouteRequest::SystemCall { ring, route: route.clone() }),
        None => Ok(RouteRequest::Bridge { route: route.clone() }),
    }
}

/// Ask for the loudspeaker, or for the earpiece.
pub fn call_set_speaker(s: &Session, on: bool) -> (r: RouteRequest)
    ensures
        ({
            let route = if on {
                "speaker"@
            } else {
                "earpiece"@
            };
            match system_call_of(*s) {
                Some(handle) => r matches RouteRequest::SystemCall { ring, route: asked } && ring == handle
                    && asked@ == route,
                None => r matches RouteRequest::Bridge { route: asked } && asked@ == route,
            }
        }),
{
    let route: String = if on {
        "speaker".to_owned()
    } else {
        "earpiece".to_owned()
    };
    match system_call(s) {
        Some(ring) => RouteRequest::SystemCall { ring, route },
        None => RouteRequest::Bridge { route },
    }
}

/// A tone there is.
pub open spec fn known_tone(kind: Seq<char>) -> bool {
    kind == "ringback"@ || kind == "ring"@ || kind == "end"@ || kind == "stop"@
}

/// Whether to play a tone. The in-app ring sounds only where it is the only one: not over the
/// native ring, and not while the application is in the background.
pub fn call_tone(kind: &str, ring_active: bool, focused: bool) -> (r: Result<bool, CallError>)
    ensures
        !known_tone(kind@) ==> r == Err::<bool, CallError>(CallError::UnknownTone),
        known_tone(kind@) ==> r == Ok::<bool, CallError>(
            !(kind@ == "ring"@ && (ring_active || !focused)),
        ),
{
    let ring = same(kind, "ring");
    if !ring && !same(kind, "ringback") && !same(kind, "end") && !same(kind, "stop") {
        return Err(CallError::UnknownTone);
    }
    Ok(!(ring && (ring_active || !focused)))
}

/// Which device a selection is about.
pub enum MediaDevice {
    Input(Option<String>),
    Output(Option<String>),
    Camera(Option<String>),
}

/// A device selection: an absent or empty id goes back to the platform's choice.
pub fn call_set_media_device(kind: &str, id: Option<String>) -> (r: Result<MediaDevice, CallError>)
    ensures
        ({
            let pin = match id {
                Some(text) => if text@.len() == 0 {
                    None
                } else {
                    id
                },
                None => id,
            };
            if kind@ == "camera"@ {
                r == Ok::<MediaDevice, CallError>(MediaDevice::Camera(pin))
            } else if kind@ == "input"@ {
                r == Ok::<MediaDevice, CallError>(MediaDevice::Input(pin))
            } else if kind@ == "output"@ {
                r == Ok::<MediaDevice, CallError>(MediaDevice::Output(pin))
            } else {
                r == Err::<MediaDevice, CallError>(CallError::UnknownDeviceKind)
            }
        }),
{
    let pin: Option<String> = match id {
        Some(text) => if text.as_str().is_empty() {
            None
        } else {
            Some(text)
        },
        None => None,
    };
    if same(kind, "camera") {
        Ok(MediaDevice::Camera(pin))
    } else if same(kind, "input") {
        Ok(MediaDevice::Input(pin))
    } else if same(kind, "output") {
        Ok(MediaDevice::Output(pin))
    } else {
        Err(CallError::UnknownDeviceKind)
    }
}

/// Mute or unmute the microphone of the live call.
pub fn call_set_muted(s: &mut Session, muted: bool) -> (r: Result<(), CallError>)
    ensures
        match old(s).call {
            None => r == Err::<(), CallError>(CallError::NoActiveCall) && *final(s) == *old(s),
            Some(c) => r is Ok && *final(s) == (Session { call: Some(CallCtl { muted, ..c }), ..*old(s) }),
        },
{
    match &mut s.call {
        Some(c) => {
            c.muted = muted;
            Ok(())
        },
        None => Err(CallError::NoActiveCall),
    }
}

/// Switch the camera of the live call.
pub fn call_set_camera(s: &mut Session, on: bool) -> (r: Result<(), CallError>)
    ensures
        match old(s).call {
            None => r == Err::<(), CallError>(CallError::NoActiveCall) && *final(s) == *old(s),
            Some(c) => r is Ok && *final(s) == (Session {
                call: Some(CallCtl { camera_on: on, ..c }),
                ..*old(s)
            }),
        },
{
    match &mut s.call {
        Some(c) => {
            c.camera_on = on;
            Ok(())
        },
        None => Err(CallError::NoActiveCall),
    }
}

/// The share source the user picked.
pub struct ScreenSourcePick {
    /// `"screen"` or `"window"`; anything else means the primary monitor.
    pub kind: String,
    pub id: u32,
}

/// What is shared.
#[derive(Clone, Copy, Debug, PartialEq, Eq, Structural)]
pub enum ScreenTarget {
    Primary,
    Screen(u32),
    Window(u32),
}

/// What a pick means.
pub open spec fn target_of(source: Option<ScreenSourcePick>) -> ScreenTarget {
    match source {
        Some(p) => if p.kind@ == "screen"@ {
            ScreenTarget::Screen(p.id)
        } else if p.kind@ == "window"@ {
            ScreenTarget::Window(p.id)
        } else {
            ScreenTarget::Primary
        },
        None => ScreenTarget::Primary,
    }
}

/// Start or stop sharing the screen. Only one end shares at a time; what is shared is set
/// before the share starts (`Some` in the result), and stopping stops the shared audio too.
pub fn call_set_screen(s: &mut Session, on: bool, source: Option<ScreenSourcePick>) -> (r: Result<
    Option<ScreenTarget>,
    CallError,
>)
    ensures
        match old(s).call {
            None => r == Err::<Option<ScreenTarget>, CallError>(CallError::NoActiveCall) && *final(s)
                == *old(s),
            Some(c) => if on && c.peer_screen {
                r == Err::<Option<ScreenTarget>, CallError>(CallError::OneScreenOnly) && *final(s)
                    == *old(s)
            } else {
                &&& r == Ok::<Option<ScreenTarget>, CallError>(
                    if on {
                        Some(target_of(source))
                    } else {
                        None
                    },
                )
                &&& *final(s) == (Session {
                    call: Some(
                        CallCtl {
                            screen_on: on,
                            screen_audio_on: on && c.screen_audio_on,
                            ..c
                        },
                    ),
                    ..*old(s)
                })
            },
        },
{
    match &mut s.call {
        Some(c) => {
            if on && c.peer_screen {
                return Err(CallError::OneScreenOnly);
            }
            let target: Option<ScreenTarget> = if on {
                match source {
                    Some(p) => if same(p.kind.as_str(), "screen") {
                        Some(ScreenTarget::Screen(p.id))
                    } else if same(p.kind.as_str(), "window") {
                        Some(ScreenTarget::Window(p.id))
                    } else {
                        Some(ScreenTarget::Primary)
                    },
                    None => Some(ScreenTarget::Primary),
                }
            } else {
                None
            };
            c.screen_on = on;
            if !on {
                c.screen_audio_on = false;
            }
            Ok(target)
        },
        None => Err(CallError::NoActiveCall),
    }
}

/// Switch the system audio that goes with a shared screen.
pub fn call_set_screen_audio(s: &mut Session, on: bool, available: bool) -> (r: Result<(), CallError>)
    ensures
        match old(s).call {
            None => r == Err::<(), CallError>(CallError::NoActiveCall) && *final(s) == *old(s),
            Some(c) => if on && !available {
                r == Err::<(), CallError>(CallError::NoSystemAudio) && *final(s) == *old(s)
            } else {
                r is Ok && *final(s) == (Session {
                    call: Some(CallCtl { screen_audio_on: on, ..c }),
                    ..*old(s)
                })
            },
        },
{
    match &mut s.call {
        Some(c) => {
            if on && !available {
                return Err(CallError::NoSystemAudio);
            }
            c.screen_audio_on = on;
            Ok(())
        },
        None => Err(CallError::NoActiveCall),
    }
}

/// The live call as the user interface shows it.
pub struct ActiveCallView {
    pub username: String,
    pub call_id: String,
    pub outgoing: bool,
    pub connected: bool,
    pub muted: bool,
    pub video_ready: bool,
    pub camera_on: bool,
    pub screen_on: bool,
    pub screen_audio_on: bool,
    pub peer_camera: bool,
    pub peer_screen: bool,
    pub transport: String,
}

/// The ringing call as the user interface shows it.
pub struct IncomingCallView {
    pub username: String,
    pub call_id: String,
}

/// The live group call as the user interface shows it.
pub struct ActiveGroupView {
    pub group_id: String,
    pub name: String,
    pub muted: bool,
    /// The members who can be heard.
    pub peers: Vec<String>,
}

/// The ringing group call as the user interface shows it.
pub struct IncomingGroupView {
    pub group_id: String,
    pub name: String,
    pub from: String,
}

/// An answered group ring as the user interface shows it.
pub struct ClaimingGroupView {
    pub group_id: String,
    pub name: String,
}

/// Everything the user interface shows of calls.
pub struct CallStatusView {
    pub active: Option<ActiveCallView>,
    pub incoming: Option<IncomingCallView>,
    /// The peer of an answered ring.
    pub claiming: Option<String>,
    /// The peer of a call being resumed.
    pub reconnecting: Option<String>,
    pub group_active: Option<ActiveGroupView>,
    pub group_incoming: Option<IncomingGroupView>,
    pub group_claiming: Option<ClaimingGroupView>,
    /// An answer waits for the account's own password.
    pub unlock_credential: bool,
}

/// The live call as it is shown.
pub open spec fn active_view(c: CallCtl) -> ActiveCallView {
    ActiveCallView {
        username: c.peer_username,
        call_id: c.call_id,
        outgoing: c.caller,
        connected: c.connected,
        muted: c.muted,
        video_ready: c.video_ready,
        camera_on: c.camera_on,
        screen_on: c.screen_on,
        screen_audio_on: c.screen_audio_on,
        peer_camera: c.peer_camera,
        peer_screen: c.peer_screen,
        transport: c.transport,
    }
}

fn values_of(m: &NameMap<String>) -> (r: Vec<String>)
    ensures
        r@ == Seq::new(m.entries@.len(), |i: int| m.entries@[i].1),
{
    let mut r: Vec<String> = Vec::new();
    let mut i: usize = 0;
    while i < m.entries.len()
        invariant
            i <= m.entries@.len(),
            r@.len() == i,
            forall|j: int| 0 <= j < i ==> #[trigger] r@[j] == m.entries@[j].1,
        decreases m.entries.len() - i,
    {
        r.push(m.entries[i].1.clone());
        i = i + 1;
    }
    assert(r@ =~= Seq::new(m.entries@.len(), |i: int| m.entries@[i].1));
    r
}

/// What the user interface shows of calls right now.
pub fn call_status(s: &Session, now: u64) -> (r: CallStatusView)
    ensures
        r.active == match s.call {
            Some(c) => Some(active_view(c)),
            None => None,
        },
        r.incoming == match s.incoming {
            Some(o) => Some(IncomingCallView { username: o.username, call_id: o.call_id }),
            None => None,
        },
        r.claiming == match s.claiming {
            Some(p) => Some(p.offer.username),
            None => None,
        },
        r.reconnecting == match s.reconnect {
            Some(rc) => Some(rc.peer_username),
            None => None,
        },
        match s.group_call {
            Some(g) => r.group_active matches Some(v) && v.group_id == g.group_id && v.name == g.group_name
                && v.muted == g.muted && v.peers@ == Seq::new(
                g.connected.entries@.len(),
                |i: int| g.connected.entries@[i].1,
            ),
            None => r.group_active is None,
        },
        r.group_incoming == match s.group_incoming {
            Some(o) => Some(
                IncomingGroupView {
                    group_id: o.group_id,
                    name: o.group_name,
                    from: o.rang_by_username,
                },
            ),
            None => None,
        },
        r.group_claiming == match s.group_claiming {
            Some(p) => Some(
                ClaimingGroupView { group_id: p.offer.group_id, name: p.offer.group_name },
            ),
            None => None,
        },
        r.unlock_credential == (s.pending_unlock matches Some(p) && p.wants_credential && p.expires_at
            > now),
{
    CallStatusView {
        active: match &s.call {
            Some(c) => Some(
                ActiveCallView {
                    username: c.peer_username.clone(),
                    call_id: c.call_id.clone(),
                    outgoing: c.caller,
                    connected: c.connected,
                    muted: c.muted,
                    video_ready: c.video_ready,
                    camera_on: c.camera_on,
                    screen_on: c.screen_on,
                    screen_audio_on: c.screen_audio_on,
                    peer_camera: c.peer_camera,
                    peer_screen: c.peer_screen,
                    transport: c.transport.clone(),
                },
            ),
            None => None,
        },
        incoming: match &s.incoming {
            Some(o) => Some(
                IncomingCallView { username: o.username.clone(), call_id: o.call_id.clone() },
            ),
            None => None,
        },
        claiming: match &s.claiming {
            Some(p) => Some(p.offer.username.clone()),
            None => None,
        },
        reconnecting: match &s.reconnect {
            Some(rc) => Some(rc.peer_username.clone()),
            None => None,
        },
        group_active: match &s.group_call {
            Some(g) => Some(
                ActiveGroupView {
                    group_id: g.group_id.clone(),
                    name: g.group_name.clone(),
                    muted: g.muted,
                    peers: values_of(&g.connected),
                },
            ),
            None => None,
        },
        group_incoming: match &s.group_incoming {
            Some(o) => Some(
                IncomingGroupView {
                    group_id: o.group_id.clone(),
                    name: o.group_name.clone(),
                    from: o.rang_by_username.clone(),
                },
            ),
            None => None,
        },
        group_claiming: match &s.group_claiming {
            Some(p) => Some(
                ClaimingGroupView {
                    group_id: p.offer.group_id.clone(),
                    name: p.offer.group_name.clone(),
                },
            ),
            None => None,
        },
        unlock_credential: match &s.pending_unlock {
            Some(p) => p.wants_credential && p.expires_at > now,
            None => false,
        },
    }
}

/// A call that is declined stops ringing, and where there is a connection the caller is told by
/// the device and mailbox it rang with, the registry and this account's other devices learn of it,
/// and the conversation shows that it was declined. What the siblings are told is that it was
/// declined elsewhere.
pub proof fn lemma_a_declined_call_is_told_to_everybody(s: Session)
    requires
        s.incoming is Some,
    ensures
        ({
            let o = s.incoming->0;
            let (refused, out) = decline_outcome(s);
            &&& out[0] == (Effect::CancelRing { ring: o.ring_handle, name: RingName::Nobody })
            &&& refused is Some <==> s.client is None
            &&& s.client is None ==> refused == Some(CallError::NotConfigured) && out.len() == 1
            &&& s.client is Some ==> {
                &&& out[1] == (Effect::SendTerminalToDevice {
                    device_key: o.peer_key,
                    mailbox: o.caller_reply_to_mailbox,
                    call: o.call_instance_id,
                    offer: o.offer_id,
                    reason: CallTerminalReason::DeclinedHere,
                })
                &&& out[2] matches Effect::RecordTerminal { call, offer, reason, .. } && call == o.call_instance_id
                    && offer == o.offer_id && reason == CallTerminalReason::DeclinedHere
                &&& out[3] == (Effect::SelfSyncTerminal {
                    call: o.call_instance_id,
                    offer: o.offer_id,
                    reason: CallTerminalReason::DeclinedElsewhere,
                })
                &&& o.peer_key@.len() > 0 ==> out[4] == (Effect::RecordChip {
                    peer_key: o.peer_key,
                    label: Label::DeclinedCall,
                })
                &&& out.last() == Effect::Persist
            }
        }),
{
}

/// Where nothing rings there is nothing to decline.
pub proof fn lemma_nothing_rings_nothing_is_declined(s: Session)
    requires
        s.incoming is None,
    ensures
        decline_outcome(s).0 == Some(CallError::NoIncomingCall),
        decline_outcome(s).1.len() == 0,
{
}

/// A command fails exactly with what stands in its way.
pub proof fn lemma_a_command_fails_with_its_reason(r: Result<(), CallError>, e: CallError)
    ensures
        outcome_is(r, None) <==> r is Ok,
        outcome_is(r, Some(e)) ==> r is Err && r->Err_0 == e,
{
}

/// Hanging up goes for the live call first, then for an answer that waits, then for a call that is
/// being resumed; it lets go of that one and of nothing else, ends its system call as the user's
/// own doing, and stops the media of a live call.
pub proof fn lemma_hanging_up_lets_go_of_one_call(s: Session)
    ensures
        ({
            let after = after_hangup(s);
            let out = hangup_local_effects(s);
            &&& something_up(s) <==> !(s.call is None && s.claiming is None && s.reconnect is None)
            &&& after.incoming == s.incoming && after.group_call == s.group_call && after.rings == s.rings
                && after.group_incoming == s.group_incoming && after.group_claiming == s.group_claiming
            &&& s.call is Some ==> after.call is None && after.claiming == s.claiming && after.reconnect
                == s.reconnect && out.len() == 2 && out[0] == (Effect::StopMedia { room: s.call->0.call_id })
                && out[1] == (Effect::EndSystemCall {
                ring: s.call->0.ring_handle,
                cause: DisconnectCause::Local,
            })
            &&& s.call is None && s.claiming is Some ==> after.claiming is None && after.reconnect == s.reconnect
                && out.len() == 1 && out[0] == (Effect::EndSystemCall {
                ring: s.claiming->0.offer.ring_handle,
                cause: DisconnectCause::Local,
            })
            &&& s.call is None && s.claiming is None && s.reconnect is Some ==> after.reconnect is None && out.len()
                == 1 && out[0] == (Effect::EndSystemCall {
                ring: s.reconnect->0.ring_handle,
                cause: DisconnectCause::Local,
            })
            &&& s.call is None && s.claiming is None && s.reconnect is None ==> after == s && out.len() == 0
                && hangup_remote_effects(s).len() == 0
        }),
{
}

/// Who placed a call takes it back from every device of the callee, as cancelled; who answered it
/// tells the one device it is with, as declined. The conversation shows the call with its own
/// direction and the time it connected. A live call and one that is being resumed are alike.
pub proof fn lemma_hanging_up_is_told_to_the_other_end(s: Session)
    ensures
        s.call is Some ==> ({
            let c = s.call->0;
            let out = hangup_remote_effects(s);
            &&& c.caller ==> out[0] == (Effect::SendTerminalEverywhere {
                username: c.peer_username,
                peer_key: c.peer_key,
                call: c.call_instance_id,
                offer: c.offer_id,
                reason: CallTerminalReason::CallerCancelled,
            })
            &&& !c.caller ==> out[0] == (Effect::SendTerminalToDevice {
                device_key: c.peer_device_key,
                mailbox: c.peer_reply_to_mailbox,
                call: c.call_instance_id,
                offer: c.offer_id,
                reason: CallTerminalReason::DeclinedHere,
            })
            &&& c.peer_key@.len() > 0 ==> out[1] == (Effect::RecordChip {
                peer_key: c.peer_key,
                label: Label::Ended { kind: CallKind::Direct, caller: c.caller, connected_at: c.connected_at },
            })
            &&& out.last() == Effect::Persist
        }),
        s.call is None && s.claiming is Some ==> ({
            let o = s.claiming->0.offer;
            let out = hangup_remote_effects(s);
            &&& out[0] == (Effect::SendTerminalToDevice {
                device_key: o.peer_key,
                mailbox: o.caller_reply_to_mailbox,
                call: o.call_instance_id,
                offer: o.offer_id,
                reason: CallTerminalReason::DeclinedHere,
            })
            &&& out[1] matches Effect::RecordTerminal { call, offer, reason, .. } && call == o.call_instance_id
                && offer == o.offer_id && reason == CallTerminalReason::DeclinedHere
            &&& o.peer_key@.len() > 0 ==> out[2] == (Effect::RecordChip {
                peer_key: o.peer_key,
                label: Label::CallEnded,
            })
            &&& out.last() == Effect::Persist
        }),
        s.call is None && s.claiming is None && s.reconnect is Some ==> ({
            let rc = s.reconnect->0;
            let out = hangup_remote_effects(s);
            &&& rc.caller ==> out[0] == (Effect::SendTerminalEverywhere {
                username: rc.peer_username,
                peer_key: rc.peer_key,
                call: rc.call_instance_id,
                offer: rc.offer_id,
                reason: CallTerminalReason::CallerCancelled,
            })
            &&& !rc.caller ==> out[0] == (Effect::SendTerminalToDevice {
                device_key: rc.peer_device_key,
                mailbox: rc.peer_reply_to_mailbox,
                call: rc.call_instance_id,
                offer: rc.offer_id,
                reason: CallTerminalReason::DeclinedHere,
            })
            &&& rc.peer_key@.len() > 0 ==> out[1] == (Effect::RecordChip {
                peer_key: rc.peer_key,
                label: Label::Ended { kind: CallKind::Direct, caller: rc.caller, connected_at: rc.connected_at },
            })
            &&& out.last() == Effect::Persist
        }),
{
}

/// Every offer that arrived counts, wherever it stands among the results, and no other does.
pub proof fn lemma_each_delivery_counts(results: Seq<Result<(), String>>, more: Seq<Result<(), String>>)
    ensures
        delivered(results + more) == delivered(results) + delivered(more),
        delivered(seq![Ok::<(), String>(())]) == 1,
        results.len() == 1 && results[0] is Err ==> delivered(results) == 0,
        delivered(results) <= results.len(),
        delivered(results) == results.len() <==> forall|i: int| 0 <= i < results.len() ==> #[trigger] results[i] is Ok,
        delivered(results) == 0 <==> forall|i: int| 0 <= i < results.len() ==> #[trigger] results[i] is Err,
    decreases more.len(), results.len(),
{
    let one = seq![Ok::<(), String>(())];
    assert(one.drop_last() =~= Seq::<Result<(), String>>::empty());
    assert(one.last() is Ok);
    assert(delivered(one.drop_last()) == 0);
    if more.len() == 0 {
        assert(results + more =~= results);
        if results.len() > 0 {
            let rest = results.drop_last();
            lemma_each_delivery_counts(rest, more);
            assert forall|i: int| 0 <= i < rest.len() implies #[trigger] rest[i] == results[i] by {}
            if forall|i: int| 0 <= i < rest.len() ==> #[trigger] rest[i] is Ok {
                assert forall|i: int| 0 <= i < results.len() - 1 implies #[trigger] results[i] is Ok by {
                    assert(rest[i] is Ok);
                }
            }
            if forall|i: int| 0 <= i < rest.len() ==> #[trigger] rest[i] is Err {
                assert forall|i: int| 0 <= i < results.len() - 1 implies #[trigger] results[i] is Err by {
                    assert(rest[i] is Err);
                }
            }
        }
    } else {
        lemma_each_delivery_counts(results, more.drop_last());
        assert((results + more).drop_last() =~= results + more.drop_last());
        assert((results + more).last() == more.last());
    }
}

/// The platform's call is the live call of two, else the live group call.
pub proof fn lemma_the_platform_has_one_call(s: Session)
    ensures
        s.call matches Some(c) ==> system_call_of(s) == Some(c.ring_handle),
        s.call is None && s.group_call is Some ==> system_call_of(s) == Some(s.group_call->0.ring_handle),
        s.call is None && s.group_call is None ==> system_call_of(s) is None,
{
}

/// What is shared is the picked screen or window, by its own id, and without a pick the primary
/// monitor.
pub proof fn lemma_what_is_picked_is_shared(pick: ScreenSourcePick)
    ensures
        target_of(None) == ScreenTarget::Primary,
        pick.kind@ == "screen"@ ==> target_of(Some(pick)) == ScreenTarget::Screen(pick.id),
        pick.kind@ == "window"@ ==> target_of(Some(pick)) == ScreenTarget::Window(pick.id),
        pick.kind@ != "screen"@ && pick.kind@ != "window"@ ==> target_of(Some(pick)) == ScreenTarget::Primary,
{
    reveal_strlit("screen");
    reveal_strlit("window");
    assert("screen"@[0] != "window"@[0]);
}

/// The live call is shown as it is.
pub proof fn lemma_a_live_call_is_shown_as_it_is(c: CallCtl)
    ensures
        active_view(c).username == c.peer_username,
        active_view(c).call_id == c.call_id,
        active_view(c).outgoing == c.caller,
        active_view(c).connected == c.connected,
        active_view(c).muted == c.muted,
        active_view(c).video_ready == c.video_ready,
        active_view(c).camera_on == c.camera_on,
        active_view(c).screen_on == c.screen_on,
        active_view(c).screen_audio_on == c.screen_audio_on,
        active_view(c).peer_camera == c.peer_camera,
        active_view(c).peer_screen == c.peer_screen,
        active_view(c).transport == c.transport,
{
}

/// The routes and tones there are.
pub proof fn lemma_the_routes_and_tones(name: Seq<char>)
    ensures
        known_route(name) <==> name == "earpiece"@ || name == "speaker"@ || name == "bluetooth"@,
        known_tone(name) <==> name == "ringback"@ || name == "ring"@ || name == "end"@ || name == "stop"@,
{
}

} // verus!
