//! Receiving capsules: when this device reads its call-control mailbox, and what a locked
//! callee's refusal obliges a caller to.

use super::session::{is_current, Session};
use super::types::{CallCapsule, CallTerminalReason, CapsuleKind, Effect};
use crate::text::same;
use vstd::prelude::*;

verus! {

/// How often a caller reads its call-control mailbox while a call rings out, in seconds.
pub const RINGING_CAPSULE_POLL_SECS: u64 = 5;

/// As whom this device reads its call-control mailbox: the account and the device id. `None`
/// while it may not: the connection changed, the device was unlinked, the vault is locked, or
/// the device has no call-control key.
pub fn drain_call_capsules(s: &Session, client: u64) -> (r: Option<(String, String)>)
    ensures
        r == if s.client == Some(client) && !s.directory.revoked && s.call_key is Some && s.account is Some {
            Some((s.account->0.account_id, s.directory.self_device_id))
        } else {
            None
        },
{
    if !is_current(s, client) || s.directory.revoked || s.call_key.is_none() {
        return None;
    }
    match &s.account {
        Some(account) => Some((account.account_id.clone(), s.directory.self_device_id.clone())),
        None => None,
    }
}

/// The capsule refuses, on the callee's side, the call this device is placing.
pub open spec fn refuses_our_call(s: Session, capsule: CallCapsule) -> bool {
    &&& capsule.kind is Terminal
    &&& capsule.reason matches Some(reason) && (reason is DeclinedHere || reason is Busy)
    &&& s.call matches Some(c) && c.caller && c.call_instance_id@ == capsule.call_instance_id@
}

/// What a capsule obliges this device to as the caller. A locked callee can tell the caller
/// alone that it declined; the callee's other devices still ring, and it is for the caller,
/// who rang them, to stop them. To be asked before the capsule is applied.
pub fn caller_relay_for(s: &Session, capsule: &CallCapsule) -> (r: Option<Effect>)
    ensures
        r == if refuses_our_call(*s, *capsule) {
            Some(
                Effect::SendTerminalEverywhere {
                    username: s.call->0.peer_username,
                    peer_key: s.call->0.peer_key,
                    call: capsule.call_instance_id,
                    offer: s.call->0.offer_id,
                    reason: CallTerminalReason::DeclinedElsewhere,
                },
            )
        } else {
            None
        },
{
    if capsule.kind != CapsuleKind::Terminal {
        return None;
    }
    let refusal = match capsule.reason {
        Some(CallTerminalReason::DeclinedHere) => true,
        Some(CallTerminalReason::Busy) => true,
        _ => false,
    };
    if !refusal {
        return None;
    }
    match &s.call {
        Some(c) => if c.caller && c.call_instance_id == capsule.call_instance_id {
            Some(
                Effect::SendTerminalEverywhere {
                    username: c.peer_username.clone(),
                    peer_key: c.peer_key.clone(),
                    call: capsule.call_instance_id.clone(),
                    offer: c.offer_id.clone(),
                    reason: CallTerminalReason::DeclinedElsewhere,
                },
            )
        } else {
            None
        },
        None => None,
    }
}

/// The call is out and nobody has connected.
pub open spec fn rings_out(s: Session, call: Seq<char>) -> bool {
    ||| s.call matches Some(c) && c.call_instance_id@ == call && !c.connected
    ||| s.group_call matches Some(g) && g.call_instance@ == call && g.connected@ == Map::<
        Seq<char>,
        String,
    >::empty()
}

/// Whether the caller goes on reading its call-control mailbox for this call.
pub fn ringing_capsule_poll(s: &Session, client: u64, call: &str) -> (r: bool)
    ensures
        r == (s.client == Some(client) && s.call_key is Some && rings_out(*s, call@)),
{
    if !is_current(s, client) || s.call_key.is_none() {
        return false;
    }
    let direct = match &s.call {
        Some(c) => same(c.call_instance_id.as_str(), call) && !c.connected,
        None => false,
    };
    let group = match &s.group_call {
        Some(g) => same(g.call_instance.as_str(), call) && g.connected.is_empty(),
        None => false,
    };
    direct || group
}

/// A callee's device that declines or is busy obliges who placed the call, and nobody else, and
/// only for that very call.
pub proof fn lemma_a_refusal_obliges_the_caller(s: Session, capsule: CallCapsule)
    ensures
        refuses_our_call(s, capsule) <==> capsule.kind is Terminal && (capsule.reason == Some(
            CallTerminalReason::DeclinedHere,
        ) || capsule.reason == Some(CallTerminalReason::Busy)) && s.call is Some && s.call->0.caller
            && s.call->0.call_instance_id@ == capsule.call_instance_id@,
{
}

/// A call rings out until somebody is there: the other end of a call of two, or any member of a
/// group call.
pub proof fn lemma_a_call_rings_out_until_somebody_is_there(s: Session, call: Seq<char>)
    ensures
        s.call is Some && s.call->0.call_instance_id@ == call && s.group_call is None ==> (rings_out(s, call)
            <==> !s.call->0.connected),
        s.group_call is Some && s.group_call->0.call_instance@ == call && s.call is None ==> (rings_out(s, call)
            <==> forall|peer: Seq<char>| !(#[trigger] s.group_call->0.connected@.dom().contains(peer))),
        s.call is None && s.group_call is None ==> !rings_out(s, call),
{
    if s.group_call is Some {
        let m = s.group_call->0.connected@;
        if forall|peer: Seq<char>| !(#[trigger] m.dom().contains(peer)) {
            assert(m =~= Map::<Seq<char>, String>::empty());
        }
    }
}

} // verus!
