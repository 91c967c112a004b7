//! Ending a group call: declining the ring, and leaving a call this device is in.
//!
//! Every path here owes the same three things: the outcome on the wire, the outcome in the
//! registry, and the system call taken down.

use super::auth::{coordinates_here, local_group_coordinator};
use super::cmd::outcome_is;
use super::error::CallError;
use super::handles::{lemma_one_dropped, no_orphans};
use super::session::{call_retention_secs, group_chip, log_group_call_event, retention_of, Session};
use super::types::{
    CallKind, CallTerminalReason, DisconnectCause, Effect, GroupCallCtl, GroupEvent, Label, LegOffer,
    PendingGroupOffer, RingName,
};
use vstd::prelude::*;

verus! {

/// The word of decline to one device that offered a leg.
pub open spec fn decline_to(o: PendingGroupOffer, entry: (String, LegOffer)) -> Effect {
    Effect::SendGroupTerminal {
        username: entry.1.username,
        peer_key: entry.0,
        group_id: o.group_id,
        call: o.call_instance,
        ring_id: o.ring_id,
        coordinator: o.coordinator,
        reason: CallTerminalReason::DeclinedHere,
    }
}

/// The words of decline: one to every device that offered a leg, if the vault is open to seal
/// them.
pub open spec fn declines(s: Session, o: PendingGroupOffer) -> Seq<Effect> {
    if s.account is None {
        Seq::empty()
    } else {
        o.offers.entries@.map_values(|e: (String, LegOffer)| decline_to(o, e))
    }
}

fn push_declines(out: &mut Vec<Effect>, o: &PendingGroupOffer)
    ensures
        final(out)@ == old(out)@ + o.offers.entries@.map_values(
            |e: (String, LegOffer)| decline_to(*o, e),
        ),
{
    let ghost all = o.offers.entries@.map_values(|e: (String, LegOffer)| decline_to(*o, e));
    let ghost before = out@;
    let mut i: usize = 0;
    assert(before + all.take(0) =~= before);
    while i < o.offers.entries.len()
        invariant
            i <= o.offers.entries@.len(),
            all == o.offers.entries@.map_values(|e: (String, LegOffer)| decline_to(*o, e)),
            out@ == before + all.take(i as int),
        decreases o.offers.entries.len() - i,
    {
        let entry = &o.offers.entries[i];
        out.push(
            Effect::SendGroupTerminal {
                username: entry.1.username.clone(),
                peer_key: entry.0.clone(),
                group_id: o.group_id.clone(),
                call: o.call_instance.clone(),
                ring_id: o.ring_id.clone(),
                coordinator: o.coordinator.clone(),
                reason: CallTerminalReason::DeclinedHere,
            },
        );
        assert(out@ =~= before + all.take(i + 1));
        i = i + 1;
    }
    assert(all.take(i as int) =~= all);
}

/// What declining a group comes to: whether it succeeds or why not, and what is done.
pub open spec fn group_decline_outcome(s: Session) -> (Option<CallError>, Seq<Effect>) {
    match s.group_incoming {
        None => (Some(CallError::NoIncomingGroupCall), Seq::empty()),
        Some(o) => {
            let cancel = seq![Effect::CancelRing { ring: o.ring_handle, name: RingName::Nobody }];
            if s.client is None {
                (
                    Some(CallError::NotConfigured),
                    cancel + seq![
                        Effect::RecordTerminal {
                            call: o.call_instance,
                            offer: o.ring_id,
                            reason: CallTerminalReason::DeclinedHere,
                            retention: retention_of(s),
                        },
                    ],
                )
            } else {
                (
                    None,
                    cancel + declines(s, o) + seq![
                        Effect::SelfSyncTerminal {
                            call: o.call_instance,
                            offer: o.ring_id,
                            reason: CallTerminalReason::DeclinedElsewhere,
                        },
                        Effect::RecordTerminal {
                            call: o.call_instance,
                            offer: o.ring_id,
                            reason: CallTerminalReason::DeclinedHere,
                            retention: retention_of(s),
                        },
                    ] + group_chip(o.group_id, Label::DeclinedGroupCall) + seq![Effect::Persist],
                )
            }
        },
    }
}

/// Decline the ringing group call: the ring stops and the outcome is recorded whatever else
/// happens; everybody known to be in the call and this account's other devices are told if there
/// is a connection to tell them through.
pub fn group_call_decline(s: &mut Session) -> (r: (Result<(), CallError>, Vec<Effect>))
    ensures
        *final(s) == (Session { group_incoming: None, ..*old(s) }),
        outcome_is(r.0, group_decline_outcome(*old(s)).0),
        r.1@ == group_decline_outcome(*old(s)).1,
        no_orphans(*old(s), *final(s), r.1@),
{
    let mut out: Vec<Effect> = Vec::new();
    let o: PendingGroupOffer = match s.group_incoming.take() {
        Some(o) => o,
        None => {
            return (Err(CallError::NoIncomingGroupCall), out);
        },
    };
    out.push(Effect::CancelRing { ring: o.ring_handle.clone(), name: RingName::Nobody });
    if s.client.is_none() {
        out.push(
            Effect::RecordTerminal {
                call: o.call_instance,
                offer: o.ring_id,
                reason: CallTerminalReason::DeclinedHere,
                retention: call_retention_secs(s),
            },
        );
        proof {
            lemma_one_dropped(*old(s), *s, out@, 0, old(s).group_incoming->0.ring_handle@);
        }
        return (Err(CallError::NotConfigured), out);
    }
    let ghost head = out@;
    if s.account.is_some() {
        push_declines(&mut out, &o);
    }
    assert(out@ =~= head + declines(*old(s), o));
    out.push(
        Effect::SelfSyncTerminal {
            call: o.call_instance.clone(),
            offer: o.ring_id.clone(),
            reason: CallTerminalReason::DeclinedElsewhere,
        },
    );
    out.push(
        Effect::RecordTerminal {
            call: o.call_instance,
            offer: o.ring_id,
            reason: CallTerminalReason::DeclinedHere,
            retention: call_retention_secs(s),
        },
    );
    log_group_call_event(&mut out, &o.group_id, Label::DeclinedGroupCall);
    out.push(Effect::Persist);
    proof {
        assert(out@[0] == head[0]);
        lemma_one_dropped(*old(s), *s, out@, 0, old(s).group_incoming->0.ring_handle@);
    }
    (Ok(()), out)
}

/// What leaving says: the coordinator's leave ends the call for everybody, any other's is only
/// theirs.
pub open spec fn leaving_reason(s: Session, g: GroupCallCtl) -> CallTerminalReason {
    if coordinates_here(s, g.coordinator) {
        CallTerminalReason::CallerCancelled
    } else {
        CallTerminalReason::DeclinedHere
    }
}

/// The session once the group call, or else the wait for the coordinator, has been left.
pub open spec fn after_group_hangup(s: Session) -> Session {
    if s.group_call is Some {
        Session { group_call: None, ..s }
    } else {
        Session { group_claiming: None, ..s }
    }
}

/// The word to the members that this device takes its answer back, where it can be sent.
pub open spec fn left_answer(s: Session, o: PendingGroupOffer) -> Seq<Effect> {
    if s.client is Some && s.account is Some {
        seq![
            Effect::SendGroupTerminalEverywhere {
                group_id: o.group_id,
                call: o.call_instance,
                ring_id: o.ring_id,
                coordinator: o.coordinator,
                reason: CallTerminalReason::DeclinedHere,
            },
        ]
    } else {
        Seq::empty()
    }
}

/// What leaving comes to: whether it succeeds or why not, and what is done.
pub open spec fn group_hangup_outcome(s: Session) -> (Option<CallError>, Seq<Effect>) {
    match (s.group_call, s.group_claiming) {
        (None, None) => (None, Seq::empty()),
        (None, Some(p)) => (
            None,
            seq![
                Effect::EndSystemCall { ring: p.offer.ring_handle, cause: DisconnectCause::Local },
            ] + left_answer(s, p.offer) + seq![
                Effect::RecordTerminal {
                    call: p.offer.call_instance,
                    offer: p.offer.ring_id,
                    reason: CallTerminalReason::DeclinedHere,
                    retention: retention_of(s),
                },
            ] + group_chip(p.offer.group_id, Label::GroupCallEnded) + seq![
                Effect::EmitGroup(GroupEvent::Ended),
                Effect::Persist,
            ],
        ),
        (Some(g), _) => {
            let down = seq![
                Effect::StopMedia { room: g.call_instance },
                Effect::EndSystemCall { ring: g.ring_handle, cause: DisconnectCause::Local },
            ];
            let record = seq![
                Effect::RecordTerminal {
                    call: g.call_instance,
                    offer: g.ring_id,
                    reason: leaving_reason(s, g),
                    retention: retention_of(s),
                },
            ];
            if s.client is None {
                (Some(CallError::NotConfigured), down + record)
            } else {
                (
                    None,
                    down + seq![
                        Effect::SendGroupTerminalEverywhere {
                            group_id: g.group_id,
                            call: g.call_instance,
                            ring_id: g.ring_id,
                            coordinator: g.coordinator,
                            reason: leaving_reason(s, g),
                        },
                    ] + record + group_chip(
                        g.group_id,
                        Label::Ended {
                            kind: CallKind::Group,
                            caller: true,
                            connected_at: g.connected_at,
                        },
                    ) + seq![Effect::Persist],
                )
            }
        },
    }
}

/// Leave the live group call, or stop waiting for the coordinator's word on an answered one.
/// With neither there is nothing to do.
pub fn group_call_hangup(s: &mut Session) -> (r: (Result<(), CallError>, Vec<Effect>))
    ensures
        *final(s) == after_group_hangup(*old(s)),
        outcome_is(r.0, group_hangup_outcome(*old(s)).0),
        r.1@ == group_hangup_outcome(*old(s)).1,
        no_orphans(*old(s), *final(s), r.1@),
{
    let mut out: Vec<Effect> = Vec::new();
    let retention: u64 = call_retention_secs(s);
    match s.group_call.take() {
        None => {
            if let Some(p) = s.group_claiming.take() {
                out.push(
                    Effect::EndSystemCall {
                        ring: p.offer.ring_handle,
                        cause: DisconnectCause::Local,
                    },
                );
                if s.client.is_some() && s.account.is_some() {
                    out.push(
                        Effect::SendGroupTerminalEverywhere {
                            group_id: p.offer.group_id.clone(),
                            call: p.offer.call_instance.clone(),
                            ring_id: p.offer.ring_id.clone(),
                            coordinator: p.offer.coordinator,
                            reason: CallTerminalReason::DeclinedHere,
                        },
                    );
                }
                out.push(
                    Effect::RecordTerminal {
                        call: p.offer.call_instance,
                        offer: p.offer.ring_id,
                        reason: CallTerminalReason::DeclinedHere,
                        retention,
                    },
                );
                log_group_call_event(&mut out, &p.offer.group_id, Label::GroupCallEnded);
                out.push(Effect::EmitGroup(GroupEvent::Ended));
                out.push(Effect::Persist);
                proof {
                    lemma_one_dropped(*old(s), *s, out@, 0, old(s).group_claiming->0.offer.ring_handle@);
                }
            }
            (Ok(()), out)
        },
        Some(g) => {
            out.push(Effect::StopMedia { room: g.call_instance.clone() });
            out.push(Effect::EndSystemCall { ring: g.ring_handle, cause: DisconnectCause::Local });
            let reason: CallTerminalReason = if local_group_coordinator(s, &g.coordinator) {
                CallTerminalReason::CallerCancelled
            } else {
                CallTerminalReason::DeclinedHere
            };
            if s.client.is_none() {
                out.push(
                    Effect::RecordTerminal { call: g.call_instance, offer: g.ring_id, reason, retention },
                );
                proof {
                    lemma_one_dropped(*old(s), *s, out@, 1, old(s).group_call->0.ring_handle@);
                }
                return (Err(CallError::NotConfigured), out);
            }
            out.push(
                Effect::SendGroupTerminalEverywhere {
                    group_id: g.group_id.clone(),
                    call: g.call_instance.clone(),
                    ring_id: g.ring_id.clone(),
                    coordinator: g.coordinator,
                    reason,
                },
            );
            out.push(
                Effect::RecordTerminal { call: g.call_instance, offer: g.ring_id, reason, retention },
            );
            log_group_call_event(
                &mut out,
                &g.group_id,
                Label::Ended { kind: CallKind::Group, caller: true, connected_at: g.connected_at },
            );
            out.push(Effect::Persist);
            proof {
                lemma_one_dropped(*old(s), *s, out@, 1, old(s).group_call->0.ring_handle@);
            }
            (Ok(()), out)
        },
    }
}

/// Mute or unmute the microphone of the live group call.
pub fn group_call_set_muted(s: &mut Session, muted: bool) -> (r: Result<(), CallError>)
    ensures
        match old(s).group_call {
            None => r == Err::<(), CallError>(CallError::NoActiveGroupCall) && *final(s) == *old(s),
            Some(g) => r is Ok && *final(s) == (Session {
                group_call: Some(GroupCallCtl { muted, ..g }),
                ..*old(s)
            }),
        },
{
    match &mut s.group_call {
        Some(g) => {
            g.muted = muted;
            Ok(())
        },
        None => Err(CallError::NoActiveGroupCall),
    }
}

/// Everybody known to be in a group call this device declines is told so, each at their own
/// device, with the call, the ring and its coordinator.
pub proof fn lemma_everybody_is_told_of_a_declined_group_call(s: Session, o: PendingGroupOffer, i: int)
    requires
        0 <= i < o.offers.entries@.len(),
    ensures
        s.account is None ==> declines(s, o).len() == 0,
        s.account is Some ==> declines(s, o).len() == o.offers.entries@.len() && declines(s, o)[i]
            == (Effect::SendGroupTerminal {
            username: o.offers.entries@[i].1.username,
            peer_key: o.offers.entries@[i].0,
            group_id: o.group_id,
            call: o.call_instance,
            ring_id: o.ring_id,
            coordinator: o.coordinator,
            reason: CallTerminalReason::DeclinedHere,
        }),
{
}

/// A declined group call stops ringing first, is recorded as declined whether or not there is a
/// connection, and through one the siblings learn that it was declined elsewhere and the
/// conversation shows it.
pub proof fn lemma_a_declined_group_call_is_recorded(s: Session)
    requires
        s.group_incoming is Some,
    ensures
        ({
            let o = s.group_incoming->0;
            let (refused, out) = group_decline_outcome(s);
            let n = declines(s, o).len() as int;
            &&& out[0] == (Effect::CancelRing { ring: o.ring_handle, name: RingName::Nobody })
            &&& refused is Some <==> s.client is None
            &&& s.client is None ==> refused == Some(CallError::NotConfigured) && out.len() == 2 && (
            out[1] matches Effect::RecordTerminal { call, offer, reason, .. } && call == o.call_instance && offer
                == o.ring_id && reason == CallTerminalReason::DeclinedHere)
            &&& s.client is Some ==> {
                &&& forall|i: int| 0 <= i < n ==> #[trigger] declines(s, o)[i] == out[1 + i]
                &&& out[1 + n] == (Effect::SelfSyncTerminal {
                    call: o.call_instance,
                    offer: o.ring_id,
                    reason: CallTerminalReason::DeclinedElsewhere,
                })
                &&& out[2 + n] matches Effect::RecordTerminal { call, offer, reason, .. } && call == o.call_instance
                    && offer == o.ring_id && reason == CallTerminalReason::DeclinedHere
                &&& out[3 + n] == (Effect::RecordGroupChip {
                    group_id: o.group_id,
                    label: Label::DeclinedGroupCall,
                })
                &&& out.last() == Effect::Persist
            }
        }),
{
}

/// The coordinator's leave ends a group call for everybody; anybody else's is their own.
pub proof fn lemma_what_a_leave_says(s: Session, g: GroupCallCtl)
    ensures
        s.account is Some && s.account->0.identity_key@ == g.coordinator.identity_key@ && s.directory.self_device_id@
            == g.coordinator.device_id@ ==> leaving_reason(s, g) == CallTerminalReason::CallerCancelled,
        !(s.account is Some && s.account->0.identity_key@ == g.coordinator.identity_key@
            && s.directory.self_device_id@ == g.coordinator.device_id@) ==> leaving_reason(s, g)
            == CallTerminalReason::DeclinedHere,
{
}

/// A group call that is left stops its media, ends its system call as the user's own doing, and is
/// recorded with what the leave says; through a connection every member is told the same, and the
/// conversation shows the call with the time it connected.
pub proof fn lemma_a_group_call_is_left_whole(s: Session)
    requires
        s.group_call is Some,
    ensures
        ({
            let g = s.group_call->0;
            let (refused, out) = group_hangup_outcome(s);
            &&& out[0] == (Effect::StopMedia { room: g.call_instance })
            &&& out[1] == (Effect::EndSystemCall { ring: g.ring_handle, cause: DisconnectCause::Local })
            &&& after_group_hangup(s).group_call is None && after_group_hangup(s).group_claiming == s.group_claiming
                && after_group_hangup(s).call == s.call && after_group_hangup(s).rings == s.rings
            &&& refused is Some <==> s.client is None
            &&& s.client is None ==> out.len() == 3 && (out[2] matches Effect::RecordTerminal {
                call,
                offer,
                reason,
                ..
            } && call == g.call_instance && offer == g.ring_id && reason == leaving_reason(s, g))
            &&& s.client is Some ==> {
                &&& out[2] == (Effect::SendGroupTerminalEverywhere {
                    group_id: g.group_id,
                    call: g.call_instance,
                    ring_id: g.ring_id,
                    coordinator: g.coordinator,
                    reason: leaving_reason(s, g),
                })
                &&& out[3] matches Effect::RecordTerminal { call, offer, reason, .. } && call == g.call_instance
                    && offer == g.ring_id && reason == leaving_reason(s, g)
                &&& out[4] == (Effect::RecordGroupChip {
                    group_id: g.group_id,
                    label: Label::Ended {
                        kind: CallKind::Group,
                        caller: true,
                        connected_at: g.connected_at,
                    },
                })
                &&& out.last() == Effect::Persist
            }
        }),
{
}

/// An answer to a group that is taken back ends its system call, is recorded as declined, is told
/// to the members where that can be, and the user is told that it ended. With neither a call nor
/// an answer nothing is done.
pub proof fn lemma_a_group_answer_is_taken_back_whole(s: Session)
    requires
        s.group_call is None,
    ensures
        s.group_claiming is None ==> group_hangup_outcome(s).0 is None && group_hangup_outcome(s).1.len() == 0
            && after_group_hangup(s) == s,
        s.group_claiming is Some ==> ({
            let o = s.group_claiming->0.offer;
            let (refused, out) = group_hangup_outcome(s);
            let told = s.client is Some && s.account is Some;
            let n: int = if told {
                1
            } else {
                0
            };
            &&& refused is None
            &&& after_group_hangup(s).group_claiming is None
            &&& out[0] == (Effect::EndSystemCall { ring: o.ring_handle, cause: DisconnectCause::Local })
            &&& told ==> out[1] == (Effect::SendGroupTerminalEverywhere {
                group_id: o.group_id,
                call: o.call_instance,
                ring_id: o.ring_id,
                coordinator: o.coordinator,
                reason: CallTerminalReason::DeclinedHere,
            })
            &&& out[1 + n] matches Effect::RecordTerminal { call, offer, reason, .. } && call == o.call_instance
                && offer == o.ring_id && reason == CallTerminalReason::DeclinedHere
            &&& out[2 + n] == (Effect::RecordGroupChip { group_id: o.group_id, label: Label::GroupCallEnded })
            &&& out[out.len() - 2] == Effect::EmitGroup(GroupEvent::Ended)
            &&& out.last() == Effect::Persist
        }),
{
}

} // verus!
