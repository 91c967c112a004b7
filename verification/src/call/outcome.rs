//! What the user learns of a call that ends, whichever layer or device said so.

use super::ending::{
    after_ending, after_self_terminal, claim_ending, ending_effects, expected_peer, group_claim_ending,
    group_endings, group_live_ending, group_ring_ending, live_ending,
    resume_ending, ring_ending, self_terminal_effects, settled, terminal_authentic, CallTerminal,
};
use super::session::Session;
use super::store::adoption_effects;
use super::system::cause_of;
use super::types::{
    CallEvent, CallKind, CallTerminalReason, Effect, GroupEvent, Label, RingName,
    TerminalDecision,
};
use vstd::prelude::*;

verus! {

/// Nothing is said of a group.
spec fn of_two(out: Seq<Effect>) -> bool {
    forall|i: int| 0 <= i < out.len() ==> !(#[trigger] out[i] is EmitGroup) && !(out[i] is RecordGroupChip)
}

/// Nothing is said of a call of two.
spec fn of_a_group(out: Seq<Effect>) -> bool {
    forall|i: int| 0 <= i < out.len() ==> !(#[trigger] out[i] is Emit) && !(out[i] is RecordChip)
}

proof fn lemma_in_a_row(a: Seq<Effect>, b: Seq<Effect>)
    ensures
        of_two(a) && of_two(b) ==> of_two(a + b),
        of_a_group(a) && of_a_group(b) ==> of_a_group(a + b),
{
    assert forall|i: int| 0 <= i < (a + b).len() implies #[trigger] (a + b)[i] == (if i < a.len() {
        a[i]
    } else {
        b[i - a.len()]
    }) by {}
}

/// What ending a group call says, it says of a group, and what ending a call of two says, it does
/// not.
proof fn lemma_each_kind_speaks_for_itself(s: Session, call: Seq<char>, reason: CallTerminalReason)
    ensures
        of_a_group(group_endings(s, call, reason)),
        of_two(direct_endings(s, call, reason)),
        ending_effects(s, call, reason) == direct_endings(s, call, reason) + group_endings(s, call, reason),
{
    let live = live_ending(s, call, reason);
    let ring = ring_ending(s, call, reason);
    let claim = claim_ending(s, call, reason);
    let resume = resume_ending(s, call, reason);
    assert(of_two(live));
    assert(of_two(ring));
    assert(of_two(claim));
    assert(of_two(resume));
    lemma_in_a_row(live, ring);
    lemma_in_a_row(claim, resume);
    lemma_in_a_row(live + ring, claim + resume);
    let group_live = group_live_ending(s, call, reason);
    let group_ring = group_ring_ending(s, call, reason);
    let group_claim = group_claim_ending(s, call, reason);
    assert(of_a_group(group_live));
    assert(of_a_group(group_ring));
    assert(of_a_group(group_claim));
    lemma_in_a_row(group_live, group_ring);
    lemma_in_a_row(group_live + group_ring, group_claim);
}

/// What ending a call of two does.
spec fn direct_endings(s: Session, call: Seq<char>, reason: CallTerminalReason) -> Seq<Effect> {
    live_ending(s, call, reason) + ring_ending(s, call, reason) + (claim_ending(s, call, reason) + resume_ending(
        s,
        call,
        reason,
    ))
}

/// Every outcome has its own honest cause in the platform's call log. Being answered and being
/// declined on another device are one to it.
pub proof fn lemma_each_outcome_has_its_cause(reason: CallTerminalReason)
    ensures
        cause_of(reason) is AnsweredElsewhere <==> reason is AnsweredElsewhere || reason is DeclinedElsewhere,
        cause_of(reason) is Local <==> reason is AnsweredHere,
        cause_of(reason) is Rejected <==> reason is DeclinedHere,
        cause_of(reason) is Remote <==> reason is CallerCancelled,
        cause_of(reason) is Missed <==> reason is Expired,
        cause_of(reason) is Busy <==> reason is Busy,
        cause_of(reason) is Error <==> reason is TransportError,
{
}

/// A ring that ends was missed if, and only if, its caller gave up: then the conversation says so
/// and the user is told. Any other outcome was dealt with somewhere: the user is told how, and the
/// conversation gets no entry. The call is held in no other form.
pub proof fn lemma_a_ring_is_missed_when_its_caller_gives_up(s: Session, call: Seq<char>, reason: CallTerminalReason)
    requires
        s.incoming is Some,
        s.incoming->0.call_instance_id@ == call,
        s.incoming->0.peer_key@.len() > 0,
        !(s.call is Some && s.call->0.call_instance_id@ == call),
        !(s.claiming is Some && s.claiming->0.offer.call_instance_id@ == call),
        !(s.reconnect is Some && s.reconnect->0.call_instance_id@ == call),
    ensures
        ({
            let o = s.incoming->0;
            let out = ending_effects(s, call, reason);
            &&& reason == CallTerminalReason::CallerCancelled <==> out.contains(
                Effect::RecordChip { peer_key: o.peer_key, label: Label::MissedCall },
            )
            &&& reason == CallTerminalReason::CallerCancelled <==> out.contains(Effect::Emit(CallEvent::Missed))
            &&& reason != CallTerminalReason::CallerCancelled <==> out.contains(
                Effect::Emit(CallEvent::Handled { reason }),
            )
            &&& reason != CallTerminalReason::CallerCancelled ==> forall|peer_key: String, label: Label|
                !(#[trigger] out.contains(Effect::RecordChip { peer_key, label }))
            &&& reason == CallTerminalReason::CallerCancelled ==> forall|peer_key: String, label: Label|
                #[trigger] out.contains(Effect::RecordChip { peer_key, label }) ==> peer_key == o.peer_key && label
                    == Label::MissedCall
            &&& forall|other: CallTerminalReason| #[trigger]
                out.contains(Effect::Emit(CallEvent::Handled { reason: other })) ==> other == reason
            &&& !out.contains(Effect::Emit(CallEvent::Ended))
        }),
{
    let out = ending_effects(s, call, reason);
    let ring = direct_endings(s, call, reason);
    lemma_each_kind_speaks_for_itself(s, call, reason);
    assert(ring =~= ring_ending(s, call, reason));
    assert forall|i: int| 0 <= i < ring.len() implies #[trigger] out[i] == ring[i] by {}
    assert forall|e: Effect| #[trigger] out.contains(e) && (e is Emit || e is RecordChip) implies ring.contains(e) by {
        let i = choose|i: int| 0 <= i < out.len() && out[i] == e;
        if i >= ring.len() {
            assert(out[i] == group_endings(s, call, reason)[i - ring.len()]);
        }
        assert(ring[i] == e);
    }
    if reason == CallTerminalReason::CallerCancelled {
        assert(ring.len() == 5);
        assert(out[1] == Effect::RecordChip { peer_key: s.incoming->0.peer_key, label: Label::MissedCall });
        assert(out[4] == Effect::Emit(CallEvent::Missed));
    } else {
        assert(ring.len() == 2);
        assert(out[1] == Effect::Emit(CallEvent::Handled { reason }));
    }
}

/// The same holds of the two delivery layers, which take the announced ring down first: an outcome
/// that comes encrypted, and one that comes as a capsule, whose ring the store may have let go.
pub proof fn lemma_both_layers_say_the_same_of_a_ring(
    s: Session,
    call: Seq<char>,
    offer: Seq<char>,
    reason: CallTerminalReason,
    ring_down: Seq<Effect>,
)
    requires
        s.incoming is Some,
        s.incoming->0.call_instance_id@ == call,
        s.incoming->0.peer_key@.len() > 0,
        !(s.call is Some && s.call->0.call_instance_id@ == call),
        !(s.claiming is Some && s.claiming->0.offer.call_instance_id@ == call),
        !(s.reconnect is Some && s.reconnect->0.call_instance_id@ == call),
        forall|i: int| 0 <= i < ring_down.len() ==> #[trigger] ring_down[i] is CancelRing,
    ensures
        ({
            let missed = Effect::RecordChip { peer_key: s.incoming->0.peer_key, label: Label::MissedCall };
            let encrypted = adoption_effects(s, call, offer, false) + ending_effects(s, call, reason);
            let capsule = seq![Effect::SaveStore] + ring_down + ending_effects(s, call, reason);
            &&& reason == CallTerminalReason::CallerCancelled <==> encrypted.contains(missed)
            &&& reason == CallTerminalReason::CallerCancelled <==> capsule.contains(missed)
            &&& reason == CallTerminalReason::CallerCancelled <==> encrypted.contains(Effect::Emit(CallEvent::Missed))
            &&& reason == CallTerminalReason::CallerCancelled <==> capsule.contains(Effect::Emit(CallEvent::Missed))
            &&& reason != CallTerminalReason::CallerCancelled <==> encrypted.contains(
                Effect::Emit(CallEvent::Handled { reason }),
            )
            &&& reason != CallTerminalReason::CallerCancelled <==> capsule.contains(
                Effect::Emit(CallEvent::Handled { reason }),
            )
            &&& reason != CallTerminalReason::CallerCancelled ==> forall|peer_key: String, label: Label|
                !(#[trigger] encrypted.contains(Effect::RecordChip { peer_key, label }))
            &&& reason != CallTerminalReason::CallerCancelled ==> forall|peer_key: String, label: Label|
                !(#[trigger] capsule.contains(Effect::RecordChip { peer_key, label }))
        }),
{
    broadcast use vstd::seq_lib::group_seq_properties;

    lemma_a_ring_is_missed_when_its_caller_gives_up(s, call, reason);
}

/// The ring itself always comes down, under its handle and with no more of a name than the
/// privacy level allows.
pub proof fn lemma_a_ring_that_ends_comes_down(s: Session, call: Seq<char>, reason: CallTerminalReason)
    ensures
        s.incoming is Some && s.incoming->0.call_instance_id@ == call ==> ending_effects(s, call, reason).contains(
            Effect::CancelRing {
                ring: s.incoming->0.ring_handle,
                name: if s.prefs.notif_level@ == "generic"@ {
                    RingName::Generic
                } else {
                    RingName::Named(s.incoming->0.username)
                },
            },
        ),
        s.group_incoming is Some && s.group_incoming->0.call_instance@ == call ==> ending_effects(
            s,
            call,
            reason,
        ).contains(
            Effect::CancelRing {
                ring: s.group_incoming->0.ring_handle,
                name: if s.prefs.notif_level@ == "generic"@ {
                    RingName::Generic
                } else {
                    RingName::Named(s.group_incoming->0.group_name)
                },
            },
        ),
{
    broadcast use vstd::seq_lib::group_seq_properties;

}

/// A live call that ends stops its media, ends its system call with the outcome's cause, is
/// entered with its own connect time and direction, and the user is told that it ended.
pub proof fn lemma_a_live_call_ends_whole(s: Session, call: Seq<char>, reason: CallTerminalReason)
    requires
        s.call is Some,
        s.call->0.call_instance_id@ == call,
    ensures
        ({
            let c = s.call->0;
            let out = ending_effects(s, call, reason);
            &&& out.contains(Effect::StopMedia { room: c.call_id })
            &&& out.contains(Effect::EndSystemCall { ring: c.ring_handle, cause: cause_of(reason) })
            &&& out.contains(Effect::Emit(CallEvent::Ended))
            &&& c.peer_key@.len() > 0 ==> out.contains(
                Effect::RecordChip {
                    peer_key: c.peer_key,
                    label: Label::Ended {
                        kind: CallKind::Direct,
                        caller: c.caller,
                        connected_at: c.connected_at,
                    },
                },
            )
        }),
{
    broadcast use vstd::seq_lib::group_seq_properties;

}

/// An answered ring, and a call that is being resumed, end their system calls with the outcome's
/// cause and are entered: the one as ended, the other with the time it connected.
pub proof fn lemma_a_waiting_call_ends_whole(s: Session, call: Seq<char>, reason: CallTerminalReason)
    ensures
        s.claiming is Some && s.claiming->0.offer.call_instance_id@ == call ==> ({
            let o = s.claiming->0.offer;
            let out = ending_effects(s, call, reason);
            &&& out.contains(Effect::EndSystemCall { ring: o.ring_handle, cause: cause_of(reason) })
            &&& out.contains(Effect::Emit(CallEvent::Handled { reason }))
            &&& o.peer_key@.len() > 0 ==> out.contains(
                Effect::RecordChip { peer_key: o.peer_key, label: Label::CallEnded },
            )
        }),
        s.reconnect is Some && s.reconnect->0.call_instance_id@ == call ==> ({
            let rc = s.reconnect->0;
            let out = ending_effects(s, call, reason);
            &&& out.contains(Effect::EndSystemCall { ring: rc.ring_handle, cause: cause_of(reason) })
            &&& out.contains(Effect::Emit(CallEvent::Ended))
            &&& rc.peer_key@.len() > 0 ==> out.contains(
                Effect::RecordChip {
                    peer_key: rc.peer_key,
                    label: Label::Ended {
                        kind: CallKind::Direct,
                        caller: true,
                        connected_at: rc.connected_at,
                    },
                },
            )
        }),
{
    broadcast use vstd::seq_lib::group_seq_properties;

}

/// A group's ring was missed if, and only if, the call ended for everybody: its caller gave up, it
/// expired, or it failed. Any other outcome was dealt with somewhere.
pub proof fn lemma_a_group_ring_is_missed_when_the_call_is_over(
    s: Session,
    call: Seq<char>,
    reason: CallTerminalReason,
)
    requires
        s.group_incoming is Some,
        s.group_incoming->0.call_instance@ == call,
        !(s.group_call is Some && s.group_call->0.call_instance@ == call),
        !(s.group_claiming is Some && s.group_claiming->0.offer.call_instance@ == call),
    ensures
        ({
            let o = s.group_incoming->0;
            let out = ending_effects(s, call, reason);
            let over = reason == CallTerminalReason::CallerCancelled || reason == CallTerminalReason::Expired
                || reason == CallTerminalReason::TransportError;
            &&& over <==> out.contains(Effect::EmitGroup(GroupEvent::Missed))
            &&& over <==> out.contains(
                Effect::RecordGroupChip {
                    group_id: o.group_id,
                    label: Label::MissedGroupCall { from: o.rang_by_username },
                },
            )
            &&& !over <==> out.contains(Effect::EmitGroup(GroupEvent::Handled { reason }))
            &&& !over ==> forall|group_id: String, label: Label|
                !(#[trigger] out.contains(Effect::RecordGroupChip { group_id, label }))
        }),
{
    let out = ending_effects(s, call, reason);
    let direct = direct_endings(s, call, reason);
    let ring = group_endings(s, call, reason);
    lemma_each_kind_speaks_for_itself(s, call, reason);
    let n = direct.len() as int;
    assert forall|i: int| 0 <= i < ring.len() implies #[trigger] ring[i] == out[n + i] by {}
    assert forall|e: Effect| #[trigger]
        out.contains(e) && (e is EmitGroup || e is RecordGroupChip) implies ring.contains(e) by {
        let i = choose|i: int| 0 <= i < out.len() && out[i] == e;
        if i < n {
            assert(out[i] == direct[i]);
        }
        assert(ring[i - n] == e);
    }
    let o = s.group_incoming->0;
    if reason == CallTerminalReason::CallerCancelled || reason == CallTerminalReason::Expired || reason
        == CallTerminalReason::TransportError {
        assert(ring.len() == 5);
        assert(out[n + 1] == ring[1]);
        assert(out[n + 4] == ring[4]);
        assert(ring[4] == Effect::EmitGroup(GroupEvent::Missed));
    } else {
        assert(ring.len() == 2);
        assert(out[n + 1] == ring[1]);
    }
}

/// A live group call and an answered group ring that end do so whole.
pub proof fn lemma_a_group_call_ends_whole(s: Session, call: Seq<char>, reason: CallTerminalReason)
    ensures
        s.group_call is Some && s.group_call->0.call_instance@ == call ==> ({
            let g = s.group_call->0;
            let out = ending_effects(s, call, reason);
            &&& out.contains(Effect::StopMedia { room: g.call_instance })
            &&& out.contains(Effect::EndSystemCall { ring: g.ring_handle, cause: cause_of(reason) })
            &&& out.contains(Effect::EmitGroup(GroupEvent::Ended))
            &&& out.contains(
                Effect::RecordGroupChip {
                    group_id: g.group_id,
                    label: Label::Ended {
                        kind: CallKind::Group,
                        caller: false,
                        connected_at: g.connected_at,
                    },
                },
            )
        }),
        s.group_claiming is Some && s.group_claiming->0.offer.call_instance@ == call ==> ({
            let o = s.group_claiming->0.offer;
            let out = ending_effects(s, call, reason);
            &&& out.contains(Effect::EndSystemCall { ring: o.ring_handle, cause: cause_of(reason) })
            &&& out.contains(Effect::EmitGroup(GroupEvent::Handled { reason }))
            &&& out.contains(Effect::RecordGroupChip { group_id: o.group_id, label: Label::GroupCallEnded })
        }),
{
    broadcast use vstd::seq_lib::group_seq_properties;

}

/// Ending a call takes down everything held for it and nothing held for another call, and where
/// nothing is held for it, nothing is done.
pub proof fn lemma_ending_takes_down_what_is_held(s: Session, call: Seq<char>, reason: CallTerminalReason)
    ensures
        ({
            let after = after_ending(s, call);
            let live = s.call is Some && s.call->0.call_instance_id@ == call;
            let rings = s.incoming is Some && s.incoming->0.call_instance_id@ == call;
            let answered = s.claiming is Some && s.claiming->0.offer.call_instance_id@ == call;
            let resumed = s.reconnect is Some && s.reconnect->0.call_instance_id@ == call;
            let group_live = s.group_call is Some && s.group_call->0.call_instance@ == call;
            let group_rings = s.group_incoming is Some && s.group_incoming->0.call_instance@ == call;
            let group_answered = s.group_claiming is Some && s.group_claiming->0.offer.call_instance@ == call;
            &&& live ==> after.call is None
            &&& !live ==> after.call == s.call
            &&& rings ==> after.incoming is None
            &&& !rings ==> after.incoming == s.incoming
            &&& answered ==> after.claiming is None
            &&& !answered ==> after.claiming == s.claiming
            &&& resumed ==> after.reconnect is None
            &&& !resumed ==> after.reconnect == s.reconnect
            &&& group_live ==> after.group_call is None
            &&& !group_live ==> after.group_call == s.group_call
            &&& group_rings ==> after.group_incoming is None
            &&& !group_rings ==> after.group_incoming == s.group_incoming
            &&& group_answered ==> after.group_claiming is None
            &&& !group_answered ==> after.group_claiming == s.group_claiming
            &&& after.rings == s.rings && after.pending_unlock == s.pending_unlock && after.call_setup
                == s.call_setup && after.outgoing_setup == s.outgoing_setup
            &&& !(live || rings || answered || resumed || group_live || group_rings || group_answered)
                ==> ending_effects(s, call, reason).len() == 0
        }),
{
}

/// What ends a call is what the registry settled on: an outcome it applied or knew. One it refused
/// ends nothing.
pub proof fn lemma_only_a_settled_outcome_ends_a_call(decision: TerminalDecision)
    ensures
        decision matches TerminalDecision::Applied(reason) ==> settled(decision) == Some(reason),
        decision matches TerminalDecision::Duplicate(reason) ==> settled(decision) == Some(reason),
        decision is Conflict || decision is Invalid || decision is Capacity ==> settled(decision) is None,
{
}

/// A ring another of this account's devices dealt with comes down without an entry, and the user is
/// told how it was dealt with; a live call is not touched by it.
pub proof fn lemma_a_siblings_word_leaves_no_entry(s: Session, call: Seq<char>, reason: CallTerminalReason)
    ensures
        ({
            let out = self_terminal_effects(s, call, reason);
            let after = after_self_terminal(s, call);
            &&& forall|i: int|
                0 <= i < out.len() ==> !(#[trigger] out[i] is RecordChip) && !(out[i] is RecordGroupChip)
                    && !(out[i] is StopMedia)
            &&& after.call == s.call && after.group_call == s.group_call && after.reconnect == s.reconnect
            &&& s.incoming is Some && s.incoming->0.call_instance_id@ == call ==> after.incoming is None
                && out.contains(Effect::Emit(CallEvent::Handled { reason })) && out.contains(
                Effect::CancelRing { ring: s.incoming->0.ring_handle, name: RingName::Nobody },
            )
            &&& !(s.incoming is Some && s.incoming->0.call_instance_id@ == call) ==> after.incoming == s.incoming
            &&& !(s.incoming is Some && s.incoming->0.call_instance_id@ == call) && s.group_incoming is Some
                && s.group_incoming->0.call_instance@ == call ==> after.group_incoming is None && out.contains(
                Effect::EmitGroup(GroupEvent::Handled { reason }),
            ) && out.contains(
                Effect::CancelRing { ring: s.group_incoming->0.ring_handle, name: RingName::Nobody },
            )
            &&& s.incoming is None && s.group_incoming is None && s.group_claiming is None && s.claiming is Some
                && s.claiming->0.offer.call_instance_id@ == call ==> after.claiming is None && out.contains(
                Effect::Emit(CallEvent::Handled { reason }),
            ) && out.contains(
                Effect::EndSystemCall { ring: s.claiming->0.offer.ring_handle, cause: cause_of(reason) },
            )
            &&& s.incoming is None && s.group_incoming is None && s.group_claiming is Some
                && s.group_claiming->0.offer.call_instance@ == call ==> after.group_claiming is None
                && out.contains(Effect::EmitGroup(GroupEvent::Handled { reason })) && out.contains(
                Effect::EndSystemCall {
                    ring: s.group_claiming->0.offer.ring_handle,
                    cause: cause_of(reason),
                },
            )
        }),
{
    broadcast use vstd::seq_lib::group_seq_properties;

}

/// A call of two is its peer's to end and nobody else's: whoever the session holds it with, live
/// before ringing, ringing before answered, answered before resumed, a terminal of another account
/// does not count.
pub proof fn lemma_a_call_is_its_peers_to_end(
    s: Session,
    t: CallTerminal,
    control_expiry_valid: bool,
    device_id_valid: bool,
)
    requires
        terminal_authentic(s, t, control_expiry_valid, device_id_valid),
        s.group_call is None && s.group_incoming is None && s.group_claiming is None,
    ensures
        control_expiry_valid,
        device_id_valid,
        s.call is Some && s.call->0.call_instance_id@ == t.call_instance_id@ ==> s.directory.account_of(
            t.sender_identity_key@,
        ) == s.directory.account_of(s.call->0.peer_key@),
        !(s.call is Some && s.call->0.call_instance_id@ == t.call_instance_id@) && s.incoming is Some
            && s.incoming->0.call_instance_id@ == t.call_instance_id@ ==> s.directory.account_of(
            t.sender_identity_key@,
        ) == s.directory.account_of(s.incoming->0.peer_key@),
        s.call is None && s.incoming is None && s.claiming is Some
            && s.claiming->0.offer.call_instance_id@ == t.call_instance_id@ ==> s.directory.account_of(
            t.sender_identity_key@,
        ) == s.directory.account_of(s.claiming->0.offer.peer_key@),
        s.call is None && s.incoming is None && s.claiming is None && s.reconnect is Some
            && s.reconnect->0.call_instance_id@ == t.call_instance_id@ ==> s.directory.account_of(
            t.sender_identity_key@,
        ) == s.directory.account_of(s.reconnect->0.peer_key@),
        s.call is None && s.incoming is None && s.claiming is None && s.reconnect is None ==> expected_peer(
            s,
            t.call_instance_id@,
        ) is None,
{
}

} // verus!
