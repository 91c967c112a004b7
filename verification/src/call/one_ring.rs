//! One call rings once, and rings so that it can be answered, whichever of the two delivery layers
//! brings it first.
//!
//! A capsule announces a call; the encrypted offer carries the room. The offer takes the announced
//! ring over, with its handle, and from there on there is one ring.

use super::capsule_apply::{capsule_offered, capsule_step, CapsuleStep};
use super::group_offer::{group_adopts, group_case, GroupOffer, GroupOfferCase};
use super::session::Session;
use super::signal::{call_offer_received, ring_handle_for, rings_after_adoption, CallOffer};
use super::store::{adoptable, adoption_effects, lemma_ring_pos, ring_of, ring_pending, ring_pos, without_ring};
use super::types::{
    CallCapsule, CallEvent, CallTerminalReason, CapsuleKind, Effect, OfferDecision, RingName,
};
use vstd::prelude::*;

verus! {

/// The ring of a call and an offer is the one that stands in the store under both; taking it over
/// takes out that ring and no other.
pub proof fn lemma_the_announced_ring_is_found(s: Session, call: Seq<char>, offer: Seq<char>, i: int)
    requires
        0 <= i < s.rings@.len(),
        s.rings@[i].call_instance_id@ == call,
        forall|j: int| 0 <= j < i ==> (#[trigger] s.rings@[j]).call_instance_id@ != call,
    ensures
        ring_pos(s.rings@, call) == i,
        ring_pending(s.rings@, call),
        ring_of(s.rings@, call) == s.rings@[i],
        without_ring(s.rings@, call) == s.rings@.remove(i),
        adoptable(s, call, offer) <==> s.rings@[i].offer_id@ == offer,
        rings_after_adoption(s, call, offer) == if s.rings@[i].offer_id@ == offer {
            s.rings@.remove(i)
        } else {
            s.rings@
        },
{
    lemma_ring_pos(s.rings@, call);
}

/// A call without a ring in the store has none to be taken over.
pub proof fn lemma_no_ring_is_found_where_there_is_none(s: Session, call: Seq<char>, offer: Seq<char>)
    requires
        forall|j: int| 0 <= j < s.rings@.len() ==> (#[trigger] s.rings@[j]).call_instance_id@ != call,
    ensures
        !ring_pending(s.rings@, call),
        !adoptable(s, call, offer),
        rings_after_adoption(s, call, offer) == s.rings@,
        without_ring(s.rings@, call) == s.rings@,
{
    lemma_ring_pos(s.rings@, call);
}

/// The encrypted offer takes the announced ring over: the call rings under the announced handle,
/// which nothing takes down, with the room, key and peer of the offer, and the ring is gone from
/// the store. Whether the registry calls the offer new or has it down from the capsule makes no
/// difference. The slot is free, the sender is not blocked, and `i` is where the ring stands.
pub proof fn lemma_the_offer_takes_the_announced_ring_over(
    before: Session,
    i: int,
    o: CallOffer,
    decision: OfferDecision,
    fresh: String,
    on_screen: bool,
    after: Session,
    out: Seq<Effect>,
)
    requires
        0 <= i < before.rings@.len(),
        before.rings@[i].call_instance_id@ == o.call_instance_id@,
        before.rings@[i].offer_id@ == o.offer_id@,
        forall|j: int| 0 <= j < i ==> (#[trigger] before.rings@[j]).call_instance_id@ != o.call_instance_id@,
        decision is Ring || decision is Duplicate,
        before.call is None && before.incoming is None && before.claiming is None && before.reconnect is None,
        before.group_call is None && before.group_incoming is None && before.group_claiming is None,
        !before.call_setup,
        before.directory.devices@.dom().contains(o.sender_identity_key@)
            ==> !before.directory.devices@[o.sender_identity_key@].blocked,
        call_offer_received(before, o, decision, fresh, on_screen, after, out),
    ensures
        after.rings@ == before.rings@.remove(i),
        after.incoming is Some,
        ({
            let p = after.incoming->0;
            let handle = before.rings@[i].ring_handle;
            &&& p.ring_handle == handle
            &&& p.call_instance_id == o.call_instance_id
            &&& p.offer_id == o.offer_id
            &&& p.call_id == o.call_id
            &&& p.key_b64 == o.key_b64
            &&& p.peer_key == o.sender_identity_key
            &&& p.caller_device_id == o.caller_device_id
            &&& p.caller_reply_to_mailbox == o.reply_to_mailbox
            &&& p.expires_at == o.expires_at
            &&& p.caps == o.caps
            &&& o.sender_username@.len() > 0 ==> p.username@ == o.sender_username@
            &&& out.contains(Effect::SaveStore)
            &&& out.contains(Effect::Emit(CallEvent::Incoming { username: p.username }))
            &&& exists|k: int|
                0 <= k < out.len() && (#[trigger] out[k] matches Effect::StartSystemCall { ring, incoming, .. }
                    && ring == handle && incoming)
            &&& on_screen || exists|k: int|
                0 <= k < out.len() && (#[trigger] out[k] matches Effect::ShowRing { ring, .. } && ring == handle)
            &&& out.last() matches Effect::WatchRing { call, deadline, .. } && call == o.call_instance_id
                && deadline == o.ring_expires_at
            &&& forall|k: int| 0 <= k < out.len() ==> !(#[trigger] out[k] is CancelRing) && !(out[k] is EndSystemCall)
                && !(out[k] is SendBusy) && !(out[k] is SendTerminalToDevice)
        }),
        after == (Session { rings: after.rings, incoming: after.incoming, ..before }),
{
    lemma_the_announced_ring_is_found(before, o.call_instance_id@, o.offer_id@, i);
    assert(out[0] == Effect::SaveStore);
    assert(out[1] == Effect::Emit(CallEvent::Incoming { username: after.incoming->0.username }));
    assert(out[2] is StartSystemCall);
    if !on_screen {
        assert(out[3] is ShowRing);
    }
}

/// The two layers converge on one ring that can be answered: a capsule announces a call that has
/// no ring yet, and the encrypted offer of the same call and offer, which the registry then has
/// down already, rings under the announced handle. Nothing of the announcement is left, and
/// nothing takes the handle down.
pub proof fn lemma_the_two_layers_converge(
    before: Session,
    capsule: CallCapsule,
    handle: String,
    derived: Option<String>,
    announced: Session,
    o: CallOffer,
    fresh: String,
    on_screen: bool,
    after: Session,
    out: Seq<Effect>,
)
    requires
        forall|j: int|
            0 <= j < before.rings@.len() ==> (#[trigger] before.rings@[j]).call_instance_id@
                != capsule.call_instance_id@,
        capsule_offered(before, capsule, OfferDecision::Ring, handle, derived, announced),
        o.call_instance_id@ == capsule.call_instance_id@,
        o.offer_id@ == capsule.offer_id@,
        before.call is None && before.incoming is None && before.claiming is None && before.reconnect is None,
        before.group_call is None && before.group_incoming is None && before.group_claiming is None,
        !before.call_setup,
        before.directory.devices@.dom().contains(o.sender_identity_key@)
            ==> !before.directory.devices@[o.sender_identity_key@].blocked,
        call_offer_received(announced, o, OfferDecision::Duplicate, fresh, on_screen, after, out),
    ensures
        announced.rings@.len() == before.rings@.len() + 1,
        announced.rings@.last().ring_handle == handle,
        after.incoming is Some,
        after.incoming->0.ring_handle == handle,
        after.incoming->0.call_id == o.call_id,
        after.incoming->0.key_b64 == o.key_b64,
        after.rings@ == before.rings@,
        forall|k: int| 0 <= k < out.len() ==> !(#[trigger] out[k] is CancelRing) && !(out[k] is EndSystemCall),
{
    lemma_no_ring_is_found_where_there_is_none(before, capsule.call_instance_id@, capsule.offer_id@);
    let i = before.rings@.len() as int;
    assert(announced.rings@[i] == announced.rings@.last());
    assert forall|j: int| 0 <= j < i implies (#[trigger] announced.rings@[j]).call_instance_id@
        != o.call_instance_id@ by {
        assert(announced.rings@[j] == before.rings@[j]);
    }
    lemma_the_offer_takes_the_announced_ring_over(
        announced,
        i,
        o,
        OfferDecision::Duplicate,
        fresh,
        on_screen,
        after,
        out,
    );
    assert(announced.rings@.remove(i) =~= before.rings@);
}

/// An offer nothing announced rings under a handle of its own where the registry calls it new, and
/// one the registry knows already, or refuses, does nothing.
pub proof fn lemma_an_unannounced_offer_rings_once(
    before: Session,
    o: CallOffer,
    decision: OfferDecision,
    fresh: String,
    on_screen: bool,
    after: Session,
    out: Seq<Effect>,
)
    requires
        forall|j: int|
            0 <= j < before.rings@.len() ==> (#[trigger] before.rings@[j]).call_instance_id@
                != o.call_instance_id@,
        before.call is None && before.incoming is None && before.claiming is None && before.reconnect is None,
        before.group_call is None && before.group_incoming is None && before.group_claiming is None,
        !before.call_setup,
        !before.directory.devices@.dom().contains(o.sender_identity_key@)
            || !before.directory.devices@[o.sender_identity_key@].blocked,
        call_offer_received(before, o, decision, fresh, on_screen, after, out),
    ensures
        after.rings@ == before.rings@,
        decision is Ring <==> after.incoming is Some,
        decision is Ring ==> after.incoming->0.ring_handle == fresh && after.incoming->0.call_id == o.call_id
            && after.incoming->0.call_instance_id == o.call_instance_id,
        !(decision is Ring) ==> out.len() == 0,
        forall|k: int| 0 <= k < out.len() ==> !(#[trigger] out[k] is CancelRing) && !(out[k] is EndSystemCall),
{
    lemma_no_ring_is_found_where_there_is_none(before, o.call_instance_id@, o.offer_id@);
}

/// An offer the registry refuses never rings, and the ring that announced it comes down wherever
/// it shows.
pub proof fn lemma_a_refused_offer_takes_its_ring_down(
    before: Session,
    i: int,
    o: CallOffer,
    decision: OfferDecision,
    fresh: String,
    on_screen: bool,
    after: Session,
    out: Seq<Effect>,
)
    requires
        0 <= i < before.rings@.len(),
        before.rings@[i].call_instance_id@ == o.call_instance_id@,
        before.rings@[i].offer_id@ == o.offer_id@,
        forall|j: int| 0 <= j < i ==> (#[trigger] before.rings@[j]).call_instance_id@ != o.call_instance_id@,
        decision is Suppressed || decision is Expired || decision is Invalid || decision is Capacity,
        call_offer_received(before, o, decision, fresh, on_screen, after, out),
    ensures
        after.rings@ == before.rings@.remove(i),
        after == (Session { rings: after.rings, ..before }),
        out[0] == Effect::SaveStore,
        out.contains(Effect::CancelRing { ring: before.rings@[i].ring_handle, name: RingName::Nobody }),
        before.rings@[i].presented_as matches Some(id) ==> out.contains(
            Effect::CancelRing { ring: id, name: RingName::Nobody },
        ),
        forall|k: int|
            0 <= k < out.len() ==> #[trigger] out[k] == Effect::SaveStore || out[k] is CancelRing,
{
    lemma_the_announced_ring_is_found(before, o.call_instance_id@, o.offer_id@, i);
    let ring = before.rings@[i];
    assert(out[out.len() - 1] == Effect::CancelRing { ring: ring.ring_handle, name: RingName::Nobody });
    if ring.presented_as is Some {
        assert(out[1] == Effect::CancelRing { ring: ring.presented_as->0, name: RingName::Nobody });
    }
}

/// Who may not ring is told so and rings nothing: a blocked sender that the call was declined, any
/// other that finds this device taken that it is busy.
pub proof fn lemma_who_may_not_ring_is_told(
    before: Session,
    o: CallOffer,
    fresh: String,
    on_screen: bool,
    after: Session,
    out: Seq<Effect>,
)
    requires
        call_offer_received(before, o, OfferDecision::Ring, fresh, on_screen, after, out),
        ({
            let blocked = before.directory.devices@.dom().contains(o.sender_identity_key@)
                && before.directory.devices@[o.sender_identity_key@].blocked;
            let taken = before.call is Some || before.incoming is Some || before.claiming is Some
                || before.reconnect is Some || before.group_call is Some || before.group_incoming is Some
                || before.group_claiming is Some || before.call_setup;
            blocked || taken
        }),
    ensures
        after == (Session { rings: after.rings, ..before }),
        before.directory.devices@.dom().contains(o.sender_identity_key@)
            && before.directory.devices@[o.sender_identity_key@].blocked <==> out.contains(
            Effect::SendTerminalToDevice {
                device_key: o.sender_identity_key,
                mailbox: o.reply_to_mailbox,
                call: o.call_instance_id,
                offer: o.offer_id,
                reason: CallTerminalReason::DeclinedHere,
            },
        ),
        !(before.directory.devices@.dom().contains(o.sender_identity_key@)
            && before.directory.devices@[o.sender_identity_key@].blocked) <==> out.contains(
            Effect::SendBusy {
                device_key: o.sender_identity_key,
                mailbox: o.reply_to_mailbox,
                call: o.call_instance_id,
                offer: o.offer_id,
            },
        ),
        forall|k: int|
            0 <= k < out.len() ==> !(#[trigger] out[k] is StartSystemCall) && !(out[k] is ShowRing) && !(
            out[k] is Emit),
{
    let n = out.len();
    let word = out[n - 2];
    assert(out[n - 1] == Effect::Persist);
}

/// A capsule about a call this session holds already, in whatever form, announces nothing; about
/// any other, its offer goes to the registry.
pub proof fn lemma_a_call_is_announced_once(s: Session, capsule: CallCapsule)
    requires
        capsule.kind == CapsuleKind::Offer,
    ensures
        ({
            let call = capsule.call_instance_id@;
            let held = (s.incoming is Some && s.incoming->0.call_instance_id@ == call) || (s.claiming is Some
                && s.claiming->0.offer.call_instance_id@ == call) || (s.call is Some
                && s.call->0.call_instance_id@ == call) || (s.group_call is Some
                && s.group_call->0.call_instance@ == call) || (s.group_incoming is Some
                && s.group_incoming->0.call_instance@ == call) || (s.group_claiming is Some
                && s.group_claiming->0.offer.call_instance@ == call);
            capsule_step(s, capsule) == if held {
                CapsuleStep::Ignore
            } else {
                CapsuleStep::RecordOffer
            }
        }),
{
}

/// A capsule's offer that the registry calls new leaves the ring it announces, with everything the
/// capsule says of it; any other offer, and one of a call that has a ring, leaves the store alone.
pub proof fn lemma_a_capsule_announces_its_call(
    before: Session,
    capsule: CallCapsule,
    decision: OfferDecision,
    handle: String,
    derived: Option<String>,
    after: Session,
)
    requires
        capsule_offered(before, capsule, decision, handle, derived, after),
    ensures
        after == (Session { rings: after.rings, ..before }),
        !(decision is Ring) ==> after.rings@ == before.rings@,
        (exists|j: int|
            0 <= j < before.rings@.len() && (#[trigger] before.rings@[j]).call_instance_id@
                == capsule.call_instance_id@) ==> after.rings@ == before.rings@,
        decision is Ring && (forall|j: int|
            0 <= j < before.rings@.len() ==> (#[trigger] before.rings@[j]).call_instance_id@
                != capsule.call_instance_id@) ==> ({
            let ring = after.rings@.last();
            &&& after.rings@.len() == before.rings@.len() + 1
            &&& after.rings@.drop_last() == before.rings@
            &&& ring.call_instance_id == capsule.call_instance_id
            &&& ring.offer_id == capsule.offer_id
            &&& ring.ring_handle == handle
            &&& ring.from == capsule.from
            &&& ring.display_name == capsule.display_name
            &&& ring.video == capsule.video
            &&& ring.group == capsule.group
            &&& ring.caller_device_id == capsule.caller_device_id
            &&& ring.reply_to_mailbox == capsule.reply_to_mailbox
            &&& ring.reply_call_key == capsule.reply_call_key
            &&& ring.created_at == capsule.created_at
            &&& ring.ring_expires_at == capsule.ring_expires_at
            &&& ring.presented_as is None
            &&& ring.reply_call_mailbox@.len() > 0 ==> derived is Some && derived->0@ == ring.reply_call_mailbox@
                && ring.reply_call_mailbox@ == capsule.reply_call_mailbox@
            &&& derived is Some && derived->0@ == capsule.reply_call_mailbox@ ==> ring.reply_call_mailbox@
                == capsule.reply_call_mailbox@
        }),
{
    lemma_ring_pos(before.rings@, capsule.call_instance_id@);
    if exists|j: int|
        0 <= j < before.rings@.len() && (#[trigger] before.rings@[j]).call_instance_id@
            == capsule.call_instance_id@ {
        let j = choose|j: int|
            0 <= j < before.rings@.len() && (#[trigger] before.rings@[j]).call_instance_id@
                == capsule.call_instance_id@;
        assert(ring_pos(before.rings@, capsule.call_instance_id@) <= j);
    }
}

/// A group's offer that nothing of the call precedes rings: where the registry lets it through, the
/// group is known, the slot is free, the sender is not blocked and it is no fresh room for a leg.
/// An announced ring it takes over with its handle, and anything else rings under a fresh one.
pub proof fn lemma_a_group_rings_under_the_announced_handle(
    s: Session,
    i: int,
    o: GroupOffer,
    decision: OfferDecision,
    fresh: String,
)
    requires
        decision is Ring || decision is Duplicate,
        s.directory.groups@.dom().contains(o.group_id@),
        !o.resume,
        s.call is None && s.incoming is None && s.claiming is None && s.reconnect is None,
        s.group_call is None && s.group_incoming is None && s.group_claiming is None,
        !s.call_setup,
        !s.directory.devices@.dom().contains(o.sender_identity_key@)
            || !s.directory.devices@[o.sender_identity_key@].blocked,
        0 <= i < s.rings@.len(),
        s.rings@[i].call_instance_id@ == o.call_instance@,
        s.rings@[i].offer_id@ == o.ring_id@,
        forall|j: int| 0 <= j < i ==> (#[trigger] s.rings@[j]).call_instance_id@ != o.call_instance@,
    ensures
        group_case(s, o, Some(decision)) is Ring,
        group_adopts(s, o, Some(decision)),
        ring_handle_for(s, o.call_instance@, o.ring_id@, fresh) == s.rings@[i].ring_handle,
        rings_after_adoption(s, o.call_instance@, o.ring_id@) == s.rings@.remove(i),
        adoption_effects(s, o.call_instance@, o.ring_id@, true) == seq![Effect::SaveStore],
{
    lemma_the_announced_ring_is_found(s, o.call_instance@, o.ring_id@, i);
}

/// What a group's offer comes to, where nothing of the call rings or runs here yet.
pub proof fn lemma_what_a_group_offer_comes_to(s: Session, o: GroupOffer, decision: OfferDecision)
    requires
        !(s.group_call matches Some(g) && g.call_instance@ == o.call_instance@),
        !(s.group_incoming matches Some(p) && p.call_instance@ == o.call_instance@),
        !(s.group_claiming matches Some(p) && p.offer.call_instance@ == o.call_instance@),
    ensures
        ({
            let blocked = s.directory.devices@.dom().contains(o.sender_identity_key@)
                && s.directory.devices@[o.sender_identity_key@].blocked;
            let taken = s.call is Some || s.incoming is Some || s.claiming is Some || s.reconnect is Some
                || s.group_call is Some || s.group_incoming is Some || s.group_claiming is Some || s.call_setup;
            let counts = (decision is Ring || decision is Duplicate) && s.directory.groups@.dom().contains(
                o.group_id@,
            ) && !o.resume;
            group_case(s, o, Some(decision)) == if !counts {
                GroupOfferCase::Nothing
            } else if blocked || taken {
                GroupOfferCase::Refuse
            } else {
                GroupOfferCase::Ring
            }
        }),
{
}

/// A member's offer for the group call this device is in, is ringing for or has answered is a leg
/// of it: while it is of the same ring, by the same coordinating device, under the same deadlines.
/// Only the live call also takes a fresh room, whatever its deadlines.
pub proof fn lemma_a_members_offer_is_a_leg(s: Session, o: GroupOffer, decision: Option<OfferDecision>)
    requires
        decision matches Some(d) ==> d is Ring || d is Duplicate,
        s.directory.groups@.dom().contains(o.group_id@),
    ensures
        group_case(s, o, decision) is LiveLeg <==> (s.group_call matches Some(g) && g.call_instance@
            == o.call_instance@ && g.ring_id@ == o.ring_id@ && g.coordinator.identity_key@
            == o.coordinator.identity_key@ && g.coordinator.device_id@ == o.coordinator.device_id@ && (o.resume
            || (g.deadline.created_at == o.deadline.created_at && g.deadline.ring_expires_at
            == o.deadline.ring_expires_at && g.deadline.expires_at == o.deadline.expires_at))),
        s.group_call is None && !o.resume ==> (group_case(s, o, decision) is RingLeg <==> (
        s.group_incoming matches Some(p) && p.call_instance@ == o.call_instance@ && p.ring_id@ == o.ring_id@
            && p.coordinator.identity_key@ == o.coordinator.identity_key@ && p.coordinator.device_id@
            == o.coordinator.device_id@ && p.deadline == o.deadline)),
        s.group_call is None && s.group_incoming is None && !o.resume ==> (group_case(s, o, decision) is ClaimLeg
            <==> (s.group_claiming matches Some(p) && p.offer.call_instance@ == o.call_instance@
            && p.offer.ring_id@ == o.ring_id@ && p.offer.coordinator.identity_key@
            == o.coordinator.identity_key@ && p.offer.coordinator.device_id@ == o.coordinator.device_id@
            && p.offer.deadline == o.deadline)),
{
}

} // verus!
