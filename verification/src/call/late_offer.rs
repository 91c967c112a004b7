//! The order terminal, then offer: a call whose end arrives before its beginning never rings.
//!
//! The call records keep what they are told of a call's end, and answer a late offer by it. They
//! stand here as what they have been told, and a rule by which they answer.

use super::capsule_apply::{capsule_ended, capsule_offered, capsule_step, peers_to_say, CapsuleStep};
use super::ending::{holds, lemma_an_ended_call_leaves_nothing};
use super::group_offer::{group_case, GroupOffer};
use super::session::Session;
use super::signal::{may_ring, CallOffer};
use super::store::{adoption_effects, lemma_ring_pos, one_ring_per_call, ring_pending};
use super::types::{CallCapsule, CallTerminalReason, Effect, OfferDecision};
use vstd::prelude::*;

verus! {

/// How the call records answer an offer of a call, by the ends they have been told of.
pub type Answer = spec_fn(Map<Seq<char>, CallTerminalReason>, Seq<char>) -> OfferDecision;

/// The records answer an offer of a call that has ended by how it ended.
pub open spec fn remembers_ends(answer: Answer) -> bool {
    forall|told: Map<Seq<char>, CallTerminalReason>, call: Seq<char>|
        told.dom().contains(call) ==> #[trigger] answer(told, call) == OfferDecision::Suppressed(told[call])
}

/// Nothing of this call rings or runs here.
pub open spec fn nothing_of(s: Session, call: Seq<char>) -> bool {
    !holds(s, call) && !ring_pending(s.rings@, call)
}

/// Whoever can name a call of two that this device knows nothing of may say that it ended, in the
/// words of their side.
pub proof fn lemma_an_unknown_call_is_ended_by_name(s: Session, terminal: CallCapsule, reason: CallTerminalReason)
    requires
        nothing_of(s, terminal.call_instance_id@),
        terminal.kind is Terminal,
        terminal.reason == Some(reason),
        !terminal.group,
        peers_to_say(reason),
    ensures
        capsule_step(s, terminal) == CapsuleStep::RecordTerminal(reason),
{
}

/// An end that was recorded leaves nothing of the call.
pub proof fn lemma_a_recorded_end_leaves_nothing(before: Session, call: Seq<char>, after: Session)
    requires
        one_ring_per_call(before.rings@),
        capsule_ended(before, call, true, after),
    ensures
        nothing_of(after, call),
{
    lemma_an_ended_call_leaves_nothing(before, call, call);
    lemma_ring_pos(before.rings@, call);
    lemma_ring_pos(after.rings@, call);
}

/// Once its end has been told, an offer of the call rings on no layer: as a capsule it leaves no
/// ring, and as an encrypted offer, of two or of a group, it is none that may ring and does
/// nothing.
pub proof fn lemma_a_late_offer_never_rings(
    answer: Answer,
    told: Map<Seq<char>, CallTerminalReason>,
    call: Seq<char>,
    before: Session,
    late: CallCapsule,
    ring_handle: String,
    derived_mailbox: Option<String>,
    after: Session,
    offer: CallOffer,
    group_offer: GroupOffer,
)
    requires
        remembers_ends(answer),
        told.dom().contains(call),
        nothing_of(before, call),
        late.call_instance_id@ == call,
        capsule_offered(before, late, answer(told, call), ring_handle, derived_mailbox, after),
        offer.call_instance_id@ == call,
        group_offer.call_instance@ == call,
    ensures
        nothing_of(after, call),
        !may_ring(before, call, offer.offer_id@, answer(told, call)),
        group_case(before, group_offer, Some(answer(told, call))) is Nothing,
        forall|id: Seq<char>, goes_on: bool| #[trigger]
            adoption_effects(before, call, id, goes_on) == Seq::<Effect>::empty(),
{
}

/// A terminal that comes before its offer wins: the records are told how the call ended, answer
/// the late offer by it, and no ring of the call is held afterwards.
pub proof fn lemma_a_terminal_before_its_offer_never_rings(
    answer: Answer,
    told: Map<Seq<char>, CallTerminalReason>,
    before: Session,
    terminal: CallCapsule,
    reason: CallTerminalReason,
    ended: Session,
    late: CallCapsule,
    ring_handle: String,
    derived_mailbox: Option<String>,
    after: Session,
)
    requires
        remembers_ends(answer),
        one_ring_per_call(before.rings@),
        capsule_step(before, terminal) == CapsuleStep::RecordTerminal(reason),
        capsule_ended(before, terminal.call_instance_id@, true, ended),
        late.call_instance_id@ == terminal.call_instance_id@,
        capsule_offered(
            ended,
            late,
            answer(told.insert(terminal.call_instance_id@, reason), late.call_instance_id@),
            ring_handle,
            derived_mailbox,
            after,
        ),
    ensures
        answer(told.insert(terminal.call_instance_id@, reason), late.call_instance_id@)
            == OfferDecision::Suppressed(reason),
        nothing_of(ended, terminal.call_instance_id@),
        nothing_of(after, terminal.call_instance_id@),
{
    lemma_a_recorded_end_leaves_nothing(before, terminal.call_instance_id@, ended);
    assert(told.insert(terminal.call_instance_id@, reason).dom().contains(late.call_instance_id@));
}

} // verus!
