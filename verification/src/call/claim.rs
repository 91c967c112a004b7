//! The caller's side of the answer race: several devices may answer one ring, and exactly
//! one becomes the other end of the call.
//!
//! A claim can arrive before the caller's own room is up. It is then kept, undecided, and
//! put through the same checks once there is a call to check it against.

use super::auth::{sender_device_verified, verified_sender_device, same_peer};
use super::handles::no_orphans;
use super::session::Session;
use super::types::{
    AnswerClaim, BufferedClaim, CallCtl, CallPhase, ClaimDecision, Effect, OutgoingSetup,
};
use crate::text::is_some_text;
use vstd::prelude::*;

verus! {

/// The claim is for the call this session is placing.
pub open spec fn claim_matches_call(s: Session, claim: BufferedClaim) -> bool {
    s.call matches Some(c) && c.caller && c.call_instance_id@ == claim.call_instance_id@ && c.offer_id@
        == claim.offer_id@
}

/// The claim is for the call this session is setting up.
pub open spec fn claim_matches_setup(s: Session, claim: BufferedClaim) -> bool {
    s.outgoing_setup matches Some(setup) && setup.call_instance_id@ == claim.call_instance_id@
        && setup.offer_id@ == claim.offer_id@
}

/// The claim comes from the callee's account.
pub open spec fn claim_peer_ok(s: Session, claim: BufferedClaim) -> bool {
    s.call matches Some(c) && s.directory.account_of(claim.sender_identity_key@)
        == s.directory.account_of(c.peer_key@)
}

/// The claim comes from the device it names.
pub open spec fn claim_device_ok(s: Session, claim: BufferedClaim, device_id_valid: bool) -> bool {
    s.call matches Some(c) && sender_device_verified(
        s.directory,
        c.peer_username@,
        claim.sender_identity_key@,
        claim.answering_device_id@,
        device_id_valid,
    )
}

/// The claim is to be answered at the mailbox derived for that device.
pub open spec fn claim_mailbox_ok(claim: BufferedClaim, derived_mailbox: Option<String>) -> bool {
    derived_mailbox matches Some(m) && m@ == claim.reply_to_mailbox@
}

/// No more claims are kept than may be.
pub open spec fn buffer_bounded(s: Session) -> bool {
    s.outgoing_setup matches Some(setup) ==> setup.claims@.len() <= s.limits.max_buffered_claims
}

/// What became of a claim.
pub enum ClaimStep {
    /// Its deadline does not hold against the local clock.
    Expired,
    /// Kept until the room is up.
    Buffered,
    /// The room is not up, and no more claims are kept.
    BufferFull,
    /// It is for a call this session is not placing.
    Unmatched,
    /// It failed one of the three checks.
    Refused { same_peer: bool, verified_device: bool, mailbox_matches: bool },
    /// It is put to the arbiter.
    Arbitrate(BufferedClaim),
}

/// Take an answer claim: put it to the arbiter if it is entitled to that, keep it if the
/// room is still coming up, and otherwise let it go.
pub fn receive_answer_claim(
    s: &mut Session,
    claim: BufferedClaim,
    control_expiry_valid: bool,
    device_id_valid: bool,
    derived_mailbox: &Option<String>,
) -> (r: ClaimStep)
    ensures
        ({
            let peer_ok = claim_peer_ok(*old(s), claim);
            let device_ok = claim_device_ok(*old(s), claim, device_id_valid);
            let mailbox_ok = claim_mailbox_ok(claim, *derived_mailbox);
            if !control_expiry_valid {
                r is Expired && *final(s) == *old(s)
            } else if claim_matches_call(*old(s), claim) {
                &&& *final(s) == *old(s)
                &&& if peer_ok && device_ok && mailbox_ok {
                    r == ClaimStep::Arbitrate(claim)
                } else {
                    r == (ClaimStep::Refused {
                        same_peer: peer_ok,
                        verified_device: device_ok,
                        mailbox_matches: mailbox_ok,
                    })
                }
            } else if !claim_matches_setup(*old(s), claim) {
                r is Unmatched && *final(s) == *old(s)
            } else if old(s).outgoing_setup->0.claims@.len() >= old(s).limits.max_buffered_claims {
                r is BufferFull && *final(s) == *old(s)
            } else {
                &&& r is Buffered
                &&& final(s).outgoing_setup matches Some(setup) && setup.claims@
                    == old(s).outgoing_setup->0.claims@.push(claim) && setup == (OutgoingSetup {
                    claims: setup.claims,
                    ..old(s).outgoing_setup->0
                })
                &&& *final(s) == (Session { outgoing_setup: final(s).outgoing_setup, ..*old(s) })
            }
        }),
        buffer_bounded(*old(s)) ==> buffer_bounded(*final(s)),
{
    if !control_expiry_valid {
        return ClaimStep::Expired;
    }
    let matched = match &s.call {
        Some(c) => c.caller && c.call_instance_id == claim.call_instance_id && c.offer_id
            == claim.offer_id,
        None => false,
    };
    if !matched {
        let max: usize = s.limits.max_buffered_claims;
        match &mut s.outgoing_setup {
            Some(setup) => {
                if setup.call_instance_id == claim.call_instance_id && setup.offer_id == claim.offer_id {
                    if setup.claims.len() < max {
                        setup.claims.push(claim);
                        return ClaimStep::Buffered;
                    }
                    return ClaimStep::BufferFull;
                }
            },
            None => {},
        }
        return ClaimStep::Unmatched;
    }
    match &s.call {
        Some(c) => {
            let peer_ok = same_peer(
                &s.directory,
                claim.sender_identity_key.as_str(),
                c.peer_key.as_str(),
            );
            let device_ok = verified_sender_device(
                &s.directory,
                c.peer_username.as_str(),
                claim.sender_identity_key.as_str(),
                claim.answering_device_id.as_str(),
                device_id_valid,
            );
            let mailbox_ok = is_some_text(derived_mailbox, claim.reply_to_mailbox.as_str());
            if peer_ok && device_ok && mailbox_ok {
                ClaimStep::Arbitrate(claim)
            } else {
                ClaimStep::Refused {
                    same_peer: peer_ok,
                    verified_device: device_ok,
                    mailbox_matches: mailbox_ok,
                }
            }
        },
        None => ClaimStep::Unmatched,
    }
}

/// The claim the arbiter names as the winner, unless it refused outright.
pub open spec fn winner_of(decision: ClaimDecision) -> Option<AnswerClaim> {
    match decision {
        ClaimDecision::Winner(w) => Some(w),
        ClaimDecision::Duplicate(w) => Some(w),
        ClaimDecision::Lost(w) => Some(w),
        ClaimDecision::Invalid => None,
    }
}

/// The live call once this claim has won: its other end is the device that answered.
pub open spec fn call_won_by(c: CallCtl, claim: BufferedClaim, peer_media2: bool) -> CallCtl {
    CallCtl {
        peer_media2,
        peer_device_key: claim.sender_identity_key,
        peer_reply_to_mailbox: claim.reply_to_mailbox,
        ..c
    }
}

/// The arbiter has decided. The first winner becomes the other end of the call; whatever the
/// decision, the claimant is told who won, so a claim that comes again is answered again.
pub fn settle_answer_claim(
    s: &mut Session,
    claim: BufferedClaim,
    decision: ClaimDecision,
    peer_media2: bool,
) -> (out: Vec<Effect>)
    ensures
        ({
            let won = decision is Winner;
            if !claim_matches_call(*old(s), claim) || decision is Invalid {
                *final(s) == *old(s) && out@ == Seq::<Effect>::empty()
            } else {
                let c = old(s).call->0;
                let after = if won {
                    call_won_by(c, claim, peer_media2)
                } else {
                    c
                };
                &&& *final(s) == (Session { call: Some(after), ..*old(s) })
                &&& out@ == (if won {
                    seq![
                        Effect::Transition {
                            call: claim.call_instance_id,
                            offer: claim.offer_id,
                            phase: CallPhase::Winner,
                        },
                    ]
                } else {
                    Seq::<Effect>::empty()
                }) + seq![
                    Effect::SendWinner {
                        username: c.peer_username,
                        device_key: after.peer_device_key,
                        call: claim.call_instance_id,
                        offer: claim.offer_id,
                        winner: winner_of(decision)->0,
                    },
                ]
            }
        }),
        no_orphans(*old(s), *final(s), out@),
{
    let mut out: Vec<Effect> = Vec::new();
    let matched = match &s.call {
        Some(c) => c.caller && c.call_instance_id == claim.call_instance_id && c.offer_id
            == claim.offer_id,
        None => false,
    };
    if !matched {
        return out;
    }
    let (won, winner) = match decision {
        ClaimDecision::Winner(w) => (true, w),
        ClaimDecision::Duplicate(w) => (false, w),
        ClaimDecision::Lost(w) => (false, w),
        ClaimDecision::Invalid => {
            return out;
        },
    };
    match &mut s.call {
        Some(c) => {
            if won {
                c.peer_media2 = peer_media2;
                c.peer_device_key = claim.sender_identity_key;
                c.peer_reply_to_mailbox = claim.reply_to_mailbox;
                out.push(
                    Effect::Transition {
                        call: claim.call_instance_id.clone(),
                        offer: claim.offer_id.clone(),
                        phase: CallPhase::Winner,
                    },
                );
            }
            out.push(
                Effect::SendWinner {
                    username: c.peer_username.clone(),
                    device_key: c.peer_device_key.clone(),
                    call: claim.call_instance_id,
                    offer: claim.offer_id,
                    winner,
                },
            );
        },
        None => {},
    }
    out
}

/// Hand back the claims that waited for the room, in the order they came. The setup they
/// waited in is gone afterwards, whether or not they can still be applied.
pub fn take_buffered_claims(s: &mut Session) -> (r: Vec<BufferedClaim>)
    ensures
        *final(s) == (Session { outgoing_setup: None, ..*old(s) }),
        r@ == match old(s).outgoing_setup {
            Some(setup) => setup.claims@,
            None => Seq::<BufferedClaim>::empty(),
        },
{
    match s.outgoing_setup.take() {
        Some(setup) => setup.claims,
        None => Vec::new(),
    }
}

/// A claim is for the call this device placed, by call and by offer, and for no other; a call this
/// device answered takes no claims.
pub proof fn lemma_a_claim_is_for_the_call_placed_here(s: Session, claim: BufferedClaim)
    ensures
        claim_matches_call(s, claim) <==> s.call is Some && s.call->0.caller && s.call->0.call_instance_id@
            == claim.call_instance_id@ && s.call->0.offer_id@ == claim.offer_id@,
        claim_matches_setup(s, claim) <==> s.outgoing_setup is Some && s.outgoing_setup->0.call_instance_id@
            == claim.call_instance_id@ && s.outgoing_setup->0.offer_id@ == claim.offer_id@,
{
}

/// A claim counts only from a device of the account that was called, as that device, and with the
/// mailbox that is derived for it.
pub proof fn lemma_a_claim_counts_from_the_callee(
    s: Session,
    claim: BufferedClaim,
    device_id_valid: bool,
    derived: Option<String>,
)
    ensures
        claim_peer_ok(s, claim) <==> s.call is Some && s.directory.account_of(claim.sender_identity_key@)
            == s.directory.account_of(s.call->0.peer_key@),
        claim_device_ok(s, claim, device_id_valid) ==> s.call is Some && device_id_valid
            && s.call->0.peer_username@.len() > 0,
        claim_device_ok(s, claim, device_id_valid) && s.directory.rosters@.dom().contains(s.call->0.peer_username@)
            ==> exists|i: int|
            0 <= i < s.directory.rosters@[s.call->0.peer_username@]@.len() && (
            #[trigger] s.directory.rosters@[s.call->0.peer_username@]@[i]).device_id@ == claim.answering_device_id@
                && s.directory.rosters@[s.call->0.peer_username@]@[i].identity_key@ == claim.sender_identity_key@,
        claim_mailbox_ok(claim, derived) <==> derived is Some && derived->0@ == claim.reply_to_mailbox@,
{
}

/// The device that wins becomes the other end of the call: it is spoken to under its own key and
/// at its own mailbox from there on, and nothing else of the call changes.
pub proof fn lemma_the_winner_becomes_the_other_end(c: CallCtl, claim: BufferedClaim, peer_media2: bool)
    ensures
        ({
            let won = call_won_by(c, claim, peer_media2);
            &&& won.peer_device_key == claim.sender_identity_key
            &&& won.peer_reply_to_mailbox == claim.reply_to_mailbox
            &&& won.peer_media2 == peer_media2
            &&& won.call_instance_id == c.call_instance_id
            &&& won.offer_id == c.offer_id
            &&& won.ring_handle == c.ring_handle
            &&& won.call_id == c.call_id
            &&& won.peer_username == c.peer_username
            &&& won.peer_key == c.peer_key
            &&& won.caller == c.caller
            &&& won.connected == c.connected
            &&& won.connected_at == c.connected_at
            &&& won.muted == c.muted
            &&& won.ring_fanout == c.ring_fanout
        }),
{
}

/// Whatever the arbiter says of a claim, it says whose the call is, unless the claim was invalid:
/// a claim that lost or came again is told of the same winner.
pub proof fn lemma_every_claimant_is_told_of_one_winner(w: AnswerClaim)
    ensures
        winner_of(ClaimDecision::Winner(w)) == Some(w),
        winner_of(ClaimDecision::Duplicate(w)) == Some(w),
        winner_of(ClaimDecision::Lost(w)) == Some(w),
        winner_of(ClaimDecision::Invalid) is None,
{
}

} // verus!
