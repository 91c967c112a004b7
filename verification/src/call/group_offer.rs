//! Inbound group offers: the ring itself, and every later member's leg of a call already
//! ringing, being answered, or live.

use super::auth::{
    sender_device_verified, sender_route_verified, valid_offer_shape, verified_group_coordinator,
    verified_group_member, verified_sender_device,
};
use super::ending::group_incoming_is;
use super::handles::{ends, lemma_one_dropped, no_orphans};
use super::session::{call_retention_secs, call_slot_free, group_chip, log_group_call_event, retention_of, ring_title,
    slot_free, title_of, Session};
use super::signal::{
    caller_name, name_caller, resume_unlock_for, ring_handle_for, rings_after_adoption, unlock_waits_for,
};
use super::store::{
    adoptable, adoption_effects, lemma_one_ring_out, ring_of, take_capsule_ring, take_ring_down,
};
use super::types::{
    CallTerminalReason, Effect, GroupCallCtl, GroupCoordinator, GroupEvent, GroupRingDeadline, Label,
    LegOffer, OfferDecision, PendingGroupClaim, PendingGroupOffer, PendingRing, RingName,
    Ticket,
};
use crate::names::NameMap;
use crate::text::same;
use vstd::prelude::*;

verus! {

/// A group offer: one member's room for one other member.
pub struct GroupOffer {
    pub sender_identity_key: String,
    pub sender_username: String,
    pub group_id: String,
    pub call_instance: String,
    pub ring_id: String,
    pub offer_id: String,
    pub call_id: String,
    pub key_b64: String,
    pub deadline: GroupRingDeadline,
    pub caller_device_id: String,
    pub coordinator: GroupCoordinator,
    /// A fresh room for a call this device is in.
    pub resume: bool,
}

/// What the protocol layer says of a group offer's parts.
pub struct GroupOfferChecks {
    pub ids_valid: Vec<bool>,
    pub ticket_valid: bool,
    pub offer_deadline_valid: bool,
    pub signal_deadline_valid: bool,
    pub control_expiry_valid: bool,
    pub device_id_valid: bool,
    pub coordinator_device_id_valid: bool,
    /// The mailbox derived for the coordinator's device, where one can be.
    pub coordinator_mailbox: Option<String>,
}

/// Every part of the offer is well formed.
pub open spec fn group_shape_ok(checks: GroupOfferChecks, d: GroupRingDeadline) -> bool {
    &&& forall|i: int| 0 <= i < checks.ids_valid@.len() ==> #[trigger] checks.ids_valid@[i]
    &&& checks.ticket_valid
    &&& checks.offer_deadline_valid
    &&& checks.signal_deadline_valid
    &&& checks.control_expiry_valid
    &&& d.ring_expires_at <= d.expires_at
}

/// The offer is well formed, comes from a verified device of a member of a known group, and
/// names a verified coordinator of that group. The coordinator's own offers come from the
/// device and under the name it coordinates with.
pub open spec fn group_offer_authentic(s: Session, o: GroupOffer, checks: GroupOfferChecks) -> bool {
    let c = o.coordinator;
    &&& group_shape_ok(checks, o.deadline)
    &&& sender_device_verified(
        s.directory,
        o.sender_username@,
        o.sender_identity_key@,
        o.caller_device_id@,
        checks.device_id_valid,
    )
    &&& s.directory.groups@.dom().contains(o.group_id@)
    &&& s.directory.groups@[o.group_id@].lists_key(
        s.directory.account_of(o.sender_identity_key@),
        o.sender_identity_key@,
    )
    &&& s.directory.groups@[o.group_id@].lists_named(
        c.username@,
        s.directory.account_of(c.identity_key@),
        c.identity_key@,
    )
    &&& sender_route_verified(
        s.directory,
        c.username@,
        c.identity_key@,
        c.device_id@,
        checks.coordinator_device_id_valid,
        checks.coordinator_mailbox,
        c.reply_to_mailbox@,
    )
    &&& o.sender_identity_key@ == c.identity_key@ ==> o.caller_device_id@ == c.device_id@
        && o.sender_username@ == c.username@
}

/// Both name one coordinating device.
pub open spec fn same_coordinator(a: GroupCoordinator, b: GroupCoordinator) -> bool {
    a.identity_key@ == b.identity_key@ && a.device_id@ == b.device_id@
}

pub fn is_same_coordinator(a: &GroupCoordinator, b: &GroupCoordinator) -> (r: bool)
    ensures
        r == same_coordinator(*a, *b),
{
    a.identity_key == b.identity_key && a.device_id == b.device_id
}

/// The live group call is the one the offer is for.
pub open spec fn offer_for_live(s: Session, o: GroupOffer) -> bool {
    s.group_call matches Some(g) && g.call_instance@ == o.call_instance@ && g.ring_id@ == o.ring_id@
        && same_coordinator(g.coordinator, o.coordinator)
}

fn is_offer_for_live(s: &Session, o: &GroupOffer) -> (r: bool)
    ensures
        r == offer_for_live(*s, *o),
{
    match &s.group_call {
        Some(g) => g.call_instance == o.call_instance && g.ring_id == o.ring_id && is_same_coordinator(
            &g.coordinator,
            &o.coordinator,
        ),
        None => false,
    }
}

/// What a group offer is worth.
#[derive(Clone, Copy, Debug, PartialEq, Eq, Structural)]
pub enum GroupScreen {
    /// Nothing.
    Drop,
    /// It belongs to the live group call; the registry is not asked.
    Live,
    /// The registry decides.
    Ask,
}

/// Decide what a group offer is worth.
pub fn screen_group_offer(s: &Session, o: &GroupOffer, checks: &GroupOfferChecks) -> (r: GroupScreen)
    ensures
        r == if !group_offer_authentic(*s, *o, *checks) {
            GroupScreen::Drop
        } else if offer_for_live(*s, *o) {
            GroupScreen::Live
        } else if o.resume {
            GroupScreen::Drop
        } else {
            GroupScreen::Ask
        },
{
    let shape = valid_offer_shape(
        checks.ids_valid.as_slice(),
        checks.ticket_valid,
        checks.offer_deadline_valid,
        checks.signal_deadline_valid,
        checks.control_expiry_valid,
        o.deadline.ring_expires_at,
        o.deadline.expires_at,
    );
    if !shape || !verified_sender_device(
        &s.directory,
        o.sender_username.as_str(),
        o.sender_identity_key.as_str(),
        o.caller_device_id.as_str(),
        checks.device_id_valid,
    ) {
        return GroupScreen::Drop;
    }
    match s.directory.groups.get(o.group_id.as_str()) {
        None => GroupScreen::Drop,
        Some(group) => {
            if !verified_group_member(&s.directory, group, o.sender_identity_key.as_str()) {
                return GroupScreen::Drop;
            }
            let coordinator_ok = verified_group_coordinator(
                &s.directory,
                group,
                o.coordinator.username.as_str(),
                o.coordinator.identity_key.as_str(),
                o.coordinator.device_id.as_str(),
                checks.coordinator_device_id_valid,
                &checks.coordinator_mailbox,
                o.coordinator.reply_to_mailbox.as_str(),
            );
            if !coordinator_ok || (o.sender_identity_key == o.coordinator.identity_key && !(
            o.caller_device_id == o.coordinator.device_id && o.sender_username
                == o.coordinator.username)) {
                return GroupScreen::Drop;
            }
            if is_offer_for_live(s, o) {
                GroupScreen::Live
            } else if o.resume {
                GroupScreen::Drop
            } else {
                GroupScreen::Ask
            }
        },
    }
}

/// The live call takes the offer as a leg: a fresh room, or the ring's own deadlines.
pub open spec fn leg_for_live(s: Session, o: GroupOffer) -> bool {
    offer_for_live(s, o) && (o.resume || s.group_call->0.deadline == o.deadline)
}

/// The ringing call takes the offer as a leg.
pub open spec fn leg_for_ring(p: PendingGroupOffer, o: GroupOffer) -> bool {
    p.call_instance@ == o.call_instance@ && p.ring_id@ == o.ring_id@ && same_coordinator(
        p.coordinator,
        o.coordinator,
    ) && p.deadline == o.deadline
}

fn is_leg_for_ring(p: &PendingGroupOffer, o: &GroupOffer) -> (r: bool)
    ensures
        r == leg_for_ring(*p, *o),
{
    p.call_instance == o.call_instance && p.ring_id == o.ring_id && is_same_coordinator(
        &p.coordinator,
        &o.coordinator,
    ) && p.deadline == o.deadline
}

/// The ring with one more leg.
pub open spec fn with_leg(before: PendingGroupOffer, after: PendingGroupOffer, o: GroupOffer, username: Seq<char>) -> bool {
    &&& after == (PendingGroupOffer { offers: after.offers, ..before })
    &&& after.offers@.dom() == before.offers@.dom().insert(o.sender_identity_key@)
    &&& forall|k: Seq<char>|
        before.offers@.dom().contains(k) && k != o.sender_identity_key@ ==> after.offers@[k]
            == #[trigger] before.offers@[k]
    &&& after.offers@[o.sender_identity_key@].username@ == username
    &&& after.offers@[o.sender_identity_key@].call_id == o.call_id
    &&& after.offers@[o.sender_identity_key@].key_b64 == o.key_b64
    &&& before.offers.wf() ==> after.offers.wf()
}

/// The registry lets the offer through: there was nothing to ask it, or it knows no reason
/// against it. A duplicate is let through: each member offers a leg of its own.
pub open spec fn group_let_through(decision: Option<OfferDecision>) -> bool {
    match decision {
        None => true,
        Some(d) => d is Ring || d is Duplicate,
    }
}

/// The announced ring is taken over when the registry was asked and let the offer through.
pub open spec fn group_adopts(s: Session, o: GroupOffer, decision: Option<OfferDecision>) -> bool {
    decision is Some && group_let_through(decision) && adoptable(s, o.call_instance@, o.ring_id@)
}

/// What a group offer that was let through does.
#[derive(Clone, Copy, Debug, PartialEq, Eq, Structural)]
pub enum GroupOfferCase {
    /// Nothing: it was not let through, or it would resume a call this device is not in.
    Nothing,
    /// It is a leg of the live call.
    LiveLeg,
    /// It is a leg of the ringing call.
    RingLeg,
    /// It is a leg of the answered ring.
    ClaimLeg,
    /// It is refused: the sender is blocked, or this device is busy.
    Refuse,
    /// It rings.
    Ring,
}

/// Which of these an offer is.
pub open spec fn group_case(s: Session, o: GroupOffer, decision: Option<OfferDecision>) -> GroupOfferCase {
    if !group_let_through(decision) || !s.directory.groups@.dom().contains(o.group_id@) {
        GroupOfferCase::Nothing
    } else if leg_for_live(s, o) {
        GroupOfferCase::LiveLeg
    } else if o.resume {
        GroupOfferCase::Nothing
    } else if s.group_incoming is Some && leg_for_ring(s.group_incoming->0, o) {
        GroupOfferCase::RingLeg
    } else if s.group_claiming is Some && leg_for_ring(s.group_claiming->0.offer, o) {
        GroupOfferCase::ClaimLeg
    } else if !slot_free(s) || s.directory.blocks(o.sender_identity_key@) {
        GroupOfferCase::Refuse
    } else {
        GroupOfferCase::Ring
    }
}

fn group_case_exec(s: &Session, o: &GroupOffer, decision: Option<OfferDecision>) -> (r: GroupOfferCase)
    ensures
        r == group_case(*s, *o, decision),
{
    let through = match decision {
        None => true,
        Some(OfferDecision::Ring) => true,
        Some(OfferDecision::Duplicate) => true,
        _ => false,
    };
    if !through || !s.directory.groups.contains_key(o.group_id.as_str()) {
        return GroupOfferCase::Nothing;
    }
    let same_deadline = match &s.group_call {
        Some(g) => g.deadline == o.deadline,
        None => false,
    };
    if is_offer_for_live(s, o) && (o.resume || same_deadline) {
        return GroupOfferCase::LiveLeg;
    }
    if o.resume {
        return GroupOfferCase::Nothing;
    }
    let ring = match &s.group_incoming {
        Some(p) => is_leg_for_ring(p, o),
        None => false,
    };
    if ring {
        return GroupOfferCase::RingLeg;
    }
    let claim = match &s.group_claiming {
        Some(p) => is_leg_for_ring(&p.offer, o),
        None => false,
    };
    if claim {
        return GroupOfferCase::ClaimLeg;
    }
    if !call_slot_free(s) || s.directory.peer_blocked(o.sender_identity_key.as_str()) {
        GroupOfferCase::Refuse
    } else {
        GroupOfferCase::Ring
    }
}

/// The live call once a member offered a leg: they have not left, and their budget of fresh
/// rooms starts anew.
pub open spec fn member_back(before: GroupCallCtl, after: GroupCallCtl, username: Seq<char>) -> bool {
    &&& after == (GroupCallCtl {
        departed: after.departed,
        reoffer_attempts: after.reoffer_attempts,
        ..before
    })
    &&& after.departed@ == before.departed@.remove(username)
    &&& after.reoffer_attempts@ == before.reoffer_attempts@.remove(username)
}

/// A screened group offer, once the registry has decided where it had to be asked (`None`
/// where it had not): the leg is taken up or kept, the offer refused, or the group rings.
pub fn receive_group_offer(
    s: &mut Session,
    o: GroupOffer,
    decision: Option<OfferDecision>,
    fresh_handle: String,
    on_screen: bool,
) -> (out: Vec<Effect>)
    ensures
        final(s).rings@ == if group_adopts(*old(s), o, decision) {
            rings_after_adoption(*old(s), o.call_instance@, o.ring_id@)
        } else {
            old(s).rings@
        },
        ({
            let store = if group_adopts(*old(s), o, decision) {
                adoption_effects(
                    *old(s),
                    o.call_instance@,
                    o.ring_id@,
                    group_case(*old(s), o, decision) is Ring,
                )
            } else {
                Seq::<Effect>::empty()
            };
            let username = caller_name(*old(s), o.sender_username@, o.sender_identity_key@);
            let mid = Session { rings: final(s).rings, ..*old(s) };
            match group_case(*old(s), o, decision) {
                GroupOfferCase::Nothing => *final(s) == mid && out@ == store,
                GroupOfferCase::LiveLeg => {
                    &&& final(s).group_call matches Some(g) && member_back(
                        old(s).group_call->0,
                        g,
                        username,
                    )
                    &&& *final(s) == (Session { group_call: final(s).group_call, ..mid })
                    &&& out@.len() == store.len() + 1 && out@.drop_last() == store
                    &&& out@.last() matches Effect::EstablishLeg { call, peer_key, username: name, ticket }
                        && call == o.call_instance && peer_key == o.sender_identity_key && name@
                        == username && ticket == Some(Ticket { call_id: o.call_id, key_b64: o.key_b64 })
                },
                GroupOfferCase::RingLeg => {
                    &&& final(s).group_incoming matches Some(p) && with_leg(
                        old(s).group_incoming->0,
                        p,
                        o,
                        username,
                    )
                    &&& *final(s) == (Session { group_incoming: final(s).group_incoming, ..mid })
                    &&& out@ == store
                },
                GroupOfferCase::ClaimLeg => {
                    &&& final(s).group_claiming matches Some(p) && with_leg(
                        old(s).group_claiming->0.offer,
                        p.offer,
                        o,
                        username,
                    ) && p == (PendingGroupClaim { offer: p.offer, ..old(s).group_claiming->0 })
                    &&& *final(s) == (Session { group_claiming: final(s).group_claiming, ..mid })
                    &&& out@ == store
                },
                GroupOfferCase::Refuse => {
                    &&& *final(s) == mid
                    &&& old(s).account is None ==> out@ == store
                    &&& old(s).account is Some ==> {
                        &&& out@.len() == store.len() + 1 && out@.drop_last() == store
                        &&& out@.last() matches Effect::SendGroupTerminal {
                            username: name,
                            peer_key,
                            group_id,
                            call,
                            ring_id,
                            coordinator,
                            reason,
                        } && name@ == username && peer_key == o.sender_identity_key && group_id
                            == o.group_id && call == o.call_instance && ring_id == o.ring_id
                            && coordinator == o.coordinator && reason is Busy
                    }
                },
                GroupOfferCase::Ring => {
                    let p = final(s).group_incoming->0;
                    let name = title_of(*old(s), p.group_name);
                    let handle = if group_adopts(*old(s), o, decision) {
                        ring_handle_for(*old(s), o.call_instance@, o.ring_id@, fresh_handle)
                    } else {
                        fresh_handle
                    };
                    &&& final(s).group_incoming is Some
                    &&& p == (PendingGroupOffer {
                        call_instance: o.call_instance,
                        ring_id: o.ring_id,
                        ring_handle: handle,
                        group_id: o.group_id,
                        group_name: old(s).directory.groups@[o.group_id@].name,
                        rang_by_username: p.rang_by_username,
                        coordinator: o.coordinator,
                        deadline: o.deadline,
                        offers: p.offers,
                    })
                    &&& p.rang_by_username@ == username
                    &&& p.offers@ == Map::<Seq<char>, LegOffer>::empty().insert(
                        o.sender_identity_key@,
                        LegOffer {
                            username: p.rang_by_username,
                            call_id: o.call_id,
                            key_b64: o.key_b64,
                        },
                    )
                    &&& p.offers.wf()
                    &&& *final(s) == (Session { group_incoming: final(s).group_incoming, ..mid })
                    &&& out@ == store + seq![
                        Effect::EmitGroup(
                            GroupEvent::Incoming { name: p.group_name, from: p.rang_by_username },
                        ),
                        Effect::StartSystemCall { ring: handle, name, video: false, incoming: true },
                    ] + (if on_screen {
                        Seq::<Effect>::empty()
                    } else {
                        seq![Effect::ShowRing { ring: handle, name, group: true }]
                    }) + (if unlock_waits_for(*old(s), o.call_instance@) {
                        seq![Effect::ResumeUnlock]
                    } else {
                        Seq::<Effect>::empty()
                    }) + seq![
                        Effect::WatchGroupRing {
                            call: o.call_instance,
                            name,
                            deadline: o.deadline.ring_expires_at,
                        },
                    ]
                },
            }
        }),
        no_orphans(*old(s), *final(s), out@),
{
    let mut out: Vec<Effect> = Vec::new();
    let case = group_case_exec(s, &o, decision);
    let through = match decision {
        Some(OfferDecision::Ring) => true,
        Some(OfferDecision::Duplicate) => true,
        _ => false,
    };
    let mut adopted: Option<PendingRing> = if through {
        take_capsule_ring(s, o.call_instance.as_str(), o.ring_id.as_str())
    } else {
        None
    };
    if adopted.is_some() {
        out.push(Effect::SaveStore);
    }
    proof {
        if adopted is Some {
            lemma_one_ring_out(old(s).rings@, o.call_instance@);
        }
    }
    let ghost was_adopted = adopted is Some;
    let ghost lost = ring_of(old(s).rings@, o.call_instance@);
    if case != GroupOfferCase::Ring {
        if let Some(ring) = adopted.take() {
            take_ring_down(&mut out, ring);
        }
    }
    let ghost store = out@;
    proof {
        if was_adopted && !(case is Ring) {
            assert(ends(store[store.len() - 1], lost.ring_handle@));
        }
    }
    let username: String = name_caller(s, &o.sender_username, &o.sender_identity_key);
    match case {
        GroupOfferCase::Nothing => {},
        GroupOfferCase::LiveLeg => {
            match &mut s.group_call {
                Some(g) => {
                    g.departed.remove(username.as_str());
                    let _ = g.reoffer_attempts.remove(username.as_str());
                },
                None => {},
            }
            out.push(
                Effect::EstablishLeg {
                    call: o.call_instance,
                    peer_key: o.sender_identity_key,
                    username,
                    ticket: Some(Ticket { call_id: o.call_id, key_b64: o.key_b64 }),
                },
            );
            assert(out@.drop_last() =~= store);
        },
        GroupOfferCase::RingLeg => {
            match &mut s.group_incoming {
                Some(p) => {
                    p.offers.insert(
                        o.sender_identity_key,
                        LegOffer { username, call_id: o.call_id, key_b64: o.key_b64 },
                    );
                },
                None => {},
            }
        },
        GroupOfferCase::ClaimLeg => {
            match &mut s.group_claiming {
                Some(p) => {
                    p.offer.offers.insert(
                        o.sender_identity_key,
                        LegOffer { username, call_id: o.call_id, key_b64: o.key_b64 },
                    );
                },
                None => {},
            }
        },
        GroupOfferCase::Refuse => {
            if s.account.is_some() {
                out.push(
                    Effect::SendGroupTerminal {
                        username,
                        peer_key: o.sender_identity_key,
                        group_id: o.group_id,
                        call: o.call_instance,
                        ring_id: o.ring_id,
                        coordinator: o.coordinator,
                        reason: CallTerminalReason::Busy,
                    },
                );
                assert(out@.drop_last() =~= store);
            }
        },
        GroupOfferCase::Ring => {
            let group_name: String = match s.directory.groups.get(o.group_id.as_str()) {
                Some(group) => group.name.clone(),
                None => String::new(),
            };
            let ring_handle: String = match adopted {
                Some(ring) => ring.ring_handle,
                None => fresh_handle,
            };
            let name: RingName = ring_title(s, &group_name);
            out.push(
                Effect::EmitGroup(
                    GroupEvent::Incoming { name: group_name.clone(), from: username.clone() },
                ),
            );
            out.push(
                Effect::StartSystemCall {
                    ring: ring_handle.clone(),
                    name: name.clone(),
                    video: false,
                    incoming: true,
                },
            );
            if !on_screen {
                out.push(
                    Effect::ShowRing { ring: ring_handle.clone(), name: name.clone(), group: true },
                );
            }
            if resume_unlock_for(s, o.call_instance.as_str()) {
                out.push(Effect::ResumeUnlock);
            }
            out.push(
                Effect::WatchGroupRing {
                    call: o.call_instance.clone(),
                    name,
                    deadline: o.deadline.ring_expires_at,
                },
            );
            let mut offers: NameMap<LegOffer> = NameMap::new();
            offers.insert(
                o.sender_identity_key,
                LegOffer { username: username.clone(), call_id: o.call_id, key_b64: o.key_b64 },
            );
            s.group_incoming = Some(
                PendingGroupOffer {
                    call_instance: o.call_instance,
                    ring_id: o.ring_id,
                    ring_handle,
                    group_id: o.group_id,
                    group_name,
                    rang_by_username: username,
                    coordinator: o.coordinator,
                    deadline: o.deadline,
                    offers,
                },
            );
        },
    }
    out
}

/// An unanswered group ring reached its deadline: it is missed.
pub fn group_ring_expired(s: &mut Session, call: &str, name: RingName) -> (out: Vec<Effect>)
    ensures
        !group_incoming_is(*old(s), call@) ==> *final(s) == *old(s) && out@ == Seq::<Effect>::empty(),
        group_incoming_is(*old(s), call@) ==> {
            let o = old(s).group_incoming->0;
            &&& *final(s) == (Session { group_incoming: None, ..*old(s) })
            &&& out@ == seq![
                Effect::CancelRing { ring: o.ring_handle, name },
                Effect::RecordTerminal {
                    call: o.call_instance,
                    offer: o.ring_id,
                    reason: CallTerminalReason::Expired,
                    retention: retention_of(*old(s)),
                },
            ] + group_chip(o.group_id, Label::MissedGroupCall { from: o.rang_by_username }) + seq![
                Effect::EmitGroup(GroupEvent::Missed),
            ]
        },
        no_orphans(*old(s), *final(s), out@),
{
    let mut out: Vec<Effect> = Vec::new();
    let ringing = match &s.group_incoming {
        Some(o) => same(o.call_instance.as_str(), call),
        None => false,
    };
    if !ringing {
        return out;
    }
    let retention: u64 = call_retention_secs(s);
    if let Some(o) = s.group_incoming.take() {
        out.push(Effect::CancelRing { ring: o.ring_handle, name });
        out.push(
            Effect::RecordTerminal {
                call: o.call_instance,
                offer: o.ring_id,
                reason: CallTerminalReason::Expired,
                retention,
            },
        );
        log_group_call_event(&mut out, &o.group_id, Label::MissedGroupCall { from: o.rang_by_username });
        out.push(Effect::EmitGroup(GroupEvent::Missed));
        proof {
            lemma_one_dropped(*old(s), *s, out@, 0, old(s).group_incoming->0.ring_handle@);
        }
    }
    out
}

/// A member that offers a leg of the live call is back in it: not departed any more, with a full
/// budget of fresh rooms, and nothing else changes; a leg that is kept is the one offered, and the
/// others stay.
pub proof fn lemma_a_member_that_offers_is_back(before: GroupCallCtl, after: GroupCallCtl, username: Seq<char>, other: Seq<char>)
    requires
        member_back(before, after, username),
    ensures
        !after.departed@.contains(username),
        !after.reoffer_attempts@.dom().contains(username),
        other != username ==> after.departed@.contains(other) == before.departed@.contains(other)
            && after.reoffer_attempts@.dom().contains(other) == before.reoffer_attempts@.dom().contains(other),
        after.legs_added == before.legs_added && after.used_call_ids == before.used_call_ids && after.my_tickets
            == before.my_tickets && after.connected == before.connected && after.connected_at
            == before.connected_at && after.my_key == before.my_key,
{
}

/// A leg that is offered while the call rings is kept under the device that offered it, with its
/// room and key; every other leg, and the ring itself, stay as they are.
pub proof fn lemma_an_offered_leg_is_kept(
    before: PendingGroupOffer,
    after: PendingGroupOffer,
    o: GroupOffer,
    username: Seq<char>,
    other: Seq<char>,
)
    requires
        with_leg(before, after, o, username),
    ensures
        after.offers@.dom().contains(o.sender_identity_key@),
        after.offers@[o.sender_identity_key@].call_id == o.call_id,
        after.offers@[o.sender_identity_key@].key_b64 == o.key_b64,
        after.offers@[o.sender_identity_key@].username@ == username,
        other != o.sender_identity_key@ ==> after.offers@.dom().contains(other) == before.offers@.dom().contains(other),
        other != o.sender_identity_key@ && before.offers@.dom().contains(other) ==> after.offers@[other]
            == before.offers@[other],
        after.ring_handle == before.ring_handle && after.call_instance == before.call_instance && after.ring_id
            == before.ring_id && after.coordinator == before.coordinator && after.deadline == before.deadline,
{
}

/// A group's offer is heard only whole: well formed, from a verified device of a member, naming a
/// verified device of a member as the coordinator; and the coordinator's own offers come from the
/// device it coordinates with.
pub proof fn lemma_a_group_offer_is_heard_from_a_member(s: Session, o: GroupOffer, checks: GroupOfferChecks)
    requires
        group_offer_authentic(s, o, checks),
    ensures
        forall|i: int| 0 <= i < checks.ids_valid@.len() ==> #[trigger] checks.ids_valid@[i],
        checks.ticket_valid && checks.offer_deadline_valid && checks.signal_deadline_valid
            && checks.control_expiry_valid && checks.device_id_valid && checks.coordinator_device_id_valid,
        o.deadline.ring_expires_at <= o.deadline.expires_at,
        o.sender_username@.len() > 0 && o.coordinator.username@.len() > 0,
        s.directory.groups@.dom().contains(o.group_id@),
        exists|i: int|
            0 <= i < s.directory.groups@[o.group_id@].members@.len() && ((
            #[trigger] s.directory.groups@[o.group_id@].members@[i]).identity_key@ == o.sender_identity_key@
                || s.directory.groups@[o.group_id@].members@[i].identity_key@ == s.directory.account_of(
                o.sender_identity_key@,
            )),
        exists|i: int|
            0 <= i < s.directory.groups@[o.group_id@].members@.len() && (
            #[trigger] s.directory.groups@[o.group_id@].members@[i]).username@ == o.coordinator.username@,
        checks.coordinator_mailbox is Some && checks.coordinator_mailbox->0@ == o.coordinator.reply_to_mailbox@,
        o.sender_identity_key@ == o.coordinator.identity_key@ ==> o.caller_device_id@ == o.coordinator.device_id@
            && o.sender_username@ == o.coordinator.username@,
{
}

} // verus!
