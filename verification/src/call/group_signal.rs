//! The answer race of a group ring, and how members and the coordinator end it.
//!
//! The coordinator arbitrates each account's race on its own: one device per account joins.
//! Its word ends the ring for everybody; any other member's word takes only that member out.

use super::auth::{sender_device_verified, verified_group_member, verified_sender_device};
use super::claim::winner_of;
use super::ending::{settled, settled_reason};
use super::handles::{accounts_for, ends, lemma_one_dropped, no_orphans, starts_none};
use super::session::{
    call_retention_secs, group_chip, log_group_call_event, retention_of, ring_title, title_of, Session,
};
use super::system::{cause_of, disconnect_cause};
use super::types::{
    AnswerClaim, CallKind, CallPhase, CallTerminalReason, ClaimDecision, DisconnectCause, Effect,
    GroupCallCtl, GroupCoordinator, GroupEvent, Label, PendingGroupClaim, PendingGroupOffer, RingName,
    TerminalDecision,
};
use crate::text::is_some_text;
use vstd::prelude::*;

verus! {

/// A device's answer to a group ring.
pub struct GroupClaim {
    pub sender_identity_key: String,
    pub group_id: String,
    pub call_instance_id: String,
    pub ring_id: String,
    pub claim_nonce: String,
    pub answering_device_id: String,
    pub reply_to_mailbox: String,
}

/// Where the member stands that a device key belongs to: the first that answers to the key.
pub open spec fn member_at(s: Session, group_id: Seq<char>, device_key: Seq<char>, i: int) -> bool {
    &&& s.directory.groups@.dom().contains(group_id)
    &&& 0 <= i < s.directory.groups@[group_id].members@.len()
    &&& super::directory::member_key_matches(
        s.directory.groups@[group_id].members@[i],
        s.directory.account_of(device_key),
        device_key,
    )
    &&& forall|j: int|
        0 <= j < i ==> !super::directory::member_key_matches(
            #[trigger] s.directory.groups@[group_id].members@[j],
            s.directory.account_of(device_key),
            device_key,
        )
}

/// The member of a group that a device key belongs to.
pub fn group_member_of(s: &Session, group_id: &str, device_key: &str) -> (r: Option<String>)
    ensures
        match r {
            Some(name) => exists|i: int| #[trigger]
                member_at(*s, group_id@, device_key@, i) && name
                    == s.directory.groups@[group_id@].members@[i].username,
            None => !s.directory.groups@.dom().contains(group_id@)
                || !s.directory.groups@[group_id@].lists_key(
                s.directory.account_of(device_key@),
                device_key@,
            ),
        },
{
    match s.directory.groups.get(group_id) {
        Some(group) => {
            let account: String = s.directory.attribute_device(device_key);
            match group.find_key(account.as_str(), device_key) {
                Some(i) => {
                    assert(member_at(*s, group_id@, device_key@, i as int));
                    Some(group.members[i].username.clone())
                },
                None => None,
            }
        },
        None => None,
    }
}

/// The live group call is the one the claim is for, it still rings, and this very device
/// coordinates it.
pub open spec fn group_claim_for_here(s: Session, c: GroupClaim, now: u64) -> bool {
    s.group_call matches Some(g) && {
        &&& g.group_id@ == c.group_id@
        &&& g.call_instance@ == c.call_instance_id@
        &&& g.ring_id@ == c.ring_id@
        &&& g.deadline.ring_expires_at >= now
        &&& g.coordinator.identity_key@ == match s.account {
            Some(account) => account.identity_key@,
            None => Seq::<char>::empty(),
        }
        &&& g.coordinator.device_id@ == s.directory.self_device_id@
    }
}

/// The claim comes from the named device of that member, and is to be answered at the mailbox
/// derived for it.
pub open spec fn group_claim_from(
    s: Session,
    c: GroupClaim,
    username: Seq<char>,
    device_id_valid: bool,
    derived_mailbox: Option<String>,
) -> bool {
    &&& sender_device_verified(
        s.directory,
        username,
        c.sender_identity_key@,
        c.answering_device_id@,
        device_id_valid,
    )
    &&& derived_mailbox matches Some(m) && m@ == c.reply_to_mailbox@
}

/// Take an answer to the group ring this device coordinates. Returns the member whose race
/// the claim is to be put to, or nothing if it is not entitled to that. The member's account
/// has an arbiter from here on. `derived_mailbox` is the one derived for that member and the
/// answering device.
pub fn receive_group_claim(
    s: &mut Session,
    c: &GroupClaim,
    ids_valid: bool,
    control_expiry_valid: bool,
    device_id_valid: bool,
    derived_mailbox: &Option<String>,
    now: u64,
) -> (r: Option<String>)
    ensures
        match r {
            None => *final(s) == *old(s) && (!ids_valid || !control_expiry_valid
                || !group_claim_for_here(*old(s), *c, now) || forall|i: int|
                #[trigger] member_at(*old(s), c.group_id@, c.sender_identity_key@, i) ==> !group_claim_from(
                    *old(s),
                    *c,
                    old(s).directory.groups@[c.group_id@].members@[i].username@,
                    device_id_valid,
                    *derived_mailbox,
                )),
            Some(name) => {
                &&& ids_valid && control_expiry_valid && group_claim_for_here(*old(s), *c, now)
                &&& exists|i: int| #[trigger]
                    member_at(*old(s), c.group_id@, c.sender_identity_key@, i) && name
                        == old(s).directory.groups@[c.group_id@].members@[i].username
                &&& group_claim_from(*old(s), *c, name@, device_id_valid, *derived_mailbox)
                &&& final(s).group_call matches Some(g) && g == (GroupCallCtl {
                    arbiters: g.arbiters,
                    ..old(s).group_call->0
                }) && g.arbiters@ == old(s).group_call->0.arbiters@.insert(
                    old(s).directory.account_of(c.sender_identity_key@),
                )
                &&& *final(s) == (Session { group_call: final(s).group_call, ..*old(s) })
            },
        },
{
    if !ids_valid || !control_expiry_valid {
        return None;
    }
    let for_here = match &s.group_call {
        Some(g) => {
            let mine = match &s.account {
                Some(account) => g.coordinator.identity_key == account.identity_key,
                None => g.coordinator.identity_key.as_str().is_empty(),
            };
            assert(g.coordinator.identity_key@.len() == 0 ==> g.coordinator.identity_key@ =~= Seq::<
                char,
            >::empty());
            g.group_id == c.group_id && g.call_instance == c.call_instance_id && g.ring_id
                == c.ring_id && g.deadline.ring_expires_at >= now && mine && g.coordinator.device_id
                == s.directory.self_device_id
        },
        None => false,
    };
    if !for_here {
        return None;
    }
    let username: String = match group_member_of(
        s,
        c.group_id.as_str(),
        c.sender_identity_key.as_str(),
    ) {
        Some(name) => name,
        None => {
            assert(forall|i: int| !#[trigger] member_at(*old(s), c.group_id@, c.sender_identity_key@, i));
            return None;
        },
    };
    let verified = verified_sender_device(
        &s.directory,
        username.as_str(),
        c.sender_identity_key.as_str(),
        c.answering_device_id.as_str(),
        device_id_valid,
    ) && is_some_text(derived_mailbox, c.reply_to_mailbox.as_str());
    if !verified {
        proof {
            assert forall|i: int| #[trigger]
                member_at(*old(s), c.group_id@, c.sender_identity_key@, i) implies !group_claim_from(
                *old(s),
                *c,
                old(s).directory.groups@[c.group_id@].members@[i].username@,
                device_id_valid,
                *derived_mailbox,
            ) by {
                let k = choose|k: int| #[trigger]
                    member_at(*old(s), c.group_id@, c.sender_identity_key@, k) && username
                        == old(s).directory.groups@[c.group_id@].members@[k].username;
                assert(k == i);
            }
        }
        return None;
    }
    let account: String = s.directory.attribute_device(c.sender_identity_key.as_str());
    match &mut s.group_call {
        Some(g) => {
            let _ = g.arbiters.insert(account);
        },
        None => {},
    }
    Some(username)
}

/// The arbiter has decided a group claim: whatever it decided, short of refusing outright, the
/// claimant is told who won.
pub fn settle_group_claim(c: GroupClaim, username: String, decision: ClaimDecision) -> (out: Vec<Effect>)
    ensures
        out@ == match winner_of(decision) {
            Some(winner) => seq![
                Effect::SendGroupWinner {
                    username,
                    device_key: c.sender_identity_key,
                    group_id: c.group_id,
                    call: c.call_instance_id,
                    ring_id: c.ring_id,
                    winner,
                },
            ],
            None => Seq::<Effect>::empty(),
        },
        starts_none(out@),
{
    let mut out: Vec<Effect> = Vec::new();
    let winner: Option<AnswerClaim> = match decision {
        ClaimDecision::Winner(w) => Some(w),
        ClaimDecision::Duplicate(w) => Some(w),
        ClaimDecision::Lost(w) => Some(w),
        ClaimDecision::Invalid => None,
    };
    if let Some(winner) = winner {
        out.push(
            Effect::SendGroupWinner {
                username,
                device_key: c.sender_identity_key,
                group_id: c.group_id,
                call: c.call_instance_id,
                ring_id: c.ring_id,
                winner,
            },
        );
    }
    out
}

/// The coordinator's word on which of an account's devices answered.
pub struct GroupWinner {
    pub sender_identity_key: String,
    pub group_id: String,
    pub call_instance_id: String,
    pub ring_id: String,
    pub claim_nonce: String,
    pub winner_device_id: String,
}

/// The ring is this one.
pub open spec fn group_ring_is(o: PendingGroupOffer, group_id: Seq<char>, call: Seq<char>, ring_id: Seq<char>) -> bool {
    o.group_id@ == group_id && o.call_instance@ == call && o.ring_id@ == ring_id
}

pub fn is_group_ring(o: &PendingGroupOffer, group_id: &String, call: &String, ring_id: &String) -> (r: bool)
    ensures
        r == group_ring_is(*o, group_id@, call@, ring_id@),
{
    o.group_id == *group_id && o.call_instance == *call && o.ring_id == *ring_id
}

/// The group ring a winner message can be about: the answered one if there is one, else the
/// one still ringing.
pub open spec fn group_winner_origin(s: Session) -> Option<PendingGroupOffer> {
    match s.group_claiming {
        Some(p) => Some(p.offer),
        None => s.group_incoming,
    }
}

/// The device whose word a winner message is: the coordinator's, by the ring this session holds.
/// It is this id that has to be valid for the message to count.
pub fn winner_coordinator_device(s: &Session) -> (r: Option<String>)
    ensures
        r == match group_winner_origin(*s) {
            Some(o) => Some(o.coordinator.device_id),
            None => None,
        },
{
    match &s.group_claiming {
        Some(p) => Some(p.offer.coordinator.device_id.clone()),
        None => match &s.group_incoming {
            Some(o) => Some(o.coordinator.device_id.clone()),
            None => None,
        },
    }
}

/// The winner message is the coordinator's own word on the ring this session holds.
/// `device_id_valid` is said of the coordinator's device.
pub open spec fn group_winner_authentic(
    s: Session,
    w: GroupWinner,
    ids_valid: bool,
    control_expiry_valid: bool,
    device_id_valid: bool,
    now: u64,
) -> bool {
    &&& ids_valid
    &&& control_expiry_valid
    &&& group_winner_origin(s) matches Some(o) && {
        &&& group_ring_is(o, w.group_id@, w.call_instance_id@, w.ring_id@)
        &&& o.coordinator.identity_key@ == w.sender_identity_key@
        &&& o.deadline.expires_at >= now
        &&& sender_device_verified(
            s.directory,
            o.coordinator.username@,
            w.sender_identity_key@,
            o.coordinator.device_id@,
            device_id_valid,
        )
    }
}

fn group_winner_authentic_exec(
    s: &Session,
    w: &GroupWinner,
    ids_valid: bool,
    control_expiry_valid: bool,
    device_id_valid: bool,
    now: u64,
) -> (r: bool)
    ensures
        r == group_winner_authentic(*s, *w, ids_valid, control_expiry_valid, device_id_valid, now),
{
    if !ids_valid || !control_expiry_valid {
        return false;
    }
    let origin: Option<&PendingGroupOffer> = match &s.group_claiming {
        Some(p) => Some(&p.offer),
        None => match &s.group_incoming {
            Some(o) => Some(o),
            None => None,
        },
    };
    match origin {
        Some(o) => is_group_ring(o, &w.group_id, &w.call_instance_id, &w.ring_id)
            && o.coordinator.identity_key == w.sender_identity_key && o.deadline.expires_at >= now
            && verified_sender_device(
            &s.directory,
            o.coordinator.username.as_str(),
            w.sender_identity_key.as_str(),
            o.coordinator.device_id.as_str(),
            device_id_valid,
        ),
        None => false,
    }
}

/// The claim this session sent is the one the winner message names.
pub open spec fn group_claim_won(s: Session, w: GroupWinner) -> bool {
    s.group_claiming matches Some(p) && group_ring_is(
        p.offer,
        w.group_id@,
        w.call_instance_id@,
        w.ring_id@,
    ) && p.claim_nonce@ == w.claim_nonce@ && p.answering_device_id@ == w.winner_device_id@
}

/// The ring that is up is the one named.
pub open spec fn group_incoming_ring(s: Session, group_id: Seq<char>, call: Seq<char>, ring_id: Seq<char>) -> bool {
    s.group_incoming matches Some(o) && group_ring_is(o, group_id, call, ring_id)
}

/// The answered ring is the one named.
pub open spec fn group_claiming_ring(s: Session, group_id: Seq<char>, call: Seq<char>, ring_id: Seq<char>) -> bool {
    s.group_claiming matches Some(p) && group_ring_is(p.offer, group_id, call, ring_id)
}

/// What a group winner message means here.
pub enum GroupWinnerStep {
    /// Nothing.
    Ignore,
    /// This device answered first: join the mesh.
    Join(PendingGroupOffer),
    /// Another of this account's devices answered.
    Lost,
}

/// The effects of learning that another of this account's devices answered.
pub open spec fn group_lost_effects(s: Session, w: GroupWinner) -> Seq<Effect> {
    (if group_claiming_ring(s, w.group_id@, w.call_instance_id@, w.ring_id@) {
        seq![
            Effect::EndSystemCall {
                ring: s.group_claiming->0.offer.ring_handle,
                cause: DisconnectCause::AnsweredElsewhere,
            },
        ]
    } else {
        Seq::empty()
    }) + seq![
        Effect::RecordTerminal {
            call: w.call_instance_id,
            offer: w.ring_id,
            reason: CallTerminalReason::AnsweredElsewhere,
            retention: retention_of(s),
        },
    ] + (if group_incoming_ring(s, w.group_id@, w.call_instance_id@, w.ring_id@) {
        seq![Effect::CancelRing { ring: s.group_incoming->0.ring_handle, name: RingName::Nobody }]
    } else {
        Seq::empty()
    }) + seq![
        Effect::EmitGroup(GroupEvent::Handled { reason: CallTerminalReason::AnsweredElsewhere }),
    ]
}

/// The coordinator named a winner. If it is this device and the exact claim it sent, the mesh
/// is joined; if it is another device, every ring this session holds for the call comes down.
pub fn receive_group_winner(
    s: &mut Session,
    w: GroupWinner,
    ids_valid: bool,
    control_expiry_valid: bool,
    device_id_valid: bool,
    now: u64,
) -> (r: (GroupWinnerStep, Vec<Effect>))
    ensures
        ({
            let authentic = group_winner_authentic(
                *old(s),
                w,
                ids_valid,
                control_expiry_valid,
                device_id_valid,
                now,
            );
            let mine = w.winner_device_id@ == old(s).directory.self_device_id@;
            if !authentic || (mine && !group_claim_won(*old(s), w)) {
                &&& *final(s) == *old(s)
                &&& r.0 is Ignore
                &&& r.1@ == Seq::<Effect>::empty()
            } else if mine {
                &&& *final(s) == (Session { group_claiming: None, ..*old(s) })
                &&& r.0 == GroupWinnerStep::Join(old(s).group_claiming->0.offer)
                &&& r.1@ == seq![
                    Effect::Transition {
                        call: w.call_instance_id,
                        offer: w.ring_id,
                        phase: CallPhase::Winner,
                    },
                ]
            } else {
                &&& *final(s) == (Session {
                    group_incoming: if group_incoming_ring(
                        *old(s),
                        w.group_id@,
                        w.call_instance_id@,
                        w.ring_id@,
                    ) {
                        None
                    } else {
                        old(s).group_incoming
                    },
                    group_claiming: if group_claiming_ring(
                        *old(s),
                        w.group_id@,
                        w.call_instance_id@,
                        w.ring_id@,
                    ) {
                        None
                    } else {
                        old(s).group_claiming
                    },
                    ..*old(s)
                })
                &&& r.0 is Lost
                &&& r.1@ == group_lost_effects(*old(s), w)
            }
        }),
        accounts_for(
            *old(s),
            None,
            *final(s),
            match r.0 {
                GroupWinnerStep::Join(offer) => Some(offer.ring_handle@),
                _ => None,
            },
            r.1@,
        ),
{
    let mut out: Vec<Effect> = Vec::new();
    if !group_winner_authentic_exec(s, &w, ids_valid, control_expiry_valid, device_id_valid, now) {
        return (GroupWinnerStep::Ignore, out);
    }
    if w.winner_device_id == s.directory.self_device_id {
        let won = match &s.group_claiming {
            Some(p) => is_group_ring(&p.offer, &w.group_id, &w.call_instance_id, &w.ring_id)
                && p.claim_nonce == w.claim_nonce && p.answering_device_id == w.winner_device_id,
            None => false,
        };
        if !won {
            return (GroupWinnerStep::Ignore, out);
        }
        match s.group_claiming.take() {
            Some(p) => {
                out.push(
                    Effect::Transition {
                        call: w.call_instance_id,
                        offer: w.ring_id,
                        phase: CallPhase::Winner,
                    },
                );
                return (GroupWinnerStep::Join(p.offer), out);
            },
            None => {
                return (GroupWinnerStep::Ignore, out);
            },
        }
    }
    let retention: u64 = call_retention_secs(s);
    let mut cancelled: Option<String> = None;
    let rings_here = match &s.group_incoming {
        Some(o) => is_group_ring(o, &w.group_id, &w.call_instance_id, &w.ring_id),
        None => false,
    };
    if rings_here {
        if let Some(o) = s.group_incoming.take() {
            cancelled = Some(o.ring_handle);
        }
    }
    let claimed_here = match &s.group_claiming {
        Some(p) => is_group_ring(&p.offer, &w.group_id, &w.call_instance_id, &w.ring_id),
        None => false,
    };
    if claimed_here {
        if let Some(p) = s.group_claiming.take() {
            out.push(
                Effect::EndSystemCall {
                    ring: p.offer.ring_handle,
                    cause: DisconnectCause::AnsweredElsewhere,
                },
            );
        }
    }
    out.push(
        Effect::RecordTerminal {
            call: w.call_instance_id,
            offer: w.ring_id,
            reason: CallTerminalReason::AnsweredElsewhere,
            retention,
        },
    );
    if let Some(ring) = cancelled {
        out.push(Effect::CancelRing { ring, name: RingName::Nobody });
    }
    out.push(
        Effect::EmitGroup(GroupEvent::Handled { reason: CallTerminalReason::AnsweredElsewhere }),
    );
    assert(out@ =~= group_lost_effects(*old(s), w));
    proof {
        if claimed_here {
            assert(ends(out@[0], old(s).group_claiming->0.offer.ring_handle@));
        }
        if rings_here {
            assert(ends(out@[out@.len() - 2], old(s).group_incoming->0.ring_handle@));
        }
    }
    (GroupWinnerStep::Lost, out)
}

/// This device won and could not join the mesh: the system call the ring created goes with
/// the attempt.
pub fn won_group_failed(s: &Session, call: &String, ring_id: &String, ring_handle: &String) -> (out: Vec<Effect>)
    ensures
        out@ == seq![
            Effect::RecordTerminal {
                call: *call,
                offer: *ring_id,
                reason: CallTerminalReason::TransportError,
                retention: retention_of(*s),
            },
            Effect::EndSystemCall { ring: *ring_handle, cause: DisconnectCause::Error },
            Effect::EmitGroup(GroupEvent::Ended),
        ],
        accounts_for(*s, Some(ring_handle@), *s, None, out@),
{
    let mut out: Vec<Effect> = Vec::new();
    out.push(
        Effect::RecordTerminal {
            call: call.clone(),
            offer: ring_id.clone(),
            reason: CallTerminalReason::TransportError,
            retention: call_retention_secs(s),
        },
    );
    out.push(Effect::EndSystemCall { ring: ring_handle.clone(), cause: DisconnectCause::Error });
    out.push(Effect::EmitGroup(GroupEvent::Ended));
    assert(ends(out@[1], ring_handle@));
    out
}

/// A terminal outcome of a group call, as a member sent it.
pub struct GroupTerminal {
    pub sender_identity_key: String,
    pub group_id: String,
    pub call_instance: String,
    pub ring_id: String,
    pub reason: CallTerminalReason,
    pub actor_device_id: String,
    pub coordinator_username: String,
    pub coordinator_identity_key: String,
    pub coordinator_device_id: String,
}

/// What the protocol layer says of a group outcome's parts.
pub struct GroupTerminalChecks {
    pub ids_valid: bool,
    pub control_expiry_valid: bool,
    pub actor_device_id_valid: bool,
    pub coordinator_device_id_valid: bool,
}

/// The outcome comes from a verified device of a member, and names a verified device of a
/// member as the coordinator.
pub open spec fn group_terminal_authentic(s: Session, t: GroupTerminal, checks: GroupTerminalChecks) -> bool {
    &&& s.directory.name_of(t.sender_identity_key@) matches Some(username) && sender_device_verified(
        s.directory,
        username@,
        t.sender_identity_key@,
        t.actor_device_id@,
        checks.actor_device_id_valid,
    )
    &&& s.directory.groups@.dom().contains(t.group_id@)
    &&& s.directory.groups@[t.group_id@].lists_key(
        s.directory.account_of(t.sender_identity_key@),
        t.sender_identity_key@,
    )
    &&& s.directory.groups@[t.group_id@].lists_named(
        t.coordinator_username@,
        s.directory.account_of(t.coordinator_identity_key@),
        t.coordinator_identity_key@,
    )
    &&& checks.ids_valid
    &&& checks.control_expiry_valid
    &&& sender_device_verified(
        s.directory,
        t.coordinator_username@,
        t.coordinator_identity_key@,
        t.coordinator_device_id@,
        checks.coordinator_device_id_valid,
    )
}

/// The outcome is the coordinator's own, and one that ends the call for everybody.
pub open spec fn ends_for_everybody(t: GroupTerminal) -> bool {
    &&& t.sender_identity_key@ == t.coordinator_identity_key@
    &&& t.actor_device_id@ == t.coordinator_device_id@
    &&& t.reason is CallerCancelled || t.reason is Expired || t.reason is TransportError
}

/// Whose word a group outcome is.
#[derive(Clone, Copy, Debug, PartialEq, Eq, Structural)]
pub enum GroupTerminalScope {
    /// Nobody's: it is dropped.
    Nobody,
    /// A member's, about that member alone.
    Member,
    /// The coordinator's, about the whole call. The registry decides on it.
    Everybody,
}

/// Decide whose word a group outcome is.
pub fn screen_group_terminal(s: &Session, t: &GroupTerminal, checks: &GroupTerminalChecks) -> (r: GroupTerminalScope)
    ensures
        r == if !group_terminal_authentic(*s, *t, *checks) {
            GroupTerminalScope::Nobody
        } else if ends_for_everybody(*t) {
            GroupTerminalScope::Everybody
        } else {
            GroupTerminalScope::Member
        },
{
    let username: String = match s.directory.username_for_peer(t.sender_identity_key.as_str()) {
        Some(name) => name,
        None => {
            return GroupTerminalScope::Nobody;
        },
    };
    let members_ok = match s.directory.groups.get(t.group_id.as_str()) {
        Some(group) => {
            let coordinator_account: String = s.directory.attribute_device(
                t.coordinator_identity_key.as_str(),
            );
            verified_group_member(&s.directory, group, t.sender_identity_key.as_str())
                && group.has_named(
                t.coordinator_username.as_str(),
                coordinator_account.as_str(),
                t.coordinator_identity_key.as_str(),
            )
        },
        None => false,
    };
    if !members_ok || !checks.ids_valid || !checks.control_expiry_valid || !verified_sender_device(
        &s.directory,
        username.as_str(),
        t.sender_identity_key.as_str(),
        t.actor_device_id.as_str(),
        checks.actor_device_id_valid,
    ) || !verified_sender_device(
        &s.directory,
        t.coordinator_username.as_str(),
        t.coordinator_identity_key.as_str(),
        t.coordinator_device_id.as_str(),
        checks.coordinator_device_id_valid,
    ) {
        return GroupTerminalScope::Nobody;
    }
    let final_word = match t.reason {
        CallTerminalReason::CallerCancelled => true,
        CallTerminalReason::Expired => true,
        CallTerminalReason::TransportError => true,
        _ => false,
    };
    if t.sender_identity_key == t.coordinator_identity_key && t.actor_device_id
        == t.coordinator_device_id && final_word {
        GroupTerminalScope::Everybody
    } else {
        GroupTerminalScope::Member
    }
}

/// The outcome's coordinator is this one.
pub open spec fn coordinator_is(c: GroupCoordinator, t: GroupTerminal) -> bool {
    c.identity_key@ == t.coordinator_identity_key@ && c.device_id@ == t.coordinator_device_id@
}

fn is_coordinator(c: &GroupCoordinator, t: &GroupTerminal) -> (r: bool)
    ensures
        r == coordinator_is(*c, *t),
{
    c.identity_key == t.coordinator_identity_key && c.device_id == t.coordinator_device_id
}

/// The live group call is the one the outcome is about.
pub open spec fn terminal_for_live(s: Session, t: GroupTerminal) -> bool {
    s.group_call matches Some(g) && g.call_instance@ == t.call_instance@ && g.ring_id@ == t.ring_id@
        && g.group_id@ == t.group_id@ && coordinator_is(g.coordinator, t)
}

/// A settled outcome for everybody: the live call, the ring or the answered ring goes, the
/// first of them that the outcome is about.
pub fn receive_group_end(s: &mut Session, t: &GroupTerminal, decision: TerminalDecision) -> (out: Vec<Effect>)
    ensures
        ({
            let ring_here = old(s).group_incoming matches Some(o) && group_ring_is(
                o,
                t.group_id@,
                t.call_instance@,
                t.ring_id@,
            ) && coordinator_is(o.coordinator, *t);
            let claim_here = old(s).group_claiming matches Some(p) && group_ring_is(
                p.offer,
                t.group_id@,
                t.call_instance@,
                t.ring_id@,
            ) && coordinator_is(p.offer.coordinator, *t);
            if settled(decision) is None {
                *final(s) == *old(s) && out@ == Seq::<Effect>::empty()
            } else if terminal_for_live(*old(s), *t) {
                let g = old(s).group_call->0;
                &&& *final(s) == (Session { group_call: None, ..*old(s) })
                &&& out@ == seq![
                    Effect::StopMedia { room: g.call_instance },
                    Effect::EndSystemCall { ring: g.ring_handle, cause: cause_of(t.reason) },
                ] + group_chip(
                    g.group_id,
                    Label::Ended {
                        kind: CallKind::Group,
                        caller: false,
                        connected_at: g.connected_at,
                    },
                ) + seq![Effect::EmitGroup(GroupEvent::Ended)]
            } else if ring_here {
                let o = old(s).group_incoming->0;
                &&& *final(s) == (Session { group_incoming: None, ..*old(s) })
                &&& out@ == seq![
                    Effect::CancelRing {
                        ring: o.ring_handle,
                        name: title_of(*old(s), o.group_name),
                    },
                ] + group_chip(o.group_id, Label::MissedGroupCall { from: o.rang_by_username }) + seq![
                    Effect::EmitGroup(GroupEvent::Missed),
                ]
            } else if claim_here {
                let o = old(s).group_claiming->0.offer;
                &&& *final(s) == (Session { group_claiming: None, ..*old(s) })
                &&& out@ == seq![
                    Effect::EndSystemCall { ring: o.ring_handle, cause: cause_of(t.reason) },
                ] + group_chip(o.group_id, Label::GroupCallEnded) + seq![
                    Effect::EmitGroup(GroupEvent::Handled { reason: t.reason }),
                ]
            } else {
                *final(s) == *old(s) && out@ == Seq::<Effect>::empty()
            }
        }),
        no_orphans(*old(s), *final(s), out@),
{
    let mut out: Vec<Effect> = Vec::new();
    if settled_reason(decision).is_none() {
        return out;
    }
    let live = match &s.group_call {
        Some(g) => g.call_instance == t.call_instance && g.ring_id == t.ring_id && g.group_id
            == t.group_id && is_coordinator(&g.coordinator, t),
        None => false,
    };
    if live {
        if let Some(g) = s.group_call.take() {
            out.push(Effect::StopMedia { room: g.call_instance });
            out.push(
                Effect::EndSystemCall { ring: g.ring_handle, cause: disconnect_cause(t.reason) },
            );
            log_group_call_event(
                &mut out,
                &g.group_id,
                Label::Ended { kind: CallKind::Group, caller: false, connected_at: g.connected_at },
            );
            out.push(Effect::EmitGroup(GroupEvent::Ended));
            proof {
                lemma_one_dropped(*old(s), *s, out@, 1, old(s).group_call->0.ring_handle@);
            }
        }
        return out;
    }
    let rings_here = match &s.group_incoming {
        Some(o) => is_group_ring(o, &t.group_id, &t.call_instance, &t.ring_id) && is_coordinator(
            &o.coordinator,
            t,
        ),
        None => false,
    };
    if rings_here {
        if let Some(o) = s.group_incoming.take() {
            let name: RingName = ring_title(s, &o.group_name);
            out.push(Effect::CancelRing { ring: o.ring_handle, name });
            log_group_call_event(
                &mut out,
                &o.group_id,
                Label::MissedGroupCall { from: o.rang_by_username },
            );
            out.push(Effect::EmitGroup(GroupEvent::Missed));
            proof {
                lemma_one_dropped(*old(s), *s, out@, 0, old(s).group_incoming->0.ring_handle@);
            }
        }
        return out;
    }
    let claimed_here = match &s.group_claiming {
        Some(p) => is_group_ring(&p.offer, &t.group_id, &t.call_instance, &t.ring_id)
            && is_coordinator(&p.offer.coordinator, t),
        None => false,
    };
    if claimed_here {
        if let Some(p) = s.group_claiming.take() {
            out.push(
                Effect::EndSystemCall {
                    ring: p.offer.ring_handle,
                    cause: disconnect_cause(t.reason),
                },
            );
            log_group_call_event(&mut out, &p.offer.group_id, Label::GroupCallEnded);
            out.push(Effect::EmitGroup(GroupEvent::Handled { reason: t.reason }));
            proof {
                lemma_one_dropped(*old(s), *s, out@, 0, old(s).group_claiming->0.offer.ring_handle@);
            }
        }
    }
    out
}

/// The live call without one member's leg. A member known by name counts as departed.
pub open spec fn without_member(
    before: GroupCallCtl,
    after: GroupCallCtl,
    device_key: Seq<char>,
    username: Seq<char>,
) -> bool {
    &&& after == (GroupCallCtl {
        legs_added: after.legs_added,
        departed: after.departed,
        ..before
    })
    &&& after.legs_added@ == before.legs_added@.remove(device_key)
    &&& after.departed@ == if username.len() == 0 {
        before.departed@
    } else {
        before.departed@.insert(username)
    }
}

/// A member declined or left: their leg goes, and nothing else does.
pub fn receive_member_left(s: &mut Session, t: &GroupTerminal) -> (out: Vec<Effect>)
    ensures
        ({
            let username = match old(s).directory.name_of(t.sender_identity_key@) {
                Some(name) => name@,
                None => Seq::<char>::empty(),
            };
            if terminal_for_live(*old(s), *t) {
                &&& final(s).group_call matches Some(g) && without_member(
                    old(s).group_call->0,
                    g,
                    t.sender_identity_key@,
                    username,
                )
                &&& *final(s) == (Session { group_call: final(s).group_call, ..*old(s) })
                &&& if old(s).group_call->0.connected@.dom().contains(t.sender_identity_key@) {
                    out@ == Seq::<Effect>::empty()
                } else {
                    out@.len() == 1 && (out@[0] matches Effect::EmitGroup(
                        GroupEvent::PeerDeclined { username: who },
                    ) && who@ == username)
                }
            } else if group_incoming_ring(*old(s), t.group_id@, t.call_instance@, t.ring_id@) {
                &&& final(s).group_incoming matches Some(o) && o == (PendingGroupOffer {
                    offers: o.offers,
                    ..old(s).group_incoming->0
                }) && o.offers@ == old(s).group_incoming->0.offers@.remove(t.sender_identity_key@)
                &&& *final(s) == (Session { group_incoming: final(s).group_incoming, ..*old(s) })
                &&& out@ == Seq::<Effect>::empty()
            } else if group_claiming_ring(*old(s), t.group_id@, t.call_instance@, t.ring_id@) {
                &&& final(s).group_claiming matches Some(p) && p == (PendingGroupClaim {
                    offer: PendingGroupOffer {
                        offers: p.offer.offers,
                        ..old(s).group_claiming->0.offer
                    },
                    ..old(s).group_claiming->0
                }) && p.offer.offers@ == old(s).group_claiming->0.offer.offers@.remove(
                    t.sender_identity_key@,
                )
                &&& *final(s) == (Session { group_claiming: final(s).group_claiming, ..*old(s) })
                &&& out@ == Seq::<Effect>::empty()
            } else {
                *final(s) == *old(s) && out@ == Seq::<Effect>::empty()
            }
        }),
        no_orphans(*old(s), *final(s), out@),
{
    let mut out: Vec<Effect> = Vec::new();
    let username: String = match s.directory.username_for_peer(t.sender_identity_key.as_str()) {
        Some(name) => name,
        None => String::new(),
    };
    match &mut s.group_call {
        Some(g) => {
            if g.call_instance == t.call_instance && g.ring_id == t.ring_id && g.group_id
                == t.group_id && is_coordinator(&g.coordinator, t) {
                g.legs_added.remove(t.sender_identity_key.as_str());
                if !username.as_str().is_empty() {
                    let _ = g.departed.insert(username.clone());
                }
                if !g.connected.contains_key(t.sender_identity_key.as_str()) {
                    out.push(Effect::EmitGroup(GroupEvent::PeerDeclined { username }));
                }
                return out;
            }
        },
        None => {},
    }
    match &mut s.group_incoming {
        Some(o) => {
            if is_group_ring(o, &t.group_id, &t.call_instance, &t.ring_id) {
                let _ = o.offers.remove(t.sender_identity_key.as_str());
                return out;
            }
        },
        None => {},
    }
    match &mut s.group_claiming {
        Some(p) => {
            if is_group_ring(&p.offer, &t.group_id, &t.call_instance, &t.ring_id) {
                let _ = p.offer.offers.remove(t.sender_identity_key.as_str());
            }
        },
        None => {},
    }
    out
}

/// A claim to a group ring is for the device that coordinates it, for the very call and ring, and
/// only while it rings; and it counts from the device it names, answered at that device's own
/// mailbox.
pub proof fn lemma_a_group_claim_is_for_the_coordinator(
    s: Session,
    c: GroupClaim,
    now: u64,
    username: Seq<char>,
    device_id_valid: bool,
    derived: Option<String>,
)
    ensures
        group_claim_for_here(s, c, now) && s.account is Some ==> s.group_call is Some && s.group_call->0.group_id@
            == c.group_id@ && s.group_call->0.call_instance@ == c.call_instance_id@ && s.group_call->0.ring_id@
            == c.ring_id@ && now <= s.group_call->0.deadline.ring_expires_at
            && s.group_call->0.coordinator.identity_key@ == s.account->0.identity_key@
            && s.group_call->0.coordinator.device_id@ == s.directory.self_device_id@,
        s.account is Some && s.group_call is Some && s.group_call->0.group_id@ == c.group_id@
            && s.group_call->0.call_instance@ == c.call_instance_id@ && s.group_call->0.ring_id@ == c.ring_id@ && now
            <= s.group_call->0.deadline.ring_expires_at && s.group_call->0.coordinator.identity_key@
            == s.account->0.identity_key@ && s.group_call->0.coordinator.device_id@ == s.directory.self_device_id@
            ==> group_claim_for_here(s, c, now),
        group_claim_from(s, c, username, device_id_valid, derived) ==> device_id_valid && username.len() > 0
            && derived is Some && derived->0@ == c.reply_to_mailbox@,
        group_claim_from(s, c, username, device_id_valid, derived) && s.directory.rosters@.dom().contains(username)
            ==> exists|i: int|
            0 <= i < s.directory.rosters@[username]@.len() && (
            #[trigger] s.directory.rosters@[username]@[i]).device_id@ == c.answering_device_id@
                && s.directory.rosters@[username]@[i].identity_key@ == c.sender_identity_key@,
{
}

/// The device the coordinator names joins, by the very claim it sent for the very ring; the word is
/// the coordinating device's own and comes in time. The coordinator's device is on its roster.
pub proof fn lemma_the_named_device_joins_the_group_call(s: Session, w: GroupWinner, now: u64, at: int)
    requires
        s.group_claiming is Some,
        ({
            let p = s.group_claiming->0;
            let o = p.offer;
            &&& w.group_id@ == o.group_id@
            &&& w.call_instance_id@ == o.call_instance@
            &&& w.ring_id@ == o.ring_id@
            &&& w.sender_identity_key@ == o.coordinator.identity_key@
            &&& now <= o.deadline.expires_at
            &&& w.claim_nonce@ == p.claim_nonce@
            &&& w.winner_device_id@ == p.answering_device_id@
            &&& o.coordinator.username@.len() > 0
            &&& s.directory.rosters@.dom().contains(o.coordinator.username@)
            &&& 0 <= at < s.directory.rosters@[o.coordinator.username@]@.len()
            &&& s.directory.rosters@[o.coordinator.username@]@[at].device_id@ == o.coordinator.device_id@
            &&& s.directory.rosters@[o.coordinator.username@]@[at].identity_key@ == o.coordinator.identity_key@
        }),
    ensures
        group_winner_authentic(s, w, true, true, true, now),
        group_claim_won(s, w),
        group_claiming_ring(s, w.group_id@, w.call_instance_id@, w.ring_id@),
{
}

/// Nobody but the coordinating device names a winner of a group ring, in time and for the ring `o`
/// this session answered or still rings for; and no claim wins but the one this device sent.
pub proof fn lemma_only_the_coordinator_names_a_winner(
    s: Session,
    w: GroupWinner,
    ids_valid: bool,
    control_expiry_valid: bool,
    device_id_valid: bool,
    now: u64,
    o: PendingGroupOffer,
)
    requires
        s.group_claiming is Some ==> o == s.group_claiming->0.offer,
        s.group_claiming is None && s.group_incoming is Some ==> o == s.group_incoming->0,
    ensures
        group_winner_authentic(s, w, ids_valid, control_expiry_valid, device_id_valid, now) ==> ({
            &&& ids_valid && control_expiry_valid && device_id_valid
            &&& s.group_claiming is Some || s.group_incoming is Some
            &&& w.group_id@ == o.group_id@
            &&& w.call_instance_id@ == o.call_instance@
            &&& w.ring_id@ == o.ring_id@
            &&& w.sender_identity_key@ == o.coordinator.identity_key@
            &&& now <= o.deadline.expires_at
        }),
        group_claim_won(s, w) ==> s.group_claiming is Some && s.group_claiming->0.claim_nonce@ == w.claim_nonce@
            && s.group_claiming->0.answering_device_id@ == w.winner_device_id@
            && s.group_claiming->0.offer.call_instance@ == w.call_instance_id@
            && s.group_claiming->0.offer.ring_id@ == w.ring_id@ && s.group_claiming->0.offer.group_id@
            == w.group_id@,
{
}

/// A device of this account that did not win stops ringing for the group and lets its answer go,
/// records that the call was answered elsewhere, tells the user so, and makes no entry.
pub proof fn lemma_who_did_not_win_the_group_lets_go(s: Session, w: GroupWinner)
    ensures
        ({
            let out = group_lost_effects(s, w);
            let answered = s.group_claiming is Some && s.group_claiming->0.offer.group_id@ == w.group_id@
                && s.group_claiming->0.offer.call_instance@ == w.call_instance_id@
                && s.group_claiming->0.offer.ring_id@ == w.ring_id@;
            let rings = s.group_incoming is Some && s.group_incoming->0.group_id@ == w.group_id@
                && s.group_incoming->0.call_instance@ == w.call_instance_id@ && s.group_incoming->0.ring_id@
                == w.ring_id@;
            let n: int = if answered {
                1
            } else {
                0
            };
            &&& answered ==> out[0] == (Effect::EndSystemCall {
                ring: s.group_claiming->0.offer.ring_handle,
                cause: DisconnectCause::AnsweredElsewhere,
            })
            &&& out[n] == (Effect::RecordTerminal {
                call: w.call_instance_id,
                offer: w.ring_id,
                reason: CallTerminalReason::AnsweredElsewhere,
                retention: retention_of(s),
            })
            &&& rings ==> out[n + 1] == (Effect::CancelRing {
                ring: s.group_incoming->0.ring_handle,
                name: RingName::Nobody,
            })
            &&& out.last() == Effect::EmitGroup(
                GroupEvent::Handled { reason: CallTerminalReason::AnsweredElsewhere },
            )
            &&& forall|i: int| 0 <= i < out.len() ==> !(#[trigger] out[i] is RecordGroupChip)
        }),
{
}

/// A group outcome is for everybody only as the coordinating device's own word, and only where it
/// ends the call: it was cancelled, it expired, or it failed. Anything else is about its sender.
pub proof fn lemma_whose_word_a_group_outcome_is(t: GroupTerminal)
    ensures
        ends_for_everybody(t) <==> t.sender_identity_key@ == t.coordinator_identity_key@ && t.actor_device_id@
            == t.coordinator_device_id@ && (t.reason == CallTerminalReason::CallerCancelled || t.reason
            == CallTerminalReason::Expired || t.reason == CallTerminalReason::TransportError),
        t.reason == CallTerminalReason::DeclinedHere || t.reason == CallTerminalReason::Busy || t.reason
            == CallTerminalReason::AnsweredElsewhere ==> !ends_for_everybody(t),
{
}

/// A group outcome is heard only from a verified device of a member of a known group, and only if
/// it names a verified device of a member as the coordinator.
pub proof fn lemma_a_group_outcome_is_heard_from_a_member(s: Session, t: GroupTerminal, checks: GroupTerminalChecks)
    requires
        group_terminal_authentic(s, t, checks),
    ensures
        checks.ids_valid && checks.control_expiry_valid && checks.actor_device_id_valid
            && checks.coordinator_device_id_valid,
        s.directory.devices@.dom().contains(t.sender_identity_key@),
        s.directory.devices@[t.sender_identity_key@].username is Some,
        s.directory.groups@.dom().contains(t.group_id@),
        exists|i: int|
            0 <= i < s.directory.groups@[t.group_id@].members@.len() && ((
            #[trigger] s.directory.groups@[t.group_id@].members@[i]).identity_key@ == t.sender_identity_key@
                || s.directory.groups@[t.group_id@].members@[i].identity_key@ == s.directory.account_of(
                t.sender_identity_key@,
            )),
        exists|i: int|
            0 <= i < s.directory.groups@[t.group_id@].members@.len() && (
            #[trigger] s.directory.groups@[t.group_id@].members@[i]).username@ == t.coordinator_username@,
{
}

/// An outcome is about the live group call by its id, ring and group, and by the device that
/// coordinates it.
pub proof fn lemma_which_group_call_an_outcome_is_about(s: Session, t: GroupTerminal)
    ensures
        terminal_for_live(s, t) <==> s.group_call is Some && s.group_call->0.call_instance@ == t.call_instance@
            && s.group_call->0.ring_id@ == t.ring_id@ && s.group_call->0.group_id@ == t.group_id@
            && s.group_call->0.coordinator.identity_key@ == t.coordinator_identity_key@
            && s.group_call->0.coordinator.device_id@ == t.coordinator_device_id@,
{
}

/// A member that leaves takes their leg with them and counts as departed, and nobody else does:
/// they are not offered a fresh room.
pub proof fn lemma_a_member_that_leaves_is_not_called_back(
    before: GroupCallCtl,
    after: GroupCallCtl,
    device_key: Seq<char>,
    username: Seq<char>,
    other: Seq<char>,
    limits: super::session::Limits,
)
    requires
        without_member(before, after, device_key, username),
        username.len() > 0,
    ensures
        !after.legs_added@.contains(device_key),
        after.departed@.contains(username),
        other != device_key ==> after.legs_added@.contains(other) == before.legs_added@.contains(other),
        other != username ==> after.departed@.contains(other) == before.departed@.contains(other),
        after.used_call_ids == before.used_call_ids && after.my_tickets == before.my_tickets && after.connected
            == before.connected && after.connected_at == before.connected_at,
        !super::group::reoffer_owed(after, limits, device_key, username),
{
}

/// The coordinator's word on who answered for an account is heard as long as the ring it is about
/// may be answered: on a device that answered it, and as well on one that still rings.
pub proof fn lemma_the_group_winner_is_heard_while_it_rings(s: Session, w: GroupWinner, now: u64, o: PendingGroupOffer)
    requires
        s.group_claiming is Some ==> o == s.group_claiming->0.offer,
        s.group_claiming is None ==> s.group_incoming == Some(o),
        w.group_id@ == o.group_id@,
        w.call_instance_id@ == o.call_instance@,
        w.ring_id@ == o.ring_id@,
        w.sender_identity_key@ == o.coordinator.identity_key@,
        now <= o.deadline.expires_at,
        sender_device_verified(
            s.directory,
            o.coordinator.username@,
            o.coordinator.identity_key@,
            o.coordinator.device_id@,
            true,
        ),
    ensures
        group_winner_authentic(s, w, true, true, true, now),
{
}

/// A device speaks for the first member of a group that goes by its account's key or by its own,
/// and for no other; so there is at most one it can speak for.
pub proof fn lemma_a_device_speaks_for_one_member(s: Session, group_id: Seq<char>, key: Seq<char>, i: int, j: int)
    requires
        member_at(s, group_id, key, i),
    ensures
        s.directory.groups@.dom().contains(group_id),
        0 <= i < s.directory.groups@[group_id].members@.len(),
        ({
            let members = s.directory.groups@[group_id].members@;
            let account = s.directory.account_of(key);
            &&& members[i].identity_key@ == account || members[i].identity_key@ == key
            &&& 0 <= j < i ==> members[j].identity_key@ != account && members[j].identity_key@ != key
        }),
        member_at(s, group_id, key, j) ==> j == i,
{
}

} // verus!
