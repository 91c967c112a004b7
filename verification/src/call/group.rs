//! A group call: who is rung, which leg joins which room, and what happens when a leg drops.
//!
//! A group call is a mesh of pair rooms. The end whose key sorts first owns the pair and makes
//! its room. A room's key is used once, ever: a leg that drops is replaced by a fresh room.

use super::accept::{answer_lost, later};
use super::auth::local_group_coordinator;
use super::directory::{GroupMember, GroupRecord};
use super::engine::{call_still_live, first_connect, media_admitted, not_live};
use super::error::CallError;
use super::handles::{
    accounts_for, displaced, end_displaced, lemma_displaced, lemma_displaced_after, lemma_one_dropped, no_orphans,
    starts_none,
};
use super::reconnect::{i_own_pair, owns_pair};
use super::session::{
    call_retention_secs, group_chip, is_current, log_group_call_event, retention_of, Limits, Session,
};
use super::types::{
    CallKind, CallPhase, CallTerminalReason, DisconnectCause, Effect, GroupCallCtl, GroupCoordinator,
    GroupEvent, GroupRingDeadline, Label, LegOffer, PendingGroupClaim, PendingGroupOffer, RingName,
    Ticket, TransitionDecision,
};
use crate::names::{NameMap, NameSet};
use crate::text::{first_chars, lemma_the_first_difference_decides, same};
use vstd::prelude::*;
use vstd::utf8::encode_utf8;

verus! {

/// The live group call is this one.
pub open spec fn group_live(s: Session, call: Seq<char>) -> bool {
    s.group_call matches Some(g) && g.call_instance@ == call
}

pub fn is_group_live(s: &Session, call: &str) -> (r: bool)
    ensures
        r == group_live(*s, call@),
{
    match &s.group_call {
        Some(g) => same(g.call_instance.as_str(), call),
        None => false,
    }
}

/// How the leg toward a member is to come up.
pub enum LegPlan {
    /// Not at all, or not yet: the owner's offer has still to arrive.
    Nothing,
    /// In a fresh room that has first to be offered to the member.
    Reoffer,
    /// In this room; `caller` says that this end owns the pair.
    Join { ticket: Ticket, caller: bool },
}

/// The plan for the leg toward `peer_key`, the device of `username`.
pub open spec fn leg_plan(
    s: Session,
    call: Seq<char>,
    peer_key: Seq<char>,
    username: Seq<char>,
    their_ticket: Option<Ticket>,
) -> LegPlan {
    let g = s.group_call->0;
    if !group_live(s, call) || g.legs_added@.contains(peer_key) {
        LegPlan::Nothing
    } else if owns_pair(g.my_key@, peer_key) {
        if !g.my_tickets@.dom().contains(username) {
            LegPlan::Nothing
        } else if g.used_call_ids@.contains(g.my_tickets@[username].call_id@) {
            LegPlan::Reoffer
        } else {
            LegPlan::Join { ticket: g.my_tickets@[username], caller: true }
        }
    } else {
        match their_ticket {
            Some(ticket) => LegPlan::Join { ticket, caller: false },
            None => LegPlan::Nothing,
        }
    }
}

/// Plan the leg toward a member that is known to be in the call. The owner of the pair joins
/// the room it offered, or offers a fresh one if that room has been used; the other end joins
/// the room it was offered.
pub fn establish_group_leg(
    s: &Session,
    call: &str,
    peer_key: &str,
    username: &str,
    their_ticket: Option<Ticket>,
) -> (r: LegPlan)
    ensures
        r == leg_plan(*s, call@, peer_key@, username@, their_ticket),
{
    match &s.group_call {
        Some(g) => {
            if !same(g.call_instance.as_str(), call) || g.legs_added.contains(peer_key) {
                return LegPlan::Nothing;
            }
            if i_own_pair(g.my_key.as_str(), peer_key) {
                match g.my_tickets.get(username) {
                    Some(ticket) => {
                        if g.used_call_ids.contains(ticket.call_id.as_str()) {
                            LegPlan::Reoffer
                        } else {
                            LegPlan::Join { ticket: ticket.clone(), caller: true }
                        }
                    },
                    None => LegPlan::Nothing,
                }
            } else {
                match their_ticket {
                    Some(ticket) => LegPlan::Join { ticket, caller: false },
                    None => LegPlan::Nothing,
                }
            }
        },
        None => LegPlan::Nothing,
    }
}

/// Two ends of a group call meet: both plan the same room, made by the end whose key sorts first,
/// which alone joins it as the caller. `at` is where the keys first differ; each end holds the
/// room it offered the other, is handed the other's, has no leg toward it and has used neither.
pub proof fn lemma_two_ends_meet(
    first: Session,
    second: Session,
    call: Seq<char>,
    first_name: Seq<char>,
    second_name: Seq<char>,
    at: int,
)
    requires
        first.group_call is Some,
        second.group_call is Some,
        ({
            let a = first.group_call->0;
            let b = second.group_call->0;
            let x = encode_utf8(a.my_key@);
            let y = encode_utf8(b.my_key@);
            &&& a.call_instance@ == call
            &&& b.call_instance@ == call
            &&& 0 <= at <= x.len()
            &&& at < y.len()
            &&& forall|i: int| 0 <= i < at ==> x[i] == y[i]
            &&& at == x.len() || x[at] < y[at]
            &&& !a.legs_added@.contains(b.my_key@)
            &&& !b.legs_added@.contains(a.my_key@)
            &&& a.my_tickets@.dom().contains(second_name)
            &&& b.my_tickets@.dom().contains(first_name)
            &&& !a.used_call_ids@.contains(a.my_tickets@[second_name].call_id@)
            &&& !b.used_call_ids@.contains(b.my_tickets@[first_name].call_id@)
        }),
    ensures
        ({
            let a = first.group_call->0;
            let b = second.group_call->0;
            let room = a.my_tickets@[second_name];
            &&& leg_plan(first, call, b.my_key@, second_name, Some(b.my_tickets@[first_name])) == (LegPlan::Join {
                ticket: room,
                caller: true,
            })
            &&& leg_plan(second, call, a.my_key@, first_name, Some(room)) == (LegPlan::Join {
                ticket: room,
                caller: false,
            })
        }),
{
    lemma_the_first_difference_decides(
        encode_utf8(first.group_call->0.my_key@),
        encode_utf8(second.group_call->0.my_key@),
        at,
    );
}

/// The end whose key sorts first goes by its own room alone: what the other end offers has no
/// bearing on its plan, it never joins a room it did not make or has used, and it joins as the
/// caller; and a room of its own that it has used it replaces.
pub proof fn lemma_the_owner_goes_by_its_own_room(
    s: Session,
    call: Seq<char>,
    peer_key: Seq<char>,
    username: Seq<char>,
    theirs: Option<Ticket>,
    other: Option<Ticket>,
    at: int,
)
    requires
        s.group_call is Some,
        ({
            let x = encode_utf8(s.group_call->0.my_key@);
            let y = encode_utf8(peer_key);
            &&& 0 <= at <= x.len()
            &&& at < y.len()
            &&& forall|i: int| 0 <= i < at ==> x[i] == y[i]
            &&& at == x.len() || x[at] < y[at]
        }),
    ensures
        ({
            let g = s.group_call->0;
            let plan = leg_plan(s, call, peer_key, username, theirs);
            &&& plan == leg_plan(s, call, peer_key, username, other)
            &&& plan matches LegPlan::Join { ticket, caller } ==> caller && g.my_tickets@.dom().contains(username)
                && ticket == g.my_tickets@[username] && !g.used_call_ids@.contains(ticket.call_id@)
            &&& plan is Reoffer <==> g.call_instance@ == call && !g.legs_added@.contains(peer_key)
                && g.my_tickets@.dom().contains(username) && g.used_call_ids@.contains(
                g.my_tickets@[username].call_id@,
            )
        }),
{
    lemma_the_first_difference_decides(encode_utf8(s.group_call->0.my_key@), encode_utf8(peer_key), at);
}

/// The end whose key sorts last waits for the other's room and joins that: never one of its own,
/// never as the caller, and it never offers a fresh one.
pub proof fn lemma_the_other_end_waits_for_a_room(
    s: Session,
    call: Seq<char>,
    peer_key: Seq<char>,
    username: Seq<char>,
    theirs: Option<Ticket>,
    at: int,
)
    requires
        s.group_call is Some,
        s.group_call->0.call_instance@ == call,
        !s.group_call->0.legs_added@.contains(peer_key),
        ({
            let x = encode_utf8(s.group_call->0.my_key@);
            let y = encode_utf8(peer_key);
            &&& 0 <= at <= y.len()
            &&& at < x.len()
            &&& forall|i: int| 0 <= i < at ==> x[i] == y[i]
            &&& at == y.len() || y[at] < x[at]
        }),
    ensures
        theirs is None <==> leg_plan(s, call, peer_key, username, theirs) is Nothing,
        theirs matches Some(room) ==> leg_plan(s, call, peer_key, username, theirs) == (LegPlan::Join {
            ticket: room,
            caller: false,
        }),
{
    lemma_the_first_difference_decides(encode_utf8(peer_key), encode_utf8(s.group_call->0.my_key@), at);
}

/// A device that has a leg gets no second one, and a call that is not the live one gets none.
pub proof fn lemma_one_leg_for_each_device(
    s: Session,
    call: Seq<char>,
    peer_key: Seq<char>,
    username: Seq<char>,
    theirs: Option<Ticket>,
)
    requires
        s.group_call matches Some(g) ==> g.call_instance@ != call || g.legs_added@.contains(peer_key),
    ensures
        leg_plan(s, call, peer_key, username, theirs) is Nothing,
{
}

/// A leg toward this device may begin in this room: it has none, and the room's key has not
/// been used.
pub open spec fn leg_may_begin(g: GroupCallCtl, peer_key: Seq<char>, call_id: Seq<char>) -> bool {
    !g.legs_added@.contains(peer_key) && !g.used_call_ids@.contains(call_id)
}

/// The call once the leg has begun.
pub open spec fn leg_begun(before: GroupCallCtl, after: GroupCallCtl, peer_key: Seq<char>, call_id: Seq<char>) -> bool {
    &&& after == (GroupCallCtl {
        legs_added: after.legs_added,
        used_call_ids: after.used_call_ids,
        ..before
    })
    &&& after.legs_added@ == before.legs_added@.insert(peer_key)
    &&& after.used_call_ids@ == before.used_call_ids@.insert(call_id)
}

/// Begin a leg: mark the device as having one and the room's key as used. `false` where
/// another attempt was first or the key has been used.
pub fn begin_leg(s: &mut Session, call: &str, peer_key: &String, call_id: &String) -> (r: bool)
    ensures
        r == (group_live(*old(s), call@) && leg_may_begin(old(s).group_call->0, peer_key@, call_id@)),
        !r ==> *final(s) == *old(s),
        r ==> {
            &&& final(s).group_call matches Some(g) && leg_begun(
                old(s).group_call->0,
                g,
                peer_key@,
                call_id@,
            )
            &&& *final(s) == (Session { group_call: final(s).group_call, ..*old(s) })
        },
{
    match &mut s.group_call {
        Some(g) => {
            if !same(g.call_instance.as_str(), call) || g.legs_added.contains(peer_key.as_str())
                || g.used_call_ids.contains(call_id.as_str()) {
                return false;
            }
            let _ = g.used_call_ids.insert(call_id.clone());
            let _ = g.legs_added.insert(peer_key.clone());
            true
        },
        None => false,
    }
}

/// The call once a leg that began could not join its room.
pub open spec fn leg_taken_back(
    before: GroupCallCtl,
    after: GroupCallCtl,
    peer_key: Seq<char>,
    call_id: Seq<char>,
) -> bool {
    &&& after == (GroupCallCtl {
        legs_added: after.legs_added,
        used_call_ids: after.used_call_ids,
        ..before
    })
    &&& after.legs_added@ == before.legs_added@.remove(peer_key)
    &&& after.used_call_ids@ == before.used_call_ids@.remove(call_id)
}

/// The room could not be joined: the mark is taken back, and so is the room's, whose key was
/// never derived.
pub fn leg_failed(s: &mut Session, call: &str, peer_key: &str, call_id: &str)
    ensures
        !group_live(*old(s), call@) ==> *final(s) == *old(s),
        group_live(*old(s), call@) ==> {
            &&& final(s).group_call matches Some(g) && leg_taken_back(
                old(s).group_call->0,
                g,
                peer_key@,
                call_id@,
            )
            &&& *final(s) == (Session { group_call: final(s).group_call, ..*old(s) })
        },
{
    match &mut s.group_call {
        Some(g) => {
            if same(g.call_instance.as_str(), call) {
                g.legs_added.remove(peer_key);
                g.used_call_ids.remove(call_id);
            }
        },
        None => {},
    }
}

/// What can happen to the legs of a group call.
pub enum LegEvent {
    /// A leg toward this device begins in this room, if it may.
    Begin { peer_key: Seq<char>, call_id: Seq<char> },
    /// The room could not be joined; its key was not derived.
    Failed { peer_key: Seq<char>, call_id: Seq<char> },
    /// The leg toward this device ended.
    Dropped { peer_key: Seq<char> },
}

/// The marks a group call keeps of its legs.
pub struct LegMarks {
    pub legs: Set<Seq<char>>,
    pub used: Set<Seq<char>>,
}

/// The marks after one event.
pub open spec fn leg_step(m: LegMarks, e: LegEvent) -> LegMarks {
    match e {
        LegEvent::Begin { peer_key, call_id } => if m.legs.contains(peer_key) || m.used.contains(call_id) {
            m
        } else {
            LegMarks { legs: m.legs.insert(peer_key), used: m.used.insert(call_id) }
        },
        LegEvent::Failed { peer_key, call_id } => LegMarks {
            legs: m.legs.remove(peer_key),
            used: m.used.remove(call_id),
        },
        LegEvent::Dropped { peer_key } => LegMarks { legs: m.legs.remove(peer_key), used: m.used },
    }
}

/// The marks after the first `n` events.
pub open spec fn leg_run(m: LegMarks, events: Seq<LegEvent>, n: int) -> LegMarks
    decreases n,
{
    if n <= 0 {
        m
    } else {
        leg_step(leg_run(m, events, n - 1), events[n - 1])
    }
}

/// The `i`th event begins a leg in this room.
pub open spec fn begins_in(m: LegMarks, events: Seq<LegEvent>, i: int, call_id: Seq<char>) -> bool {
    let before = leg_run(m, events, i);
    events[i] matches LegEvent::Begin { peer_key, call_id: room } && room == call_id
        && !before.legs.contains(peer_key) && !before.used.contains(room)
}

/// A room's key is used once: whatever happens to the legs of a call, a second leg begins in
/// the same room only if the first failed to join it, and so never derived its key.
pub proof fn lemma_a_room_key_is_used_once(
    m: LegMarks,
    events: Seq<LegEvent>,
    i: int,
    j: int,
    call_id: Seq<char>,
)
    requires
        0 <= i < j < events.len(),
        begins_in(m, events, i, call_id),
        begins_in(m, events, j, call_id),
    ensures
        exists|k: int|
            i < k < j && (#[trigger] events[k] matches LegEvent::Failed { peer_key, call_id: room } && room
                == call_id),
{
    if forall|k: int|
        i < k < j ==> !(#[trigger] events[k] matches LegEvent::Failed { peer_key, call_id: room } && room
            == call_id) {
        lemma_room_stays_used(m, events, i, j, call_id);
    }
}

proof fn lemma_room_stays_used(m: LegMarks, events: Seq<LegEvent>, i: int, n: int, call_id: Seq<char>)
    requires
        0 <= i < n <= events.len(),
        begins_in(m, events, i, call_id),
        forall|k: int|
            i < k < n ==> !(#[trigger] events[k] matches LegEvent::Failed { peer_key, call_id: room } && room
                == call_id),
    ensures
        leg_run(m, events, n).used.contains(call_id),
    decreases n,
{
    if n > i + 1 {
        lemma_room_stays_used(m, events, i, n - 1, call_id);
        let e = events[n - 1];
        assert(!(e matches LegEvent::Failed { peer_key, call_id: room } && room == call_id));
    }
}

/// The call's marks.
pub open spec fn marks_of(g: GroupCallCtl) -> LegMarks {
    LegMarks { legs: g.legs_added@, used: g.used_call_ids@ }
}

/// Beginning a leg, failing to join its room, and losing a leg do to a call's marks what
/// [`leg_step`] says.
pub proof fn lemma_legs_follow_the_marks(
    before: GroupCallCtl,
    begun: GroupCallCtl,
    failed: GroupCallCtl,
    lost: GroupCallCtl,
    peer_key: Seq<char>,
    call_id: Seq<char>,
)
    requires
        leg_may_begin(before, peer_key, call_id),
        leg_begun(before, begun, peer_key, call_id),
        leg_taken_back(begun, failed, peer_key, call_id),
        lost.legs_added@ == begun.legs_added@.remove(peer_key),
        lost.used_call_ids == begun.used_call_ids,
    ensures
        leg_step(marks_of(before), LegEvent::Begin { peer_key, call_id }) == marks_of(begun),
        leg_step(marks_of(begun), LegEvent::Failed { peer_key, call_id }) == marks_of(failed),
        leg_step(marks_of(begun), LegEvent::Dropped { peer_key }) == marks_of(lost),
{
}

/// The deadlines of a ring that begins now.
pub open spec fn deadlines_from(limits: Limits, now: u64) -> GroupRingDeadline {
    GroupRingDeadline {
        created_at: now,
        ring_expires_at: later(now, limits.ring_timeout_secs),
        expires_at: later(now, limits.signal_ttl_secs),
    }
}

/// The deadlines of a ring that begins now.
pub fn ring_deadlines(s: &Session, now: u64) -> (r: GroupRingDeadline)
    ensures
        r == deadlines_from(s.limits, now),
{
    GroupRingDeadline {
        created_at: now,
        ring_expires_at: now.saturating_add(s.limits.ring_timeout_secs),
        expires_at: now.saturating_add(s.limits.signal_ttl_secs),
    }
}

/// The first member of this name stands at `i`.
pub open spec fn first_named(group: GroupRecord, username: Seq<char>, i: int) -> bool {
    &&& 0 <= i < group.members@.len()
    &&& group.members@[i].username@ == username
    &&& forall|j: int| 0 <= j < i ==> (#[trigger] group.members@[j]).username@ != username
}

/// The member a fresh room is offered to: the one the group lists under this name, if the
/// session still works through this connection and the vault is open.
pub fn reoffer_group_leg(s: &Session, client: u64, group_id: &str, username: &str) -> (r: Option<GroupMember>)
    ensures
        match r {
            Some(m) => s.client == Some(client) && s.account is Some
                && s.directory.groups@.dom().contains(group_id@) && exists|i: int| #[trigger]
                first_named(s.directory.groups@[group_id@], username@, i) && m
                    == s.directory.groups@[group_id@].members@[i],
            None => s.client != Some(client) || s.account is None
                || !s.directory.groups@.dom().contains(group_id@) || forall|i: int|
                0 <= i < s.directory.groups@[group_id@].members@.len() ==> (
                #[trigger] s.directory.groups@[group_id@].members@[i]).username@ != username@,
        },
{
    if !is_current(s, client) || s.account.is_none() {
        return None;
    }
    match s.directory.groups.get(group_id) {
        Some(group) => {
            let mut i: usize = 0;
            while i < group.members.len()
                invariant
                    i <= group.members@.len(),
                    s.client == Some(client),
                    s.account is Some,
                    s.directory.groups@.dom().contains(group_id@),
                    *group == s.directory.groups@[group_id@],
                    forall|j: int| 0 <= j < i ==> (#[trigger] group.members@[j]).username@ != username@,
                decreases group.members.len() - i,
            {
                if same(group.members[i].username.as_str(), username) {
                    assert(first_named(*group, username@, i as int));
                    return Some(group.members[i].clone());
                }
                i = i + 1;
            }
            None
        },
        None => None,
    }
}

/// One of the results is a success.
pub open spec fn any_ok(results: Seq<Result<(), String>>, start: int, end: int) -> bool {
    exists|i: int| start <= i < end && #[trigger] results[i] is Ok
}

pub fn some_ok(results: &Vec<Result<(), String>>, start: usize, end: usize) -> (r: bool)
    requires
        start <= end <= results@.len(),
    ensures
        r == any_ok(results@, start as int, end as int),
{
    let mut i: usize = start;
    while i < end
        invariant
            start <= i <= end <= results@.len(),
            forall|j: int| start <= j < i ==> #[trigger] results@[j] is Err,
        decreases end - i,
    {
        match &results[i] {
            Ok(_) => {
                return true;
            },
            Err(_) => {},
        }
        i = i + 1;
    }
    false
}

/// A fresh room was offered to a member. If the offer arrived anywhere and the call is still
/// up, the room is the member's from here on, and the one to join, as the owner of the pair.
pub fn leg_reoffered(
    s: &mut Session,
    call: &str,
    username: &String,
    ticket: Ticket,
    results: &Vec<Result<(), String>>,
) -> (r: LegPlan)
    ensures
        !(any_ok(results@, 0, results@.len() as int) && group_live(*old(s), call@)) ==> r is Nothing
            && *final(s) == *old(s),
        any_ok(results@, 0, results@.len() as int) && group_live(*old(s), call@) ==> {
            &&& r == (LegPlan::Join { ticket, caller: true })
            &&& final(s).group_call matches Some(g) && g == (GroupCallCtl {
                my_tickets: g.my_tickets,
                ..old(s).group_call->0
            }) && g.my_tickets@ == old(s).group_call->0.my_tickets@.insert(username@, ticket)
            &&& *final(s) == (Session { group_call: final(s).group_call, ..*old(s) })
        },
{
    if !some_ok(results, 0, results.len()) {
        return LegPlan::Nothing;
    }
    match &mut s.group_call {
        Some(g) => {
            if same(g.call_instance.as_str(), call) {
                g.my_tickets.insert(username.clone(), ticket.clone());
                return LegPlan::Join { ticket, caller: true };
            }
        },
        None => {},
    }
    LegPlan::Nothing
}

/// What a group call is installed with.
pub struct GroupPlan {
    pub call_instance: String,
    pub ring_id: String,
    pub ring_handle: String,
    pub group_id: String,
    pub group_name: String,
    pub coordinator: GroupCoordinator,
    pub deadline: GroupRingDeadline,
    pub my_key: String,
    pub my_tickets: NameMap<Ticket>,
}

/// The call as it is installed: no leg up, no room used, nobody departed, nobody connected.
pub open spec fn group_installed(plan: GroupPlan, g: GroupCallCtl) -> bool {
    &&& g.call_instance == plan.call_instance
    &&& g.ring_id == plan.ring_id
    &&& g.ring_handle == plan.ring_handle
    &&& g.group_id == plan.group_id
    &&& g.group_name == plan.group_name
    &&& g.coordinator == plan.coordinator
    &&& g.deadline == plan.deadline
    &&& g.my_key == plan.my_key
    &&& !g.muted
    &&& g.legs_added@ == Set::<Seq<char>>::empty()
    &&& g.my_tickets == plan.my_tickets
    &&& g.used_call_ids@ == Set::<Seq<char>>::empty()
    &&& g.departed@ == Set::<Seq<char>>::empty()
    &&& g.reoffer_attempts@ == Map::<Seq<char>, u32>::empty()
    &&& g.arbiters@ == Set::<Seq<char>>::empty()
    &&& g.connected@ == Map::<Seq<char>, String>::empty()
    &&& g.connected_at == 0
}

/// The handle of the live group call.
pub open spec fn live_group_handle(s: Session) -> Option<String> {
    match s.group_call {
        Some(g) => Some(g.ring_handle),
        None => None,
    }
}

/// Local audio is up: install the group call, unless it was ended meanwhile. Where it was, the
/// plan is still the caller's to give up. The volumes of a call begin anew; each member is played
/// at the volume remembered for them as their audio comes up.
pub fn spawn_group_call(
    s: &mut Session,
    client: u64,
    ended: Option<CallTerminalReason>,
    plan: GroupPlan,
) -> (r: (Result<(), CallError>, Vec<Effect>))
    ensures
        match not_live(*old(s), client, ended) {
            Some(e) => {
                &&& r.0 == Err::<(), CallError>(e)
                &&& r.1@ == seq![Effect::ResetVolumes, Effect::StopMedia { room: plan.call_instance }]
                &&& *final(s) == *old(s)
            },
            None => {
                &&& r.0 is Ok
                &&& r.1@ == seq![Effect::ResetVolumes] + displaced(live_group_handle(*old(s)), plan.ring_handle@)
                &&& final(s).group_call matches Some(g) && group_installed(plan, g)
                &&& *final(s) == (Session { group_call: final(s).group_call, ..*old(s) })
            },
        },
        accounts_for(
            *old(s),
            Some(plan.ring_handle@),
            *final(s),
            if r.0 is Ok {
                None
            } else {
                Some(plan.ring_handle@)
            },
            r.1@,
        ),
{
    let mut out: Vec<Effect> = Vec::new();
    out.push(Effect::ResetVolumes);
    let ghost head = out@;
    match call_still_live(s, client, ended) {
        Err(e) => {
            out.push(Effect::StopMedia { room: plan.call_instance });
            return (Err(e), out);
        },
        Ok(_) => {},
    }
    let live: Option<String> = match s.group_call.take() {
        Some(g) => Some(g.ring_handle),
        None => None,
    };
    end_displaced(&mut out, live, plan.ring_handle.as_str());
    proof {
        lemma_displaced_after(head, live, plan.ring_handle@);
        assert(out@ =~= head + displaced(live, plan.ring_handle@));
    }
    s.group_call = Some(
        GroupCallCtl {
            call_instance: plan.call_instance,
            ring_id: plan.ring_id,
            ring_handle: plan.ring_handle,
            group_id: plan.group_id,
            group_name: plan.group_name,
            coordinator: plan.coordinator,
            deadline: plan.deadline,
            my_key: plan.my_key,
            muted: false,
            legs_added: NameSet::new(),
            my_tickets: plan.my_tickets,
            used_call_ids: NameSet::new(),
            departed: NameSet::new(),
            reoffer_attempts: NameMap::new(),
            arbiters: NameSet::new(),
            connected: NameMap::new(),
            connected_at: 0,
        },
    );
    (Ok(()), out)
}

/// What a member is called whose device has this key: their account's name, or the beginning
/// of the key where that is not known.
pub open spec fn shown_name(s: Session, peer_key: Seq<char>) -> Seq<char> {
    match s.directory.name_of(peer_key) {
        Some(name) => name@,
        None => peer_key.take(
            if 8 < peer_key.len() {
                8
            } else {
                peer_key.len() as int
            },
        ),
    }
}

/// A member's audio is flowing. The first such leg is when the call connected. `peers` names
/// every device whose audio flows, and outlives the session's own record of the call. `false`
/// says that the registry refuses, and the call ends.
pub fn group_peer_connected(
    s: &mut Session,
    peers: &mut NameMap<String>,
    call: &String,
    ring_id: &String,
    peer_key: &String,
    decision: TransitionDecision,
    now: u64,
) -> (r: (bool, Vec<Effect>))
    ensures
        r.0 == media_admitted(decision),
        r.0 ==> {
            let name = shown_name(*old(s), peer_key@);
            &&& final(peers)@.dom() == old(peers)@.dom().insert(peer_key@)
            &&& final(peers)@[peer_key@]@ == name
            &&& forall|k: Seq<char>|
                old(peers)@.dom().contains(k) && k != peer_key@ ==> final(peers)@[k] == #[trigger] old(
                    peers,
                )@[k]
            &&& !group_live(*old(s), call@) ==> *final(s) == *old(s)
            &&& group_live(*old(s), call@) ==> {
                let g = old(s).group_call->0;
                &&& final(s).group_call matches Some(after) && after == (GroupCallCtl {
                    reoffer_attempts: after.reoffer_attempts,
                    connected: after.connected,
                    connected_at: first_connect(g.connected_at, now),
                    ..g
                }) && after.reoffer_attempts@ == g.reoffer_attempts@.remove(name)
                    && after.connected@ == g.connected@.insert(peer_key@, final(peers)@[peer_key@])
                &&& *final(s) == (Session { group_call: final(s).group_call, ..*old(s) })
            }
            &&& r.1@ == seq![
                Effect::ApplyGain { peer_key: *peer_key, username: final(peers)@[peer_key@] },
                Effect::EmitGroup(
                    GroupEvent::PeerConnected { username: final(peers)@[peer_key@] },
                ),
            ]
        },
        !r.0 ==> {
            &&& *final(peers) == *old(peers)
            &&& *final(s) == if group_live(*old(s), call@) {
                Session { group_call: None, ..*old(s) }
            } else {
                *old(s)
            }
            &&& r.1@ == (if group_live(*old(s), call@) {
                seq![
                    Effect::StopMedia { room: *call },
                    Effect::EndSystemCall {
                        ring: old(s).group_call->0.ring_handle,
                        cause: DisconnectCause::Error,
                    },
                ]
            } else {
                Seq::<Effect>::empty()
            }) + seq![
                Effect::RecordTerminal {
                    call: *call,
                    offer: *ring_id,
                    reason: CallTerminalReason::TransportError,
                    retention: retention_of(*old(s)),
                },
                Effect::EmitGroup(GroupEvent::Ended),
            ]
        },
        no_orphans(*old(s), *final(s), r.1@),
{
    let mut out: Vec<Effect> = Vec::new();
    let admitted = match decision {
        TransitionDecision::Applied => true,
        TransitionDecision::Duplicate => true,
        _ => false,
    };
    if !admitted {
        let retention: u64 = call_retention_secs(s);
        if is_group_live(s, call.as_str()) {
            if let Some(g) = s.group_call.take() {
                out.push(Effect::StopMedia { room: call.clone() });
                out.push(
                    Effect::EndSystemCall { ring: g.ring_handle, cause: DisconnectCause::Error },
                );
            }
        }
        out.push(
            Effect::RecordTerminal {
                call: call.clone(),
                offer: ring_id.clone(),
                reason: CallTerminalReason::TransportError,
                retention,
            },
        );
        out.push(Effect::EmitGroup(GroupEvent::Ended));
        proof {
            if group_live(*old(s), call@) {
                lemma_one_dropped(*old(s), *s, out@, 1, old(s).group_call->0.ring_handle@);
            }
        }
        return (false, out);
    }
    let name: String = match s.directory.username_for_peer(peer_key.as_str()) {
        Some(name) => name,
        None => first_chars(peer_key.as_str(), 8),
    };
    match &mut s.group_call {
        Some(g) => {
            if same(g.call_instance.as_str(), call.as_str()) {
                if g.connected_at == 0 {
                    g.connected_at = now;
                }
                let _ = g.reoffer_attempts.remove(name.as_str());
                g.connected.insert(peer_key.clone(), name.clone());
            }
        },
        None => {},
    }
    peers.insert(peer_key.clone(), name.clone());
    out.push(Effect::ApplyGain { peer_key: peer_key.clone(), username: name.clone() });
    out.push(Effect::EmitGroup(GroupEvent::PeerConnected { username: name }));
    (true, out)
}

/// How often a member has been offered a fresh room since their last working leg.
pub open spec fn attempts_of(g: GroupCallCtl, name: Seq<char>) -> u32 {
    if g.reoffer_attempts@.dom().contains(name) {
        g.reoffer_attempts@[name]
    } else {
        0
    }
}

/// The member is to be offered a fresh room: this end owns the pair, they did not leave on
/// purpose, and the budget is not spent.
pub open spec fn reoffer_owed(g: GroupCallCtl, limits: Limits, peer_key: Seq<char>, name: Seq<char>) -> bool {
    owns_pair(g.my_key@, peer_key) && !g.departed@.contains(name) && attempts_of(g, name)
        < limits.max_leg_reoffers
}

/// A member's leg is gone. Without their word that they left it is a network drop: the owner
/// of the pair offers a fresh room after a grace period, a bounded number of times.
pub fn group_peer_left(
    s: &mut Session,
    peers: &mut NameMap<String>,
    call: &String,
    peer_key: &String,
) -> (out: Vec<Effect>)
    ensures
        final(peers)@ == old(peers)@.remove(peer_key@),
        ({
            let was = if old(peers)@.dom().contains(peer_key@) {
                Some(old(peers)@[peer_key@])
            } else {
                None
            };
            let known = match was {
                Some(name) => Some(name),
                None => old(s).directory.name_of(peer_key@),
            };
            let g = old(s).group_call->0;
            let live = group_live(*old(s), call@);
            let owed = live && known is Some && reoffer_owed(
                g,
                old(s).limits,
                peer_key@,
                known->0@,
            );
            &&& !live ==> *final(s) == *old(s)
            &&& live ==> {
                &&& final(s).group_call matches Some(after) && after == (GroupCallCtl {
                    legs_added: after.legs_added,
                    connected: after.connected,
                    reoffer_attempts: after.reoffer_attempts,
                    ..g
                }) && after.legs_added@ == g.legs_added@.remove(peer_key@) && after.connected@
                    == g.connected@.remove(peer_key@) && after.reoffer_attempts@ == match known {
                    Some(name) => g.reoffer_attempts@.insert(
                        name@,
                        if owed {
                            (attempts_of(g, name@) + 1) as u32
                        } else {
                            attempts_of(g, name@)
                        },
                    ),
                    None => g.reoffer_attempts@,
                }
                &&& *final(s) == (Session { group_call: final(s).group_call, ..*old(s) })
            }
            &&& out@ == (if owed {
                seq![
                    Effect::ReofferLeg {
                        call: *call,
                        peer_key: *peer_key,
                        username: known->0,
                    },
                ]
            } else {
                Seq::<Effect>::empty()
            }) + seq![Effect::EmitGroup(GroupEvent::PeerLeft { left: was })]
        }),
        no_orphans(*old(s), *final(s), out@),
{
    let mut out: Vec<Effect> = Vec::new();
    let left: Option<String> = peers.remove(peer_key.as_str());
    let known: Option<String> = match &left {
        Some(name) => Some(name.clone()),
        None => s.directory.username_for_peer(peer_key.as_str()),
    };
    let max: u32 = s.limits.max_leg_reoffers;
    match &mut s.group_call {
        Some(g) => {
            if same(g.call_instance.as_str(), call.as_str()) {
                g.legs_added.remove(peer_key.as_str());
                let _ = g.connected.remove(peer_key.as_str());
                if let Some(name) = known {
                    let attempts: u32 = match g.reoffer_attempts.get(name.as_str()) {
                        Some(n) => *n,
                        None => 0,
                    };
                    if i_own_pair(g.my_key.as_str(), peer_key.as_str()) && !g.departed.contains(
                        name.as_str(),
                    ) && attempts < max {
                        g.reoffer_attempts.insert(name.clone(), attempts + 1);
                        out.push(
                            Effect::ReofferLeg {
                                call: call.clone(),
                                peer_key: peer_key.clone(),
                                username: name,
                            },
                        );
                    } else {
                        g.reoffer_attempts.insert(name, attempts);
                    }
                }
            }
        },
        None => {},
    }
    out.push(Effect::EmitGroup(GroupEvent::PeerLeft { left }));
    out
}

/// Whether a fresh room is still to be offered once the grace period is over: the call is up
/// and the member's word that they left has not come.
pub fn reoffer_due(s: &Session, call: &str, name: &str) -> (r: bool)
    ensures
        r == (group_live(*s, call@) && !s.group_call->0.departed@.contains(name@)),
{
    match &s.group_call {
        Some(g) => same(g.call_instance.as_str(), call) && !g.departed.contains(name),
        None => false,
    }
}

/// The mesh engine ended.
pub fn group_media_ended(s: &mut Session, call: &str) -> (out: Vec<Effect>)
    ensures
        !group_live(*old(s), call@) ==> *final(s) == *old(s) && out@ == Seq::<Effect>::empty(),
        group_live(*old(s), call@) ==> {
            let g = old(s).group_call->0;
            &&& *final(s) == (Session { group_call: None, ..*old(s) })
            &&& out@ == seq![
                Effect::EndSystemCall { ring: g.ring_handle, cause: DisconnectCause::Remote },
            ] + group_chip(
                g.group_id,
                Label::Ended { kind: CallKind::Group, caller: true, connected_at: g.connected_at },
            ) + seq![Effect::EmitGroup(GroupEvent::Ended)]
        },
        no_orphans(*old(s), *final(s), out@),
{
    let mut out: Vec<Effect> = Vec::new();
    if !is_group_live(s, call) {
        return out;
    }
    if let Some(g) = s.group_call.take() {
        out.push(Effect::EndSystemCall { ring: g.ring_handle, cause: DisconnectCause::Remote });
        log_group_call_event(
            &mut out,
            &g.group_id,
            Label::Ended { kind: CallKind::Group, caller: true, connected_at: g.connected_at },
        );
        out.push(Effect::EmitGroup(GroupEvent::Ended));
        proof {
            lemma_one_dropped(*old(s), *s, out@, 0, old(s).group_call->0.ring_handle@);
        }
    }
    out
}

/// A group's members other than the one called `me`, in order.
pub open spec fn others_of(members: Seq<GroupMember>, me: Seq<char>) -> Seq<GroupMember>
    decreases members.len(),
{
    if members.len() == 0 {
        Seq::empty()
    } else {
        let head = others_of(members.drop_last(), me);
        if members.last().username@ == me {
            head
        } else {
            head.push(members.last())
        }
    }
}

/// A group's members other than the one called `me`, in order.
pub fn other_members(group: &GroupRecord, me: &str) -> (r: Vec<GroupMember>)
    ensures
        r@ == others_of(group.members@, me@),
{
    let mut out: Vec<GroupMember> = Vec::new();
    let mut i: usize = 0;
    assert(group.members@.take(0) =~= Seq::<GroupMember>::empty());
    while i < group.members.len()
        invariant
            i <= group.members@.len(),
            out@ == others_of(group.members@.take(i as int), me@),
        decreases group.members.len() - i,
    {
        let ghost upto = group.members@.take(i + 1);
        assert(upto.drop_last() =~= group.members@.take(i as int));
        assert(upto.last() == group.members@[i as int]);
        if !same(group.members[i].username.as_str(), me) {
            out.push(group.members[i].clone());
        }
        i = i + 1;
    }
    assert(group.members@.take(i as int) =~= group.members@);
    out
}

/// Who takes part in a group call that is being joined.
pub struct GroupParty {
    pub me: String,
    pub my_key: String,
    pub group_name: String,
    pub others: Vec<GroupMember>,
}

/// Why the session cannot ring a group, if so.
pub open spec fn group_start_refused(
    s: Session,
    group_id: Seq<char>,
    in_group: Result<(), String>,
) -> Option<CallError> {
    if s.client is None {
        Some(CallError::NotConfigured)
    } else if s.account is None {
        Some(CallError::Locked)
    } else if !s.directory.groups@.dom().contains(group_id) {
        Some(CallError::UnknownGroup)
    } else if in_group is Err {
        Some(CallError::Other(in_group->Err_0))
    } else {
        let others = others_of(s.directory.groups@[group_id].members@, s.account->0.account_id@);
        if others.len() == 0 {
            Some(CallError::NoOtherMembers)
        } else if others.len() + 1 > s.limits.max_group_members {
            Some(CallError::TooManyMembers(s.limits.max_group_members))
        } else {
            None
        }
    }
}

/// The party of a group call: this account and the group's other members.
pub open spec fn party_of(s: Session, group_id: Seq<char>, party: GroupParty) -> bool {
    &&& party.me == s.account->0.account_id
    &&& party.my_key == s.account->0.identity_key
    &&& party.group_name == s.directory.groups@[group_id].name
    &&& party.others@ == others_of(s.directory.groups@[group_id].members@, s.account->0.account_id@)
}

/// Whether the session can ring a group, and whom it would ring. `in_group` says whether this
/// account still takes part in the group.
pub fn group_call_start(s: &Session, group_id: &str, in_group: Result<(), String>) -> (r: Result<
    GroupParty,
    CallError,
>)
    ensures
        match group_start_refused(*s, group_id@, in_group) {
            Some(e) => r == Err::<GroupParty, CallError>(e),
            None => r matches Ok(party) && party_of(*s, group_id@, party),
        },
{
    if s.client.is_none() {
        return Err(CallError::NotConfigured);
    }
    match &s.account {
        None => Err(CallError::Locked),
        Some(account) => match s.directory.groups.get(group_id) {
            None => Err(CallError::UnknownGroup),
            Some(group) => {
                match in_group {
                    Err(text) => {
                        return Err(CallError::Other(text));
                    },
                    Ok(_) => {},
                }
                let others: Vec<GroupMember> = other_members(group, account.account_id.as_str());
                if others.len() == 0 {
                    return Err(CallError::NoOtherMembers);
                }
                if others.len() >= s.limits.max_group_members {
                    return Err(CallError::TooManyMembers(s.limits.max_group_members));
                }
                Ok(
                    GroupParty {
                        me: account.account_id.clone(),
                        my_key: account.identity_key.clone(),
                        group_name: group.name.clone(),
                        others,
                    },
                )
            },
        },
    }
}

/// The group's offers are out: if the call is still to be placed, it is registered as won by
/// this device and saved.
pub fn group_registered(
    s: &Session,
    client: u64,
    ended: Option<CallTerminalReason>,
    call: &String,
    ring_id: &String,
    deadline: GroupRingDeadline,
) -> (r: Result<Vec<Effect>, CallError>)
    ensures
        match not_live(*s, client, ended) {
            Some(e) => r == Err::<Vec<Effect>, CallError>(e),
            None => r matches Ok(out) && out@ == seq![
                Effect::RegisterOffer {
                    call: *call,
                    offer: *ring_id,
                    created_at: deadline.created_at,
                    ring_expires_at: deadline.ring_expires_at,
                    retention: retention_of(*s),
                },
                Effect::Transition { call: *call, offer: *ring_id, phase: CallPhase::Winner },
                Effect::Persist,
            ],
        },
        r matches Ok(out) ==> starts_none(out@),
{
    match call_still_live(s, client, ended) {
        Err(e) => Err(e),
        Ok(_) => {
            let mut out: Vec<Effect> = Vec::new();
            out.push(
                Effect::RegisterOffer {
                    call: call.clone(),
                    offer: ring_id.clone(),
                    created_at: deadline.created_at,
                    ring_expires_at: deadline.ring_expires_at,
                    retention: call_retention_secs(s),
                },
            );
            out.push(
                Effect::Transition {
                    call: call.clone(),
                    offer: ring_id.clone(),
                    phase: CallPhase::Winner,
                },
            );
            out.push(Effect::Persist);
            Ok(out)
        },
    }
}

/// The group call is registered and `saved` says whether that was saved. If it was, the user
/// and the platform are told that it rings; if not, it is abandoned before either hears of it.
pub fn group_ringing(
    saved: Result<(), String>,
    ring_handle: &String,
    group_id: &String,
    group_name: &String,
) -> (r: Result<Vec<Effect>, CallError>)
    ensures
        match saved {
            Err(text) => r == Err::<Vec<Effect>, CallError>(CallError::Other(text)),
            Ok(_) => r matches Ok(out) && out@ == seq![
                Effect::EmitGroup(
                    GroupEvent::Outgoing { group_id: *group_id, name: *group_name },
                ),
                Effect::StartSystemCall {
                    ring: *ring_handle,
                    name: RingName::Named(*group_name),
                    video: false,
                    incoming: false,
                },
            ] && forall|s: Session| #[trigger] accounts_for(s, None, s, Some(ring_handle@), out@),
        },
{
    match saved {
        Err(text) => Err(CallError::Other(text)),
        Ok(_) => {
            let mut out: Vec<Effect> = Vec::new();
            out.push(
                Effect::EmitGroup(
                    GroupEvent::Outgoing { group_id: group_id.clone(), name: group_name.clone() },
                ),
            );
            out.push(
                Effect::StartSystemCall {
                    ring: ring_handle.clone(),
                    name: RingName::Named(group_name.clone()),
                    video: false,
                    incoming: false,
                },
            );
            Ok(out)
        },
    }
}

/// A group answer ready to be sent to the coordinator.
pub struct GroupClaimPlan {
    pub offer: PendingGroupOffer,
    pub claim_nonce: String,
    pub answering_device_id: String,
    pub reply_to_mailbox: String,
    pub expires_at: u64,
}

/// Something else already holds the call slot against a group answer.
pub open spec fn group_answer_blocked(s: Session) -> bool {
    s.call is Some || s.group_call is Some || s.claiming is Some || s.group_claiming is Some
        || s.call_setup
}

/// When a group answer given now stops counting: with the ring's signal, and no later than any
/// control message made now.
pub open spec fn group_claim_expiry(s: Session, o: PendingGroupOffer, now: u64) -> u64 {
    let own = later(now, s.limits.signal_ttl_secs);
    if o.deadline.expires_at < own {
        o.deadline.expires_at
    } else {
        own
    }
}

/// Answer the ringing group call: stop the ringtone and make the claim. The ring is over
/// whether or not the claim can be made, and where it cannot, so is the system call.
pub fn group_call_accept(
    s: &mut Session,
    claim_nonce: String,
    mailbox: Result<String, String>,
    now: u64,
) -> (r: (Result<GroupClaimPlan, CallError>, Vec<Effect>))
    ensures
        *final(s) == (Session { group_incoming: None, ..*old(s) }),
        match old(s).group_incoming {
            None => r.0 == Err::<GroupClaimPlan, CallError>(CallError::NoIncomingGroupCall) && r.1@
                == Seq::<Effect>::empty(),
            Some(o) => {
                let accepted = seq![Effect::AcceptRing { ring: o.ring_handle }];
                let lost = accepted.push(answer_lost(o.ring_handle));
                let expires_at = group_claim_expiry(*old(s), o, now);
                if group_answer_blocked(*old(s)) {
                    r.0 == Err::<GroupClaimPlan, CallError>(CallError::AlreadyInACall) && r.1@ == lost
                } else if old(s).client is None {
                    r.0 == Err::<GroupClaimPlan, CallError>(CallError::NotConfigured) && r.1@ == lost
                } else if old(s).account is None {
                    r.0 == Err::<GroupClaimPlan, CallError>(CallError::Locked) && r.1@ == lost
                } else if mailbox is Err {
                    r.0 == Err::<GroupClaimPlan, CallError>(CallError::Other(mailbox->Err_0)) && r.1@
                        == lost
                } else if expires_at <= now {
                    &&& r.0 == Err::<GroupClaimPlan, CallError>(CallError::GroupCallExpired)
                    &&& r.1@ == accepted.push(
                        Effect::RecordTerminal {
                            call: o.call_instance,
                            offer: o.ring_id,
                            reason: CallTerminalReason::Expired,
                            retention: retention_of(*old(s)),
                        },
                    ).push(answer_lost(o.ring_handle))
                } else {
                    &&& r.0 == Ok::<GroupClaimPlan, CallError>(
                        GroupClaimPlan {
                            offer: o,
                            claim_nonce,
                            answering_device_id: old(s).directory.self_device_id,
                            reply_to_mailbox: mailbox->Ok_0,
                            expires_at,
                        },
                    )
                    &&& r.1@ == accepted.push(
                        Effect::Transition {
                            call: o.call_instance,
                            offer: o.ring_id,
                            phase: CallPhase::Claiming,
                        },
                    )
                }
            },
        },
        accounts_for(
            *old(s),
            None,
            *final(s),
            match r.0 {
                Ok(plan) => Some(plan.offer.ring_handle@),
                Err(_) => None,
            },
            r.1@,
        ),
{
    let mut out: Vec<Effect> = Vec::new();
    let offer: PendingGroupOffer = match s.group_incoming.take() {
        Some(offer) => offer,
        None => {
            return (Err(CallError::NoIncomingGroupCall), out);
        },
    };
    let ring: String = offer.ring_handle.clone();
    out.push(Effect::AcceptRing { ring: offer.ring_handle.clone() });
    let refused: Option<CallError> = if s.call.is_some() || s.group_call.is_some() || s.claiming.is_some()
        || s.group_claiming.is_some() || s.call_setup {
        Some(CallError::AlreadyInACall)
    } else if s.client.is_none() {
        Some(CallError::NotConfigured)
    } else if s.account.is_none() {
        Some(CallError::Locked)
    } else {
        None
    };
    if let Some(error) = refused {
        out.push(Effect::EndSystemCall { ring, cause: DisconnectCause::Error });
        proof {
            lemma_one_dropped(*old(s), *s, out@, 1, ring@);
        }
        return (Err(error), out);
    }
    let reply_to_mailbox: String = match mailbox {
        Ok(mailbox) => mailbox,
        Err(text) => {
            out.push(Effect::EndSystemCall { ring, cause: DisconnectCause::Error });
            proof {
                lemma_one_dropped(*old(s), *s, out@, 1, ring@);
            }
            return (Err(CallError::Other(text)), out);
        },
    };
    let own: u64 = now.saturating_add(s.limits.signal_ttl_secs);
    let expires_at: u64 = if offer.deadline.expires_at < own {
        offer.deadline.expires_at
    } else {
        own
    };
    if expires_at <= now {
        out.push(
            Effect::RecordTerminal {
                call: offer.call_instance,
                offer: offer.ring_id,
                reason: CallTerminalReason::Expired,
                retention: call_retention_secs(s),
            },
        );
        out.push(Effect::EndSystemCall { ring, cause: DisconnectCause::Error });
        proof {
            lemma_one_dropped(*old(s), *s, out@, 2, ring@);
        }
        return (Err(CallError::GroupCallExpired), out);
    }
    out.push(
        Effect::Transition {
            call: offer.call_instance.clone(),
            offer: offer.ring_id.clone(),
            phase: CallPhase::Claiming,
        },
    );
    let answering_device_id: String = s.directory.self_device_id.clone();
    (
        Ok(GroupClaimPlan { offer, claim_nonce, answering_device_id, reply_to_mailbox, expires_at }),
        out,
    )
}

/// The handle of a group answer that waits for the coordinator's word.
pub open spec fn waiting_group_handle(s: Session) -> Option<String> {
    match s.group_claiming {
        Some(p) => Some(p.offer.ring_handle),
        None => None,
    }
}

/// The group claim went out and is saved: wait for the winner, until the claim's deadline. A
/// group answer that still waited gives way.
pub fn group_claim_sent(s: &mut Session, plan: GroupClaimPlan) -> (out: Vec<Effect>)
    ensures
        *final(s) == (Session {
            group_claiming: Some(
                PendingGroupClaim {
                    offer: plan.offer,
                    claim_nonce: plan.claim_nonce,
                    answering_device_id: plan.answering_device_id,
                },
            ),
            ..*old(s)
        }),
        out@ == displaced(waiting_group_handle(*old(s)), plan.offer.ring_handle@) + seq![
            Effect::EmitGroup(GroupEvent::Claiming),
            Effect::WatchGroupClaim {
                claim_nonce: plan.claim_nonce,
                call: plan.offer.call_instance,
                deadline: plan.expires_at,
            },
        ],
        accounts_for(*old(s), Some(plan.offer.ring_handle@), *final(s), None, out@),
{
    let mut out: Vec<Effect> = Vec::new();
    let waiting: Option<String> = match s.group_claiming.take() {
        Some(p) => Some(p.offer.ring_handle),
        None => None,
    };
    end_displaced(&mut out, waiting, plan.offer.ring_handle.as_str());
    proof {
        lemma_displaced(waiting, plan.offer.ring_handle@);
    }
    let ghost head = out@;
    out.push(Effect::EmitGroup(GroupEvent::Claiming));
    out.push(
        Effect::WatchGroupClaim {
            claim_nonce: plan.claim_nonce.clone(),
            call: plan.offer.call_instance.clone(),
            deadline: plan.expires_at,
        },
    );
    s.group_claiming = Some(
        PendingGroupClaim {
            offer: plan.offer,
            claim_nonce: plan.claim_nonce,
            answering_device_id: plan.answering_device_id,
        },
    );
    assert(head.len() > 0 ==> out@[0] == head[0]);
    out
}

/// This very group claim is still waiting.
pub open spec fn group_claim_waits(s: Session, claim_nonce: Seq<char>, call: Seq<char>) -> bool {
    s.group_claiming matches Some(p) && p.claim_nonce@ == claim_nonce && p.offer.call_instance@ == call
}

/// The coordinator's winner never came: this device stops waiting.
pub fn group_claim_timed_out(s: &mut Session, claim_nonce: &str, call: &str) -> (out: Vec<Effect>)
    ensures
        !group_claim_waits(*old(s), claim_nonce@, call@) ==> *final(s) == *old(s) && out@ == Seq::<
            Effect,
        >::empty(),
        group_claim_waits(*old(s), claim_nonce@, call@) ==> {
            let o = old(s).group_claiming->0.offer;
            &&& *final(s) == (Session { group_claiming: None, ..*old(s) })
            &&& out@ == seq![
                Effect::RecordTerminal {
                    call: o.call_instance,
                    offer: o.ring_id,
                    reason: CallTerminalReason::Expired,
                    retention: retention_of(*old(s)),
                },
                Effect::EndSystemCall { ring: o.ring_handle, cause: DisconnectCause::Missed },
            ] + group_chip(o.group_id, Label::GroupCallEnded) + seq![
                Effect::EmitGroup(GroupEvent::Ended),
            ]
        },
        no_orphans(*old(s), *final(s), out@),
{
    let mut out: Vec<Effect> = Vec::new();
    let waits = match &s.group_claiming {
        Some(p) => same(p.claim_nonce.as_str(), claim_nonce) && same(
            p.offer.call_instance.as_str(),
            call,
        ),
        None => false,
    };
    if !waits {
        return out;
    }
    let retention: u64 = call_retention_secs(s);
    if let Some(p) = s.group_claiming.take() {
        out.push(
            Effect::RecordTerminal {
                call: p.offer.call_instance,
                offer: p.offer.ring_id,
                reason: CallTerminalReason::Expired,
                retention,
            },
        );
        out.push(
            Effect::EndSystemCall { ring: p.offer.ring_handle, cause: DisconnectCause::Missed },
        );
        log_group_call_event(&mut out, &p.offer.group_id, Label::GroupCallEnded);
        out.push(Effect::EmitGroup(GroupEvent::Ended));
        proof {
            lemma_one_dropped(*old(s), *s, out@, 1, old(s).group_claiming->0.offer.ring_handle@);
        }
    }
    out
}

/// Whom a device that won a group answer announces itself to.
pub fn finish_group_call_accept(s: &Session, group_id: &str) -> (r: Result<GroupParty, CallError>)
    ensures
        s.account is None ==> r == Err::<GroupParty, CallError>(CallError::Locked),
        s.account is Some && !s.directory.groups@.dom().contains(group_id@) ==> r == Err::<
            GroupParty,
            CallError,
        >(CallError::UnknownGroup),
        s.account is Some && s.directory.groups@.dom().contains(group_id@) ==> (r matches Ok(party)
            && party_of(*s, group_id@, party)),
{
    match &s.account {
        None => Err(CallError::Locked),
        Some(account) => match s.directory.groups.get(group_id) {
            None => Err(CallError::UnknownGroup),
            Some(group) => Ok(
                GroupParty {
                    me: account.account_id.clone(),
                    my_key: account.identity_key.clone(),
                    group_name: group.name.clone(),
                    others: other_members(group, account.account_id.as_str()),
                },
            ),
        },
    }
}

/// The leg toward a device that offered one while the ring was up.
pub open spec fn offered_leg(call: String, entry: (String, LegOffer)) -> Effect {
    Effect::EstablishLeg {
        call,
        peer_key: entry.0,
        username: entry.1.username,
        ticket: Some(Ticket { call_id: entry.1.call_id, key_b64: entry.1.key_b64 }),
    }
}

/// The answered group call is installed: join every leg that was offered while it rang, tell
/// this account's other devices, watch for a call nobody joins, and report the answer as given.
pub fn group_call_joined(offer: &PendingGroupOffer) -> (out: Vec<Effect>)
    ensures
        out@ == offer.offers.entries@.map_values(
            |e: (String, LegOffer)| offered_leg(offer.call_instance, e),
        ) + seq![
            Effect::SelfSyncTerminal {
                call: offer.call_instance,
                offer: offer.ring_id,
                reason: CallTerminalReason::AnsweredElsewhere,
            },
            Effect::WatchGroupAnswer { call: offer.call_instance },
            Effect::EmitGroup(GroupEvent::Accepted),
        ],
        starts_none(out@),
{
    let mut out: Vec<Effect> = Vec::new();
    let ghost legs = offer.offers.entries@.map_values(
        |e: (String, LegOffer)| offered_leg(offer.call_instance, e),
    );
    let mut i: usize = 0;
    while i < offer.offers.entries.len()
        invariant
            i <= offer.offers.entries@.len(),
            legs == offer.offers.entries@.map_values(
                |e: (String, LegOffer)| offered_leg(offer.call_instance, e),
            ),
            out@ == legs.take(i as int),
        decreases offer.offers.entries.len() - i,
    {
        let entry = &offer.offers.entries[i];
        out.push(
            Effect::EstablishLeg {
                call: offer.call_instance.clone(),
                peer_key: entry.0.clone(),
                username: entry.1.username.clone(),
                ticket: Some(
                    Ticket { call_id: entry.1.call_id.clone(), key_b64: entry.1.key_b64.clone() },
                ),
            },
        );
        assert(out@ =~= legs.take(i + 1));
        i = i + 1;
    }
    assert(legs.take(i as int) =~= legs);
    out.push(
        Effect::SelfSyncTerminal {
            call: offer.call_instance.clone(),
            offer: offer.ring_id.clone(),
            reason: CallTerminalReason::AnsweredElsewhere,
        },
    );
    out.push(Effect::WatchGroupAnswer { call: offer.call_instance.clone() });
    out.push(Effect::EmitGroup(GroupEvent::Accepted));
    out
}

/// The deadlines of the live group call: when it stops ringing and when its signal dies.
pub fn group_answer_deadlines(s: &Session, call: &str) -> (r: Option<(u64, u64)>)
    ensures
        r == if group_live(*s, call@) {
            Some((s.group_call->0.deadline.ring_expires_at, s.group_call->0.deadline.expires_at))
        } else {
            None
        },
{
    match &s.group_call {
        Some(g) => if same(g.call_instance.as_str(), call) {
            Some((g.deadline.ring_expires_at, g.deadline.expires_at))
        } else {
            None
        },
        None => None,
    }
}

/// What to do once a group call stops ringing.
#[derive(Clone, Copy, Debug, PartialEq, Eq, Structural)]
pub enum NoAnswerStep {
    /// Nothing: the call is gone or somebody is connected.
    Settled,
    /// Wait until the signal dies: somebody answered, or it is for the coordinator to say.
    WaitForSignal,
    /// End it.
    EndNow,
}

/// Decide what becomes of a group call that stopped ringing.
pub fn group_ring_over(s: &Session, call: &str) -> (r: NoAnswerStep)
    ensures
        r == if !group_live(*s, call@) || s.group_call->0.connected@ != Map::<Seq<char>, String>::empty() {
            NoAnswerStep::Settled
        } else if !super::auth::coordinates_here(*s, s.group_call->0.coordinator)
            || s.group_call->0.arbiters@ != Set::<Seq<char>>::empty() {
            NoAnswerStep::WaitForSignal
        } else {
            NoAnswerStep::EndNow
        },
{
    match &s.group_call {
        Some(g) => {
            if !same(g.call_instance.as_str(), call) || !g.connected.is_empty() {
                NoAnswerStep::Settled
            } else if !local_group_coordinator(s, &g.coordinator) || !g.arbiters.is_empty() {
                NoAnswerStep::WaitForSignal
            } else {
                NoAnswerStep::EndNow
            }
        },
        None => NoAnswerStep::Settled,
    }
}

/// The live group call is this one and nobody is connected.
pub open spec fn group_alone(s: Session, call: Seq<char>) -> bool {
    group_live(s, call) && s.group_call->0.connected@ == Map::<Seq<char>, String>::empty()
}

/// The wait for somebody to join is over: a call nobody joined ends, and every member is told.
pub fn group_unanswered(s: &mut Session, call: &str) -> (out: Vec<Effect>)
    ensures
        !group_alone(*old(s), call@) ==> *final(s) == *old(s) && out@ == Seq::<Effect>::empty(),
        group_alone(*old(s), call@) ==> {
            let g = old(s).group_call->0;
            &&& *final(s) == (Session { group_call: None, ..*old(s) })
            &&& out@ == seq![
                Effect::StopMedia { room: g.call_instance },
                Effect::EndSystemCall { ring: g.ring_handle, cause: DisconnectCause::Missed },
                Effect::RecordTerminal {
                    call: g.call_instance,
                    offer: g.ring_id,
                    reason: CallTerminalReason::Expired,
                    retention: retention_of(*old(s)),
                },
                Effect::SendGroupTerminalEverywhere {
                    group_id: g.group_id,
                    call: g.call_instance,
                    ring_id: g.ring_id,
                    coordinator: g.coordinator,
                    reason: CallTerminalReason::Expired,
                },
            ] + group_chip(g.group_id, Label::UnansweredGroupCall) + seq![
                Effect::EmitGroup(GroupEvent::NoAnswer),
            ]
        },
        no_orphans(*old(s), *final(s), out@),
{
    let mut out: Vec<Effect> = Vec::new();
    let alone = match &s.group_call {
        Some(g) => same(g.call_instance.as_str(), call) && g.connected.is_empty(),
        None => false,
    };
    if !alone {
        return out;
    }
    let retention: u64 = call_retention_secs(s);
    if let Some(g) = s.group_call.take() {
        out.push(Effect::StopMedia { room: g.call_instance.clone() });
        out.push(Effect::EndSystemCall { ring: g.ring_handle, cause: DisconnectCause::Missed });
        out.push(
            Effect::RecordTerminal {
                call: g.call_instance.clone(),
                offer: g.ring_id.clone(),
                reason: CallTerminalReason::Expired,
                retention,
            },
        );
        out.push(
            Effect::SendGroupTerminalEverywhere {
                group_id: g.group_id.clone(),
                call: g.call_instance,
                ring_id: g.ring_id,
                coordinator: g.coordinator,
                reason: CallTerminalReason::Expired,
            },
        );
        log_group_call_event(&mut out, &g.group_id, Label::UnansweredGroupCall);
        out.push(Effect::EmitGroup(GroupEvent::NoAnswer));
        proof {
            lemma_one_dropped(*old(s), *s, out@, 1, old(s).group_call->0.ring_handle@);
        }
    }
    out
}

/// A group call begins with nothing of its legs behind it, under the ids, handle, key and rooms it
/// was planned with.
pub proof fn lemma_a_group_call_begins_afresh(plan: GroupPlan, g: GroupCallCtl, name: Seq<char>)
    requires
        group_installed(plan, g),
    ensures
        g.call_instance == plan.call_instance && g.ring_id == plan.ring_id && g.ring_handle == plan.ring_handle,
        g.group_id == plan.group_id && g.group_name == plan.group_name && g.coordinator == plan.coordinator,
        g.deadline == plan.deadline && g.my_key == plan.my_key && g.my_tickets == plan.my_tickets,
        !g.muted && g.connected_at == 0,
        !g.legs_added@.contains(name) && !g.used_call_ids@.contains(name) && !g.departed@.contains(name)
            && !g.arbiters@.contains(name) && !g.connected@.dom().contains(name),
        attempts_of(g, name) == 0,
{
}

/// A leg that dropped is replaced and not joined again: its room has been used, so the end that
/// owns the pair offers a fresh one; and once the fresh room has reached the member, that is the
/// room it joins.
pub proof fn lemma_a_dropped_leg_gets_a_fresh_room(
    before: Session,
    begun: GroupCallCtl,
    lost: Session,
    fresh: Session,
    call: Seq<char>,
    peer_key: Seq<char>,
    username: Seq<char>,
    theirs: Option<Ticket>,
    room: Ticket,
    at: int,
)
    requires
        before.group_call is Some && lost.group_call is Some && fresh.group_call is Some,
        before.group_call->0.call_instance@ == call,
        ({
            let x = encode_utf8(before.group_call->0.my_key@);
            let y = encode_utf8(peer_key);
            &&& 0 <= at <= x.len()
            &&& at < y.len()
            &&& forall|i: int| 0 <= i < at ==> x[i] == y[i]
            &&& at == x.len() || x[at] < y[at]
        }),
        before.group_call->0.my_tickets@.dom().contains(username),
        leg_begun(before.group_call->0, begun, peer_key, before.group_call->0.my_tickets@[username].call_id@),
        lost.group_call->0.legs_added@ == begun.legs_added@.remove(peer_key),
        lost.group_call->0.used_call_ids == begun.used_call_ids && lost.group_call->0.my_tickets == begun.my_tickets
            && lost.group_call->0.my_key == begun.my_key && lost.group_call->0.call_instance
            == begun.call_instance,
        fresh.group_call->0.my_tickets@ == lost.group_call->0.my_tickets@.insert(username, room),
        fresh.group_call->0.legs_added == lost.group_call->0.legs_added && fresh.group_call->0.used_call_ids
            == lost.group_call->0.used_call_ids && fresh.group_call->0.my_key == lost.group_call->0.my_key
            && fresh.group_call->0.call_instance == lost.group_call->0.call_instance,
        !lost.group_call->0.used_call_ids@.contains(room.call_id@),
    ensures
        leg_plan(lost, call, peer_key, username, theirs) is Reoffer,
        leg_plan(fresh, call, peer_key, username, theirs) == (LegPlan::Join { ticket: room, caller: true }),
        leg_may_begin(fresh.group_call->0, peer_key, room.call_id@),
        !leg_may_begin(
            lost.group_call->0,
            peer_key,
            before.group_call->0.my_tickets@[username].call_id@,
        ),
{
    lemma_the_first_difference_decides(encode_utf8(before.group_call->0.my_key@), encode_utf8(peer_key), at);
}

/// A leg begins where its device has none and its room was never used, marks both, and changes
/// nothing else; one that could not join takes both marks back.
pub proof fn lemma_a_leg_marks_its_device_and_its_room(
    before: GroupCallCtl,
    begun: GroupCallCtl,
    back: GroupCallCtl,
    peer_key: Seq<char>,
    room: Seq<char>,
    other: Seq<char>,
)
    requires
        leg_may_begin(before, peer_key, room),
        leg_begun(before, begun, peer_key, room),
        leg_taken_back(begun, back, peer_key, room),
    ensures
        !before.legs_added@.contains(peer_key) && !before.used_call_ids@.contains(room),
        begun.legs_added@.contains(peer_key) && begun.used_call_ids@.contains(room),
        other != peer_key ==> begun.legs_added@.contains(other) == before.legs_added@.contains(other),
        other != room ==> begun.used_call_ids@.contains(other) == before.used_call_ids@.contains(other),
        back.legs_added@ == before.legs_added@ && back.used_call_ids@ == before.used_call_ids@,
        begun.my_tickets == before.my_tickets && begun.connected == before.connected && begun.departed
            == before.departed && begun.connected_at == before.connected_at,
        forall|k: Seq<char>| #[trigger] leg_may_begin(begun, k, room) ==> false,
{
}

/// A member whose leg dropped is offered a fresh room by the end whose key sorts first, while they
/// have not left and the budget lasts; the end whose key sorts last offers none.
pub proof fn lemma_who_offers_a_fresh_room(
    g: GroupCallCtl,
    limits: Limits,
    peer_key: Seq<char>,
    name: Seq<char>,
    at: int,
)
    requires
        ({
            let x = encode_utf8(g.my_key@);
            let y = encode_utf8(peer_key);
            &&& 0 <= at <= x.len()
            &&& at <= y.len()
            &&& forall|i: int| 0 <= i < at ==> x[i] == y[i]
            &&& (at < y.len() && (at == x.len() || x[at] < y[at])) || (at < x.len() && (at == y.len() || y[at]
                < x[at]))
        }),
    ensures
        ({
            let x = encode_utf8(g.my_key@);
            let y = encode_utf8(peer_key);
            let first = at < y.len() && (at == x.len() || x[at] < y[at]);
            let tried = if g.reoffer_attempts@.dom().contains(name) {
                g.reoffer_attempts@[name]
            } else {
                0
            };
            reoffer_owed(g, limits, peer_key, name) <==> first && !g.departed@.contains(name) && tried
                < limits.max_leg_reoffers
        }),
{
    let x = encode_utf8(g.my_key@);
    let y = encode_utf8(peer_key);
    if at < y.len() && (at == x.len() || x[at] < y[at]) {
        lemma_the_first_difference_decides(x, y, at);
    } else {
        lemma_the_first_difference_decides(y, x, at);
    }
}

/// A member is called by their account's name, or by no more than the first eight characters of
/// the key.
pub proof fn lemma_what_a_member_is_called(s: Session, peer_key: Seq<char>)
    ensures
        s.directory.devices@.dom().contains(peer_key) && s.directory.devices@[peer_key].username is Some ==> shown_name(
            s,
            peer_key,
        ) == s.directory.devices@[peer_key].username->0@,
        !(s.directory.devices@.dom().contains(peer_key) && s.directory.devices@[peer_key].username is Some) ==> ({
            let shown = shown_name(s, peer_key);
            &&& shown.len() == if peer_key.len() < 8 {
                peer_key.len() as int
            } else {
                8
            }
            &&& forall|i: int| 0 <= i < shown.len() ==> #[trigger] shown[i] == peer_key[i]
        }),
{
}

/// A group call is with every member but this account, each as often as the group lists them.
pub proof fn lemma_everybody_else_is_called(members: Seq<GroupMember>, me: Seq<char>)
    ensures
        forall|i: int| #![trigger members[i]]
            0 <= i < members.len() && members[i].username@ != me ==> others_of(members, me).contains(members[i]),
        forall|k: int| #![trigger others_of(members, me)[k]]
            0 <= k < others_of(members, me).len() ==> others_of(members, me)[k].username@ != me && members.contains(
                others_of(members, me)[k],
            ),
        others_of(members, me).len() <= members.len(),
        (forall|i: int| 0 <= i < members.len() ==> (#[trigger] members[i]).username@ != me) ==> others_of(members, me)
            == members,
    decreases members.len(),
{
    if members.len() > 0 {
        let head = members.drop_last();
        let before = others_of(head, me);
        let all = others_of(members, me);
        lemma_everybody_else_is_called(head, me);
        assert forall|k: int| 0 <= k < before.len() implies #[trigger] all[k] == before[k] by {}
        assert forall|i: int| #![trigger members[i]]
            0 <= i < members.len() && members[i].username@ != me implies all.contains(members[i]) by {
            if i < head.len() {
                assert(head[i] == members[i]);
                let k = choose|k: int| 0 <= k < before.len() && before[k] == head[i];
                assert(all[k] == members[i]);
            } else {
                assert(all[all.len() - 1] == members[i]);
            }
        }
        assert forall|k: int| #![trigger all[k]] 0 <= k < all.len() implies all[k].username@ != me && members.contains(
            all[k],
        ) by {
            if k < before.len() {
                assert(all[k] == before[k]);
                let m = choose|m: int| 0 <= m < head.len() && head[m] == before[k];
                assert(members[m] == all[k]);
            } else {
                assert(members[members.len() - 1] == all[k]);
            }
        }
        if forall|i: int| 0 <= i < members.len() ==> (#[trigger] members[i]).username@ != me {
            assert forall|i: int| 0 <= i < head.len() implies (#[trigger] head[i]).username@ != me by {
                assert(head[i] == members[i]);
            }
            assert(members[members.len() - 1].username@ != me);
            assert(all =~= members);
        }
    }
}

/// A group can be rung through a connection, with the vault open, while this account takes part in
/// it, if there is somebody else in it and no more than may be, this account among them.
pub proof fn lemma_when_a_group_can_be_rung(s: Session, group_id: Seq<char>, in_group: Result<(), String>)
    ensures
        ({
            let others = others_of(s.directory.groups@[group_id].members@, s.account->0.account_id@);
            &&& group_start_refused(s, group_id, in_group) is None <==> s.client is Some && s.account is Some
                && s.directory.groups@.dom().contains(group_id) && in_group is Ok && 1 <= others.len()
                && others.len() < s.limits.max_group_members
            &&& s.client is Some && s.account is Some && s.directory.groups@.dom().contains(group_id) && in_group is Ok
                && others.len() == 0 ==> group_start_refused(s, group_id, in_group) == Some(
                CallError::NoOtherMembers,
            )
            &&& s.client is None ==> group_start_refused(s, group_id, in_group) == Some(CallError::NotConfigured)
            &&& s.client is Some && s.account is None ==> group_start_refused(s, group_id, in_group) == Some(
                CallError::Locked,
            )
        }),
{
}

/// The party of a group call is this account, under its own key, and everybody else in the group.
pub proof fn lemma_who_is_of_the_party(s: Session, group_id: Seq<char>, party: GroupParty)
    requires
        party_of(s, group_id, party),
    ensures
        party.me == s.account->0.account_id && party.my_key == s.account->0.identity_key,
        party.group_name == s.directory.groups@[group_id].name,
        forall|i: int| #![trigger s.directory.groups@[group_id].members@[i]]
            0 <= i < s.directory.groups@[group_id].members@.len()
                && s.directory.groups@[group_id].members@[i].username@ != s.account->0.account_id@
                ==> party.others@.contains(s.directory.groups@[group_id].members@[i]),
        forall|k: int| 0 <= k < party.others@.len() ==> (#[trigger] party.others@[k]).username@
            != s.account->0.account_id@,
{
    lemma_everybody_else_is_called(s.directory.groups@[group_id].members@, s.account->0.account_id@);
}

/// A group answer counts no longer than the ring's signal, and no longer than a control message
/// made now.
pub proof fn lemma_how_long_a_group_answer_counts(s: Session, o: PendingGroupOffer, now: u64)
    ensures
        group_claim_expiry(s, o, now) <= o.deadline.expires_at,
        group_claim_expiry(s, o, now) <= later(now, s.limits.signal_ttl_secs),
        group_claim_expiry(s, o, now) == o.deadline.expires_at || group_claim_expiry(s, o, now) == later(
            now,
            s.limits.signal_ttl_secs,
        ),
        group_answer_blocked(s) <==> s.call is Some || s.group_call is Some || s.claiming is Some
            || s.group_claiming is Some || s.call_setup,
{
}

/// A ring stops ringing and stops counting when it should, counted from when it is made.
pub proof fn lemma_a_rings_deadlines(limits: Limits, now: u64)
    ensures
        deadlines_from(limits, now).created_at == now,
        now + limits.ring_timeout_secs <= u64::MAX ==> deadlines_from(limits, now).ring_expires_at == now
            + limits.ring_timeout_secs,
        now + limits.signal_ttl_secs <= u64::MAX ==> deadlines_from(limits, now).expires_at == now
            + limits.signal_ttl_secs,
        limits.ring_timeout_secs <= limits.signal_ttl_secs ==> deadlines_from(limits, now).ring_expires_at
            <= deadlines_from(limits, now).expires_at,
{
}

/// A leg that was offered while the call rang is joined toward the device that offered it, in the
/// room and with the key it offered.
pub proof fn lemma_an_offered_leg_is_the_one_offered(call: String, entry: (String, LegOffer))
    ensures
        offered_leg(call, entry) matches Effect::EstablishLeg { call: c, peer_key, username, ticket } && c == call
            && peer_key == entry.0 && username == entry.1.username && ticket is Some && ticket->0.call_id
            == entry.1.call_id && ticket->0.key_b64 == entry.1.key_b64,
{
}

/// Nobody has joined a group call while nobody's audio flows.
pub proof fn lemma_when_nobody_has_joined(s: Session, call: Seq<char>, peer: Seq<char>)
    ensures
        group_alone(s, call) ==> s.group_call is Some && s.group_call->0.call_instance@ == call
            && !s.group_call->0.connected@.dom().contains(peer),
        s.group_call is Some && s.group_call->0.call_instance@ == call && s.group_call->0.connected@.dom().contains(peer)
            ==> !group_alone(s, call),
{
}

} // verus!
