//! What a group call sends to its members, and what it makes of the answers.

use super::capsule_apply::{group_terminal_capsule_worth_sending, worth_sending};
use super::directory::GroupMember;
use super::error::CallError;
use super::group::{any_ok, other_members, others_of, some_ok};
use super::route::sending_allowed;
use super::session::Session;
use super::types::{CallTerminalReason, GroupCoordinator, Ticket};
use crate::names::NameMap;
use vstd::prelude::*;

verus! {

/// Whom a group outcome goes to.
pub struct GroupFan {
    pub members: Vec<GroupMember>,
    /// Whether it goes to their devices as capsules too.
    pub capsules: bool,
}

/// Whom a group outcome goes to: every other member, as an encrypted message, and as capsules
/// too where a member would act on one. Nobody if the group is not known or the vault is
/// locked.
pub fn send_group_call_terminal_everywhere(
    s: &Session,
    group_id: &str,
    coordinator: &GroupCoordinator,
    reason: CallTerminalReason,
) -> (r: Option<GroupFan>)
    ensures
        match r {
            None => s.account is None || !s.directory.groups@.dom().contains(group_id@),
            Some(fan) => {
                &&& s.account is Some && s.directory.groups@.dom().contains(group_id@)
                &&& fan.members@ == others_of(
                    s.directory.groups@[group_id@].members@,
                    s.account->0.account_id@,
                )
                &&& fan.capsules == worth_sending(*s, *coordinator, reason)
            },
        },
{
    match s.directory.groups.get(group_id) {
        None => None,
        Some(group) => match &s.account {
            None => None,
            Some(account) => Some(
                GroupFan {
                    members: other_members(group, account.account_id.as_str()),
                    capsules: group_terminal_capsule_worth_sending(s, coordinator, reason),
                },
            ),
        },
    }
}

/// The room made for a member, and which of the posted envelopes carry its offer.
pub struct OfferPlan {
    pub username: String,
    pub ticket: Ticket,
    pub start: usize,
    pub end: usize,
}

/// Every plan's envelopes were posted.
pub open spec fn plans_cover(plans: Seq<OfferPlan>, n: int) -> bool {
    forall|i: int| 0 <= i < plans.len() ==> (#[trigger] plans[i]).start <= plans[i].end <= n
}

/// The room made for a member, and how many envelopes carry its offer; nothing where the
/// member cannot be addressed or no offer could be made.
pub struct MemberRoom {
    pub username: String,
    pub ticket: Ticket,
    pub envelopes: Option<usize>,
}

/// How many envelopes were made in all.
pub open spec fn envelopes_in(rooms: Seq<MemberRoom>) -> nat
    decreases rooms.len(),
{
    if rooms.len() == 0 {
        0
    } else {
        envelopes_in(rooms.drop_last()) + match rooms.last().envelopes {
            Some(n) => n as nat,
            None => 0,
        }
    }
}

/// The plans of the members an offer was made for, in order: the envelopes of each follow those
/// of the one before.
pub open spec fn offer_plans(rooms: Seq<MemberRoom>) -> Seq<OfferPlan>
    decreases rooms.len(),
{
    if rooms.len() == 0 {
        Seq::empty()
    } else {
        let head = offer_plans(rooms.drop_last());
        let room = rooms.last();
        let start = envelopes_in(rooms.drop_last());
        match room.envelopes {
            Some(n) => head.push(
                OfferPlan {
                    username: room.username,
                    ticket: room.ticket,
                    start: start as usize,
                    end: (start + n) as usize,
                },
            ),
            None => head,
        }
    }
}

/// Part of the members' envelopes are no more than all of them.
proof fn lemma_fewer_rooms_fewer_envelopes(rooms: Seq<MemberRoom>, i: int)
    requires
        0 <= i <= rooms.len(),
    ensures
        envelopes_in(rooms.take(i)) <= envelopes_in(rooms),
    decreases rooms.len(),
{
    if i < rooms.len() {
        assert(rooms.drop_last().take(i) =~= rooms.take(i));
        lemma_fewer_rooms_fewer_envelopes(rooms.drop_last(), i);
    } else {
        assert(rooms.take(i) =~= rooms);
    }
}

/// Line the offers to a group's members up for one batch. There is none on another connection,
/// with the vault locked, or where no offer could be made.
pub fn plan_group_offers(s: &Session, client: u64, rooms: Vec<MemberRoom>) -> (r: Result<
    Vec<OfferPlan>,
    CallError,
>)
    requires
        envelopes_in(rooms@) <= usize::MAX,
    ensures
        if s.client != Some(client) {
            r == Err::<Vec<OfferPlan>, CallError>(CallError::NotConfigured)
        } else if s.account is None {
            r == Err::<Vec<OfferPlan>, CallError>(CallError::Locked)
        } else if envelopes_in(rooms@) == 0 {
            r == Err::<Vec<OfferPlan>, CallError>(CallError::NoMemberPrepared)
        } else {
            r matches Ok(plans) && plans@ == offer_plans(rooms@) && plans_cover(
                plans@,
                envelopes_in(rooms@) as int,
            )
        },
{
    match sending_allowed(s, client) {
        Ok(_) => {},
        Err(error) => {
            return Err(error);
        },
    }
    let mut plans: Vec<OfferPlan> = Vec::new();
    let mut total: usize = 0;
    let mut i: usize = 0;
    assert(rooms@.take(0) =~= Seq::<MemberRoom>::empty());
    while i < rooms.len()
        invariant
            i <= rooms@.len(),
            envelopes_in(rooms@) <= usize::MAX,
            total == envelopes_in(rooms@.take(i as int)),
            plans@ == offer_plans(rooms@.take(i as int)),
            plans_cover(plans@, total as int),
        decreases rooms.len() - i,
    {
        let ghost upto = rooms@.take(i + 1);
        proof {
            assert(upto.drop_last() =~= rooms@.take(i as int));
            assert(upto.last() == rooms@[i as int]);
            lemma_fewer_rooms_fewer_envelopes(rooms@, i + 1);
        }
        let room = &rooms[i];
        if let Some(n) = room.envelopes {
            let end: usize = total + n;
            plans.push(
                OfferPlan {
                    username: room.username.clone(),
                    ticket: room.ticket.clone(),
                    start: total,
                    end,
                },
            );
            total = end;
        }
        i = i + 1;
    }
    assert(rooms@.take(i as int) =~= rooms@);
    if total == 0 {
        return Err(CallError::NoMemberPrepared);
    }
    Ok(plans)
}

/// The rooms of the members that at least one envelope reached.
pub open spec fn reached_rooms(plans: Seq<OfferPlan>, results: Seq<Result<(), String>>) -> Map<
    Seq<char>,
    Ticket,
>
    decreases plans.len(),
{
    if plans.len() == 0 {
        Map::empty()
    } else {
        let p = plans.last();
        let head = reached_rooms(plans.drop_last(), results);
        if any_ok(results, p.start as int, p.end as int) {
            head.insert(p.username@, p.ticket)
        } else {
            head
        }
    }
}

/// The first error among the results.
pub open spec fn first_error(results: Seq<Result<(), String>>) -> Option<String>
    decreases results.len(),
{
    if results.len() == 0 {
        None
    } else if results[0] is Err {
        Some(results[0]->Err_0)
    } else {
        first_error(results.skip(1))
    }
}

fn first_error_exec(results: &Vec<Result<(), String>>) -> (r: Option<String>)
    ensures
        r == first_error(results@),
{
    let mut i: usize = 0;
    assert(results@.skip(0) =~= results@);
    while i < results.len()
        invariant
            i <= results@.len(),
            first_error(results@) == first_error(results@.skip(i as int)),
        decreases results.len() - i,
    {
        assert(results@.skip(i as int)[0] == results@[i as int]);
        assert(results@.skip(i as int).skip(1) =~= results@.skip(i + 1));
        match &results[i] {
            Err(text) => {
                return Some(text.clone());
            },
            Ok(_) => {},
        }
        i = i + 1;
    }
    None
}

/// The offers to a group were posted, `results` says with what success. The rooms of the
/// members that were reached are kept. With nobody prepared or nobody reached there is no
/// call.
pub fn send_offers_for_group(plans: Vec<OfferPlan>, results: &Vec<Result<(), String>>) -> (r: Result<
    NameMap<Ticket>,
    CallError,
>)
    requires
        plans_cover(plans@, results@.len() as int),
    ensures
        ({
            let rooms = reached_rooms(plans@, results@);
            if results@.len() == 0 {
                r == Err::<NameMap<Ticket>, CallError>(CallError::NoMemberPrepared)
            } else if rooms != Map::<Seq<char>, Ticket>::empty() {
                r matches Ok(m) && m@ == rooms && m.wf()
            } else {
                match first_error(results@) {
                    Some(text) => r == Err::<NameMap<Ticket>, CallError>(CallError::Other(text)),
                    None => r == Err::<NameMap<Ticket>, CallError>(CallError::NoMemberReached),
                }
            }
        }),
{
    if results.len() == 0 {
        return Err(CallError::NoMemberPrepared);
    }
    let mut rooms: NameMap<Ticket> = NameMap::new();
    let mut i: usize = 0;
    assert(plans@.take(0) =~= Seq::<OfferPlan>::empty());
    while i < plans.len()
        invariant
            i <= plans@.len(),
            plans_cover(plans@, results@.len() as int),
            rooms@ == reached_rooms(plans@.take(i as int), results@),
            rooms.wf(),
        decreases plans.len() - i,
    {
        let ghost upto = plans@.take(i + 1);
        assert(upto.drop_last() =~= plans@.take(i as int));
        assert(upto.last() == plans@[i as int]);
        let p = &plans[i];
        if some_ok(results, p.start, p.end) {
            rooms.insert(p.username.clone(), p.ticket.clone());
        }
        i = i + 1;
    }
    assert(plans@.take(i as int) =~= plans@);
    if rooms.is_empty() {
        return match first_error_exec(results) {
            Some(text) => Err(CallError::Other(text)),
            None => Err(CallError::NoMemberReached),
        };
    }
    Ok(rooms)
}

/// The envelopes of a group's offers lie one after the other, with none left out.
pub proof fn lemma_the_offers_of_a_group_lie_end_to_end(rooms: Seq<MemberRoom>)
    requires
        envelopes_in(rooms) <= usize::MAX,
    ensures
        offer_plans(rooms).len() == 0 ==> envelopes_in(rooms) == 0,
        offer_plans(rooms).len() > 0 ==> offer_plans(rooms)[0].start == 0 && offer_plans(rooms).last().end
            == envelopes_in(rooms),
        forall|i: int, j: int|
            0 <= i < offer_plans(rooms).len() && j == i + 1 && j < offer_plans(rooms).len() ==> (
            #[trigger] offer_plans(rooms)[i]).end == (#[trigger] offer_plans(rooms)[j]).start,
    decreases rooms.len(),
{
    if rooms.len() > 0 {
        let head = rooms.drop_last();
        let before = offer_plans(head);
        let plans = offer_plans(rooms);
        assert(rooms.take(rooms.len() - 1) =~= head);
        lemma_fewer_rooms_fewer_envelopes(rooms, rooms.len() - 1);
        lemma_the_offers_of_a_group_lie_end_to_end(head);
        if rooms.last().envelopes is Some {
            assert(plans.drop_last() =~= before);
            assert forall|i: int, j: int| 0 <= i < plans.len() && j == i + 1 && j < plans.len() implies (
            #[trigger] plans[i]).end == (#[trigger] plans[j]).start by {
                assert(plans[i] == before[i]);
                if j < before.len() {
                    assert(plans[j] == before[j]);
                } else {
                    assert(plans[i] == before.last());
                }
            }
            if before.len() > 0 {
                assert(plans[0] == before[0]);
            }
        }
    }
}

/// The plan is this room's: for its member, with its ticket, and as many envelopes as carry it.
pub open spec fn plan_of(plan: OfferPlan, room: MemberRoom) -> bool {
    &&& room.envelopes is Some
    &&& plan.username == room.username
    &&& plan.ticket == room.ticket
    &&& plan.end - plan.start == room.envelopes->0
}

/// Every member an offer was made for has a plan of their own, and nobody else has one.
pub proof fn lemma_every_offer_has_its_plan(rooms: Seq<MemberRoom>, k: int)
    requires
        envelopes_in(rooms) <= usize::MAX,
        0 <= k < rooms.len(),
    ensures
        rooms[k].envelopes is Some ==> exists|i: int|
            0 <= i < offer_plans(rooms).len() && plan_of(#[trigger] offer_plans(rooms)[i], rooms[k]),
        offer_plans(rooms).len() <= rooms.len(),
        rooms[k].envelopes is None ==> offer_plans(rooms).len() < rooms.len(),
    decreases rooms.len(),
{
    let head = rooms.drop_last();
    let before = offer_plans(head);
    let plans = offer_plans(rooms);
    assert(rooms.take(rooms.len() - 1) =~= head);
    lemma_fewer_rooms_fewer_envelopes(rooms, rooms.len() - 1);
    if k < head.len() {
        lemma_every_offer_has_its_plan(head, k);
        assert(head[k] == rooms[k]);
        if rooms[k].envelopes is Some {
            let i = choose|i: int| 0 <= i < before.len() && plan_of(#[trigger] before[i], head[k]);
            assert(plans[i] == before[i]);
        }
    } else {
        if head.len() > 0 {
            lemma_every_offer_has_its_plan(head, 0);
        }
        if rooms[k].envelopes is Some {
            assert(plan_of(plans[plans.len() - 1], rooms[k]));
        }
    }
}

/// A member's room is kept exactly where one of the envelopes that carry it arrived; of a name that
/// comes once, it is that very room.
pub proof fn lemma_a_reached_members_room_is_kept(
    plans: Seq<OfferPlan>,
    results: Seq<Result<(), String>>,
    i: int,
)
    requires
        0 <= i < plans.len(),
        forall|j: int, k: int|
            0 <= j < k < plans.len() ==> (#[trigger] plans[j]).username@ != (#[trigger] plans[k]).username@,
    ensures
        ({
            let rooms = reached_rooms(plans, results);
            let reached = exists|k: int| plans[i].start <= k < plans[i].end && #[trigger] results[k] is Ok;
            &&& rooms.dom().contains(plans[i].username@) <==> reached
            &&& reached ==> rooms[plans[i].username@] == plans[i].ticket
        }),
    decreases plans.len(),
{
    let head = plans.drop_last();
    assert forall|j: int, k: int| 0 <= j < k < head.len() implies (#[trigger] head[j]).username@ != (
    #[trigger] head[k]).username@ by {
        assert(head[j] == plans[j]);
        assert(head[k] == plans[k]);
    }
    if i < head.len() {
        lemma_a_reached_members_room_is_kept(head, results, i);
        assert(head[i] == plans[i]);
        assert(plans[plans.len() - 1] == plans.last());
    } else {
        lemma_a_name_without_a_plan_has_no_room(head, results, plans[i].username@);
    }
}

proof fn lemma_a_name_without_a_plan_has_no_room(
    plans: Seq<OfferPlan>,
    results: Seq<Result<(), String>>,
    name: Seq<char>,
)
    requires
        forall|j: int| 0 <= j < plans.len() ==> (#[trigger] plans[j]).username@ != name,
    ensures
        !reached_rooms(plans, results).dom().contains(name),
    decreases plans.len(),
{
    if plans.len() > 0 {
        let head = plans.drop_last();
        assert forall|j: int| 0 <= j < head.len() implies (#[trigger] head[j]).username@ != name by {
            assert(head[j] == plans[j]);
        }
        lemma_a_name_without_a_plan_has_no_room(head, results, name);
        assert(plans[plans.len() - 1].username@ != name);
    }
}

/// What is reported of a batch that failed is the first error in it.
pub proof fn lemma_the_first_error_is_reported(results: Seq<Result<(), String>>, i: int)
    ensures
        0 <= i < results.len() && results[i] is Err && (forall|j: int|
            0 <= j < i ==> #[trigger] results[j] is Ok) ==> first_error(results) == Some(results[i]->Err_0),
        (forall|j: int| 0 <= j < results.len() ==> #[trigger] results[j] is Ok) ==> first_error(results) is None,
    decreases results.len(),
{
    if results.len() > 0 && results[0] is Ok {
        let rest = results.skip(1);
        lemma_the_first_error_is_reported(rest, i - 1);
        assert forall|j: int| 0 <= j < rest.len() implies #[trigger] rest[j] == results[j + 1] by {}
    }
}

} // verus!
