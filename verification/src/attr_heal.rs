//! Messages from a device nobody vouches for yet, under a name that is known, are set aside
//! and put through again once the account's verified roster has been fetched anew.

use crate::call::directory::Directory;
use crate::names::{NameMap, NameSet};
use vstd::prelude::*;

verus! {

/// How many events are set aside for one name.
pub const PENDING_ATTR_CAP: usize = 64;

/// The events set aside, by the name they claim, and the names being looked up.
pub struct Quarantine<T> {
    pub pending: NameMap<Vec<T>>,
    pub inflight: NameSet,
}

impl<T> Quarantine<T> {
    /// The events set aside under a name, in order.
    pub open spec fn held(self, username: Seq<char>) -> Seq<T> {
        if self.pending@.dom().contains(username) {
            self.pending@[username]@
        } else {
            Seq::empty()
        }
    }

    /// Take out what is set aside under a name, which is no longer being looked up.
    pub fn take(&mut self, username: &str) -> (r: Vec<T>)
        ensures
            r@ == old(self).held(username@),
            final(self).pending@ == old(self).pending@.remove(username@),
            final(self).inflight@ == old(self).inflight@.remove(username@),
    {
        self.inflight.remove(username);
        match self.pending.remove(username) {
            Some(events) => events,
            None => Vec::new(),
        }
    }

    /// The roster could not be fetched: the events stay set aside.
    pub fn put_back(&mut self, username: String, events: Vec<T>)
        ensures
            final(self).pending@ == old(self).pending@.insert(username@, events),
            final(self).held(username@) == events@,
            final(self).inflight == old(self).inflight,
    {
        self.pending.insert(username, events);
    }
}

/// A failed lookup loses nothing and touches nobody else: what was taken out under a name and
/// put back is held as before, and so is everything under every other name.
pub proof fn lemma_a_failed_lookup_loses_nothing<T>(
    before: Quarantine<T>,
    taken: Quarantine<T>,
    after: Quarantine<T>,
    username: Seq<char>,
    events: Vec<T>,
    other: Seq<char>,
)
    requires
        events@ == before.held(username),
        taken.pending@ == before.pending@.remove(username),
        after.pending@ == taken.pending@.insert(username, events),
    ensures
        after.held(other) == before.held(other),
{
}

/// What becomes of an event that was set aside, once the roster has been fetched.
#[derive(Clone, Copy, Debug, PartialEq, Eq, Structural)]
pub enum ReplayStep {
    /// Its sender is still not on the roster of the name it claims: it is dropped.
    Spoofed,
    /// Its sender is blocked.
    Blocked,
    /// It is a call signal, and takes the ordinary way of one.
    CallSignal,
    /// It is applied.
    Apply,
}

/// Decide what becomes of one event. `unresolved` says that its sender is still not attributed
/// to the name it claims.
pub fn replay_event(
    dir: &Directory,
    sender_identity_key: &str,
    unresolved: bool,
    call_signal: bool,
) -> (r: ReplayStep)
    ensures
        r == if unresolved {
            ReplayStep::Spoofed
        } else if dir.blocks(sender_identity_key@) {
            ReplayStep::Blocked
        } else if call_signal {
            ReplayStep::CallSignal
        } else {
            ReplayStep::Apply
        },
{
    if unresolved {
        ReplayStep::Spoofed
    } else if dir.peer_blocked(sender_identity_key) {
        ReplayStep::Blocked
    } else if call_signal {
        ReplayStep::CallSignal
    } else {
        ReplayStep::Apply
    }
}

/// An event that was set aside: who sent it, whether the sender is still not attributed to the
/// name they claim, and whether it is a call signal.
pub struct SetAside {
    pub sender_identity_key: String,
    pub unresolved: bool,
    pub call_signal: bool,
}

/// What becomes of an event.
pub open spec fn step_of(dir: Directory, e: SetAside) -> ReplayStep {
    if e.unresolved {
        ReplayStep::Spoofed
    } else if dir.blocks(e.sender_identity_key@) {
        ReplayStep::Blocked
    } else if e.call_signal {
        ReplayStep::CallSignal
    } else {
        ReplayStep::Apply
    }
}

/// Where the events stand that one thing becomes of, in order.
pub open spec fn places_of(dir: Directory, events: Seq<SetAside>, step: ReplayStep) -> Seq<usize>
    decreases events.len(),
{
    if events.len() == 0 {
        Seq::empty()
    } else {
        let head = places_of(dir, events.drop_last(), step);
        if step_of(dir, events.last()) == step {
            head.push((events.len() - 1) as usize)
        } else {
            head
        }
    }
}

/// What is put through again, by place: what is applied, and the call signals, which follow
/// once everything else has been applied.
pub struct ReplayPlan {
    pub apply: Vec<usize>,
    pub calls: Vec<usize>,
}

/// Decide what becomes of everything that was set aside under a name, once its roster has been
/// fetched anew. Each part keeps the order in which the events came.
pub fn resolve_attr_and_replay(dir: &Directory, events: &Vec<SetAside>) -> (r: ReplayPlan)
    ensures
        r.apply@ == places_of(*dir, events@, ReplayStep::Apply),
        r.calls@ == places_of(*dir, events@, ReplayStep::CallSignal),
{
    let mut apply: Vec<usize> = Vec::new();
    let mut calls: Vec<usize> = Vec::new();
    let mut i: usize = 0;
    assert(events@.take(0) =~= Seq::<SetAside>::empty());
    while i < events.len()
        invariant
            i <= events@.len(),
            apply@ == places_of(*dir, events@.take(i as int), ReplayStep::Apply),
            calls@ == places_of(*dir, events@.take(i as int), ReplayStep::CallSignal),
        decreases events.len() - i,
    {
        let ghost upto = events@.take(i + 1);
        assert(upto.drop_last() =~= events@.take(i as int));
        assert(upto.last() == events@[i as int]);
        let e = &events[i];
        match replay_event(dir, e.sender_identity_key.as_str(), e.unresolved, e.call_signal) {
            ReplayStep::Apply => apply.push(i),
            ReplayStep::CallSignal => calls.push(i),
            _ => {},
        }
        i = i + 1;
    }
    assert(events@.take(i as int) =~= events@);
    ReplayPlan { apply, calls }
}

/// No event whose sender is not on the verified roster, or is blocked, is put through again.
pub proof fn lemma_only_the_vouched_for_is_put_through(
    dir: Directory,
    events: Seq<SetAside>,
    step: ReplayStep,
    k: int,
)
    requires
        0 <= k < places_of(dir, events, step).len(),
        events.len() <= usize::MAX,
    ensures
        0 <= places_of(dir, events, step)[k] < events.len(),
        step_of(dir, events[places_of(dir, events, step)[k] as int]) == step,
        step is Apply || step is CallSignal ==> ({
            let e = events[places_of(dir, events, step)[k] as int];
            !e.unresolved && !dir.blocks(e.sender_identity_key@)
        }),
    decreases events.len(),
{
    let head = places_of(dir, events.drop_last(), step);
    if k < head.len() {
        lemma_only_the_vouched_for_is_put_through(dir, events.drop_last(), step, k);
        assert(events.drop_last()[head[k] as int] == events[head[k] as int]);
    }
}

/// How the user hears of an event that was applied.
#[derive(Clone, Copy, Debug, PartialEq, Eq, Structural)]
pub enum ReplayNotice {
    /// Not at all.
    Silent,
    /// As a message request.
    Request,
    /// As an ordinary message.
    Event,
}

/// Decide how the user hears of an applied event. A conversation that is still a request is
/// announced as one, once; otherwise a message is announced if it can be seen. `visible` is
/// whether a message landed in its conversation, `None` for what is not a message.
pub fn replay_notice(request_pending: bool, request_unannounced: bool, visible: Option<bool>) -> (r:
    ReplayNotice)
    ensures
        r == if request_pending {
            if request_unannounced {
                ReplayNotice::Request
            } else {
                ReplayNotice::Silent
            }
        } else if visible == Some(false) {
            ReplayNotice::Silent
        } else {
            ReplayNotice::Event
        },
{
    if request_pending {
        if request_unannounced {
            ReplayNotice::Request
        } else {
            ReplayNotice::Silent
        }
    } else {
        match visible {
            Some(false) => ReplayNotice::Silent,
            _ => ReplayNotice::Event,
        }
    }
}

/// Whoever is vouched for and not blocked is put through again, and all of it: a call signal among
/// the calls, anything else among what is applied.
pub proof fn lemma_everything_vouched_for_is_put_through(dir: Directory, events: Seq<SetAside>, i: int)
    requires
        0 <= i < events.len(),
        events.len() <= usize::MAX,
        !events[i].unresolved,
        !(dir.devices@.dom().contains(events[i].sender_identity_key@)
            && dir.devices@[events[i].sender_identity_key@].blocked),
    ensures
        events[i].call_signal ==> places_of(dir, events, ReplayStep::CallSignal).contains(i as usize),
        !events[i].call_signal ==> places_of(dir, events, ReplayStep::Apply).contains(i as usize),
    decreases events.len(),
{
    let step = if events[i].call_signal {
        ReplayStep::CallSignal
    } else {
        ReplayStep::Apply
    };
    let before = places_of(dir, events.drop_last(), step);
    let all = places_of(dir, events, step);
    if i < events.len() - 1 {
        lemma_everything_vouched_for_is_put_through(dir, events.drop_last(), i);
        let k = choose|k: int| 0 <= k < before.len() && before[k] == i as usize;
        assert(all[k] == i as usize);
    } else {
        assert(all[all.len() - 1] == i as usize);
    }
}

/// The order in which events came is the order in which they are put through.
pub proof fn lemma_the_order_of_events_is_kept(
    dir: Directory,
    events: Seq<SetAside>,
    step: ReplayStep,
    j: int,
    k: int,
)
    requires
        events.len() <= usize::MAX,
        0 <= j < k < places_of(dir, events, step).len(),
    ensures
        places_of(dir, events, step)[j] < places_of(dir, events, step)[k],
    decreases events.len(),
{
    let head = places_of(dir, events.drop_last(), step);
    if k < head.len() {
        lemma_the_order_of_events_is_kept(dir, events.drop_last(), step, j, k);
    } else {
        lemma_only_the_vouched_for_is_put_through(dir, events.drop_last(), step, j);
    }
}

/// What becomes of each event that was set aside, and what is held under each name.
pub proof fn lemma_what_becomes_of_what_was_set_aside<T>(dir: Directory, e: SetAside, q: Quarantine<T>, name: Seq<char>)
    ensures
        step_of(dir, e) is Spoofed <==> e.unresolved,
        !e.unresolved ==> (step_of(dir, e) is Blocked <==> dir.devices@.dom().contains(e.sender_identity_key@)
            && dir.devices@[e.sender_identity_key@].blocked),
        q.pending@.dom().contains(name) ==> q.held(name) == q.pending@[name]@,
        !q.pending@.dom().contains(name) ==> q.held(name).len() == 0,
{
}

} // verus!
