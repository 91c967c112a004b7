//! The system calls a session answers for. Every call and ring a session holds goes by a
//! handle under which the platform may have a call up, and so does a call in flight: one whose
//! room is being joined or whose claim is being sent. Whatever drops this side takes the
//! platform's side down: a system call never outlives its call.

use super::session::Session;
use super::types::{DisconnectCause, Effect, PendingRing};
use crate::names::NameSet;
use crate::text::same;
use vstd::prelude::*;

verus! {

/// A ring waits in the store under this handle.
pub open spec fn ring_stored(rings: Seq<PendingRing>, handle: Seq<char>) -> bool {
    exists|i: int| 0 <= i < rings.len() && (#[trigger] rings[i]).ring_handle@ == handle
}

/// The session holds a call or a ring under this handle, be it only a ring in the store.
pub open spec fn held(s: Session, handle: Seq<char>) -> bool {
    ||| s.call is Some && s.call->0.ring_handle@ == handle
    ||| s.incoming is Some && s.incoming->0.ring_handle@ == handle
    ||| s.claiming is Some && s.claiming->0.offer.ring_handle@ == handle
    ||| s.reconnect is Some && s.reconnect->0.ring_handle@ == handle
    ||| s.group_call is Some && s.group_call->0.ring_handle@ == handle
    ||| s.group_incoming is Some && s.group_incoming->0.ring_handle@ == handle
    ||| s.group_claiming is Some && s.group_claiming->0.offer.ring_handle@ == handle
    ||| ring_stored(s.rings@, handle)
}

/// The effect takes the system call down.
pub open spec fn ends(e: Effect, handle: Seq<char>) -> bool {
    match e {
        Effect::EndSystemCall { ring, .. } => ring@ == handle,
        Effect::CancelRing { ring, .. } => ring@ == handle,
        _ => false,
    }
}

/// Some effect takes the system call down.
pub open spec fn taken_down(out: Seq<Effect>, handle: Seq<char>) -> bool {
    exists|i: int| 0 <= i < out.len() && ends(#[trigger] out[i], handle)
}

/// A step keeps track of every system call. It may take in a call in flight, which is one that
/// a plan holds while its room is being joined or its claim sent, and may put one in flight.
/// What was held or came in is held afterwards, or goes on in flight, or is taken down; and what
/// is started is held afterwards or in flight.
pub open spec fn accounts_for(
    before: Session,
    came: Option<Seq<char>>,
    after: Session,
    went: Option<Seq<char>>,
    out: Seq<Effect>,
) -> bool {
    &&& forall|handle: Seq<char>|
        #[trigger] held(before, handle) && !held(after, handle) && went != Some(handle) ==> taken_down(
            out,
            handle,
        )
    &&& came matches Some(handle) ==> held(after, handle) || went == Some(handle) || taken_down(out, handle)
    &&& forall|i: int|
        0 <= i < out.len() ==> (#[trigger] out[i] matches Effect::StartSystemCall { ring, .. } ==> held(
            after,
            ring@,
        ) || went == Some(ring@))
}

/// A step with nothing in flight drops no call without taking its system call down, and starts
/// system calls only for what it holds afterwards.
pub open spec fn no_orphans(before: Session, after: Session, out: Seq<Effect>) -> bool {
    accounts_for(before, None, after, None, out)
}

/// The effects start no system call.
pub open spec fn starts_none(out: Seq<Effect>) -> bool {
    forall|i: int| 0 <= i < out.len() ==> !(#[trigger] out[i] is StartSystemCall)
}

/// A step that drops one call and takes its system call down leaves none behind.
pub proof fn lemma_one_dropped(before: Session, after: Session, out: Seq<Effect>, i: int, handle: Seq<char>)
    requires
        0 <= i < out.len(),
        ends(out[i], handle),
        starts_none(out),
        forall|k: Seq<char>| #[trigger] held(before, k) && !held(after, k) ==> k == handle,
    ensures
        no_orphans(before, after, out),
{
}

/// Two steps that leave no system call behind leave none behind together, unless the second
/// drops what the first started.
pub proof fn lemma_no_orphans_in_a_row(
    before: Session,
    between: Session,
    after: Session,
    first: Seq<Effect>,
    second: Seq<Effect>,
)
    requires
        no_orphans(before, between, first),
        no_orphans(between, after, second),
        starts_none(first),
    ensures
        no_orphans(before, after, first + second),
{
    assert forall|handle: Seq<char>| #[trigger] held(before, handle) && !held(after, handle) implies taken_down(
        first + second,
        handle,
    ) by {
        if held(between, handle) {
            assert(taken_down(second, handle));
            let i = choose|i: int| 0 <= i < second.len() && ends(#[trigger] second[i], handle);
            assert((first + second)[first.len() + i] == second[i]);
        } else {
            assert(taken_down(first, handle));
            let i = choose|i: int| 0 <= i < first.len() && ends(#[trigger] first[i], handle);
            assert((first + second)[i] == first[i]);
        }
    }
}

/// The system calls that are up after one effect.
pub open spec fn up_after(up: Set<Seq<char>>, e: Effect) -> Set<Seq<char>> {
    match e {
        Effect::StartSystemCall { ring, .. } => up.insert(ring@),
        Effect::EndSystemCall { ring, .. } => up.remove(ring@),
        Effect::CancelRing { ring, .. } => up.remove(ring@),
        _ => up,
    }
}

/// The rings that are shown after one effect.
pub open spec fn shown_after(shown: Set<Seq<char>>, e: Effect) -> Set<Seq<char>> {
    match e {
        Effect::ShowRing { ring, .. } => shown.insert(ring@),
        Effect::AcceptRing { ring } => shown.remove(ring@),
        Effect::CancelRing { ring, .. } => shown.remove(ring@),
        _ => shown,
    }
}

/// The system calls that are up after these effects.
pub open spec fn up_after_all(up: Set<Seq<char>>, out: Seq<Effect>) -> Set<Seq<char>>
    decreases out.len(),
{
    if out.len() == 0 {
        up
    } else {
        up_after(up_after_all(up, out.drop_last()), out.last())
    }
}

/// The rings that are shown after these effects.
pub open spec fn shown_after_all(shown: Set<Seq<char>>, out: Seq<Effect>) -> Set<Seq<char>>
    decreases out.len(),
{
    if out.len() == 0 {
        shown
    } else {
        shown_after(shown_after_all(shown, out.drop_last()), out.last())
    }
}

/// The effect starts this system call.
pub open spec fn starts(e: Effect, handle: Seq<char>) -> bool {
    e matches Effect::StartSystemCall { ring, .. } && ring@ == handle
}

proof fn lemma_stays_up(up: Set<Seq<char>>, out: Seq<Effect>, handle: Seq<char>)
    requires
        up_after_all(up, out).contains(handle),
        forall|i: int| 0 <= i < out.len() ==> !starts(#[trigger] out[i], handle),
    ensures
        up.contains(handle),
        forall|i: int| 0 <= i < out.len() ==> !ends(#[trigger] out[i], handle),
    decreases out.len(),
{
    if out.len() > 0 {
        let last = out.last();
        assert(out[out.len() - 1] == last);
        assert(!starts(last, handle));
        let head = out.drop_last();
        assert forall|i: int| 0 <= i < head.len() implies !starts(#[trigger] head[i], handle) by {
            assert(head[i] == out[i]);
        }
        lemma_stays_up(up, head, handle);
        assert forall|i: int| 0 <= i < out.len() implies !ends(#[trigger] out[i], handle) by {
            if i < head.len() {
                assert(head[i] == out[i]);
            }
        }
    }
}

/// The calls in flight after a step that took one in and put one in flight.
pub open spec fn flight_after(
    flight: Set<Seq<char>>,
    came: Option<Seq<char>>,
    went: Option<Seq<char>>,
) -> Set<Seq<char>> {
    let rest = match came {
        Some(handle) => flight.remove(handle),
        None => flight,
    };
    match went {
        Some(handle) => rest.insert(handle),
        None => rest,
    }
}

/// Every system call that is up belongs to a call or a ring that the session holds, or to a
/// call in flight.
pub open spec fn all_accounted_for(s: Session, flight: Set<Seq<char>>, up: Set<Seq<char>>) -> bool {
    forall|handle: Seq<char>| #[trigger] up.contains(handle) ==> held(s, handle) || flight.contains(handle)
}

/// A system call never outlives its call: if every system call that is up is accounted for, it
/// is so still after a step that keeps track of them. With no call in flight, every one belongs
/// to something the session holds.
pub proof fn lemma_a_system_call_never_outlives_its_call(
    before: Session,
    came: Option<Seq<char>>,
    after: Session,
    went: Option<Seq<char>>,
    out: Seq<Effect>,
    flight: Set<Seq<char>>,
    up: Set<Seq<char>>,
)
    requires
        accounts_for(before, came, after, went, out),
        all_accounted_for(before, flight, up),
    ensures
        all_accounted_for(after, flight_after(flight, came, went), up_after_all(up, out)),
        flight_after(flight, came, went) == Set::<Seq<char>>::empty() ==> forall|handle: Seq<char>| #[trigger]
            up_after_all(up, out).contains(handle) ==> held(after, handle),
{
    let flying = flight_after(flight, came, went);
    assert forall|handle: Seq<char>| #[trigger] up_after_all(up, out).contains(handle) implies held(after, handle)
        || flying.contains(handle) by {
        if !held(after, handle) && !flying.contains(handle) {
            assert(went != Some(handle));
            assert forall|i: int| 0 <= i < out.len() implies !starts(#[trigger] out[i], handle) by {}
            lemma_stays_up(up, out, handle);
            assert(!taken_down(out, handle));
            assert(up.contains(handle));
        }
    }
}

/// A restart squares the platform's calls with the session's: of those the platform had, each
/// that the session does not hold is taken down, and what is started is held.
pub open spec fn squared(after: Session, live: Seq<String>, out: Seq<Effect>) -> bool {
    &&& forall|i: int|
        0 <= i < live.len() && !held(after, (#[trigger] live[i])@) ==> taken_down(out, live[i]@)
    &&& forall|i: int|
        0 <= i < out.len() ==> (#[trigger] out[i] matches Effect::StartSystemCall { ring, .. } ==> held(
            after,
            ring@,
        ))
}

/// After a restart every system call belongs to a call or a ring that the session holds. `up`
/// are the system calls the process before left behind, all of which the platform lists.
pub proof fn lemma_no_system_call_outlives_a_restart(
    after: Session,
    live: Seq<String>,
    out: Seq<Effect>,
    up: Set<Seq<char>>,
)
    requires
        squared(after, live, out),
        forall|handle: Seq<char>| #[trigger]
            up.contains(handle) ==> exists|i: int| 0 <= i < live.len() && (#[trigger] live[i])@ == handle,
    ensures
        all_accounted_for(after, Set::empty(), up_after_all(up, out)),
{
    assert forall|handle: Seq<char>| #[trigger] up_after_all(up, out).contains(handle) implies held(after, handle) by {
        if !held(after, handle) {
            assert forall|i: int| 0 <= i < out.len() implies !starts(#[trigger] out[i], handle) by {}
            lemma_stays_up(up, out, handle);
            let i = choose|i: int| 0 <= i < live.len() && (#[trigger] live[i])@ == handle;
            assert(taken_down(out, live[i]@));
        }
    }
}

/// A system call that has been ended is down, unless it is started again.
pub proof fn lemma_what_is_ended_is_down(up: Set<Seq<char>>, out: Seq<Effect>, i: int, handle: Seq<char>)
    requires
        0 <= i < out.len(),
        ends(out[i], handle),
        forall|j: int| i < j < out.len() ==> !starts(#[trigger] out[j], handle),
    ensures
        !up_after_all(up, out).contains(handle),
    decreases out.len(),
{
    if i < out.len() - 1 {
        let head = out.drop_last();
        assert forall|j: int| i < j < head.len() implies !starts(#[trigger] head[j], handle) by {
            assert(head[j] == out[j]);
        }
        assert(!starts(out[out.len() - 1], handle));
        lemma_what_is_ended_is_down(up, head, i, handle);
    }
}

/// Ending a system call, or cancelling a ring, a second time changes nothing.
pub proof fn lemma_ending_twice_is_ending_once(
    up: Set<Seq<char>>,
    shown: Set<Seq<char>>,
    e: Effect,
    handle: Seq<char>,
)
    requires
        ends(e, handle),
    ensures
        up_after(up_after(up, e), e) == up_after(up, e),
        shown_after(shown_after(shown, e), e) == shown_after(shown, e),
{
    assert(up_after(up_after(up, e), e) =~= up_after(up, e));
    assert(shown_after(shown_after(shown, e), e) =~= shown_after(shown, e));
}

/// Answering a ring takes it off the screen and leaves its system call up: the call goes on.
pub proof fn lemma_answering_keeps_the_system_call(up: Set<Seq<char>>, shown: Set<Seq<char>>, ring: String)
    ensures
        up_after(up, Effect::AcceptRing { ring }) == up,
        !shown_after(shown, Effect::AcceptRing { ring }).contains(ring@),
{
}

/// The end of a call that another takes the place of.
pub open spec fn displaced(old_handle: Option<String>, new_handle: Seq<char>) -> Seq<Effect> {
    match old_handle {
        Some(handle) => if handle@ == new_handle {
            Seq::empty()
        } else {
            seq![Effect::EndSystemCall { ring: handle, cause: DisconnectCause::Error }]
        },
        None => Seq::empty(),
    }
}

/// A call that another takes the place of goes down, unless both go by one handle.
pub proof fn lemma_displaced(old_handle: Option<String>, new_handle: Seq<char>)
    ensures
        starts_none(displaced(old_handle, new_handle)),
        old_handle matches Some(handle) ==> handle@ == new_handle || (displaced(old_handle, new_handle).len() == 1
            && ends(displaced(old_handle, new_handle)[0], handle@)),
{
}

/// The same holds behind effects that start no system call.
pub proof fn lemma_displaced_after(head: Seq<Effect>, old_handle: Option<String>, new_handle: Seq<char>)
    requires
        starts_none(head),
    ensures
        starts_none(head + displaced(old_handle, new_handle)),
        old_handle matches Some(handle) ==> handle@ == new_handle || taken_down(
            head + displaced(old_handle, new_handle),
            handle@,
        ),
{
    lemma_displaced(old_handle, new_handle);
    let all = head + displaced(old_handle, new_handle);
    if old_handle is Some && old_handle->0@ != new_handle {
        assert(ends(all[head.len() as int], old_handle->0@));
    }
}

/// End the system call of a call that another takes the place of.
pub fn end_displaced(out: &mut Vec<Effect>, old_handle: Option<String>, new_handle: &str)
    ensures
        final(out)@ == old(out)@ + displaced(old_handle, new_handle@),
{
    if let Some(handle) = old_handle {
        if !same(handle.as_str(), new_handle) {
            out.push(Effect::EndSystemCall { ring: handle, cause: DisconnectCause::Error });
            assert(out@ =~= old(out)@ + displaced(old_handle, new_handle@));
            return;
        }
    }
    assert(out@ =~= old(out)@ + displaced(old_handle, new_handle@));
}

/// What the platform has been handed: the system calls that are up and the rings that show.
pub struct SystemCalls {
    pub up: NameSet,
    pub shown: NameSet,
}

impl SystemCalls {
    pub fn new() -> (r: SystemCalls)
        ensures
            r.up@ == Set::<Seq<char>>::empty(),
            r.shown@ == Set::<Seq<char>>::empty(),
    {
        SystemCalls { up: NameSet::new(), shown: NameSet::new() }
    }

    /// Take note of one effect.
    pub fn perform(&mut self, e: &Effect)
        ensures
            final(self).up@ == up_after(old(self).up@, *e),
            final(self).shown@ == shown_after(old(self).shown@, *e),
    {
        match e {
            Effect::StartSystemCall { ring, .. } => {
                let _ = self.up.insert(ring.clone());
            },
            Effect::EndSystemCall { ring, .. } => {
                self.up.remove(ring.as_str());
            },
            Effect::CancelRing { ring, .. } => {
                self.up.remove(ring.as_str());
                self.shown.remove(ring.as_str());
            },
            Effect::ShowRing { ring, .. } => {
                let _ = self.shown.insert(ring.clone());
            },
            Effect::AcceptRing { ring } => {
                self.shown.remove(ring.as_str());
            },
            _ => {},
        }
    }

    /// Take note of effects, in order.
    pub fn perform_all(&mut self, out: &Vec<Effect>)
        ensures
            final(self).up@ == up_after_all(old(self).up@, out@),
            final(self).shown@ == shown_after_all(old(self).shown@, out@),
    {
        let mut i: usize = 0;
        assert(out@.take(0) =~= Seq::<Effect>::empty());
        while i < out.len()
            invariant
                i <= out@.len(),
                self.up@ == up_after_all(old(self).up@, out@.take(i as int)),
                self.shown@ == shown_after_all(old(self).shown@, out@.take(i as int)),
            decreases out.len() - i,
        {
            let ghost upto = out@.take(i + 1);
            assert(upto.drop_last() =~= out@.take(i as int));
            assert(upto.last() == out@[i as int]);
            self.perform(&out[i]);
            i = i + 1;
        }
        assert(out@.take(i as int) =~= out@);
    }
}

/// A system call is held for exactly these: the live call, one that rings, one that is answered,
/// one that is coming back, the same of a group, and a stored ring.
pub proof fn lemma_what_holds_a_system_call(s: Session, handle: Seq<char>)
    ensures
        s.call is Some ==> held(s, s.call->0.ring_handle@),
        s.incoming is Some ==> held(s, s.incoming->0.ring_handle@),
        s.claiming is Some ==> held(s, s.claiming->0.offer.ring_handle@),
        s.reconnect is Some ==> held(s, s.reconnect->0.ring_handle@),
        s.group_call is Some ==> held(s, s.group_call->0.ring_handle@),
        s.group_incoming is Some ==> held(s, s.group_incoming->0.ring_handle@),
        s.group_claiming is Some ==> held(s, s.group_claiming->0.offer.ring_handle@),
        forall|i: int| 0 <= i < s.rings@.len() ==> held(s, (#[trigger] s.rings@[i]).ring_handle@),
        (s.call is Some ==> s.call->0.ring_handle@ != handle) && (s.incoming is Some
            ==> s.incoming->0.ring_handle@ != handle) && (s.claiming is Some ==> s.claiming->0.offer.ring_handle@
            != handle) && (s.reconnect is Some ==> s.reconnect->0.ring_handle@ != handle) && (s.group_call is Some
            ==> s.group_call->0.ring_handle@ != handle) && (s.group_incoming is Some
            ==> s.group_incoming->0.ring_handle@ != handle) && (s.group_claiming is Some
            ==> s.group_claiming->0.offer.ring_handle@ != handle) && (forall|i: int|
            0 <= i < s.rings@.len() ==> (#[trigger] s.rings@[i]).ring_handle@ != handle) ==> !held(s, handle),
{
}

} // verus!
