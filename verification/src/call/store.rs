//! The pending rings the call store holds, and what a restart does with what it finds there.
//!
//! A ring announced by a capsule waits here until the encrypted offer for the same call
//! takes it over, a terminal outcome takes it down, or the user answers or declines it.

use super::handles::{ends, held, no_orphans, ring_stored, squared, starts_none, taken_down};
use super::session::{title_of, ring_title, Session};
use super::store_locked::{lemma_rings_kept, rings_kept, SealedStore};
use super::types::{DisconnectCause, Effect, PendingRing, RingName};
use crate::text::same;
use vstd::prelude::*;

verus! {

/// Where the first ring for `call` stands; the number of rings where there is none.
pub open spec fn ring_pos(rings: Seq<PendingRing>, call: Seq<char>) -> int
    decreases rings.len(),
{
    if rings.len() == 0 {
        0
    } else if rings[0].call_instance_id@ == call {
        0
    } else {
        1 + ring_pos(rings.skip(1), call)
    }
}

/// `ring_pos` finds the first ring of the call, if there is one.
pub proof fn lemma_ring_pos(rings: Seq<PendingRing>, call: Seq<char>)
    ensures
        0 <= ring_pos(rings, call) <= rings.len(),
        ring_pos(rings, call) < rings.len() ==> rings[ring_pos(rings, call)].call_instance_id@ == call,
        forall|j: int| 0 <= j < ring_pos(rings, call) ==> (#[trigger] rings[j]).call_instance_id@ != call,
    decreases rings.len(),
{
    if rings.len() > 0 && rings[0].call_instance_id@ != call {
        let rest = rings.skip(1);
        lemma_ring_pos(rest, call);
        assert forall|j: int| 0 <= j < ring_pos(rings, call) implies (#[trigger] rings[j]).call_instance_id@
            != call by {
            if j > 0 {
                assert(rings[j] == rest[j - 1]);
            }
        }
        if ring_pos(rings, call) < rings.len() {
            assert(rings[ring_pos(rings, call)] == rest[ring_pos(rest, call)]);
        }
    }
}

/// A ring is pending for this call.
pub open spec fn ring_pending(rings: Seq<PendingRing>, call: Seq<char>) -> bool {
    ring_pos(rings, call) < rings.len()
}

/// The pending ring for this call.
pub open spec fn ring_of(rings: Seq<PendingRing>, call: Seq<char>) -> PendingRing {
    rings[ring_pos(rings, call)]
}

/// Where the ring for `call` stands.
pub fn find_ring(rings: &Vec<PendingRing>, call: &str) -> (r: Option<usize>)
    ensures
        match r {
            Some(i) => i < rings@.len() && i == ring_pos(rings@, call@),
            None => !ring_pending(rings@, call@),
        },
{
    let mut i: usize = 0;
    assert(rings@.skip(0) =~= rings@);
    while i < rings.len()
        invariant
            i <= rings@.len(),
            ring_pos(rings@, call@) == i + ring_pos(rings@.skip(i as int), call@),
        decreases rings.len() - i,
    {
        assert(rings@.skip(i as int)[0] == rings@[i as int]);
        if same(rings[i].call_instance_id.as_str(), call) {
            return Some(i);
        }
        assert(rings@.skip(i as int).skip(1) =~= rings@.skip(i + 1));
        i = i + 1;
    }
    None
}

/// The session with the ring for `call` taken out.
pub open spec fn without_ring(rings: Seq<PendingRing>, call: Seq<char>) -> Seq<PendingRing> {
    if ring_pending(rings, call) {
        rings.remove(ring_pos(rings, call))
    } else {
        rings
    }
}

/// Nothing of the session differs but its pending rings.
pub open spec fn same_but_rings(a: Session, b: Session) -> bool {
    a == (Session { rings: a.rings, ..b })
}

/// The pending ring for this call is the very ring the offer names.
pub open spec fn adoptable(s: Session, call: Seq<char>, offer: Seq<char>) -> bool {
    ring_pending(s.rings@, call) && ring_of(s.rings@, call).offer_id@ == offer
}

/// Take the pending ring for the same call and the same offer out of the store. A ring for
/// another offer of the call stays where it is.
pub fn take_capsule_ring(s: &mut Session, call: &str, offer: &str) -> (r: Option<PendingRing>)
    ensures
        same_but_rings(*final(s), *old(s)),
        adoptable(*old(s), call@, offer@) ==> final(s).rings@ == without_ring(old(s).rings@, call@)
            && r == Some(ring_of(old(s).rings@, call@)),
        !adoptable(*old(s), call@, offer@) ==> r is None && *final(s) == *old(s),
{
    let at: Option<usize> = find_ring(&s.rings, call);
    match at {
        Some(i) => {
            if same(s.rings[i].offer_id.as_str(), offer) {
                Some(s.rings.remove(i))
            } else {
                None
            }
        },
        None => None,
    }
}

/// Take over the pending ring for the same call and the same offer, and say under which
/// handle it is known. A ring for another offer of the call stays where it is.
pub fn adopt_capsule_ring(s: &mut Session, call: &str, offer: &str) -> (r: Option<String>)
    ensures
        same_but_rings(*final(s), *old(s)),
        adoptable(*old(s), call@, offer@) ==> final(s).rings@ == without_ring(old(s).rings@, call@)
            && r == Some(ring_of(old(s).rings@, call@).ring_handle),
        !adoptable(*old(s), call@, offer@) ==> r is None && *final(s) == *old(s),
{
    match take_capsule_ring(s, call, offer) {
        Some(ring) => Some(ring.ring_handle),
        None => None,
    }
}

/// Taking down the ring a device shows: under the id it was shown under, where that differs
/// from its handle, and under its handle.
pub open spec fn ring_down(ring: PendingRing) -> Seq<Effect> {
    (match ring.presented_as {
        Some(id) => seq![Effect::CancelRing { ring: id, name: RingName::Nobody }],
        None => Seq::empty(),
    }) + seq![Effect::CancelRing { ring: ring.ring_handle, name: RingName::Nobody }]
}

/// Take down a ring that left the store.
pub fn take_ring_down(out: &mut Vec<Effect>, ring: PendingRing)
    ensures
        final(out)@ == old(out)@ + ring_down(ring),
{
    if let Some(id) = ring.presented_as {
        out.push(Effect::CancelRing { ring: id, name: RingName::Nobody });
    }
    out.push(Effect::CancelRing { ring: ring.ring_handle, name: RingName::Nobody });
    assert(out@ =~= old(out)@ + ring_down(ring));
}

/// What taking a ring out of the store does: the store is saved, and the ring comes down where
/// nothing goes on under its handle.
pub open spec fn adoption_effects(s: Session, call: Seq<char>, offer: Seq<char>, goes_on: bool) -> Seq<Effect> {
    if !adoptable(s, call, offer) {
        Seq::empty()
    } else if goes_on {
        seq![Effect::SaveStore]
    } else {
        seq![Effect::SaveStore] + ring_down(ring_of(s.rings@, call))
    }
}

/// Taking one ring out of the store lets go of its handle alone.
pub proof fn lemma_one_ring_out(rings: Seq<PendingRing>, call: Seq<char>)
    requires
        ring_pending(rings, call),
    ensures
        forall|k: Seq<char>| #[trigger]
            ring_stored(rings, k) && k != ring_of(rings, call).ring_handle@ ==> ring_stored(
                without_ring(rings, call),
                k,
            ),
        forall|k: Seq<char>| #[trigger] ring_stored(without_ring(rings, call), k) ==> ring_stored(rings, k),
{
    lemma_ring_pos(rings, call);
    let at = ring_pos(rings, call);
    let rest = without_ring(rings, call);
    assert forall|k: Seq<char>| #[trigger]
        ring_stored(rings, k) && k != ring_of(rings, call).ring_handle@ implies ring_stored(rest, k) by {
        let i = choose|i: int| 0 <= i < rings.len() && (#[trigger] rings[i]).ring_handle@ == k;
        if i < at {
            assert(rest[i] == rings[i]);
        } else {
            assert(rest[i - 1] == rings[i]);
        }
    }
    assert forall|k: Seq<char>| #[trigger] ring_stored(rest, k) implies ring_stored(rings, k) by {
        let i = choose|i: int| 0 <= i < rest.len() && (#[trigger] rest[i]).ring_handle@ == k;
        if i < at {
            assert(rest[i] == rings[i]);
        } else {
            assert(rest[i] == rings[i + 1]);
        }
    }
}

/// No two rings in the store are for one call.
pub open spec fn one_ring_per_call(rings: Seq<PendingRing>) -> bool {
    forall|i: int, j: int|
        0 <= i < j < rings.len() ==> (#[trigger] rings[i]).call_instance_id@ != (
        #[trigger] rings[j]).call_instance_id@
}

/// A ring for a call that has none keeps the rings to one for each call, and lets go of no
/// handle.
pub proof fn lemma_a_new_ring(rings: Seq<PendingRing>, ring: PendingRing)
    requires
        !ring_pending(rings, ring.call_instance_id@),
    ensures
        one_ring_per_call(rings) ==> one_ring_per_call(rings.push(ring)),
        forall|k: Seq<char>| #[trigger] ring_stored(rings, k) ==> ring_stored(rings.push(ring), k),
{
    lemma_ring_pos(rings, ring.call_instance_id@);
    assert forall|k: Seq<char>| #[trigger] ring_stored(rings, k) implies ring_stored(rings.push(ring), k) by {
        let i = choose|i: int| 0 <= i < rings.len() && (#[trigger] rings[i]).ring_handle@ == k;
        assert(rings.push(ring)[i] == rings[i]);
    }
}

proof fn lemma_restored_rings(rings: Seq<PendingRing>, present: Seq<PendingRing>, live: Seq<String>)
    ensures
        restored_rings(rings, present, live).len() == rings.len(),
        forall|i: int|
            0 <= i < rings.len() ==> (#[trigger] restored_rings(rings, present, live)[i]).call_instance_id
                == rings[i].call_instance_id && restored_rings(rings, present, live)[i].ring_handle
                == rings[i].ring_handle,
    decreases present.len(),
{
    if present.len() > 0 {
        let before = restored_rings(rings, present.drop_last(), live);
        lemma_restored_rings(rings, present.drop_last(), live);
        lemma_ring_pos(before, present.last().call_instance_id@);
        assert forall|i: int| 0 <= i < rings.len() implies (#[trigger] restored_rings(
            rings,
            present,
            live,
        )[i]).call_instance_id == rings[i].call_instance_id && restored_rings(rings, present, live)[i].ring_handle
            == rings[i].ring_handle by {
            assert(before[i].call_instance_id == rings[i].call_instance_id);
        }
    }
}

/// The store never holds two rings for one call: a ring taken out, marked as shown, forgotten or
/// put back after a restart or declined leaves it so, and so does a new ring of a call that had
/// none.
pub proof fn lemma_the_store_keeps_one_ring_per_call(
    rings: Seq<PendingRing>,
    call: Seq<char>,
    ring: PendingRing,
    presented_as: String,
    present: Seq<PendingRing>,
    live: Seq<String>,
)
    requires
        one_ring_per_call(rings),
    ensures
        one_ring_per_call(without_ring(rings, call)),
        one_ring_per_call(all_presented(rings, presented_as)),
        one_ring_per_call(restored_rings(rings, present, live)),
        one_ring_per_call(rings_alive(rings, present)),
        one_ring_per_call(rings_kept(rings, presented_as@)),
        !ring_pending(rings, ring.call_instance_id@) ==> one_ring_per_call(rings.push(ring)),
{
    lemma_ring_pos(rings, call);
    if ring_pending(rings, call) {
        let at = ring_pos(rings, call);
        let rest = without_ring(rings, call);
        assert forall|i: int, j: int| 0 <= i < j < rest.len() implies (#[trigger] rest[i]).call_instance_id@ != (
        #[trigger] rest[j]).call_instance_id@ by {
            let a = if i < at {
                i
            } else {
                i + 1
            };
            let b = if j < at {
                j
            } else {
                j + 1
            };
            assert(rest[i] == rings[a]);
            assert(rest[j] == rings[b]);
        }
    }
    lemma_restored_rings(rings, present, live);
    lemma_alive(rings, present);
    lemma_rings_kept(rings, presented_as@);
    if !ring_pending(rings, ring.call_instance_id@) {
        lemma_a_new_ring(rings, ring);
    }
}

/// Taking a ring over takes the only one the call has: it is there exactly when the store holds
/// a ring of this call and offer, nothing of the call is left to be taken over again, and every
/// other ring stays.
pub proof fn lemma_a_ring_is_taken_over_once(s: Session, call: Seq<char>, offer: Seq<char>, after: Session)
    requires
        one_ring_per_call(s.rings@),
        after.rings@ == if adoptable(s, call, offer) {
            without_ring(s.rings@, call)
        } else {
            s.rings@
        },
    ensures
        adoptable(s, call, offer) <==> exists|i: int|
            0 <= i < s.rings@.len() && (#[trigger] s.rings@[i]).call_instance_id@ == call && s.rings@[i].offer_id@
                == offer,
        adoptable(s, call, offer) ==> !ring_pending(after.rings@, call),
        !adoptable(after, call, offer),
        forall|ring: PendingRing| #[trigger]
            s.rings@.contains(ring) && ring.call_instance_id@ != call ==> after.rings@.contains(ring),
        forall|ring: PendingRing| #[trigger] after.rings@.contains(ring) ==> s.rings@.contains(ring),
{
    let rings = s.rings@;
    lemma_ring_pos(rings, call);
    lemma_ring_pos(after.rings@, call);
    let at = ring_pos(rings, call);
    if exists|i: int|
        0 <= i < rings.len() && (#[trigger] rings[i]).call_instance_id@ == call && rings[i].offer_id@ == offer {
        let i = choose|i: int|
            0 <= i < rings.len() && (#[trigger] rings[i]).call_instance_id@ == call && rings[i].offer_id@ == offer;
        assert(at <= i);
        if at < i {
            assert(rings[at].call_instance_id@ == call);
        }
        assert(at == i);
    }
    if adoptable(s, call, offer) {
        let rest = after.rings@;
        if ring_pending(rest, call) {
            let j = ring_pos(rest, call);
            if j < at {
                assert(rest[j] == rings[j]);
            } else {
                assert(rest[j] == rings[j + 1]);
                assert(rings[at].call_instance_id@ == call);
            }
        }
        assert forall|ring: PendingRing| #[trigger]
            rings.contains(ring) && ring.call_instance_id@ != call implies rest.contains(ring) by {
            let i = choose|i: int| 0 <= i < rings.len() && rings[i] == ring;
            if i < at {
                assert(rest[i] == ring);
            } else {
                assert(rest[i - 1] == ring);
            }
        }
        assert forall|ring: PendingRing| #[trigger] rest.contains(ring) implies rings.contains(ring) by {
            let j = choose|j: int| 0 <= j < rest.len() && rest[j] == ring;
            if j < at {
                assert(rings[j] == ring);
            } else {
                assert(rings[j + 1] == ring);
            }
        }
    }
}

/// Note under which id the ring for `call` is being shown.
pub fn mark_presented(s: &mut Session, call: &str, presented_as: &String)
    ensures
        same_but_rings(*final(s), *old(s)),
        !ring_pending(old(s).rings@, call@) ==> final(s).rings@ == old(s).rings@,
        ring_pending(old(s).rings@, call@) ==> final(s).rings@ == old(s).rings@.update(
            ring_pos(old(s).rings@, call@),
            (PendingRing { presented_as: Some(*presented_as), ..ring_of(old(s).rings@, call@) }),
        ),
{
    let at: Option<usize> = find_ring(&s.rings, call);
    match at {
        Some(i) => {
            s.rings[i].presented_as = Some(presented_as.clone());
        },
        None => {},
    }
}

/// Every pending ring shown under one id.
pub open spec fn all_presented(rings: Seq<PendingRing>, presented_as: String) -> Seq<PendingRing> {
    Seq::new(
        rings.len(),
        |i: int| PendingRing { presented_as: Some(presented_as), ..rings[i] },
    )
}

/// Note that the one generic ring of a locked device stands for every pending ring.
pub fn mark_locked_rings_presented(s: &mut Session, presented_as: &String) -> (out: Vec<Effect>)
    ensures
        same_but_rings(*final(s), *old(s)),
        final(s).rings@ == all_presented(old(s).rings@, *presented_as),
        out@ == if old(s).rings@.len() == 0 {
            Seq::<Effect>::empty()
        } else {
            seq![Effect::SaveStore]
        },
        no_orphans(*old(s), *final(s), out@),
{
    let mut out: Vec<Effect> = Vec::new();
    let n: usize = s.rings.len();
    let mut i: usize = 0;
    while i < n
        invariant
            n == s.rings@.len(),
            n == old(s).rings@.len(),
            i <= n,
            same_but_rings(*s, *old(s)),
            forall|j: int|
                0 <= j < i ==> #[trigger] s.rings@[j] == (PendingRing {
                    presented_as: Some(*presented_as),
                    ..old(s).rings@[j]
                }),
            forall|j: int| i <= j < n ==> #[trigger] s.rings@[j] == old(s).rings@[j],
        decreases n - i,
    {
        s.rings[i].presented_as = Some(presented_as.clone());
        i = i + 1;
    }
    proof {
        assert(s.rings@ =~= all_presented(old(s).rings@, *presented_as));
        assert forall|k: Seq<char>| #[trigger] ring_stored(old(s).rings@, k) implies ring_stored(s.rings@, k) by {
            let j = choose|j: int| 0 <= j < n && (#[trigger] old(s).rings@[j]).ring_handle@ == k;
            assert(s.rings@[j].ring_handle@ == k);
        }
    }
    if n > 0 {
        out.push(Effect::SaveStore);
    }
    out
}

/// Whether a pending ring's own window is still open.
pub fn any_ring_live(rings: &Vec<PendingRing>, now: u64) -> (r: bool)
    ensures
        r == exists|i: int| 0 <= i < rings@.len() && (#[trigger] rings@[i]).ring_expires_at > now,
{
    let mut i: usize = 0;
    while i < rings.len()
        invariant
            i <= rings@.len(),
            forall|j: int| 0 <= j < i ==> (#[trigger] rings@[j]).ring_expires_at <= now,
        decreases rings.len() - i,
    {
        if rings[i].ring_expires_at > now {
            return true;
        }
        i = i + 1;
    }
    false
}

/// The name a ring that is put back after a restart may show: never more than a live ring
/// would, and the application's name where the ring carries none.
pub open spec fn restored_title_of(s: Session, ring: PendingRing) -> RingName {
    if ring.display_name@.len() == 0 {
        RingName::Generic
    } else {
        title_of(s, ring.display_name)
    }
}

/// The name a restored ring may show.
pub fn restored_ring_title(s: &Session, ring: &PendingRing) -> (r: RingName)
    ensures
        r == restored_title_of(*s, *ring),
{
    if ring.display_name.as_str().is_empty() {
        RingName::Generic
    } else {
        ring_title(s, &ring.display_name)
    }
}

/// `name` is one of `names`.
pub open spec fn listed(names: Seq<String>, name: Seq<char>) -> bool {
    exists|i: int| 0 <= i < names.len() && #[trigger] names[i]@ == name
}

fn is_listed(names: &Vec<String>, name: &str) -> (r: bool)
    ensures
        r == listed(names@, name@),
{
    let mut i: usize = 0;
    while i < names.len()
        invariant
            i <= names@.len(),
            forall|j: int| 0 <= j < i ==> #[trigger] names@[j]@ != name@,
        decreases names.len() - i,
    {
        if same(names[i].as_str(), name) {
            return true;
        }
        i = i + 1;
    }
    false
}

fn is_held(s: &Session, handle: &str) -> (r: bool)
    ensures
        r == held(*s, handle@),
{
    let call = match &s.call {
        Some(c) => same(c.ring_handle.as_str(), handle),
        None => false,
    };
    let incoming = match &s.incoming {
        Some(o) => same(o.ring_handle.as_str(), handle),
        None => false,
    };
    let claiming = match &s.claiming {
        Some(p) => same(p.offer.ring_handle.as_str(), handle),
        None => false,
    };
    let reconnect = match &s.reconnect {
        Some(rc) => same(rc.ring_handle.as_str(), handle),
        None => false,
    };
    let group_call = match &s.group_call {
        Some(g) => same(g.ring_handle.as_str(), handle),
        None => false,
    };
    let group_incoming = match &s.group_incoming {
        Some(o) => same(o.ring_handle.as_str(), handle),
        None => false,
    };
    let group_claiming = match &s.group_claiming {
        Some(p) => same(p.offer.ring_handle.as_str(), handle),
        None => false,
    };
    if call || incoming || claiming || reconnect || group_call || group_incoming || group_claiming {
        return true;
    }
    let mut i: usize = 0;
    while i < s.rings.len()
        invariant
            i <= s.rings@.len(),
            forall|j: int| 0 <= j < i ==> (#[trigger] s.rings@[j]).ring_handle@ != handle@,
        decreases s.rings.len() - i,
    {
        if same(s.rings[i].ring_handle.as_str(), handle) {
            return true;
        }
        i = i + 1;
    }
    false
}

/// The rings a restart has to put back: those to present that the platform does not hold.
pub open spec fn restore_effects(s: Session, present: Seq<PendingRing>, live: Seq<String>) -> Seq<Effect>
    decreases present.len(),
{
    if present.len() == 0 {
        Seq::empty()
    } else {
        let head = restore_effects(s, present.drop_last(), live);
        let ring = present.last();
        if listed(live, ring.ring_handle@) {
            head
        } else {
            head.push(
                Effect::StartSystemCall {
                    ring: ring.ring_handle,
                    name: restored_title_of(s, ring),
                    video: ring.video,
                    incoming: true,
                },
            )
        }
    }
}

/// What the pending rings look like once every ring put back is shown under its handle.
pub open spec fn restored_rings(
    rings: Seq<PendingRing>,
    present: Seq<PendingRing>,
    live: Seq<String>,
) -> Seq<PendingRing>
    decreases present.len(),
{
    if present.len() == 0 {
        rings
    } else {
        let before = restored_rings(rings, present.drop_last(), live);
        let ring = present.last();
        if listed(live, ring.ring_handle@) || !ring_pending(before, ring.call_instance_id@) {
            before
        } else {
            before.update(
                ring_pos(before, ring.call_instance_id@),
                PendingRing {
                    presented_as: Some(ring.ring_handle),
                    ..ring_of(before, ring.call_instance_id@)
                },
            )
        }
    }
}

/// The platform calls nothing here knows about, ended.
pub open spec fn orphan_effects(s: Session, live: Seq<String>) -> Seq<Effect>
    decreases live.len(),
{
    if live.len() == 0 {
        Seq::empty()
    } else {
        let head = orphan_effects(s, live.drop_last());
        if held(s, live.last()@) {
            head
        } else {
            head.push(Effect::EndSystemCall { ring: live.last(), cause: DisconnectCause::Local })
        }
    }
}

/// Every ring to be presented is in the store.
pub open spec fn all_stored(rings: Seq<PendingRing>, present: Seq<PendingRing>) -> bool {
    forall|i: int| 0 <= i < present.len() ==> ring_stored(rings, (#[trigger] present[i]).ring_handle@)
}

proof fn lemma_put_back(s: Session, present: Seq<PendingRing>, live: Seq<String>)
    ensures
        forall|i: int|
            0 <= i < restore_effects(s, present, live).len() ==> (#[trigger] restore_effects(s, present, live)[i]
            matches Effect::StartSystemCall { ring, .. } ==> exists|j: int|
                0 <= j < present.len() && (#[trigger] present[j]).ring_handle@ == ring@),
    decreases present.len(),
{
    if present.len() > 0 {
        let head = present.drop_last();
        let before = restore_effects(s, head, live);
        let all = restore_effects(s, present, live);
        lemma_put_back(s, head, live);
        assert forall|i: int| 0 <= i < all.len() implies (#[trigger] all[i] matches Effect::StartSystemCall {
            ring,
            ..
        } ==> exists|j: int| 0 <= j < present.len() && (#[trigger] present[j]).ring_handle@ == ring@) by {
            if i < before.len() {
                assert(all[i] == before[i]);
                if before[i] is StartSystemCall {
                    let ring = before[i]->StartSystemCall_ring;
                    let j = choose|j: int| 0 <= j < head.len() && (#[trigger] head[j]).ring_handle@ == ring@;
                    assert(present[j] == head[j]);
                }
            } else {
                assert(present[present.len() - 1].ring_handle@ == all[i]->StartSystemCall_ring@);
            }
        }
    }
}

proof fn lemma_orphans(s: Session, live: Seq<String>)
    ensures
        starts_none(orphan_effects(s, live)),
        forall|i: int|
            0 <= i < live.len() && !held(s, (#[trigger] live[i])@) ==> taken_down(
                orphan_effects(s, live),
                live[i]@,
            ),
    decreases live.len(),
{
    if live.len() > 0 {
        let head = live.drop_last();
        let before = orphan_effects(s, head);
        let all = orphan_effects(s, live);
        lemma_orphans(s, head);
        assert forall|i: int| 0 <= i < live.len() && !held(s, (#[trigger] live[i])@) implies taken_down(
            all,
            live[i]@,
        ) by {
            if i < head.len() {
                assert(head[i] == live[i]);
                let j = choose|j: int| 0 <= j < before.len() && ends(#[trigger] before[j], live[i]@);
                assert(all[j] == before[j]);
            } else {
                assert(ends(all[before.len() as int], live[i]@));
            }
        }
        assert forall|i: int| 0 <= i < all.len() implies !(#[trigger] all[i] is StartSystemCall) by {
            if i < before.len() {
                assert(all[i] == before[i]);
            }
        }
    }
}

proof fn lemma_squared(
    before: Session,
    after: Session,
    present: Seq<PendingRing>,
    live: Seq<String>,
    head: Seq<Effect>,
    tail: Seq<Effect>,
    out: Seq<Effect>,
)
    requires
        all_stored(after.rings@, present),
        forall|i: int|
            0 <= i < head.len() ==> !(#[trigger] head[i] is StartSystemCall) || restore_effects(
                before,
                present,
                live,
            ).contains(head[i]),
        starts_none(tail),
        out == head + orphan_effects(after, live) + tail,
    ensures
        squared(after, live, out),
{
    let orphans = orphan_effects(after, live);
    lemma_put_back(before, present, live);
    lemma_orphans(after, live);
    assert forall|i: int| 0 <= i < live.len() && !held(after, (#[trigger] live[i])@) implies taken_down(
        out,
        live[i]@,
    ) by {
        let j = choose|j: int| 0 <= j < orphans.len() && ends(#[trigger] orphans[j], live[i]@);
        assert(out[head.len() + j] == orphans[j]);
    }
    assert forall|i: int| 0 <= i < out.len() implies (#[trigger] out[i] matches Effect::StartSystemCall {
        ring,
        ..
    } ==> held(after, ring@)) by {
        if i < head.len() {
            assert(out[i] == head[i]);
            if head[i] is StartSystemCall {
                let put = restore_effects(before, present, live);
                let k = choose|k: int| 0 <= k < put.len() && put[k] == head[i];
                let ring = put[k]->StartSystemCall_ring;
                let j = choose|j: int| 0 <= j < present.len() && (#[trigger] present[j]).ring_handle@ == ring@;
                assert(ring_stored(after.rings@, present[j].ring_handle@));
            }
        } else if i < head.len() + orphans.len() {
            assert(out[i] == orphans[i - head.len()]);
        } else {
            assert(out[i] == tail[i - head.len() - orphans.len()]);
        }
    }
}

/// Make the platform's idea of our calls match ours: put back every ring in `present` that
/// the platform no longer holds, and end every call it holds that nothing here knows.
pub fn reconcile_system_calls(
    s: &mut Session,
    present: &Vec<PendingRing>,
    live: &Vec<String>,
) -> (out: Vec<Effect>)
    ensures
        same_but_rings(*final(s), *old(s)),
        final(s).rings@ == restored_rings(old(s).rings@, present@, live@),
        ({
            let put_back = restore_effects(*old(s), present@, live@);
            out@ == put_back + (if put_back.len() == 0 {
                Seq::<Effect>::empty()
            } else {
                seq![Effect::SaveStore]
            }) + orphan_effects(*final(s), live@)
        }),
        all_stored(final(s).rings@, present@) ==> squared(*final(s), live@, out@),
{
    let mut out: Vec<Effect> = Vec::new();
    let mut i: usize = 0;
    let ghost before = *s;
    assert(present@.take(0) =~= Seq::<PendingRing>::empty());
    while i < present.len()
        invariant
            i <= present@.len(),
            before == *old(s),
            same_but_rings(*s, before),
            out@ == restore_effects(before, present@.take(i as int), live@),
            s.rings@ == restored_rings(before.rings@, present@.take(i as int), live@),
        decreases present.len() - i,
    {
        let ghost upto = present@.take(i + 1);
        assert(upto.drop_last() =~= present@.take(i as int));
        assert(upto.last() == present@[i as int]);
        let ring: &PendingRing = &present[i];
        if !is_listed(live, ring.ring_handle.as_str()) {
            let name: RingName = restored_ring_title(s, ring);
            out.push(
                Effect::StartSystemCall {
                    ring: ring.ring_handle.clone(),
                    name,
                    video: ring.video,
                    incoming: true,
                },
            );
            mark_presented(s, ring.call_instance_id.as_str(), &ring.ring_handle);
        }
        i = i + 1;
    }
    assert(present@.take(i as int) =~= present@);
    let ghost put_back = out@;
    if out.len() > 0 {
        out.push(Effect::SaveStore);
    }
    let ghost head = out@;
    assert(head =~= put_back + (if put_back.len() == 0 {
        Seq::<Effect>::empty()
    } else {
        seq![Effect::SaveStore]
    }));
    let mut k: usize = 0;
    assert(live@.take(0) =~= Seq::<String>::empty());
    assert(head + orphan_effects(*s, live@.take(0)) =~= head);
    while k < live.len()
        invariant
            k <= live@.len(),
            out@ == head + orphan_effects(*s, live@.take(k as int)),
        decreases live.len() - k,
    {
        let ghost upto = live@.take(k + 1);
        assert(upto.drop_last() =~= live@.take(k as int));
        assert(upto.last() == live@[k as int]);
        let ghost was = out@;
        if !is_held(s, live[k].as_str()) {
            out.push(Effect::EndSystemCall { ring: live[k].clone(), cause: DisconnectCause::Local });
            assert(out@ =~= head + orphan_effects(*s, upto));
        }
        k = k + 1;
    }
    assert(live@.take(k as int) =~= live@);
    proof {
        if all_stored(s.rings@, present@) {
            lemma_squared(*old(s), *s, present@, live@, head, Seq::empty(), out@);
        }
    }
    out
}

/// What a restart takes off the screen: every ring in `cancel`, without a name.
pub open spec fn cancel_effects(cancel: Seq<String>) -> Seq<Effect> {
    Seq::new(cancel.len(), |i: int| Effect::CancelRing { ring: cancel[i], name: RingName::Nobody })
}

/// Take down the rings this device died holding for calls that have since ended.
pub fn cancel_stale_rings(cancel: &Vec<String>) -> (out: Vec<Effect>)
    ensures
        out@ == cancel_effects(cancel@),
{
    let mut out: Vec<Effect> = Vec::new();
    let mut i: usize = 0;
    while i < cancel.len()
        invariant
            i <= cancel@.len(),
            out@.len() == i,
            forall|j: int| 0 <= j < i ==> #[trigger] out@[j] == cancel_effects(cancel@)[j],
        decreases cancel.len() - i,
    {
        out.push(Effect::CancelRing { ring: cancel[i].clone(), name: RingName::Nobody });
        i = i + 1;
    }
    assert(out@ =~= cancel_effects(cancel@));
    out
}

/// The store that is kept of one that was found on disk: none that belongs to another account
/// or another device. A device that was linked anew, or took over as the account's first,
/// goes by a new id, and the rings of its old store are not its to show.
pub fn kept_store(found: Option<SealedStore>, account_hash: &str, device_id: &str) -> (r: Option<SealedStore>)
    ensures
        r == match found {
            Some(store) => if store.account_hash@ == account_hash@ && store.device_id@ == device_id@ {
                Some(store)
            } else {
                None
            },
            None => None,
        },
{
    match found {
        Some(store) => if same(store.account_hash.as_str(), account_hash) && same(
            store.device_id.as_str(),
            device_id,
        ) {
            Some(store)
        } else {
            None
        },
        None => None,
    }
}

/// The rings of a store that the records still call live: those for a call in `present`. A row
/// alone brings no ring back.
pub open spec fn rings_alive(rings: Seq<PendingRing>, present: Seq<PendingRing>) -> Seq<PendingRing>
    decreases rings.len(),
{
    if rings.len() == 0 {
        Seq::empty()
    } else {
        let head = rings_alive(rings.drop_last(), present);
        if ring_pending(present, rings.last().call_instance_id@) {
            head.push(rings.last())
        } else {
            head
        }
    }
}

/// Whether every one of these rings is for a call in `present`.
pub open spec fn all_alive(rings: Seq<PendingRing>, present: Seq<PendingRing>) -> bool {
    forall|i: int| 0 <= i < rings.len() ==> ring_pending(present, (#[trigger] rings[i]).call_instance_id@)
}

/// No ring of an ended or expired call comes back: what is kept of a store, and shown again where
/// the platform lost it, is for calls in `present` alone.
pub proof fn lemma_only_live_rings_come_back(
    rings: Seq<PendingRing>,
    present: Seq<PendingRing>,
    live: Seq<String>,
)
    ensures
        all_alive(rings_alive(rings, present), present),
        all_alive(restored_rings(rings_alive(rings, present), present, live), present),
{
    lemma_alive(rings, present);
    lemma_restored_rings(rings_alive(rings, present), present, live);
    let kept = rings_alive(rings, present);
    let back = restored_rings(kept, present, live);
    assert forall|i: int| 0 <= i < back.len() implies ring_pending(present, (#[trigger] back[i]).call_instance_id@) by {
        assert(ring_pending(present, kept[i].call_instance_id@));
    }
}

/// What is kept of a store are the rings of it that are alive, in order; so no call has two.
proof fn lemma_alive(rings: Seq<PendingRing>, present: Seq<PendingRing>)
    ensures
        all_alive(rings_alive(rings, present), present),
        forall|j: int|
            0 <= j < rings_alive(rings, present).len() ==> rings.contains(#[trigger] rings_alive(rings, present)[j]),
        forall|i: int|
            0 <= i < rings.len() && ring_pending(present, (#[trigger] rings[i]).call_instance_id@) ==> rings_alive(
                rings,
                present,
            ).contains(rings[i]),
        one_ring_per_call(rings) ==> one_ring_per_call(rings_alive(rings, present)),
    decreases rings.len(),
{
    let kept = rings_alive(rings, present);
    if rings.len() > 0 {
        let head = rings.drop_last();
        let before = rings_alive(head, present);
        lemma_alive(head, present);
        assert forall|j: int| 0 <= j < kept.len() implies rings.contains(#[trigger] kept[j]) by {
            if j < before.len() {
                assert(head.contains(before[j]));
                let i = choose|i: int| 0 <= i < head.len() && head[i] == before[j];
                assert(rings[i] == kept[j]);
            } else {
                assert(rings[rings.len() - 1] == kept[j]);
            }
        }
        assert forall|i: int| 0 <= i < rings.len() && ring_pending(
            present,
            (#[trigger] rings[i]).call_instance_id@,
        ) implies kept.contains(rings[i]) by {
            if i < head.len() {
                assert(head[i] == rings[i]);
                assert(before.contains(head[i]));
                let j = choose|j: int| 0 <= j < before.len() && before[j] == head[i];
                assert(kept[j] == rings[i]);
            } else {
                assert(kept[kept.len() - 1] == rings[i]);
            }
        }
        if one_ring_per_call(rings) {
            assert forall|i: int, j: int| 0 <= i < j < head.len() implies (#[trigger] head[i]).call_instance_id@
                != (#[trigger] head[j]).call_instance_id@ by {
                assert(head[i] == rings[i]);
                assert(head[j] == rings[j]);
            }
            assert forall|i: int, j: int| 0 <= i < j < kept.len() implies (#[trigger] kept[i]).call_instance_id@
                != (#[trigger] kept[j]).call_instance_id@ by {
                assert(kept[i] == before[i]);
                if j < before.len() {
                    assert(kept[j] == before[j]);
                } else {
                    assert(head.contains(before[i]));
                    let a = choose|a: int| 0 <= a < head.len() && head[a] == before[i];
                    assert(rings[a] == kept[i]);
                    assert(rings[rings.len() - 1] == kept[j]);
                }
            }
        }
    }
}

/// Whether every ring in `present` is one of the store's, by its call and its handle.
pub open spec fn all_rows(rings: Seq<PendingRing>, present: Seq<PendingRing>) -> bool {
    forall|i: int| 0 <= i < present.len() ==> is_row(rings, #[trigger] present[i])
}

/// Whether the store has a ring of this call and this handle.
pub open spec fn is_row(rings: Seq<PendingRing>, ring: PendingRing) -> bool {
    exists|j: int|
        0 <= j < rings.len() && (#[trigger] rings[j]).ring_handle@ == ring.ring_handle@
            && rings[j].call_instance_id@ == ring.call_instance_id@
}

/// Rings of the store that are still live are among what is kept of it.
proof fn lemma_rows_stay(rings: Seq<PendingRing>, present: Seq<PendingRing>, live: Seq<String>)
    requires
        all_rows(rings, present),
    ensures
        all_stored(restored_rings(rings_alive(rings, present), present, live), present),
{
    let kept = rings_alive(rings, present);
    let back = restored_rings(kept, present, live);
    lemma_alive(rings, present);
    lemma_restored_rings(kept, present, live);
    assert forall|i: int| 0 <= i < present.len() implies ring_stored(back, (#[trigger] present[i]).ring_handle@) by {
        assert(is_row(rings, present[i]));
        let j = choose|j: int|
            0 <= j < rings.len() && (#[trigger] rings[j]).ring_handle@ == present[i].ring_handle@
                && rings[j].call_instance_id@ == present[i].call_instance_id@;
        lemma_ring_pos(present, present[i].call_instance_id@);
        assert(ring_pending(present, rings[j].call_instance_id@));
        assert(kept.contains(rings[j]));
        let k = choose|k: int| 0 <= k < kept.len() && kept[k] == rings[j];
        assert(back[k].ring_handle == kept[k].ring_handle);
    }
}

/// Keep the rings for calls in `present`.
fn keep_alive(rings: Vec<PendingRing>, present: &Vec<PendingRing>) -> (r: Vec<PendingRing>)
    ensures
        r@ == rings_alive(rings@, present@),
{
    let ghost all = rings@;
    let mut todo: Vec<PendingRing> = rings;
    let mut kept: Vec<PendingRing> = Vec::new();
    let ghost mut i: int = 0;
    proof {
        assert(todo@ =~= all.skip(0));
        assert(all.take(0) =~= Seq::<PendingRing>::empty());
    }
    while todo.len() > 0
        invariant
            0 <= i <= all.len(),
            todo@ == all.skip(i),
            kept@ == rings_alive(all.take(i), present@),
        decreases todo@.len(),
    {
        let ring: PendingRing = todo.remove(0);
        proof {
            assert(ring == all[i]);
            assert(todo@ =~= all.skip(i + 1));
            assert(all.take(i + 1).drop_last() =~= all.take(i));
            assert(all.take(i + 1).last() == all[i]);
            i = i + 1;
        }
        if find_ring(present, ring.call_instance_id.as_str()).is_some() {
            kept.push(ring);
        }
    }
    assert(all.take(i) =~= all);
    kept
}

/// The rings of a store, if there was one.
pub open spec fn rows(stored: Option<Vec<PendingRing>>) -> Seq<PendingRing> {
    match stored {
        Some(rings) => rings@,
        None => Seq::empty(),
    }
}

/// Bring a freshly opened call store in line with reality: forget the rings of calls that are
/// over, take down what it must, put back what is still ringing, end what nobody knows, and seal
/// the result. `present` are the rings that the records still call live. Without an account there
/// is nothing to bind a store to, and nothing happens.
pub fn load_call_store(
    s: &mut Session,
    stored: Option<Vec<PendingRing>>,
    cancel: &Vec<String>,
    present: &Vec<PendingRing>,
    live: &Vec<String>,
) -> (out: Vec<Effect>)
    ensures
        old(s).account is None ==> *final(s) == *old(s) && out@ == Seq::<Effect>::empty(),
        old(s).account matches Some(account) ==> {
            let rings = rings_alive(rows(stored), present@);
            let put_back = restore_effects(*old(s), present@, live@);
            &&& final(s).rings@ == restored_rings(rings, present@, live@)
            &&& *final(s) == (Session {
                rings: final(s).rings,
                store_username: account.account_id,
                store_device_id: old(s).directory.self_device_id,
                ..*old(s)
            })
            &&& out@ == cancel_effects(cancel@) + put_back + (if put_back.len() == 0 {
                Seq::<Effect>::empty()
            } else {
                seq![Effect::SaveStore]
            }) + orphan_effects(*final(s), live@) + seq![Effect::SaveStore]
            &&& all_alive(final(s).rings@, present@)
            &&& one_ring_per_call(rows(stored)) ==> one_ring_per_call(final(s).rings@)
            &&& all_rows(rows(stored), present@) ==> squared(*final(s), live@, out@)
        },
{
    let me: String = match &s.account {
        Some(account) => account.account_id.clone(),
        None => {
            return Vec::new();
        },
    };
    let ghost found = rows(stored);
    s.rings = match stored {
        Some(rings) => keep_alive(rings, present),
        None => Vec::new(),
    };
    proof {
        assert(s.rings@ == rings_alive(found, present@));
        lemma_only_live_rings_come_back(found, present@, live@);
    }
    s.store_username = me;
    s.store_device_id = s.directory.self_device_id.clone();
    let ghost mid = *s;
    let mut out: Vec<Effect> = cancel_stale_rings(cancel);
    let mut rest: Vec<Effect> = reconcile_system_calls(s, present, live);
    proof {
        lemma_restore_titles(mid, *old(s), present@, live@);
    }
    out.append(&mut rest);
    out.push(Effect::SaveStore);
    proof {
        let put_back = restore_effects(*old(s), present@, live@);
        assert(out@ =~= cancel_effects(cancel@) + put_back + (if put_back.len() == 0 {
            Seq::<Effect>::empty()
        } else {
            seq![Effect::SaveStore]
        }) + orphan_effects(*s, live@) + seq![Effect::SaveStore]);
        lemma_alive(found, present@);
        lemma_restored_rings(rings_alive(found, present@), present@, live@);
        if all_rows(found, present@) {
            lemma_rows_stay(found, present@, live@);
            let head = cancel_effects(cancel@) + put_back + (if put_back.len() == 0 {
                Seq::<Effect>::empty()
            } else {
                seq![Effect::SaveStore]
            });
            assert forall|i: int| 0 <= i < head.len() && #[trigger] head[i] is StartSystemCall implies put_back.contains(
                head[i],
            ) by {
                assert(cancel@.len() <= i < cancel@.len() + put_back.len());
                assert(put_back[i - cancel@.len()] == head[i]);
            }
            lemma_squared(*old(s), *s, present@, live@, head, seq![Effect::SaveStore], out@);
        }
    }
    out
}

/// What is put back depends on the session through its privacy level alone.
proof fn lemma_restore_titles(a: Session, b: Session, present: Seq<PendingRing>, live: Seq<String>)
    requires
        a.prefs == b.prefs,
    ensures
        restore_effects(a, present, live) == restore_effects(b, present, live),
    decreases present.len(),
{
    if present.len() > 0 {
        lemma_restore_titles(a, b, present.drop_last(), live);
    }
}

/// A ring that is put back never shows more than a live ring for the same name: under the
/// generic privacy level it shows the application's name and nothing else.
pub proof fn lemma_restored_ring_keeps_the_privacy_level(s: Session, ring: PendingRing)
    ensures
        s.prefs.notif_level@ == "generic"@ ==> restored_title_of(s, ring).shown() == "Sona"@,
        ring.display_name@.len() == 0 ==> restored_title_of(s, ring).shown() == "Sona"@,
        s.prefs.notif_level@ != "generic"@ && ring.display_name@.len() > 0 ==> restored_title_of(
            s,
            ring,
        ).shown() == ring.display_name@,
{
}

/// Whether the store has to be written: something changed, there is a place for it, and a
/// device key to seal it under.
pub fn store_needs_saving(dirty: bool, has_data_dir: bool, has_device_key: bool) -> (r: bool)
    ensures
        r == (dirty && has_data_dir && has_device_key),
{
    dirty && has_data_dir && has_device_key
}

/// Whether the store still has to be written after an attempt: a failed write leaves the
/// change to be written again.
pub fn store_dirty_after(dirty: bool, attempted: bool, written: bool) -> (r: bool)
    ensures
        r == (dirty && !(attempted && written)),
{
    dirty && !(attempted && written)
}

/// What a sweep over the store applies: the retention in force, or nothing without an
/// account.
pub fn cleanup_call_store(s: &Session) -> (r: Option<u64>)
    ensures
        r == if s.account is None {
            None::<u64>
        } else {
            Some(super::session::retention_of(*s))
        },
{
    if s.account.is_none() {
        None
    } else {
        Some(super::session::call_retention_secs(s))
    }
}

/// What a changed retention setting applies at once.
pub fn apply_call_retention(s: &Session) -> (r: u64)
    ensures
        r == super::session::retention_of(*s),
{
    super::session::call_retention_secs(s)
}

/// Every ring of the store taken down, in order.
pub open spec fn all_down(rings: Seq<PendingRing>) -> Seq<Effect>
    decreases rings.len(),
{
    if rings.len() == 0 {
        Seq::empty()
    } else {
        all_down(rings.drop_last()) + ring_down(rings.last())
    }
}

proof fn lemma_all_down(rings: Seq<PendingRing>)
    ensures
        starts_none(all_down(rings)),
        forall|k: Seq<char>| #[trigger] ring_stored(rings, k) ==> taken_down(all_down(rings), k),
    decreases rings.len(),
{
    if rings.len() > 0 {
        let head = rings.drop_last();
        let last = rings.last();
        let before = all_down(head);
        let all = all_down(rings);
        lemma_all_down(head);
        assert forall|k: Seq<char>| #[trigger] ring_stored(rings, k) implies taken_down(all, k) by {
            let i = choose|i: int| 0 <= i < rings.len() && (#[trigger] rings[i]).ring_handle@ == k;
            if i < head.len() {
                assert(head[i] == rings[i]);
                assert(ring_stored(head, k));
                let j = choose|j: int| 0 <= j < before.len() && ends(#[trigger] before[j], k);
                assert(all[j] == before[j]);
            } else {
                assert(all[all.len() - 1] == ring_down(last)[ring_down(last).len() - 1]);
                assert(ends(all[all.len() - 1], k));
            }
        }
        assert forall|i: int| 0 <= i < all.len() implies !(#[trigger] all[i] is StartSystemCall) by {
            if i < before.len() {
                assert(all[i] == before[i]);
            } else {
                assert(all[i] == ring_down(last)[i - before.len()]);
            }
        }
    }
}

/// Forget everything the call store holds, and take its rings down.
pub fn wipe_call_store(s: &mut Session) -> (out: Vec<Effect>)
    ensures
        out@ == all_down(old(s).rings@),
        no_orphans(*old(s), *final(s), out@),
        final(s).rings@ == Seq::<PendingRing>::empty(),
        final(s).store_username@.len() == 0,
        final(s).store_device_id@.len() == 0,
        *final(s) == (Session {
            rings: final(s).rings,
            store_username: final(s).store_username,
            store_device_id: final(s).store_device_id,
            ..*old(s)
        }),
{
    let mut out: Vec<Effect> = Vec::new();
    let mut rings: Vec<PendingRing> = Vec::new();
    std::mem::swap(&mut rings, &mut s.rings);
    let ghost all = rings@;
    let ghost mut i: int = 0;
    assert(rings@ =~= all.skip(0));
    assert(all.take(0) =~= Seq::<PendingRing>::empty());
    while rings.len() > 0
        invariant
            0 <= i <= all.len(),
            rings@ == all.skip(i),
            out@ == all_down(all.take(i)),
        decreases rings@.len(),
    {
        let ring: PendingRing = rings.remove(0);
        proof {
            assert(ring == all[i]);
            assert(rings@ =~= all.skip(i + 1));
            assert(all.take(i + 1).drop_last() =~= all.take(i));
            i = i + 1;
        }
        take_ring_down(&mut out, ring);
    }
    assert(all.take(i) =~= all);
    s.store_username = String::new();
    s.store_device_id = String::new();
    proof {
        lemma_all_down(all);
        assert forall|k: Seq<char>| #[trigger] held(*old(s), k) && !held(*s, k) implies taken_down(out@, k) by {
            assert(ring_stored(all, k));
        }
    }
    out
}

/// A ring comes down under its handle, and under the id it is shown under where there is one.
pub proof fn lemma_a_ring_comes_down_wherever_it_shows(ring: PendingRing)
    ensures
        ring_down(ring).last() == (Effect::CancelRing { ring: ring.ring_handle, name: RingName::Nobody }),
        ring.presented_as is None ==> ring_down(ring).len() == 1,
        ring.presented_as matches Some(id) ==> ring_down(ring).len() == 2 && ring_down(ring)[0]
            == (Effect::CancelRing { ring: id, name: RingName::Nobody }),
{
}

/// A restart puts back every ring that the platform lost, under its handle and as what it is, and
/// none that the platform still has.
pub proof fn lemma_a_lost_ring_is_put_back(s: Session, present: Seq<PendingRing>, live: Seq<String>)
    ensures
        forall|i: int| #![trigger present[i]]
            0 <= i < present.len() && (forall|j: int|
                0 <= j < live.len() ==> (#[trigger] live[j])@ != present[i].ring_handle@) ==> exists|k: int|
                0 <= k < restore_effects(s, present, live).len() && (#[trigger] restore_effects(
                    s,
                    present,
                    live,
                )[k] matches Effect::StartSystemCall { ring, video, incoming, name } && ring
                    == present[i].ring_handle && video == present[i].video && incoming && name.shown()
                    == restored_title_of(s, present[i]).shown()),
        forall|k: int| #![trigger restore_effects(s, present, live)[k]]
            0 <= k < restore_effects(s, present, live).len() ==> (restore_effects(
                s,
                present,
                live,
            )[k] matches Effect::StartSystemCall { ring, .. } && forall|j: int|
                0 <= j < live.len() ==> (#[trigger] live[j])@ != ring@),
    decreases present.len(),
{
    if present.len() > 0 {
        let head = present.drop_last();
        let before = restore_effects(s, head, live);
        let all = restore_effects(s, present, live);
        lemma_a_lost_ring_is_put_back(s, head, live);
        assert forall|k: int| 0 <= k < before.len() implies #[trigger] all[k] == before[k] by {}
        assert forall|i: int| #![trigger present[i]]
            0 <= i < present.len() && (forall|j: int|
                0 <= j < live.len() ==> (#[trigger] live[j])@ != present[i].ring_handle@) implies exists|k: int|
            0 <= k < all.len() && (#[trigger] all[k] matches Effect::StartSystemCall { ring, video, incoming, name }
                && ring == present[i].ring_handle && video == present[i].video && incoming && name.shown()
                == restored_title_of(s, present[i]).shown()) by {
            if i < head.len() {
                assert(head[i] == present[i]);
                let k = choose|k: int|
                    0 <= k < before.len() && (#[trigger] before[k] matches Effect::StartSystemCall {
                        ring,
                        video,
                        incoming,
                        name,
                    } && ring == head[i].ring_handle && video == head[i].video && incoming && name.shown()
                        == restored_title_of(s, head[i]).shown());
                assert(all[k] == before[k]);
            } else {
                assert(!listed(live, present.last().ring_handle@));
                assert(all[all.len() - 1] is StartSystemCall);
            }
        }
        assert forall|k: int| #![trigger all[k]] 0 <= k < all.len() implies (
        all[k] matches Effect::StartSystemCall { ring, .. } && forall|j: int|
            0 <= j < live.len() ==> (#[trigger] live[j])@ != ring@) by {
            if k < before.len() {
                assert(all[k] == before[k]);
            } else {
                assert forall|j: int| 0 <= j < live.len() implies (#[trigger] live[j])@
                    != present.last().ring_handle@ by {
                    if live[j]@ == present.last().ring_handle@ {
                        assert(listed(live, present.last().ring_handle@));
                    }
                }
            }
        }
    }
}

/// A call of the platform's that nothing here holds is ended, and one that is held is left alone.
pub proof fn lemma_what_nobody_holds_is_ended(s: Session, live: Seq<String>)
    ensures
        forall|i: int| #![trigger live[i]]
            0 <= i < live.len() && !held(s, live[i]@) ==> orphan_effects(s, live).contains(
                Effect::EndSystemCall { ring: live[i], cause: DisconnectCause::Local },
            ),
        forall|k: int| #![trigger orphan_effects(s, live)[k]]
            0 <= k < orphan_effects(s, live).len() ==> (orphan_effects(s, live)[k] matches Effect::EndSystemCall {
                ring,
                ..
            } && !held(s, ring@)),
    decreases live.len(),
{
    if live.len() > 0 {
        let head = live.drop_last();
        let before = orphan_effects(s, head);
        let all = orphan_effects(s, live);
        lemma_what_nobody_holds_is_ended(s, head);
        assert forall|k: int| 0 <= k < before.len() implies #[trigger] all[k] == before[k] by {}
        assert forall|i: int| #![trigger live[i]] 0 <= i < live.len() && !held(s, live[i]@) implies all.contains(
            Effect::EndSystemCall { ring: live[i], cause: DisconnectCause::Local },
        ) by {
            let e = Effect::EndSystemCall { ring: live[i], cause: DisconnectCause::Local };
            if i < head.len() {
                assert(head[i] == live[i]);
                assert(before.contains(e));
                let k = choose|k: int| 0 <= k < before.len() && before[k] == e;
                assert(all[k] == e);
            } else {
                assert(all[all.len() - 1] == e);
            }
        }
    }
}

/// Of a store's rings those stay whose call the records still call live, and no others.
pub proof fn lemma_a_ring_stays_while_its_call_is_live(rings: Seq<PendingRing>, present: Seq<PendingRing>)
    ensures
        forall|i: int| #![trigger rings[i]]
            0 <= i < rings.len() && (exists|j: int|
                0 <= j < present.len() && (#[trigger] present[j]).call_instance_id@ == rings[i].call_instance_id@)
                ==> rings_alive(rings, present).contains(rings[i]),
        forall|ring: PendingRing| #[trigger]
            rings_alive(rings, present).contains(ring) ==> rings.contains(ring) && exists|j: int|
                0 <= j < present.len() && (#[trigger] present[j]).call_instance_id@ == ring.call_instance_id@,
    decreases rings.len(),
{
    if rings.len() > 0 {
        let head = rings.drop_last();
        let last = rings.last();
        let before = rings_alive(head, present);
        let all = rings_alive(rings, present);
        lemma_a_ring_stays_while_its_call_is_live(head, present);
        lemma_ring_pos(present, last.call_instance_id@);
        let at = ring_pos(present, last.call_instance_id@);
        if ring_pending(present, last.call_instance_id@) {
            assert(present[at].call_instance_id@ == last.call_instance_id@);
        }
        assert forall|k: int| 0 <= k < before.len() implies #[trigger] all[k] == before[k] by {}
        assert forall|i: int| #![trigger rings[i]]
            0 <= i < rings.len() && (exists|j: int|
                0 <= j < present.len() && (#[trigger] present[j]).call_instance_id@ == rings[i].call_instance_id@)
            implies all.contains(rings[i]) by {
            if i < head.len() {
                assert(head[i] == rings[i]);
                assert(before.contains(head[i]));
                let k = choose|k: int| 0 <= k < before.len() && before[k] == head[i];
                assert(all[k] == rings[i]);
            } else {
                let j = choose|j: int|
                    0 <= j < present.len() && (#[trigger] present[j]).call_instance_id@
                        == rings[i].call_instance_id@;
                assert(at <= j);
                assert(all[all.len() - 1] == last);
            }
        }
        assert forall|ring: PendingRing| #[trigger] all.contains(ring) implies rings.contains(ring) && exists|j: int|
            0 <= j < present.len() && (#[trigger] present[j]).call_instance_id@ == ring.call_instance_id@ by {
            let k = choose|k: int| 0 <= k < all.len() && all[k] == ring;
            if k < before.len() {
                assert(before[k] == ring);
                assert(before.contains(ring));
                let m = choose|m: int| 0 <= m < head.len() && head[m] == ring;
                assert(rings[m] == ring);
            } else {
                assert(rings[rings.len() - 1] == ring);
            }
        }
    }
}

/// The one generic ring of a locked device stands for every pending ring, and changes nothing else
/// of them; and every stale ring is taken off the screen.
pub proof fn lemma_the_generic_ring_stands_for_all(
    rings: Seq<PendingRing>,
    presented_as: String,
    cancel: Seq<String>,
    i: int,
)
    ensures
        all_presented(rings, presented_as).len() == rings.len(),
        0 <= i < rings.len() ==> all_presented(rings, presented_as)[i] == (PendingRing {
            presented_as: Some(presented_as),
            ..rings[i]
        }),
        cancel_effects(cancel).len() == cancel.len(),
        0 <= i < cancel.len() ==> cancel_effects(cancel)[i] == (Effect::CancelRing {
            ring: cancel[i],
            name: RingName::Nobody,
        }),
{
}

} // verus!
