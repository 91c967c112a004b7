//! Call control while the vault is locked. A locked device can record what it hears, show and
//! take down a ring, and decline. It cannot answer.
//!
//! Reading the call-control mailbox destroys what is read, so a device that could check
//! nobody's signature leaves the mailbox alone.

use super::accept::later;
use super::session::{call_retention_secs, is_current, retention_of, Session};
use super::handles::{ends, held, no_orphans, ring_stored, starts_none, taken_down};
use super::store::{all_stored, any_ring_live, one_ring_per_call, ring_down, take_ring_down};
use super::types::{
    CallCapsule, CallTerminalReason, CapsuleKind, CapsuleSigner, Effect, LockedDecline, PendingRing,
};
use crate::text::is_some_text;
use vstd::prelude::*;
use vstd::string::*;
use vstd::utf8::*;

verus! {

/// As much of a mailbox's hash as a diagnostic line may show: its first eight bytes.
pub fn mailbox_tag(hash: &str) -> (r: &str)
    requires
        hash.spec_bytes().len() > 8 ==> is_char_boundary(hash.spec_bytes(), 8),
    ensures
        r.spec_bytes() == hash.spec_bytes().take(
            if hash.spec_bytes().len() < 8 {
                hash.spec_bytes().len() as int
            } else {
                8
            },
        ),
{
    let len: usize = hash.as_bytes().len();
    let end: usize = if len < 8 {
        len
    } else {
        8
    };
    proof {
        encode_utf8_valid_utf8(hash@);
        is_char_boundary_start_end_of_seq(hash.spec_bytes());
    }
    hash.split_at(end).0
}

/// One caller a locked device can check.
pub struct ScreenEntry {
    /// The caller's account, hashed.
    pub caller: String,
    /// Its devices' signing keys, by device id.
    pub devices: Vec<(String, String)>,
}

/// The callers a locked device can check.
pub struct ScreenIndex {
    pub entries: Vec<ScreenEntry>,
}

/// Whether a locked device may take anything out of its call-control mailbox: only if it can
/// check somebody.
pub fn screening_ready(screen: Option<&ScreenIndex>) -> (r: bool)
    ensures
        r == (screen matches Some(index) && index.entries@.len() > 0),
{
    match screen {
        Some(index) => index.entries.len() > 0,
        None => false,
    }
}

/// The key a locked device checks a capsule under. It knows roster keys alone, `listed` being
/// the one its index has for the sender's device.
pub fn locked_signing_key(capsule: &CallCapsule, listed: Option<String>) -> (r: Option<String>)
    ensures
        r == if capsule.signer is Roster {
            listed
        } else {
            None
        },
{
    match capsule.signer {
        CapsuleSigner::Roster => listed,
        CapsuleSigner::CallKey => None,
    }
}

/// The call store as it is read from disk.
pub struct SealedStore {
    pub username: String,
    pub account_hash: String,
    pub device_id: String,
    pub rings: Vec<PendingRing>,
}

/// The session with this store in memory.
pub open spec fn with_store(s: Session, store: SealedStore) -> Session {
    Session {
        rings: store.rings,
        store_username: store.username,
        store_device_id: store.device_id,
        ..s
    }
}

/// Have the call store in memory while the vault is locked; says whether it is. `opened` is
/// what could be read from disk. A store that is there already stays, and an open vault keeps
/// its own. Rings are sealed as they change, so what is read holds every ring in memory.
pub fn load_locked_call_store(s: &mut Session, opened: Option<SealedStore>) -> (r: bool)
    ensures
        old(s).account is Some ==> !r && *final(s) == *old(s),
        old(s).account is None && old(s).store_device_id@.len() > 0 ==> r && *final(s) == *old(s),
        old(s).account is None && old(s).store_device_id@.len() == 0 ==> match opened {
            None => !r && *final(s) == *old(s),
            Some(store) => r && *final(s) == with_store(*old(s), store),
        },
        (opened matches Some(store) ==> all_stored(store.rings@, old(s).rings@)) ==> no_orphans(
            *old(s),
            *final(s),
            Seq::empty(),
        ),
{
    if s.account.is_some() {
        return false;
    }
    if !s.store_device_id.as_str().is_empty() {
        return true;
    }
    match opened {
        Some(store) => {
            s.rings = store.rings;
            s.store_username = store.username;
            s.store_device_id = store.device_id;
            true
        },
        None => false,
    }
}

/// The session still works through this connection and the vault is locked.
pub open spec fn locked_on(s: Session, client: u64) -> bool {
    s.client == Some(client) && s.account is None
}

/// Whether the session still works through this connection with the vault locked.
pub fn vault_locked_on(s: &Session, client: u64) -> (r: bool)
    ensures
        r == locked_on(*s, client),
{
    is_current(s, client) && s.account.is_none()
}

/// Begin reading the call-control mailbox with the vault locked. Returns the account's hash
/// and the device id the mailbox goes by, or nothing where it must be left alone: the vault
/// is open, there is no store or no call-control key, or nobody could be checked.
pub fn drain_call_capsules_locked(
    s: &mut Session,
    client: u64,
    opened: Option<SealedStore>,
    has_call_key: bool,
    screen: Option<&ScreenIndex>,
) -> (r: Option<(String, String)>)
    ensures
        ({
            let ready = locked_on(*old(s), client) && opened is Some && has_call_key && (screen matches Some(
                index,
            ) && index.entries@.len() > 0);
            if ready {
                r == Some((opened->0.account_hash, opened->0.device_id)) && *final(s) == with_store(
                    *old(s),
                    opened->0,
                )
            } else {
                r is None && *final(s) == *old(s)
            }
        }),
        (opened matches Some(store) ==> all_stored(store.rings@, old(s).rings@)) ==> no_orphans(
            *old(s),
            *final(s),
            Seq::empty(),
        ),
{
    if !vault_locked_on(s, client) || !has_call_key || !screening_ready(screen) {
        return None;
    }
    match opened {
        Some(store) => {
            s.rings = store.rings;
            s.store_username = store.username;
            let device_id: String = store.device_id.clone();
            s.store_device_id = store.device_id;
            Some((store.account_hash, device_id))
        },
        None => None,
    }
}

/// What reading the mailbox while locked found.
#[derive(Clone, Copy, Debug, PartialEq, Eq, Structural)]
pub struct LockedWake {
    /// A ring whose window is still open is pending.
    pub ringing: bool,
    /// A call this device may have been ringing for has ended.
    pub terminated: bool,
}

/// What the capsules that were read and applied amount to.
pub fn locked_wake(s: &Session, client: u64, kinds: &Vec<CapsuleKind>, now: u64) -> (r: LockedWake)
    ensures
        r == if locked_on(*s, client) {
            LockedWake {
                ringing: exists|i: int|
                    0 <= i < s.rings@.len() && (#[trigger] s.rings@[i]).ring_expires_at > now,
                terminated: exists|i: int| 0 <= i < kinds@.len() && #[trigger] kinds@[i] is Terminal,
            }
        } else {
            LockedWake { ringing: false, terminated: false }
        },
{
    if !vault_locked_on(s, client) {
        return LockedWake { ringing: false, terminated: false };
    }
    let mut terminated = false;
    let mut i: usize = 0;
    while i < kinds.len()
        invariant
            i <= kinds@.len(),
            terminated == exists|j: int| 0 <= j < i && #[trigger] kinds@[j] is Terminal,
        decreases kinds.len() - i,
    {
        match kinds[i] {
            CapsuleKind::Terminal => {
                assert(kinds@[i as int] is Terminal);
                terminated = true;
            },
            CapsuleKind::Offer => {},
        }
        i = i + 1;
    }
    LockedWake { ringing: any_ring_live(&s.rings, now), terminated }
}

/// The ring is one the dismissed notification stood for. Without a notification's id every
/// ring is.
pub open spec fn dismissed(ring: PendingRing, presented_as: Seq<char>) -> bool {
    presented_as.len() == 0 || (ring.presented_as matches Some(id) && id@ == presented_as)
}

/// The caller of the ring can be answered by a locked device.
pub open spec fn can_reply(ring: PendingRing) -> bool {
    ring.reply_call_mailbox@.len() > 0 && ring.reply_call_key@.len() > 0
}

/// The word of decline to a ring's caller.
pub open spec fn decline_of(ring: PendingRing, now: u64, expires_at: u64) -> LockedDecline {
    LockedDecline {
        call: ring.call_instance_id,
        offer: ring.offer_id,
        group: ring.group,
        to_device_id: ring.caller_device_id,
        to_mailbox: ring.reply_call_mailbox,
        to_key: ring.reply_call_key,
        created_at: now,
        expires_at,
    }
}

/// What declining the rings does: each comes down and is recorded as declined, and its caller is
/// told where that can be.
pub open spec fn locked_declines(
    rings: Seq<PendingRing>,
    presented_as: Seq<char>,
    retention: u64,
    now: u64,
    expires_at: u64,
) -> Seq<Effect>
    decreases rings.len(),
{
    if rings.len() == 0 {
        Seq::empty()
    } else {
        let ring = rings.last();
        let head = locked_declines(rings.drop_last(), presented_as, retention, now, expires_at);
        if !dismissed(ring, presented_as) {
            head
        } else {
            let recorded = (head + ring_down(ring)).push(
                Effect::RecordTerminal {
                    call: ring.call_instance_id,
                    offer: ring.offer_id,
                    reason: CallTerminalReason::DeclinedHere,
                    retention,
                },
            );
            if can_reply(ring) {
                recorded.push(Effect::QueueDecline { decline: decline_of(ring, now, expires_at) })
            } else {
                recorded
            }
        }
    }
}

/// Some ring was dismissed.
pub open spec fn any_dismissed(rings: Seq<PendingRing>, presented_as: Seq<char>) -> bool {
    exists|i: int| 0 <= i < rings.len() && dismissed(#[trigger] rings[i], presented_as)
}

/// The rings that were not dismissed, in order.
pub open spec fn rings_kept(rings: Seq<PendingRing>, presented_as: Seq<char>) -> Seq<PendingRing>
    decreases rings.len(),
{
    if rings.len() == 0 {
        Seq::empty()
    } else {
        let head = rings_kept(rings.drop_last(), presented_as);
        if dismissed(rings.last(), presented_as) {
            head
        } else {
            head.push(rings.last())
        }
    }
}

/// What is kept are rings of the store, in order; so no call has two, and what is not kept was
/// dismissed.
pub proof fn lemma_rings_kept(rings: Seq<PendingRing>, presented_as: Seq<char>)
    ensures
        forall|j: int|
            0 <= j < rings_kept(rings, presented_as).len() ==> exists|i: int|
                0 <= i < rings.len() && #[trigger] rings[i] == #[trigger] rings_kept(rings, presented_as)[j],
        one_ring_per_call(rings) ==> one_ring_per_call(rings_kept(rings, presented_as)),
        forall|k: Seq<char>| #[trigger]
            ring_stored(rings, k) ==> ring_stored(rings_kept(rings, presented_as), k) || dismissed_under(
                rings,
                presented_as,
                k,
            ),
    decreases rings.len(),
{
    let kept = rings_kept(rings, presented_as);
    if rings.len() > 0 {
        let head = rings.drop_last();
        let last = rings.last();
        let before = rings_kept(head, presented_as);
        lemma_rings_kept(head, presented_as);
        assert forall|j: int| 0 <= j < kept.len() implies exists|i: int|
            0 <= i < rings.len() && #[trigger] rings[i] == #[trigger] kept[j] by {
            if j < before.len() {
                assert(kept[j] == before[j]);
                let i = choose|i: int| 0 <= i < head.len() && #[trigger] head[i] == before[j];
                assert(rings[i] == kept[j]);
            } else {
                assert(rings[rings.len() - 1] == kept[j]);
            }
        }
        if one_ring_per_call(rings) {
            assert forall|i: int, j: int| 0 <= i < j < head.len() implies (#[trigger] head[i]).call_instance_id@
                != (#[trigger] head[j]).call_instance_id@ by {
                assert(head[i] == rings[i]);
                assert(head[j] == rings[j]);
            }
            assert forall|i: int, j: int| 0 <= i < j < kept.len() implies (#[trigger] kept[i]).call_instance_id@
                != (#[trigger] kept[j]).call_instance_id@ by {
                assert(kept[i] == before[i]);
                if j < before.len() {
                    assert(kept[j] == before[j]);
                } else {
                    let a = choose|a: int| 0 <= a < head.len() && #[trigger] head[a] == before[i];
                    assert(rings[a] == kept[i]);
                    assert(rings[rings.len() - 1] == kept[j]);
                }
            }
        }
        assert forall|k: Seq<char>| #[trigger] ring_stored(rings, k) implies ring_stored(kept, k)
            || dismissed_under(rings, presented_as, k) by {
            let i = choose|i: int| 0 <= i < rings.len() && (#[trigger] rings[i]).ring_handle@ == k;
            if i < head.len() {
                assert(head[i] == rings[i]);
                assert(ring_stored(head, k));
                if ring_stored(before, k) {
                    let j = choose|j: int| 0 <= j < before.len() && (#[trigger] before[j]).ring_handle@ == k;
                    assert(kept[j] == before[j]);
                } else {
                    let a = choose|a: int|
                        0 <= a < head.len() && (#[trigger] head[a]).ring_handle@ == k && dismissed(
                            head[a],
                            presented_as,
                        );
                    assert(rings[a] == head[a]);
                }
            } else if !dismissed(last, presented_as) {
                assert(kept[kept.len() - 1] == last);
            } else {
                assert(rings[i] == last);
            }
        }
    }
}

/// A ring under this handle was dismissed.
pub open spec fn dismissed_under(rings: Seq<PendingRing>, presented_as: Seq<char>, handle: Seq<char>) -> bool {
    exists|i: int|
        0 <= i < rings.len() && (#[trigger] rings[i]).ring_handle@ == handle && dismissed(
            rings[i],
            presented_as,
        )
}

proof fn lemma_declined_rings_come_down(
    rings: Seq<PendingRing>,
    presented_as: Seq<char>,
    retention: u64,
    now: u64,
    expires_at: u64,
)
    ensures
        starts_none(locked_declines(rings, presented_as, retention, now, expires_at)),
        forall|k: Seq<char>| #[trigger]
            dismissed_under(rings, presented_as, k) ==> taken_down(
                locked_declines(rings, presented_as, retention, now, expires_at),
                k,
            ),
    decreases rings.len(),
{
    let all = locked_declines(rings, presented_as, retention, now, expires_at);
    if rings.len() > 0 {
        let head = rings.drop_last();
        let last = rings.last();
        let before = locked_declines(head, presented_as, retention, now, expires_at);
        lemma_declined_rings_come_down(head, presented_as, retention, now, expires_at);
        assert forall|i: int| 0 <= i < before.len() implies #[trigger] all[i] == before[i] by {}
        assert forall|k: Seq<char>| #[trigger] dismissed_under(rings, presented_as, k) implies taken_down(all, k) by {
            let i = choose|i: int|
                0 <= i < rings.len() && (#[trigger] rings[i]).ring_handle@ == k && dismissed(
                    rings[i],
                    presented_as,
                );
            if i < head.len() {
                assert(head[i] == rings[i]);
                assert(dismissed_under(head, presented_as, k));
                let j = choose|j: int| 0 <= j < before.len() && ends(#[trigger] before[j], k);
                assert(all[j] == before[j]);
            } else {
                let at = before.len() + ring_down(last).len() - 1;
                assert(all[at] == ring_down(last)[ring_down(last).len() - 1]);
                assert(ends(all[at], k));
            }
        }
        assert forall|i: int| 0 <= i < all.len() implies !(#[trigger] all[i] is StartSystemCall) by {
            if i < before.len() {
                assert(all[i] == before[i]);
            }
        }
    }
}

/// The words of decline were put to the outbox; `queued` says of each whether it was well formed
/// and the outbox took it. What the outbox took is posted.
pub fn declines_queued(queued: &Vec<bool>) -> (out: Vec<Effect>)
    ensures
        out@ == if queued@.contains(true) {
            seq![Effect::DrainOutbox]
        } else {
            Seq::<Effect>::empty()
        },
        starts_none(out@),
{
    let mut out: Vec<Effect> = Vec::new();
    let mut i: usize = 0;
    while i < queued.len()
        invariant
            i <= queued@.len(),
            out@ == Seq::<Effect>::empty(),
            forall|j: int| 0 <= j < i ==> !(#[trigger] queued@[j]),
        decreases queued.len() - i,
    {
        if queued[i] {
            assert(queued@[i as int]);
            out.push(Effect::DrainOutbox);
            return out;
        }
        i = i + 1;
    }
    out
}

/// A decline can be given with the vault locked: the store says as whom, and there is a key to
/// sign it with.
pub open spec fn can_decline_locked(s: Session, client: u64, has_call_key: bool) -> bool {
    locked_on(s, client) && has_call_key && s.store_device_id@.len() > 0 && s.store_username@.len() > 0
}

/// Decline, with the vault locked, every ring the dismissed notification stood for. Each stops
/// here and is recorded whether or not there is anybody to tell; other rings go on. Nothing
/// happens without a store in memory that says as whom to speak, or without the call-control key
/// to sign it with.
pub fn decline_locked(
    s: &mut Session,
    client: u64,
    has_call_key: bool,
    presented_as: &str,
    now: u64,
) -> (out: Vec<Effect>)
    ensures
        !can_decline_locked(*old(s), client, has_call_key) ==> *final(s) == *old(s) && out@ == Seq::<
            Effect,
        >::empty(),
        can_decline_locked(*old(s), client, has_call_key) ==> {
            &&& final(s).rings@ == rings_kept(old(s).rings@, presented_as@)
            &&& *final(s) == (Session { rings: final(s).rings, ..*old(s) })
            &&& out@ == locked_declines(
                old(s).rings@,
                presented_as@,
                retention_of(*old(s)),
                now,
                later(now, old(s).limits.signal_ttl_secs),
            ) + (if any_dismissed(old(s).rings@, presented_as@) {
                seq![Effect::SaveStore]
            } else {
                Seq::<Effect>::empty()
            })
        },
        no_orphans(*old(s), *final(s), out@),
{
    let mut out: Vec<Effect> = Vec::new();
    if !vault_locked_on(s, client) || !has_call_key || s.store_device_id.as_str().is_empty()
        || s.store_username.as_str().is_empty() {
        return out;
    }
    let retention: u64 = call_retention_secs(s);
    let expires_at: u64 = now.saturating_add(s.limits.signal_ttl_secs);
    let ghost all = s.rings@;
    let mut kept: Vec<PendingRing> = Vec::new();
    let mut todo: Vec<PendingRing> = Vec::new();
    std::mem::swap(&mut todo, &mut s.rings);
    let mut any = false;
    let ghost mut i: int = 0;
    proof {
        assert(todo@ =~= all.skip(0));
        assert(all.take(0) =~= Seq::<PendingRing>::empty());
    }
    while todo.len() > 0
        invariant
            0 <= i <= all.len(),
            todo@ == all.skip(i),
            kept@ == rings_kept(all.take(i), presented_as@),
            out@ == locked_declines(all.take(i), presented_as@, retention, now, expires_at),
            any == exists|j: int| 0 <= j < i && dismissed(#[trigger] all[j], presented_as@),
        decreases todo@.len(),
    {
        let ring: PendingRing = todo.remove(0);
        proof {
            assert(ring == all[i]);
            assert(todo@ =~= all.skip(i + 1));
            assert(all.take(i + 1).drop_last() =~= all.take(i));
            assert(all.take(i + 1).last() == all[i]);
        }
        let gone = presented_as.is_empty() || is_some_text(&ring.presented_as, presented_as);
        if gone {
            assert(dismissed(all[i], presented_as@));
            any = true;
            let reply: Option<LockedDecline> = if !ring.reply_call_mailbox.as_str().is_empty()
                && !ring.reply_call_key.as_str().is_empty() {
                Some(
                    LockedDecline {
                        call: ring.call_instance_id.clone(),
                        offer: ring.offer_id.clone(),
                        group: ring.group,
                        to_device_id: ring.caller_device_id.clone(),
                        to_mailbox: ring.reply_call_mailbox.clone(),
                        to_key: ring.reply_call_key.clone(),
                        created_at: now,
                        expires_at,
                    },
                )
            } else {
                None
            };
            let call: String = ring.call_instance_id.clone();
            let offer: String = ring.offer_id.clone();
            take_ring_down(&mut out, ring);
            out.push(
                Effect::RecordTerminal {
                    call,
                    offer,
                    reason: CallTerminalReason::DeclinedHere,
                    retention,
                },
            );
            if let Some(decline) = reply {
                out.push(Effect::QueueDecline { decline });
            }
        } else {
            kept.push(ring);
        }
        proof {
            i = i + 1;
        }
    }
    assert(all.take(i) =~= all);
    s.rings = kept;
    if any {
        out.push(Effect::SaveStore);
    }
    proof {
        lemma_declined_rings_come_down(all, presented_as@, retention, now, expires_at);
        lemma_rings_kept(all, presented_as@);
        let down = locked_declines(all, presented_as@, retention, now, expires_at);
        assert forall|k: Seq<char>| #[trigger] held(*old(s), k) && !held(*s, k) implies taken_down(out@, k) by {
            assert(ring_stored(all, k));
            assert(taken_down(down, k));
            let i = choose|i: int| 0 <= i < down.len() && ends(#[trigger] down[i], k);
            assert(out@[i] == down[i]);
        }
        assert forall|i: int| 0 <= i < out@.len() implies !(#[trigger] out@[i] is StartSystemCall) by {
            if i < down.len() {
                assert(out@[i] == down[i]);
            }
        }
    }
    out
}

/// The capsule that carries a locked device's word of decline: signed by its call-control key,
/// answerable at its call-control mailbox, and saying nothing else about it than its account
/// and device.
pub fn decline_capsule(s: &Session, decline: &LockedDecline, my_mailbox: &String, my_key: &String) -> (r:
    CallCapsule)
    ensures
        r.caller_identity_key@.len() == 0,
        r.display_name@.len() == 0,
        r == (CallCapsule {
            kind: CapsuleKind::Terminal,
            call_instance_id: decline.call,
            offer_id: decline.offer,
            from: s.store_username,
            caller_identity_key: r.caller_identity_key,
            caller_device_id: s.store_device_id,
            to_device_id: decline.to_device_id,
            video: false,
            group: decline.group,
            display_name: r.display_name,
            created_at: decline.created_at,
            ring_expires_at: decline.expires_at,
            expires_at: decline.expires_at,
            reply_to_mailbox: *my_mailbox,
            reply_call_mailbox: *my_mailbox,
            reply_call_key: *my_key,
            signer: CapsuleSigner::CallKey,
            reason: Some(CallTerminalReason::DeclinedHere),
        }),
{
    CallCapsule {
        kind: CapsuleKind::Terminal,
        call_instance_id: decline.call.clone(),
        offer_id: decline.offer.clone(),
        from: s.store_username.clone(),
        caller_identity_key: String::new(),
        caller_device_id: s.store_device_id.clone(),
        to_device_id: decline.to_device_id.clone(),
        video: false,
        group: decline.group,
        display_name: String::new(),
        created_at: decline.created_at,
        ring_expires_at: decline.expires_at,
        expires_at: decline.expires_at,
        reply_to_mailbox: my_mailbox.clone(),
        reply_call_mailbox: my_mailbox.clone(),
        reply_call_key: my_key.clone(),
        signer: CapsuleSigner::CallKey,
        reason: Some(CallTerminalReason::DeclinedHere),
    }
}

/// The places at which something was posted, in order.
pub open spec fn posted_places(posted: Seq<bool>) -> Seq<usize>
    decreases posted.len(),
{
    if posted.len() == 0 {
        Seq::empty()
    } else {
        let head = posted_places(posted.drop_last());
        if posted.last() {
            head.push((posted.len() - 1) as usize)
        } else {
            head
        }
    }
}

/// What the outbox held was posted, with what success `posted` says. Which entries leave it:
/// those that got through, and none if the connection changed meanwhile.
pub fn drain_capsule_outbox(s: &Session, client: u64, posted: &Vec<bool>) -> (r: Vec<usize>)
    ensures
        r@ == if s.client == Some(client) {
            posted_places(posted@)
        } else {
            Seq::<usize>::empty()
        },
{
    let mut r: Vec<usize> = Vec::new();
    if !is_current(s, client) {
        return r;
    }
    let mut i: usize = 0;
    assert(posted@.take(0) =~= Seq::<bool>::empty());
    while i < posted.len()
        invariant
            i <= posted@.len(),
            r@ == posted_places(posted@.take(i as int)),
        decreases posted.len() - i,
    {
        assert(posted@.take(i + 1).drop_last() =~= posted@.take(i as int));
        if posted[i] {
            r.push(i);
        }
        i = i + 1;
    }
    assert(posted@.take(i as int) =~= posted@);
    r
}

/// A dismissed notification stands for the rings it was shown for, and one without an id for all.
/// A caller can be told where it said where and under which key it reads.
pub proof fn lemma_what_a_dismissal_is_for(ring: PendingRing, presented_as: Seq<char>)
    ensures
        dismissed(ring, presented_as) <==> presented_as.len() == 0 || (ring.presented_as is Some
            && ring.presented_as->0@ == presented_as),
        can_reply(ring) <==> ring.reply_call_mailbox@.len() > 0 && ring.reply_call_key@.len() > 0,
{
}

/// The rings that a dismissal does not stand for stay, those it stands for go, and what stays is
/// in its old order.
pub proof fn lemma_the_other_rings_go_on(rings: Seq<PendingRing>, more: Seq<PendingRing>, presented_as: Seq<char>)
    ensures
        rings_kept(rings + more, presented_as) == rings_kept(rings, presented_as) + rings_kept(more, presented_as),
        forall|i: int| #![trigger rings[i]]
            0 <= i < rings.len() && presented_as.len() > 0 && !(rings[i].presented_as is Some
                && rings[i].presented_as->0@ == presented_as) ==> rings_kept(rings, presented_as).contains(rings[i]),
        presented_as.len() == 0 ==> rings_kept(rings, presented_as).len() == 0,
        forall|ring: PendingRing| #[trigger]
            rings_kept(rings, presented_as).contains(ring) ==> presented_as.len() > 0 && !(ring.presented_as is Some
                && ring.presented_as->0@ == presented_as),
    decreases more.len(), rings.len(),
{
    if more.len() == 0 {
        assert(rings + more =~= rings);
        assert(rings_kept(rings, presented_as) + rings_kept(more, presented_as) =~= rings_kept(rings, presented_as));
        if rings.len() > 0 {
            let head = rings.drop_last();
            let kept = rings_kept(head, presented_as);
            let all = rings_kept(rings, presented_as);
            lemma_the_other_rings_go_on(head, more, presented_as);
            assert forall|i: int| #![trigger rings[i]]
                0 <= i < rings.len() && presented_as.len() > 0 && !(rings[i].presented_as is Some
                    && rings[i].presented_as->0@ == presented_as) implies all.contains(rings[i]) by {
                if i < head.len() {
                    assert(head[i] == rings[i]);
                    assert(kept.contains(head[i]));
                    let k = choose|k: int| 0 <= k < kept.len() && kept[k] == head[i];
                    assert(all[k] == kept[k]);
                } else {
                    assert(all[all.len() - 1] == rings.last());
                }
            }
            assert forall|ring: PendingRing| #[trigger] all.contains(ring) implies presented_as.len() > 0 && !(
            ring.presented_as is Some && ring.presented_as->0@ == presented_as) by {
                let k = choose|k: int| 0 <= k < all.len() && all[k] == ring;
                if k < kept.len() {
                    assert(kept[k] == ring);
                    assert(kept.contains(ring));
                }
            }
        }
    } else {
        lemma_the_other_rings_go_on(rings, more.drop_last(), presented_as);
        assert((rings + more).drop_last() =~= rings + more.drop_last());
        assert((rings + more).last() == more.last());
        assert(rings_kept(rings + more, presented_as) =~= rings_kept(rings, presented_as) + rings_kept(
            more,
            presented_as,
        ));
    }
}

/// A locked device's word of decline goes to the device that rang, for its call and offer, at the
/// place and under the key it gave.
pub proof fn lemma_a_decline_goes_to_who_rang(ring: PendingRing, now: u64, expires_at: u64)
    ensures
        decline_of(ring, now, expires_at).call == ring.call_instance_id,
        decline_of(ring, now, expires_at).offer == ring.offer_id,
        decline_of(ring, now, expires_at).group == ring.group,
        decline_of(ring, now, expires_at).to_device_id == ring.caller_device_id,
        decline_of(ring, now, expires_at).to_mailbox == ring.reply_call_mailbox,
        decline_of(ring, now, expires_at).to_key == ring.reply_call_key,
        decline_of(ring, now, expires_at).created_at == now,
        decline_of(ring, now, expires_at).expires_at == expires_at,
{
}

/// Every ring that is declined is recorded as declined, and its caller told if that can be;
/// nothing is recorded or told of a ring the dismissal does not stand for.
pub proof fn lemma_every_declined_ring_is_recorded_and_told(
    rings: Seq<PendingRing>,
    presented_as: Seq<char>,
    retention: u64,
    now: u64,
    expires_at: u64,
)
    ensures
        ({
            let out = locked_declines(rings, presented_as, retention, now, expires_at);
            &&& forall|i: int| #![trigger rings[i]]
                0 <= i < rings.len() && (presented_as.len() == 0 || (rings[i].presented_as is Some
                    && rings[i].presented_as->0@ == presented_as)) ==> out.contains(
                    Effect::RecordTerminal {
                        call: rings[i].call_instance_id,
                        offer: rings[i].offer_id,
                        reason: CallTerminalReason::DeclinedHere,
                        retention,
                    },
                ) && (rings[i].reply_call_mailbox@.len() > 0 && rings[i].reply_call_key@.len() > 0 ==> out.contains(
                    Effect::QueueDecline { decline: decline_of(rings[i], now, expires_at) },
                ))
            &&& forall|k: int| #![trigger out[k]]
                0 <= k < out.len() && (out[k] is RecordTerminal || out[k] is QueueDecline) ==> exists|i: int|
                    #![trigger rings[i]]
                    0 <= i < rings.len() && (presented_as.len() == 0 || (rings[i].presented_as is Some
                        && rings[i].presented_as->0@ == presented_as)) && (out[k] == (Effect::RecordTerminal {
                        call: rings[i].call_instance_id,
                        offer: rings[i].offer_id,
                        reason: CallTerminalReason::DeclinedHere,
                        retention,
                    }) || (out[k] == (Effect::QueueDecline { decline: decline_of(rings[i], now, expires_at) })
                        && rings[i].reply_call_mailbox@.len() > 0 && rings[i].reply_call_key@.len() > 0))
        }),
    decreases rings.len(),
{
    if rings.len() > 0 {
        let head = rings.drop_last();
        let last = rings.last();
        let before = locked_declines(head, presented_as, retention, now, expires_at);
        let out = locked_declines(rings, presented_as, retention, now, expires_at);
        lemma_every_declined_ring_is_recorded_and_told(head, presented_as, retention, now, expires_at);
        assert forall|k: int| 0 <= k < before.len() implies #[trigger] out[k] == before[k] by {}
        let n: int = (before.len() + ring_down(last).len()) as int;
        assert forall|i: int| #![trigger rings[i]]
            0 <= i < rings.len() && (presented_as.len() == 0 || (rings[i].presented_as is Some
                && rings[i].presented_as->0@ == presented_as)) implies out.contains(
            Effect::RecordTerminal {
                call: rings[i].call_instance_id,
                offer: rings[i].offer_id,
                reason: CallTerminalReason::DeclinedHere,
                retention,
            },
        ) && (rings[i].reply_call_mailbox@.len() > 0 && rings[i].reply_call_key@.len() > 0 ==> out.contains(
            Effect::QueueDecline { decline: decline_of(rings[i], now, expires_at) },
        )) by {
            let told = Effect::QueueDecline { decline: decline_of(rings[i], now, expires_at) };
            let recorded = Effect::RecordTerminal {
                call: rings[i].call_instance_id,
                offer: rings[i].offer_id,
                reason: CallTerminalReason::DeclinedHere,
                retention,
            };
            if i < head.len() {
                assert(head[i] == rings[i]);
                assert(before.contains(recorded));
                let k = choose|k: int| 0 <= k < before.len() && before[k] == recorded;
                assert(out[k] == recorded);
                if rings[i].reply_call_mailbox@.len() > 0 && rings[i].reply_call_key@.len() > 0 {
                    assert(before.contains(told));
                    let k = choose|k: int| 0 <= k < before.len() && before[k] == told;
                    assert(out[k] == told);
                }
            } else {
                assert(out[n] == recorded);
                if rings[i].reply_call_mailbox@.len() > 0 && rings[i].reply_call_key@.len() > 0 {
                    assert(out[n + 1] == told);
                }
            }
        }
        assert forall|k: int| #![trigger out[k]]
            0 <= k < out.len() && (out[k] is RecordTerminal || out[k] is QueueDecline) implies exists|i: int|
            #![trigger rings[i]]
            0 <= i < rings.len() && (presented_as.len() == 0 || (rings[i].presented_as is Some
                && rings[i].presented_as->0@ == presented_as)) && (out[k] == (Effect::RecordTerminal {
                call: rings[i].call_instance_id,
                offer: rings[i].offer_id,
                reason: CallTerminalReason::DeclinedHere,
                retention,
            }) || (out[k] == (Effect::QueueDecline { decline: decline_of(rings[i], now, expires_at) })
                && rings[i].reply_call_mailbox@.len() > 0 && rings[i].reply_call_key@.len() > 0)) by {
            if k < before.len() {
                assert(out[k] == before[k]);
                let i = choose|i: int| #![trigger head[i]]
                    0 <= i < head.len() && (presented_as.len() == 0 || (head[i].presented_as is Some
                        && head[i].presented_as->0@ == presented_as)) && (before[k] == (Effect::RecordTerminal {
                        call: head[i].call_instance_id,
                        offer: head[i].offer_id,
                        reason: CallTerminalReason::DeclinedHere,
                        retention,
                    }) || (before[k] == (Effect::QueueDecline { decline: decline_of(head[i], now, expires_at) })
                        && head[i].reply_call_mailbox@.len() > 0 && head[i].reply_call_key@.len() > 0));
                assert(rings[i] == head[i]);
            } else {
                assert(rings[rings.len() - 1] == last);
                if k < n {
                    assert(out[k] == ring_down(last)[k - before.len()]);
                }
            }
        }
    }
}

/// A decline needs all that it is signed and sent with: a locked vault on this connection, the
/// call-control key, and a store that says as whom.
pub proof fn lemma_what_a_locked_decline_needs(s: Session, client: u64, has_call_key: bool)
    ensures
        can_decline_locked(s, client, has_call_key) <==> s.client == Some(client) && s.account is None && has_call_key
            && s.store_device_id@.len() > 0 && s.store_username@.len() > 0,
{
}

/// What leaves the outbox is what got through, each at its own place.
pub proof fn lemma_what_got_through_leaves_the_outbox(posted: Seq<bool>, i: int)
    requires
        posted.len() <= usize::MAX,
    ensures
        0 <= i < posted.len() ==> (posted_places(posted).contains(i as usize) <==> posted[i]),
        forall|k: int| 0 <= k < posted_places(posted).len() ==> (#[trigger] posted_places(posted)[k] as int)
            < posted.len(),
    decreases posted.len(),
{
    if posted.len() > 0 {
        let head = posted.drop_last();
        let before = posted_places(head);
        let places = posted_places(posted);
        lemma_what_got_through_leaves_the_outbox(head, i);
        assert forall|k: int| 0 <= k < before.len() implies #[trigger] places[k] == before[k] by {}
        if 0 <= i < head.len() {
            assert(head[i] == posted[i]);
            if posted[i] {
                let k = choose|k: int| 0 <= k < before.len() && before[k] == i as usize;
                assert(places[k] == i as usize);
            } else if places.contains(i as usize) {
                let k = choose|k: int| 0 <= k < places.len() && places[k] == i as usize;
                assert(k < before.len());
                assert(before[k] == i as usize);
            }
        } else if i == posted.len() - 1 {
            if posted[i] {
                assert(places[places.len() - 1] == i as usize);
            } else if places.contains(i as usize) {
                let k = choose|k: int| 0 <= k < places.len() && places[k] == i as usize;
                assert(before[k] as int == i);
            }
        }
    }
}

/// A store that is loaded is the one that was read, whole.
pub proof fn lemma_a_loaded_store_is_the_one_read(s: Session, store: SealedStore)
    ensures
        with_store(s, store).rings == store.rings,
        with_store(s, store).store_username == store.username,
        with_store(s, store).store_device_id == store.device_id,
        with_store(s, store) == (Session {
            rings: store.rings,
            store_username: store.username,
            store_device_id: store.device_id,
            ..s
        }),
        forall|client: u64| #[trigger] locked_on(s, client) <==> s.client == Some(client) && s.account is None,
{
}

} // verus!
