//! This device's call-control key: when it is made known, and when it is forgotten.

use super::handles::no_orphans;
use super::session::{is_current, PublishedKey, Session};
use super::store::{all_down, wipe_call_store};
use super::types::{Effect, PendingRing};
use vstd::prelude::*;

verus! {

/// The device id the call-control key is published for, or nothing where none may be: the
/// connection changed, the device was unlinked, the vault is locked, or no mailbox can be
/// derived for it.
pub fn ensure_call_identity(s: &Session, client: u64, has_mailbox: bool) -> (r: Option<String>)
    ensures
        r == if s.client == Some(client) && !s.directory.revoked && s.account is Some && has_mailbox {
            Some(s.directory.self_device_id)
        } else {
            None
        },
{
    if !is_current(s, client) || s.directory.revoked || s.account.is_none() || !has_mailbox {
        return None;
    }
    Some(s.directory.self_device_id.clone())
}

/// The call-control key was loaded, or made anew. A new key makes the last publication void.
/// Says whether to go on.
pub fn call_key_loaded(s: &mut Session, client: u64, public: &String, minted: bool) -> (r: (
    bool,
    Vec<Effect>,
))
    ensures
        old(s).client != Some(client) ==> !r.0 && r.1@ == Seq::<Effect>::empty() && *final(s) == *old(s),
        old(s).client == Some(client) ==> {
            &&& r.0
            &&& *final(s) == (Session {
                call_key: Some(*public),
                call_key_published: if minted {
                    None
                } else {
                    old(s).call_key_published
                },
                ..*old(s)
            })
            &&& r.1@ == if minted {
                seq![Effect::Persist]
            } else {
                Seq::<Effect>::empty()
            }
        },
        no_orphans(*old(s), *final(s), r.1@),
{
    let mut out: Vec<Effect> = Vec::new();
    if !is_current(s, client) {
        return (false, out);
    }
    s.call_key = Some(public.clone());
    if minted {
        s.call_key_published = None;
        out.push(Effect::Persist);
    }
    (true, out)
}

/// The publication stands: it is of this key, for this device, and the key is not new.
pub open spec fn already_published(
    minted: bool,
    published: Option<PublishedKey>,
    public: Seq<char>,
    device_id: Seq<char>,
) -> bool {
    !minted && (published matches Some(p) && p.public_key@ == public && p.device_id@ == device_id)
}

/// The time a new publication carries: now, and past the last one's, should the clock have
/// gone back.
pub open spec fn publication_time(published: Option<PublishedKey>, now: u64) -> u64 {
    match published {
        None => now,
        Some(p) => {
            let next = super::accept::later(p.created_at, 1);
            if next < now {
                now
            } else {
                next
            }
        },
    }
}

/// Whether the key is to be published, and under which time. `published` is the publication
/// that stood before the key was loaded.
pub fn publication_due(
    minted: bool,
    published: &Option<PublishedKey>,
    public: &String,
    device_id: &String,
    now: u64,
) -> (r: Option<u64>)
    ensures
        r == if already_published(minted, *published, public@, device_id@) {
            None
        } else {
            Some(publication_time(*published, now))
        },
{
    match published {
        None => Some(now),
        Some(p) => {
            if !minted && p.public_key == *public && p.device_id == *device_id {
                return None;
            }
            let next: u64 = p.created_at.saturating_add(1);
            Some(
                if next < now {
                    now
                } else {
                    next
                },
            )
        },
    }
}

/// A publication is newer than the one before it, and no older than the clock, so a server
/// that takes newer ones only takes it. The one exception is a time at the end of time.
pub proof fn lemma_a_publication_is_newer_than_the_last(published: PublishedKey, now: u64)
    requires
        published.created_at < u64::MAX,
    ensures
        publication_time(Some(published), now) > published.created_at,
        publication_time(Some(published), now) >= now,
{
}

/// Whether the publication may still be signed: the connection is current, the vault is open
/// and the key is loaded.
pub fn may_publish(s: &Session, client: u64) -> (r: bool)
    ensures
        r == (s.client == Some(client) && s.account is Some && s.call_key is Some),
{
    is_current(s, client) && s.account.is_some() && s.call_key.is_some()
}

/// The key was published.
pub fn call_key_was_published(
    s: &mut Session,
    client: u64,
    public: &String,
    created_at: u64,
    device_id: &String,
) -> (out: Vec<Effect>)
    ensures
        old(s).client != Some(client) ==> *final(s) == *old(s) && out@ == Seq::<Effect>::empty(),
        old(s).client == Some(client) ==> {
            &&& *final(s) == (Session {
                call_key_published: Some(
                    PublishedKey { public_key: *public, created_at, device_id: *device_id },
                ),
                ..*old(s)
            })
            &&& out@ == seq![Effect::Persist]
        },
        no_orphans(*old(s), *final(s), out@),
{
    let mut out: Vec<Effect> = Vec::new();
    if is_current(s, client) {
        s.call_key_published = Some(
            PublishedKey { public_key: public.clone(), created_at, device_id: device_id.clone() },
        );
        out.push(Effect::Persist);
    }
    out
}

/// Whether the index a locked device screens callers with is rebuilt: there is a key to seal
/// it under, the vault is open, and the device is still linked.
pub fn refresh_call_screen(s: &Session, has_device_key: bool) -> (r: bool)
    ensures
        r == (has_device_key && s.account is Some && !s.directory.revoked),
{
    has_device_key && s.account.is_some() && !s.directory.revoked
}

/// Forget this device's call-control key, what was published of it, and the call store.
pub fn wipe_call_identity(s: &mut Session) -> (out: Vec<Effect>)
    ensures
        out@ == all_down(old(s).rings@),
        no_orphans(*old(s), *final(s), out@),
        final(s).rings@ == Seq::<PendingRing>::empty(),
        final(s).store_username@.len() == 0,
        final(s).store_device_id@.len() == 0,
        *final(s) == (Session {
            rings: final(s).rings,
            store_username: final(s).store_username,
            store_device_id: final(s).store_device_id,
            call_key: None,
            call_key_published: None,
            ..*old(s)
        }),
{
    let out: Vec<Effect> = wipe_call_store(s);
    s.call_key = None;
    s.call_key_published = None;
    out
}

/// A key is published once for a device: again only where it is new, is another than the one that
/// was published, or was published for another device.
pub proof fn lemma_when_a_key_is_published_again(
    minted: bool,
    published: PublishedKey,
    public: Seq<char>,
    device_id: Seq<char>,
    now: u64,
)
    ensures
        already_published(minted, Some(published), public, device_id) <==> !minted && published.public_key@ == public
            && published.device_id@ == device_id,
        !already_published(minted, None, public, device_id),
        publication_time(None, now) == now,
        published.created_at < now ==> publication_time(Some(published), now) == now,
        now <= published.created_at < u64::MAX ==> publication_time(Some(published), now) == published.created_at
            + 1,
{
}

} // verus!
