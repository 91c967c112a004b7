//! What a call needs from the network before it can be placed or screened: which rosters are
//! refreshed, in what order, and whom a name stands for.

use super::capsule_send::bindings_wanted;
use super::directory::{ContactPin, Directory};
use super::error::CallError;
use super::session::{is_current, Session};
use crate::text::same;
use vstd::prelude::*;

verus! {

/// How many accounts' rosters are fetched after one unlock.
pub const MAX_SCREEN_WARM_PER_UNLOCK: usize = 8;

/// Whether signals can be made: through the connection they are meant for, with the vault
/// open.
pub fn sending_allowed(s: &Session, client: u64) -> (r: Result<(), CallError>)
    ensures
        s.client != Some(client) ==> r == Err::<(), CallError>(CallError::NotConfigured),
        s.client == Some(client) && s.account is None ==> r == Err::<(), CallError>(CallError::Locked),
        s.client == Some(client) && s.account is Some ==> r is Ok,
{
    if !is_current(s, client) {
        return Err(CallError::NotConfigured);
    }
    if s.account.is_none() {
        return Err(CallError::Locked);
    }
    Ok(())
}

/// Whether an account's device roster is to be fetched: the server knows of linked devices,
/// the vault is open, and the connection is current.
pub fn warm_device_routes(s: &Session, client: u64) -> (r: bool)
    ensures
        r == (s.multi_device && s.account is Some && s.client == Some(client)),
{
    s.multi_device && s.account.is_some() && is_current(s, client)
}

/// The call-control keys of an account's devices are fetched whether or not the server knows
/// of linked devices.
pub proof fn lemma_call_keys_do_not_depend_on_linked_devices(
    s: Session,
    multi_device: bool,
    client: u64,
    username: Seq<char>,
    now: u64,
)
    ensures
        bindings_wanted(s, client, username, now) == bindings_wanted(
            Session { multi_device, ..s },
            client,
            username,
            now,
        ),
{
}

/// A roster was fetched. Says whether it is this account's own; nothing where it must not be
/// used: the connection changed, the roster was refused, or the vault is locked.
pub fn roster_fetched(s: &Session, client: u64, username: &str, accepted: bool) -> (r: Option<bool>)
    ensures
        r == if s.client == Some(client) && accepted && s.account is Some {
            Some(s.account->0.account_id@ == username@)
        } else {
            None
        },
{
    if !is_current(s, client) || !accepted {
        return None;
    }
    match &s.account {
        Some(account) => Some(same(account.account_id.as_str(), username)),
        None => None,
    }
}

/// The accounts whose routes a call to `username` needs, in order: theirs, and this account's
/// own, for its other devices.
pub fn warm_call_routes_with_self(s: &Session, username: &String) -> (r: Vec<String>)
    ensures
        r@ == if s.account is Some && s.account->0.account_id@ != username@ {
            seq![*username, s.account->0.account_id]
        } else {
            seq![*username]
        },
{
    let mut out: Vec<String> = Vec::new();
    out.push(username.clone());
    match &s.account {
        Some(account) => {
            if !same(account.account_id.as_str(), username.as_str()) {
                out.push(account.account_id.clone());
            }
        },
        None => {},
    }
    out
}

/// What is needed to reach an account.
pub enum ContactStep {
    /// A session with this key is open.
    Ready { identity_key: String },
    /// The account has to be looked up first, as this key.
    Discover { my_key: String },
}

/// Decide how an account is reached. `known` is its pinned key, `not_self` says whether it may
/// be called at all, and `has_session` whether a session with the pinned key is open.
pub fn resolve_call_contact(
    s: &Session,
    known: &Option<String>,
    not_self: Result<(), String>,
    has_session: bool,
) -> (r: Result<ContactStep, CallError>)
    ensures
        r == if s.directory.revoked {
            Err::<ContactStep, CallError>(CallError::Unlinked)
        } else if s.account is None {
            Err(CallError::Locked)
        } else if not_self is Err {
            Err(CallError::Other(not_self->Err_0))
        } else if known is Some && has_session {
            Ok(ContactStep::Ready { identity_key: known->0 })
        } else {
            Ok(ContactStep::Discover { my_key: s.account->0.identity_key })
        },
{
    if s.directory.revoked {
        return Err(CallError::Unlinked);
    }
    match &s.account {
        None => Err(CallError::Locked),
        Some(account) => {
            match not_self {
                Err(text) => {
                    return Err(CallError::Other(text));
                },
                Ok(_) => {},
            }
            match known {
                Some(key) => if has_session {
                    return Ok(ContactStep::Ready { identity_key: key.clone() });
                },
                None => {},
            }
            Ok(ContactStep::Discover { my_key: account.identity_key.clone() })
        },
    }
}

/// An account was looked up and its key found: it may be called unless the key is not the
/// pinned one, or is this account's own.
pub fn contact_discovered(known: &Option<String>, my_key: &String, found: &String) -> (r: Result<
    (),
    CallError,
>)
    ensures
        ({
            let changed = known matches Some(key) && key@ != found@;
            &&& changed ==> r == Err::<(), CallError>(CallError::KeyChanged)
            &&& !changed && found@ == my_key@ ==> r == Err::<(), CallError>(CallError::OwnAccount)
            &&& !changed && found@ != my_key@ ==> r is Ok
        }),
{
    let changed = match known {
        Some(key) => !same(key.as_str(), found.as_str()),
        None => false,
    };
    if changed {
        return Err(CallError::KeyChanged);
    }
    if same(found.as_str(), my_key.as_str()) {
        return Err(CallError::OwnAccount);
    }
    Ok(())
}

/// The contacts that may ring, in order.
pub open spec fn ringing_contacts(contacts: Seq<ContactPin>) -> Seq<String>
    decreases contacts.len(),
{
    if contacts.len() == 0 {
        Seq::empty()
    } else {
        let head = ringing_contacts(contacts.drop_last());
        if !contacts.last().blocked && !contacts.last().request {
            head.push(contacts.last().username)
        } else {
            head
        }
    }
}

/// The names whose roster is pinned, or those whose roster is not, in order.
pub open spec fn by_roster(dir: Directory, names: Seq<String>, pinned: bool) -> Seq<String>
    decreases names.len(),
{
    if names.len() == 0 {
        Seq::empty()
    } else {
        let head = by_roster(dir, names.drop_last(), pinned);
        if dir.has_roster(names.last()@) == pinned {
            head.push(names.last())
        } else {
            head
        }
    }
}

/// Everyone whose roster screening needs: this account, and the contacts that may ring.
pub open spec fn screen_candidates(s: Session) -> Seq<String> {
    seq![s.account->0.account_id] + ringing_contacts(s.directory.contacts@)
}

/// Those of them in the order in which their rosters are fetched: a missing roster makes
/// screening impossible, so those come first.
pub open spec fn screen_order(s: Session) -> Seq<String> {
    by_roster(s.directory, screen_candidates(s), false) + by_roster(
        s.directory,
        screen_candidates(s),
        true,
    )
}

proof fn lemma_by_roster(dir: Directory, names: Seq<String>, pinned: bool)
    ensures
        forall|i: int|
            #![trigger by_roster(dir, names, pinned)[i]]
            0 <= i < by_roster(dir, names, pinned).len() ==> dir.has_roster(
                by_roster(dir, names, pinned)[i]@,
            ) == pinned,
    decreases names.len(),
{
    if names.len() > 0 {
        lemma_by_roster(dir, names.drop_last(), pinned);
        let head = by_roster(dir, names.drop_last(), pinned);
        assert forall|i: int|
            #![trigger by_roster(dir, names, pinned)[i]]
            0 <= i < by_roster(dir, names, pinned).len() implies dir.has_roster(
            by_roster(dir, names, pinned)[i]@,
        ) == pinned by {
            if i < head.len() {
                assert(by_roster(dir, names, pinned)[i] == head[i]);
            }
        }
    }
}

fn pick_by_roster(dir: &Directory, names: &Vec<String>, pinned: bool) -> (r: Vec<String>)
    ensures
        r@ == by_roster(*dir, names@, pinned),
{
    let mut out: Vec<String> = Vec::new();
    let mut i: usize = 0;
    assert(names@.take(0) =~= Seq::<String>::empty());
    while i < names.len()
        invariant
            i <= names@.len(),
            out@ == by_roster(*dir, names@.take(i as int), pinned),
        decreases names.len() - i,
    {
        let ghost upto = names@.take(i + 1);
        assert(upto.drop_last() =~= names@.take(i as int));
        assert(upto.last() == names@[i as int]);
        if dir.rosters.contains_key(names[i].as_str()) == pinned {
            out.push(names[i].clone());
        }
        i = i + 1;
    }
    assert(names@.take(i as int) =~= names@);
    out
}

/// The accounts whose rosters are fetched after an unlock, in order. There are at most
/// [`MAX_SCREEN_WARM_PER_UNLOCK`], and an account whose roster is missing comes before any
/// whose roster is pinned.
pub fn screen_warm_targets(s: &Session) -> (r: Vec<String>)
    ensures
        s.account is None ==> r@ == Seq::<String>::empty(),
        s.account is Some ==> r@ == screen_order(*s).take(
            if screen_order(*s).len() < MAX_SCREEN_WARM_PER_UNLOCK {
                screen_order(*s).len() as int
            } else {
                MAX_SCREEN_WARM_PER_UNLOCK as int
            },
        ),
        r@.len() <= MAX_SCREEN_WARM_PER_UNLOCK,
        forall|i: int, j: int|
            0 <= i < j < r@.len() && s.directory.has_roster(#[trigger] r@[i]@) ==> s.directory.has_roster(
                #[trigger] r@[j]@,
            ),
{
    let account = match &s.account {
        Some(account) => account,
        None => {
            return Vec::new();
        },
    };
    let mut names: Vec<String> = Vec::new();
    names.push(account.account_id.clone());
    let contacts = &s.directory.contacts;
    let mut i: usize = 0;
    assert(contacts@.take(0) =~= Seq::<ContactPin>::empty());
    assert(names@ =~= seq![account.account_id] + ringing_contacts(contacts@.take(0)));
    while i < contacts.len()
        invariant
            i <= contacts@.len(),
            names@ == seq![account.account_id] + ringing_contacts(contacts@.take(i as int)),
        decreases contacts.len() - i,
    {
        let ghost upto = contacts@.take(i + 1);
        assert(upto.drop_last() =~= contacts@.take(i as int));
        assert(upto.last() == contacts@[i as int]);
        if !contacts[i].blocked && !contacts[i].request {
            names.push(contacts[i].username.clone());
        }
        assert(names@ =~= seq![account.account_id] + ringing_contacts(upto));
        i = i + 1;
    }
    assert(contacts@.take(i as int) =~= contacts@);
    let mut out: Vec<String> = pick_by_roster(&s.directory, &names, false);
    let mut pinned: Vec<String> = pick_by_roster(&s.directory, &names, true);
    proof {
        lemma_by_roster(s.directory, names@, false);
        lemma_by_roster(s.directory, names@, true);
    }
    let ghost first = out@;
    out.append(&mut pinned);
    assert(out@ =~= screen_order(*s));
    if out.len() > MAX_SCREEN_WARM_PER_UNLOCK {
        out.truncate(MAX_SCREEN_WARM_PER_UNLOCK);
    }
    proof {
        assert forall|i: int, j: int|
            0 <= i < j < out@.len() && s.directory.has_roster(#[trigger] out@[i]@) implies s.directory.has_roster(
            #[trigger] out@[j]@,
        ) by {
            let all = screen_order(*s);
            let rest = by_roster(s.directory, names@, true);
            assert(out@[i] == all[i] && out@[j] == all[j]);
            if i < first.len() {
                assert(all[i] == first[i]);
            } else {
                assert(all[j] == rest[j - first.len()]);
            }
        }
    }
    out
}

/// Screening needs this account's own roster and those of the contacts that may ring: every one of
/// them and nobody else.
pub proof fn lemma_whose_rosters_screening_needs(contacts: Seq<ContactPin>)
    ensures
        forall|i: int| #![trigger contacts[i]]
            0 <= i < contacts.len() && !contacts[i].blocked && !contacts[i].request ==> ringing_contacts(
                contacts,
            ).contains(contacts[i].username),
        forall|k: int| #![trigger ringing_contacts(contacts)[k]]
            0 <= k < ringing_contacts(contacts).len() ==> exists|i: int| #![trigger contacts[i]]
                0 <= i < contacts.len() && !contacts[i].blocked && !contacts[i].request && contacts[i].username
                    == ringing_contacts(contacts)[k],
    decreases contacts.len(),
{
    if contacts.len() > 0 {
        let head = contacts.drop_last();
        let before = ringing_contacts(head);
        let all = ringing_contacts(contacts);
        lemma_whose_rosters_screening_needs(head);
        assert forall|k: int| 0 <= k < before.len() implies #[trigger] all[k] == before[k] by {}
        assert forall|i: int| #![trigger contacts[i]]
            0 <= i < contacts.len() && !contacts[i].blocked && !contacts[i].request implies all.contains(
            contacts[i].username,
        ) by {
            if i < head.len() {
                assert(head[i] == contacts[i]);
                let k = choose|k: int| 0 <= k < before.len() && before[k] == head[i].username;
                assert(all[k] == contacts[i].username);
            } else {
                assert(all[all.len() - 1] == contacts[i].username);
            }
        }
        assert forall|k: int| #![trigger all[k]] 0 <= k < all.len() implies exists|i: int| #![trigger contacts[i]]
            0 <= i < contacts.len() && !contacts[i].blocked && !contacts[i].request && contacts[i].username
                == all[k] by {
            if k < before.len() {
                assert(all[k] == before[k]);
                let i = choose|i: int| #![trigger head[i]]
                    0 <= i < head.len() && !head[i].blocked && !head[i].request && head[i].username == before[k];
                assert(contacts[i] == head[i]);
            } else {
                assert(contacts[contacts.len() - 1].username == all[k]);
            }
        }
    }
}

/// Nobody is left out of the order in which rosters are fetched, and those without a roster come
/// first.
pub proof fn lemma_the_order_of_screening_leaves_nobody_out(s: Session, i: int)
    requires
        s.account is Some,
        0 <= i < screen_candidates(s).len(),
    ensures
        screen_candidates(s)[0] == s.account->0.account_id,
        screen_order(s).contains(screen_candidates(s)[i]),
{
    let name = screen_candidates(s)[i];
    let missing = by_roster(s.directory, screen_candidates(s), false);
    let pinned = by_roster(s.directory, screen_candidates(s), true);
    lemma_each_is_on_one_side(s.directory, screen_candidates(s), i);
    if s.directory.has_roster(name@) {
        let k = choose|k: int| 0 <= k < pinned.len() && pinned[k] == name;
        assert(screen_order(s)[missing.len() + k] == name);
    } else {
        let k = choose|k: int| 0 <= k < missing.len() && missing[k] == name;
        assert(screen_order(s)[k] == name);
    }
}

proof fn lemma_each_is_on_one_side(dir: Directory, names: Seq<String>, i: int)
    requires
        0 <= i < names.len(),
    ensures
        by_roster(dir, names, dir.has_roster(names[i]@)).contains(names[i]),
    decreases names.len(),
{
    let side = dir.has_roster(names[i]@);
    let head = names.drop_last();
    let before = by_roster(dir, head, side);
    let all = by_roster(dir, names, side);
    if i < head.len() {
        lemma_each_is_on_one_side(dir, head, i);
        assert(head[i] == names[i]);
        let k = choose|k: int| 0 <= k < before.len() && before[k] == head[i];
        assert(all[k] == names[i]);
    } else {
        assert(all[all.len() - 1] == names[i]);
    }
}

} // verus!
