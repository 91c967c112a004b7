//! Who a control message is from, and whether that entitles it to anything: every claim of
//! a device id is bound to the key that authenticated the message and to a verified roster.

use super::directory::{Directory, GroupRecord, RosterDevice};
use super::session::Session;
use super::types::GroupCoordinator;
use crate::text::{is_some_text, same};
use vstd::prelude::*;

verus! {

/// The id every account's first device has.
pub const PRIMARY_DEVICE_ID: &'static str = "0";

/// Whether an offer is well formed: every id and the media ticket are, each deadline holds
/// against the others and the clock, and the ring does not outlive the signal.
pub fn valid_offer_shape(
    ids_valid: &[bool],
    ticket_valid: bool,
    offer_deadline_valid: bool,
    signal_deadline_valid: bool,
    control_expiry_valid: bool,
    ring_expires_at: u64,
    expires_at: u64,
) -> (r: bool)
    ensures
        r == ((forall|i: int| 0 <= i < ids_valid@.len() ==> #[trigger] ids_valid@[i]) && ticket_valid
            && offer_deadline_valid && signal_deadline_valid && control_expiry_valid
            && ring_expires_at <= expires_at),
{
    let mut i: usize = 0;
    while i < ids_valid.len()
        invariant
            i <= ids_valid@.len(),
            forall|j: int| 0 <= j < i ==> #[trigger] ids_valid@[j],
        decreases ids_valid@.len() - i,
    {
        if !ids_valid[i] {
            return false;
        }
        i = i + 1;
    }
    ticket_valid && offer_deadline_valid && signal_deadline_valid && control_expiry_valid
        && ring_expires_at <= expires_at
}

/// A roster lists this device id under this key.
pub open spec fn roster_lists(roster: Seq<RosterDevice>, device_id: Seq<char>, key: Seq<char>) -> bool {
    exists|i: int|
        0 <= i < roster.len() && (#[trigger] roster[i]).device_id@ == device_id && roster[i].identity_key@
            == key
}

fn roster_lists_exec(roster: &Vec<RosterDevice>, device_id: &str, key: &str) -> (r: bool)
    ensures
        r == roster_lists(roster@, device_id@, key@),
{
    let mut i: usize = 0;
    while i < roster.len()
        invariant
            i <= roster@.len(),
            forall|j: int|
                0 <= j < i ==> !((#[trigger] roster@[j]).device_id@ == device_id@
                    && roster@[j].identity_key@ == key@),
        decreases roster.len() - i,
    {
        if same(roster[i].device_id.as_str(), device_id) && same(roster[i].identity_key.as_str(), key) {
            return true;
        }
        i = i + 1;
    }
    false
}

/// The key that authenticated a message really is the claimed device of the claimed
/// account: the account's pinned roster lists the pair, or there is no roster and the claim
/// is of the primary device by a key that is attributed to nobody else.
pub open spec fn sender_device_verified(
    dir: Directory,
    username: Seq<char>,
    key: Seq<char>,
    device_id: Seq<char>,
    device_id_valid: bool,
) -> bool {
    &&& username.len() > 0
    &&& device_id_valid
    &&& if dir.has_roster(username) {
        roster_lists(dir.rosters@[username]@, device_id, key)
    } else {
        device_id == PRIMARY_DEVICE_ID@ && dir.account_of(key) == key
    }
}

/// Whether the key that authenticated a message is the claimed device of the claimed
/// account. `device_id_valid` says whether the device id is well formed.
pub fn verified_sender_device(
    dir: &Directory,
    username: &str,
    sender_identity_key: &str,
    device_id: &str,
    device_id_valid: bool,
) -> (r: bool)
    ensures
        r == sender_device_verified(*dir, username@, sender_identity_key@, device_id@, device_id_valid),
{
    if username.is_empty() || !device_id_valid {
        return false;
    }
    match dir.rosters.get(username) {
        Some(roster) => roster_lists_exec(roster, device_id, sender_identity_key),
        None => same(device_id, PRIMARY_DEVICE_ID) && same(
            dir.attribute_device(sender_identity_key).as_str(),
            sender_identity_key,
        ),
    }
}

/// The sender's device is verified and the mailbox it asks to be answered at is the one
/// derived for that device (`None` where no mailbox can be derived).
pub open spec fn sender_route_verified(
    dir: Directory,
    username: Seq<char>,
    key: Seq<char>,
    device_id: Seq<char>,
    device_id_valid: bool,
    derived_mailbox: Option<String>,
    reply_to_mailbox: Seq<char>,
) -> bool {
    &&& sender_device_verified(dir, username, key, device_id, device_id_valid)
    &&& derived_mailbox matches Some(m) && m@ == reply_to_mailbox
}

/// Whether a sender's device and its reply mailbox are both what they claim.
pub fn verified_sender_route(
    dir: &Directory,
    username: &str,
    identity_key: &str,
    device_id: &str,
    device_id_valid: bool,
    derived_mailbox: &Option<String>,
    reply_to_mailbox: &str,
) -> (r: bool)
    ensures
        r == sender_route_verified(
            *dir,
            username@,
            identity_key@,
            device_id@,
            device_id_valid,
            *derived_mailbox,
            reply_to_mailbox@,
        ),
{
    verified_sender_device(dir, username, identity_key, device_id, device_id_valid) && is_some_text(
        derived_mailbox,
        reply_to_mailbox,
    )
}

/// Whether two device keys are attributed to one account.
pub fn same_peer(dir: &Directory, left_device_key: &str, right_device_key: &str) -> (r: bool)
    ensures
        r == (dir.account_of(left_device_key@) == dir.account_of(right_device_key@)),
{
    same(
        dir.attribute_device(left_device_key).as_str(),
        dir.attribute_device(right_device_key).as_str(),
    )
}

/// Whether the named coordinator is a member of the group, and its device and reply mailbox
/// are verified.
pub fn verified_group_coordinator(
    dir: &Directory,
    group: &GroupRecord,
    username: &str,
    identity_key: &str,
    device_id: &str,
    device_id_valid: bool,
    derived_mailbox: &Option<String>,
    reply_to_mailbox: &str,
) -> (r: bool)
    ensures
        r == (group.lists_named(username@, dir.account_of(identity_key@), identity_key@)
            && sender_route_verified(
            *dir,
            username@,
            identity_key@,
            device_id@,
            device_id_valid,
            *derived_mailbox,
            reply_to_mailbox@,
        )),
{
    let account_key: String = dir.attribute_device(identity_key);
    group.has_named(username, account_key.as_str(), identity_key) && verified_sender_route(
        dir,
        username,
        identity_key,
        device_id,
        device_id_valid,
        derived_mailbox,
        reply_to_mailbox,
    )
}

/// Whether a device key belongs to a member of the group.
pub fn verified_group_member(dir: &Directory, group: &GroupRecord, identity_key: &str) -> (r: bool)
    ensures
        r == group.lists_key(dir.account_of(identity_key@), identity_key@),
{
    let account_key: String = dir.attribute_device(identity_key);
    let found: Option<usize> = group.find_key(account_key.as_str(), identity_key);
    match found {
        Some(_) => true,
        None => false,
    }
}

/// This very device coordinates the group call.
pub open spec fn coordinates_here(s: Session, coordinator: GroupCoordinator) -> bool {
    s.account matches Some(account) && coordinator.identity_key@ == account.identity_key@
        && coordinator.device_id@ == s.directory.self_device_id@
}

/// Whether this device is the group call's coordinator.
pub fn local_group_coordinator(s: &Session, coordinator: &GroupCoordinator) -> (r: bool)
    ensures
        r == coordinates_here(*s, *coordinator),
{
    match &s.account {
        Some(account) => coordinator.identity_key == account.identity_key && coordinator.device_id
            == s.directory.self_device_id,
        None => false,
    }
}

/// A device is who it says it is by its account's pinned roster, which lists its id under its key;
/// an account without one has its first device alone, under a key nobody else is known by.
pub proof fn lemma_a_device_is_who_the_roster_says(
    dir: Directory,
    username: Seq<char>,
    key: Seq<char>,
    device_id: Seq<char>,
    valid: bool,
)
    ensures
        sender_device_verified(dir, username, key, device_id, valid) ==> valid && username.len() > 0,
        valid && username.len() > 0 && dir.rosters@.dom().contains(username) ==> (sender_device_verified(
            dir,
            username,
            key,
            device_id,
            valid,
        ) <==> exists|i: int|
            0 <= i < dir.rosters@[username]@.len() && (#[trigger] dir.rosters@[username]@[i]).device_id@ == device_id
                && dir.rosters@[username]@[i].identity_key@ == key),
        valid && username.len() > 0 && !dir.rosters@.dom().contains(username) ==> (sender_device_verified(
            dir,
            username,
            key,
            device_id,
            valid,
        ) <==> device_id == "0"@ && (dir.devices@.dom().contains(key) ==> dir.devices@[key].account_key@ == key)),
{
}

/// A device is answered only at the mailbox that is derived for it.
pub proof fn lemma_a_device_is_answered_at_its_own_mailbox(
    dir: Directory,
    username: Seq<char>,
    key: Seq<char>,
    device_id: Seq<char>,
    valid: bool,
    derived: Option<String>,
    mailbox: Seq<char>,
)
    ensures
        sender_route_verified(dir, username, key, device_id, valid, derived, mailbox) <==> sender_device_verified(
            dir,
            username,
            key,
            device_id,
            valid,
        ) && derived is Some && derived->0@ == mailbox,
{
}

/// A group call is coordinated by one device of one account: the open account's own key and this
/// device's own id.
pub proof fn lemma_who_coordinates_here(s: Session, coordinator: GroupCoordinator)
    ensures
        coordinates_here(s, coordinator) <==> s.account is Some && s.account->0.identity_key@
            == coordinator.identity_key@ && s.directory.self_device_id@ == coordinator.device_id@,
{
}

} // verus!
