//! What the shell knows of other people's devices: which account a device key belongs to,
//! which devices an account's verified roster lists, who is a contact, and who is in a
//! group.

use crate::names::NameMap;
use crate::text::same;
use vstd::prelude::*;

verus! {

/// What is known of one device key.
pub struct KnownDevice {
    /// The key of the account the device is attributed to.
    pub account_key: String,
    pub username: Option<String>,
    pub blocked: bool,
    /// The device belongs to this account.
    pub own: bool,
}

/// One device of a verified roster.
pub struct RosterDevice {
    pub device_id: String,
    pub identity_key: String,
    pub signing_key: String,
}

/// A contact, as far as ringing is concerned.
pub struct ContactPin {
    pub username: String,
    pub blocked: bool,
    /// A message request that has not been accepted.
    pub request: bool,
}

/// A member of a group.
pub struct GroupMember {
    pub username: String,
    pub identity_key: String,
}

impl Clone for GroupMember {
    fn clone(&self) -> (r: GroupMember)
        ensures
            r == *self,
    {
        GroupMember { username: self.username.clone(), identity_key: self.identity_key.clone() }
    }
}

/// A group.
pub struct GroupRecord {
    pub name: String,
    pub members: Vec<GroupMember>,
}

/// The whole of it.
pub struct Directory {
    pub self_device_id: String,
    /// This device was unlinked from the account.
    pub revoked: bool,
    /// By device key.
    pub devices: NameMap<KnownDevice>,
    /// Verified rosters, by account name.
    pub rosters: NameMap<Vec<RosterDevice>>,
    pub contacts: Vec<ContactPin>,
    /// By group id.
    pub groups: NameMap<GroupRecord>,
}

impl Directory {
    /// A directory that knows nobody, on the device with this id.
    pub fn new(self_device_id: String) -> (r: Directory)
        ensures
            r.self_device_id == self_device_id,
            !r.revoked,
            r.devices@ == Map::<Seq<char>, KnownDevice>::empty(),
            r.rosters@ == Map::<Seq<char>, Vec<RosterDevice>>::empty(),
            r.contacts@ == Seq::<ContactPin>::empty(),
            r.groups@ == Map::<Seq<char>, GroupRecord>::empty(),
    {
        Directory {
            self_device_id,
            revoked: false,
            devices: NameMap::new(),
            rosters: NameMap::new(),
            contacts: Vec::new(),
            groups: NameMap::new(),
        }
    }

    /// The account key a device key is attributed to. A key nothing is known of stands for
    /// itself.
    pub open spec fn account_of(self, device_key: Seq<char>) -> Seq<char> {
        if self.devices@.dom().contains(device_key) {
            self.devices@[device_key].account_key@
        } else {
            device_key
        }
    }

    pub open spec fn name_of(self, device_key: Seq<char>) -> Option<String> {
        if self.devices@.dom().contains(device_key) {
            self.devices@[device_key].username
        } else {
            None
        }
    }

    pub open spec fn blocks(self, device_key: Seq<char>) -> bool {
        self.devices@.dom().contains(device_key) && self.devices@[device_key].blocked
    }

    pub open spec fn owns(self, device_key: Seq<char>) -> bool {
        self.devices@.dom().contains(device_key) && self.devices@[device_key].own
    }

    pub open spec fn has_roster(self, username: Seq<char>) -> bool {
        self.rosters@.dom().contains(username)
    }

    pub fn attribute_device(&self, device_key: &str) -> (r: String)
        ensures
            r@ == self.account_of(device_key@),
    {
        match self.devices.get(device_key) {
            Some(known) => known.account_key.clone(),
            None => device_key.to_owned(),
        }
    }

    pub fn username_for_peer(&self, device_key: &str) -> (r: Option<String>)
        ensures
            r == self.name_of(device_key@),
    {
        match self.devices.get(device_key) {
            Some(known) => match &known.username {
                Some(name) => Some(name.clone()),
                None => None,
            },
            None => None,
        }
    }

    pub fn peer_blocked(&self, device_key: &str) -> (r: bool)
        ensures
            r == self.blocks(device_key@),
    {
        match self.devices.get(device_key) {
            Some(known) => known.blocked,
            None => false,
        }
    }

    pub fn is_own_device(&self, device_key: &str) -> (r: bool)
        ensures
            r == self.owns(device_key@),
    {
        match self.devices.get(device_key) {
            Some(known) => known.own,
            None => false,
        }
    }
}

/// The member's key is the sender's, either as the device's or as its account's.
pub open spec fn member_key_matches(member: GroupMember, account_key: Seq<char>, device_key: Seq<char>) -> bool {
    member.identity_key@ == account_key || member.identity_key@ == device_key
}

impl GroupRecord {
    /// Some member answers to this key.
    pub open spec fn lists_key(self, account_key: Seq<char>, device_key: Seq<char>) -> bool {
        exists|i: int|
            0 <= i < self.members@.len() && member_key_matches(
                #[trigger] self.members@[i],
                account_key,
                device_key,
            )
    }

    /// A member of this name answers to this key.
    pub open spec fn lists_named(
        self,
        username: Seq<char>,
        account_key: Seq<char>,
        device_key: Seq<char>,
    ) -> bool {
        exists|i: int|
            0 <= i < self.members@.len() && (#[trigger] self.members@[i]).username@ == username
                && member_key_matches(self.members@[i], account_key, device_key)
    }

    /// The first member that answers to this key.
    pub fn find_key(&self, account_key: &str, device_key: &str) -> (r: Option<usize>)
        ensures
            match r {
                Some(i) => {
                    &&& i < self.members@.len()
                    &&& member_key_matches(self.members@[i as int], account_key@, device_key@)
                    &&& forall|j: int|
                        0 <= j < i ==> !member_key_matches(
                            #[trigger] self.members@[j],
                            account_key@,
                            device_key@,
                        )
                },
                None => !self.lists_key(account_key@, device_key@),
            },
    {
        let mut i: usize = 0;
        while i < self.members.len()
            invariant
                i <= self.members@.len(),
                forall|j: int|
                    0 <= j < i ==> !member_key_matches(
                        #[trigger] self.members@[j],
                        account_key@,
                        device_key@,
                    ),
            decreases self.members.len() - i,
        {
            if same(self.members[i].identity_key.as_str(), account_key) || same(
                self.members[i].identity_key.as_str(),
                device_key,
            ) {
                return Some(i);
            }
            i = i + 1;
        }
        None
    }

    /// Whether a member of this name answers to this key.
    pub fn has_named(&self, username: &str, account_key: &str, device_key: &str) -> (r: bool)
        ensures
            r == self.lists_named(username@, account_key@, device_key@),
    {
        let mut i: usize = 0;
        while i < self.members.len()
            invariant
                i <= self.members@.len(),
                forall|j: int|
                    0 <= j < i ==> !((#[trigger] self.members@[j]).username@ == username@
                        && member_key_matches(self.members@[j], account_key@, device_key@)),
            decreases self.members.len() - i,
        {
            if same(self.members[i].username.as_str(), username) && (same(
                self.members[i].identity_key.as_str(),
                account_key,
            ) || same(self.members[i].identity_key.as_str(), device_key)) {
                return true;
            }
            i = i + 1;
        }
        false
    }
}

/// What is known of a key is what the directory has under that key; a key it does not have stands
/// for itself, has no name, and is neither blocked nor this account's own.
pub proof fn lemma_what_is_known_of_a_key(dir: Directory, key: Seq<char>)
    ensures
        dir.devices@.dom().contains(key) ==> dir.account_of(key) == dir.devices@[key].account_key@ && dir.name_of(key)
            == dir.devices@[key].username && dir.blocks(key) == dir.devices@[key].blocked && dir.owns(key)
            == dir.devices@[key].own,
        !dir.devices@.dom().contains(key) ==> dir.account_of(key) == key && dir.name_of(key) is None && !dir.blocks(key)
            && !dir.owns(key),
{
}

/// A member answers to the key the group lists it under, be it a device's or its account's, and a
/// member of a name only under that name.
pub proof fn lemma_who_is_in_a_group(
    group: GroupRecord,
    username: Seq<char>,
    account_key: Seq<char>,
    device_key: Seq<char>,
)
    ensures
        group.lists_key(account_key, device_key) <==> exists|i: int|
            0 <= i < group.members@.len() && ((#[trigger] group.members@[i]).identity_key@ == account_key
                || group.members@[i].identity_key@ == device_key),
        group.lists_named(username, account_key, device_key) <==> exists|i: int|
            0 <= i < group.members@.len() && (#[trigger] group.members@[i]).username@ == username && (
            group.members@[i].identity_key@ == account_key || group.members@[i].identity_key@ == device_key),
{
}

} // verus!
