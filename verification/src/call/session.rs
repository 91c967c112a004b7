//! The session: everything call control keeps between one event and the next.

use super::directory::Directory;
use super::types::{
    CallBindings, CallCtl, CallTerminalReason, Effect, GroupCallCtl, Label, OutgoingSetup, PendingClaim, PendingGroupClaim,
    PendingGroupOffer, PendingOffer, PendingReconnect, PendingRing, PendingUnlock, RingName,
};
use crate::names::NameMap;
use crate::text::same;
use vstd::prelude::*;

verus! {

/// The signed-in account, while the vault is open.
pub struct Account {
    pub account_id: String,
    pub identity_key: String,
}

/// The user's settings that bear on calls.
pub struct Prefs {
    /// `"generic"` hides who is calling.
    pub notif_level: String,
    pub require_unlock_to_answer: bool,
    pub auto_unlock: bool,
    pub call_retention_secs: u64,
}

/// The protocol's bounds.
#[derive(Clone, Copy, Debug, PartialEq, Eq, Structural)]
pub struct Limits {
    /// How long a ring may sound.
    pub ring_timeout_secs: u64,
    /// How long a control message stays valid.
    pub signal_ttl_secs: u64,
    /// How long an answer waits for an unlock.
    pub unlock_to_answer_secs: u64,
    /// How long a presence check counts.
    pub presence_window_secs: u64,
    pub max_buffered_claims: usize,
    pub max_group_members: usize,
    pub max_leg_reoffers: u32,
}

/// A publication of this device's call-control key.
pub struct PublishedKey {
    pub public_key: String,
    pub created_at: u64,
    pub device_id: String,
}

/// Call control's state.
pub struct Session {
    pub limits: Limits,
    pub prefs: Prefs,
    pub account: Option<Account>,
    /// Which connection is installed. A new login installs a new one.
    pub client: Option<u64>,
    pub multi_device: bool,
    pub directory: Directory,
    pub call: Option<CallCtl>,
    pub incoming: Option<PendingOffer>,
    pub claiming: Option<PendingClaim>,
    pub reconnect: Option<PendingReconnect>,
    pub group_call: Option<GroupCallCtl>,
    pub group_incoming: Option<PendingGroupOffer>,
    pub group_claiming: Option<PendingGroupClaim>,
    /// A call is being set up with the session unlocked.
    pub call_setup: bool,
    pub outgoing_setup: Option<OutgoingSetup>,
    pub pending_unlock: Option<PendingUnlock>,
    /// When the operating system last vouched for a person, on a monotonic clock.
    pub last_presence_ok_ms: Option<u64>,
    /// The account name the sealed call store carries.
    pub store_username: String,
    /// The device id the sealed call store carries; empty while no store is loaded.
    pub store_device_id: String,
    /// Rings announced by capsules.
    pub rings: Vec<PendingRing>,
    /// This device's public call-control key, where it has published one.
    pub call_key: Option<String>,
    /// What this device last published of its call-control key.
    pub call_key_published: Option<PublishedKey>,
    /// The verified call-control keys of other accounts' devices, by account name.
    pub call_bindings: NameMap<CallBindings>,
}

impl Session {
    /// A session at rest: nobody is signed in, no connection is installed, no call is live,
    /// ringing or coming, and nothing is stored.
    pub open spec fn at_rest(self) -> bool {
        &&& self.account is None
        &&& self.client is None
        &&& !self.multi_device
        &&& slot_free(self)
        &&& self.outgoing_setup is None
        &&& self.pending_unlock is None
        &&& self.last_presence_ok_ms is None
        &&& self.store_username@ == Seq::<char>::empty()
        &&& self.store_device_id@ == Seq::<char>::empty()
        &&& self.rings@ == Seq::<PendingRing>::empty()
        &&& self.call_key is None
        &&& self.call_key_published is None
        &&& self.call_bindings@ == Map::<Seq<char>, CallBindings>::empty()
        &&& self.call_bindings.wf()
    }

    /// A session at rest.
    pub fn new(limits: Limits, prefs: Prefs, directory: Directory) -> (r: Session)
        ensures
            r.at_rest(),
            r.limits == limits,
            r.prefs == prefs,
            r.directory == directory,
            forall|handle: Seq<char>| !(#[trigger] super::handles::held(r, handle)),
    {
        let store_username = String::new();
        let store_device_id = String::new();
        assert(store_username@ =~= Seq::<char>::empty());
        assert(store_device_id@ =~= Seq::<char>::empty());
        Session {
            limits,
            prefs,
            account: None,
            client: None,
            multi_device: false,
            directory,
            call: None,
            incoming: None,
            claiming: None,
            reconnect: None,
            group_call: None,
            group_incoming: None,
            group_claiming: None,
            call_setup: false,
            outgoing_setup: None,
            pending_unlock: None,
            last_presence_ok_ms: None,
            store_username,
            store_device_id,
            rings: Vec::new(),
            call_key: None,
            call_key_published: None,
            call_bindings: NameMap::new(),
        }
    }
}

/// The choices for how long call records are kept: not beyond the replay window, a day, a
/// week, a month.
pub const RETENTION_NONE: u64 = 0;

pub const RETENTION_DAY: u64 = 86400;

pub const RETENTION_WEEK: u64 = 604800;

pub const RETENTION_MONTH: u64 = 2592000;

/// A retention the settings offer.
pub open spec fn retention_choice(secs: u64) -> bool {
    secs == RETENTION_NONE || secs == RETENTION_DAY || secs == RETENTION_WEEK || secs == RETENTION_MONTH
}

/// The retention a session applies: the chosen one if the settings offer it, else a week.
pub open spec fn retention_of(s: Session) -> u64 {
    if retention_choice(s.prefs.call_retention_secs) {
        s.prefs.call_retention_secs
    } else {
        RETENTION_WEEK
    }
}

/// How long this device keeps the record of an ended call.
pub fn call_retention_secs(s: &Session) -> (r: u64)
    ensures
        r == retention_of(*s),
        retention_choice(r),
{
    let chosen: u64 = s.prefs.call_retention_secs;
    if chosen == RETENTION_NONE || chosen == RETENTION_DAY || chosen == RETENTION_WEEK || chosen
        == RETENTION_MONTH {
        chosen
    } else {
        RETENTION_WEEK
    }
}

/// An outcome to be entered into the call registry, and how long it is kept there.
pub struct TerminalRecord {
    pub call: String,
    pub offer: String,
    pub reason: CallTerminalReason,
    pub retention: u64,
}

/// The record to make of an outcome this device is told of: it is kept for as long as the user
/// chose.
pub fn record_call_terminal(s: &Session, call: &String, offer: &String, reason: CallTerminalReason) -> (r:
    TerminalRecord)
    ensures
        r == (TerminalRecord { call: *call, offer: *offer, reason, retention: retention_of(*s) }),
{
    TerminalRecord { call: call.clone(), offer: offer.clone(), reason, retention: call_retention_secs(s) }
}

/// Whether nothing is live, ringing, being answered, resumed or set up.
pub open spec fn slot_free(s: Session) -> bool {
    &&& s.call is None
    &&& s.incoming is None
    &&& s.claiming is None
    &&& s.reconnect is None
    &&& s.group_call is None
    &&& s.group_incoming is None
    &&& s.group_claiming is None
    &&& !s.call_setup
}

/// Whether the session is free for a new call.
pub fn call_slot_free(s: &Session) -> (r: bool)
    ensures
        r == slot_free(*s),
{
    s.call.is_none() && s.incoming.is_none() && s.claiming.is_none() && s.reconnect.is_none()
        && s.group_call.is_none() && s.group_incoming.is_none() && s.group_claiming.is_none()
        && !s.call_setup
}

/// Whether `client` is still the connection the session works through.
pub fn is_current(s: &Session, client: u64) -> (r: bool)
    ensures
        r == (s.client == Some(client)),
{
    match s.client {
        Some(current) => current == client,
        None => false,
    }
}

/// The name a ring may show for `name`.
pub open spec fn title_of(s: Session, name: String) -> RingName {
    if s.prefs.notif_level@ == "generic"@ {
        RingName::Generic
    } else {
        RingName::Named(name)
    }
}

/// The name a ring may show, honoring the notification privacy level.
pub fn ring_title(s: &Session, name: &String) -> (r: RingName)
    ensures
        r == title_of(*s, *name),
{
    if same(s.prefs.notif_level.as_str(), "generic") {
        RingName::Generic
    } else {
        RingName::Named(name.clone())
    }
}

impl RingName {
    /// The text a ring shows.
    pub open spec fn shown(self) -> Seq<char> {
        match self {
            RingName::Nobody => Seq::empty(),
            RingName::Generic => "Sona"@,
            RingName::Named(name) => name@,
        }
    }

    /// The text a ring shows.
    pub fn text(&self) -> (r: String)
        ensures
            r@ == self.shown(),
    {
        match self {
            RingName::Nobody => String::new(),
            RingName::Generic => "Sona".to_owned(),
            RingName::Named(name) => name.clone(),
        }
    }
}

impl Clone for RingName {
    fn clone(&self) -> (r: RingName)
        ensures
            r == *self,
    {
        match self {
            RingName::Nobody => RingName::Nobody,
            RingName::Generic => RingName::Generic,
            RingName::Named(name) => RingName::Named(name.clone()),
        }
    }
}

/// A 1:1 outcome entered into the conversation. A call with no conversation leaves none.
pub open spec fn chip(peer_key: String, label: Label) -> Seq<Effect> {
    if peer_key@.len() == 0 {
        Seq::empty()
    } else {
        seq![Effect::RecordChip { peer_key, label }, Effect::Persist, Effect::Sync]
    }
}

/// Enter a 1:1 outcome into the conversation.
pub fn log_call_event(out: &mut Vec<Effect>, peer_key: &String, label: Label)
    ensures
        final(out)@ == old(out)@ + chip(*peer_key, label),
{
    if peer_key.as_str().is_empty() {
        assert(out@ + chip(*peer_key, label) =~= out@);
        return;
    }
    out.push(Effect::RecordChip { peer_key: peer_key.clone(), label });
    out.push(Effect::Persist);
    out.push(Effect::Sync);
    assert(out@ =~= old(out)@ + chip(*peer_key, label));
}

/// A group outcome entered into the conversation.
pub open spec fn group_chip(group_id: String, label: Label) -> Seq<Effect> {
    seq![Effect::RecordGroupChip { group_id, label }, Effect::Persist, Effect::Sync]
}

/// Enter a group outcome into the conversation.
pub fn log_group_call_event(out: &mut Vec<Effect>, group_id: &String, label: Label)
    ensures
        final(out)@ == old(out)@ + group_chip(*group_id, label),
{
    out.push(Effect::RecordGroupChip { group_id: group_id.clone(), label });
    out.push(Effect::Persist);
    out.push(Effect::Sync);
    assert(out@ =~= old(out)@ + group_chip(*group_id, label));
}

/// Only a retention the settings offer is applied; any other choice counts as a week.
pub proof fn lemma_a_retention_is_one_of_four(s: Session)
    ensures
        retention_of(s) == 0 || retention_of(s) == 86400 || retention_of(s) == 604800 || retention_of(s) == 2592000,
        s.prefs.call_retention_secs == 0 || s.prefs.call_retention_secs == 86400 || s.prefs.call_retention_secs
            == 604800 || s.prefs.call_retention_secs == 2592000 ==> retention_of(s)
            == s.prefs.call_retention_secs,
        !(s.prefs.call_retention_secs == 0 || s.prefs.call_retention_secs == 86400 || s.prefs.call_retention_secs
            == 604800 || s.prefs.call_retention_secs == 2592000) ==> retention_of(s) == 604800,
{
}

/// Nothing that is live, rings, is answered, resumed or set up leaves the slot free, of two or of
/// a group.
pub proof fn lemma_anything_takes_the_slot(s: Session)
    ensures
        slot_free(s) <==> !(s.call is Some || s.incoming is Some || s.claiming is Some || s.reconnect is Some
            || s.group_call is Some || s.group_incoming is Some || s.group_claiming is Some || s.call_setup),
{
}

/// Under the generic level a ring shows the same whoever calls; under any other it shows the name.
pub proof fn lemma_the_generic_level_hides_who_calls(s: Session, name: String, other: String)
    ensures
        s.prefs.notif_level@ == "generic"@ ==> title_of(s, name) == title_of(s, other) && title_of(s, name).shown()
            == "Sona"@,
        s.prefs.notif_level@ != "generic"@ ==> title_of(s, name).shown() == name@,
        RingName::Nobody.shown().len() == 0,
{
}

/// An entry goes into the conversation it is about, is saved and shown; without a conversation
/// there is none.
pub proof fn lemma_an_entry_is_saved_and_shown(peer_key: String, group_id: String, label: Label)
    ensures
        peer_key@.len() == 0 ==> chip(peer_key, label).len() == 0,
        peer_key@.len() > 0 ==> chip(peer_key, label).len() == 3 && chip(peer_key, label)[0]
            == (Effect::RecordChip { peer_key, label }) && chip(peer_key, label)[1] == Effect::Persist && chip(
            peer_key,
            label,
        )[2] == Effect::Sync,
        group_chip(group_id, label).len() == 3,
        group_chip(group_id, label)[0] == (Effect::RecordGroupChip { group_id, label }),
        group_chip(group_id, label)[1] == Effect::Persist,
        group_chip(group_id, label)[2] == Effect::Sync,
{
}

/// A session at rest holds nothing of anybody's: nobody is signed in, no connection is there, no
/// call is live, ringing, answered, coming or being set up, and nothing is stored or published.
pub proof fn lemma_a_session_at_rest_holds_nothing(s: Session, name: Seq<char>)
    requires
        s.at_rest(),
    ensures
        s.account is None && s.client is None && !s.multi_device,
        s.call is None && s.incoming is None && s.claiming is None && s.reconnect is None,
        s.group_call is None && s.group_incoming is None && s.group_claiming is None,
        !s.call_setup && s.outgoing_setup is None && s.pending_unlock is None && s.last_presence_ok_ms is None,
        s.store_username@.len() == 0 && s.store_device_id@.len() == 0 && s.rings@.len() == 0,
        s.call_key is None && s.call_key_published is None && !s.call_bindings@.dom().contains(name),
{
}

} // verus!
