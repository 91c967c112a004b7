//! Who a capsule entitles to do what, and what it does to the calls this device holds.
//!
//! A verified signature says that somebody this device lets ring it sent the capsule. Whether
//! that sender may end the call it names is another question, with the answer the encrypted
//! layer gives to it.

use super::auth::{coordinates_here, local_group_coordinator};
use super::directory::{ContactPin, RosterDevice};
use super::ending::{
    after_ending, end_local_call_state, ending_effects, expected_peer, expected_peer_exec,
    lemma_ending_is_apart_from_the_rings,
};
use super::handles::{lemma_no_orphans_in_a_row, lemma_one_dropped, no_orphans};
use super::session::Session;
use super::signal::{call_is, claiming_is, incoming_is, is_call, is_claiming, is_incoming};
use super::store::{
    find_ring, lemma_a_new_ring, lemma_one_ring_out, one_ring_per_call, ring_down, ring_of, ring_pending, same_but_rings, take_ring_down,
    without_ring,
};
use super::types::{
    CallCapsule, CallKeyBinding, CallTerminalReason, CapsuleKind, CapsuleSigner, Effect, GroupCoordinator,
    OfferDecision, PendingRing,
};
use crate::text::{is_some_text, same};
use vstd::prelude::*;

verus! {

/// The roster lists the device.
pub open spec fn on_roster(devices: Seq<RosterDevice>, device_id: Seq<char>) -> bool {
    exists|i: int| 0 <= i < devices.len() && (#[trigger] devices[i]).device_id@ == device_id
}

fn is_on_roster(devices: &Vec<RosterDevice>, device_id: &str) -> (r: bool)
    ensures
        r == on_roster(devices@, device_id@),
{
    let mut i: usize = 0;
    while i < devices.len()
        invariant
            i <= devices@.len(),
            forall|j: int| 0 <= j < i ==> (#[trigger] devices@[j]).device_id@ != device_id@,
        decreases devices.len() - i,
    {
        if same(devices[i].device_id.as_str(), device_id) {
            return true;
        }
        i = i + 1;
    }
    false
}

/// The signing key a roster lists for a device, if it lists one; of several the last.
pub open spec fn roster_key(devices: Seq<RosterDevice>, device_id: Seq<char>) -> Option<String>
    decreases devices.len(),
{
    if devices.len() == 0 {
        None
    } else if devices.last().device_id@ == device_id && devices.last().signing_key@.len() > 0 {
        Some(devices.last().signing_key)
    } else {
        roster_key(devices.drop_last(), device_id)
    }
}

fn roster_key_exec(devices: &Vec<RosterDevice>, device_id: &str) -> (r: Option<String>)
    ensures
        r == roster_key(devices@, device_id@),
{
    let mut i: usize = devices.len();
    assert(devices@.take(i as int) =~= devices@);
    while i > 0
        invariant
            i <= devices@.len(),
            roster_key(devices@, device_id@) == roster_key(devices@.take(i as int), device_id@),
        decreases i,
    {
        let ghost upto = devices@.take(i as int);
        assert(upto.drop_last() =~= devices@.take(i - 1));
        assert(upto.last() == devices@[i - 1]);
        let device = &devices[i - 1];
        if same(device.device_id.as_str(), device_id) && !device.signing_key.as_str().is_empty() {
            return Some(device.signing_key.clone());
        }
        i = i - 1;
    }
    None
}

/// The call-control signing key bound to a device, if one is; of several the last.
pub open spec fn bound_key(devices: Seq<(String, CallKeyBinding)>, device_id: Seq<char>) -> Option<String>
    decreases devices.len(),
{
    if devices.len() == 0 {
        None
    } else if devices.last().0@ == device_id && devices.last().1.call_signing_key@.len() > 0 {
        Some(devices.last().1.call_signing_key)
    } else {
        bound_key(devices.drop_last(), device_id)
    }
}

fn bound_key_exec(devices: &Vec<(String, CallKeyBinding)>, device_id: &str) -> (r: Option<String>)
    ensures
        r == bound_key(devices@, device_id@),
{
    let mut i: usize = devices.len();
    assert(devices@.take(i as int) =~= devices@);
    while i > 0
        invariant
            i <= devices@.len(),
            bound_key(devices@, device_id@) == bound_key(devices@.take(i as int), device_id@),
        decreases i,
    {
        let ghost upto = devices@.take(i as int);
        assert(upto.drop_last() =~= devices@.take(i - 1));
        assert(upto.last() == devices@[i - 1]);
        let entry = &devices[i - 1];
        if same(entry.0.as_str(), device_id) && !entry.1.call_signing_key.as_str().is_empty() {
            return Some(entry.1.call_signing_key.clone());
        }
        i = i - 1;
    }
    None
}

/// The account is a contact that may ring: neither blocked nor a request still to be accepted.
pub open spec fn may_ring_as(contacts: Seq<ContactPin>, username: Seq<char>) -> bool {
    exists|i: int|
        0 <= i < contacts.len() && (#[trigger] contacts[i]).username@ == username && !contacts[i].blocked
            && !contacts[i].request
}

fn is_ringing_contact(contacts: &Vec<ContactPin>, username: &str) -> (r: bool)
    ensures
        r == may_ring_as(contacts@, username@),
{
    let mut i: usize = 0;
    while i < contacts.len()
        invariant
            i <= contacts@.len(),
            forall|j: int|
                0 <= j < i ==> !((#[trigger] contacts@[j]).username@ == username@ && !contacts@[j].blocked
                    && !contacts@[j].request),
        decreases contacts.len() - i,
    {
        if same(contacts[i].username.as_str(), username) && !contacts[i].blocked && !contacts[i].request {
            return true;
        }
        i = i + 1;
    }
    false
}

/// The account is this one or a contact that may ring, and its roster is pinned.
pub open spec fn screened(s: Session, username: Seq<char>) -> bool {
    &&& (s.account matches Some(account) && account.account_id@ == username) || may_ring_as(
        s.directory.contacts@,
        username,
    )
    &&& s.directory.has_roster(username)
}

/// The key a capsule's signature must verify under.
pub open spec fn capsule_key(s: Session, capsule: CallCapsule) -> Option<String> {
    if !screened(s, capsule.from@) {
        None
    } else {
        match capsule.signer {
            CapsuleSigner::Roster => roster_key(
                s.directory.rosters@[capsule.from@]@,
                capsule.caller_device_id@,
            ),
            CapsuleSigner::CallKey => if on_roster(
                s.directory.rosters@[capsule.from@]@,
                capsule.caller_device_id@,
            ) && s.call_bindings@.dom().contains(capsule.from@) {
                bound_key(s.call_bindings@[capsule.from@].devices@, capsule.caller_device_id@)
            } else {
                None
            },
        }
    }
}

/// The key a capsule's signature must verify under, from verified state alone. A sender that
/// is blocked or unknown, or a device its account's roster does not list, has none, and the
/// capsule is refused.
pub fn capsule_signing_keys(s: &Session, capsule: &CallCapsule) -> (r: Option<String>)
    ensures
        r == capsule_key(*s, *capsule),
{
    let own = match &s.account {
        Some(account) => account.account_id == capsule.from,
        None => false,
    };
    if !own && !is_ringing_contact(&s.directory.contacts, capsule.from.as_str()) {
        return None;
    }
    match s.directory.rosters.get(capsule.from.as_str()) {
        None => None,
        Some(roster) => match capsule.signer {
            CapsuleSigner::Roster => roster_key_exec(roster, capsule.caller_device_id.as_str()),
            CapsuleSigner::CallKey => {
                if !is_on_roster(roster, capsule.caller_device_id.as_str()) {
                    return None;
                }
                match s.call_bindings.get(capsule.from.as_str()) {
                    Some(cached) => bound_key_exec(&cached.devices, capsule.caller_device_id.as_str()),
                    None => None,
                }
            },
        },
    }
}

/// Who this device is: the open account, or the name the sealed store carries.
pub open spec fn own_name(s: Session) -> Seq<char> {
    match s.account {
        Some(account) => account.account_id@,
        None => s.store_username@,
    }
}

/// An outcome a peer's side may announce.
pub open spec fn peers_to_say(reason: CallTerminalReason) -> bool {
    reason is CallerCancelled || reason is Expired || reason is TransportError || reason is DeclinedHere
        || reason is Busy
}

/// An outcome that ends a group call for everybody.
pub open spec fn ends_group(reason: CallTerminalReason) -> bool {
    reason is CallerCancelled || reason is Expired || reason is TransportError
}

pub fn is_ends_group(reason: CallTerminalReason) -> (r: bool)
    ensures
        r == ends_group(reason),
{
    match reason {
        CallTerminalReason::CallerCancelled => true,
        CallTerminalReason::Expired => true,
        CallTerminalReason::TransportError => true,
        _ => false,
    }
}

/// The pending ring of the call was announced by this very device.
pub open spec fn announced_by(s: Session, capsule: CallCapsule) -> bool {
    let ring = ring_of(s.rings@, capsule.call_instance_id@);
    ring.from@ == capsule.from@ && ring.caller_device_id@ == capsule.caller_device_id@
}

/// The coordinator of the group call this session holds under this id, be it live, ringing or
/// answered, in this order.
pub open spec fn held_coordinator(s: Session, call: Seq<char>) -> Option<GroupCoordinator> {
    if s.group_call is Some && s.group_call->0.call_instance@ == call {
        Some(s.group_call->0.coordinator)
    } else if s.group_incoming is Some && s.group_incoming->0.call_instance@ == call {
        Some(s.group_incoming->0.coordinator)
    } else if s.group_claiming is Some && s.group_claiming->0.offer.call_instance@ == call {
        Some(s.group_claiming->0.offer.coordinator)
    } else {
        None
    }
}

pub fn held_coordinator_exec(s: &Session, call: &str) -> (r: Option<GroupCoordinator>)
    ensures
        r == held_coordinator(*s, call@),
{
    if let Some(g) = &s.group_call {
        if same(g.call_instance.as_str(), call) {
            return Some(g.coordinator.clone());
        }
    }
    if let Some(o) = &s.group_incoming {
        if same(o.call_instance.as_str(), call) {
            return Some(o.coordinator.clone());
        }
    }
    if let Some(p) = &s.group_claiming {
        if same(p.offer.call_instance.as_str(), call) {
            return Some(p.offer.coordinator.clone());
        }
    }
    None
}

/// The capsule's signer may end the call it names, with this outcome:
///
/// - this account's own devices may say anything about this account's calls;
/// - anybody else only what is their side's to say;
/// - a group call is ended by its coordinator alone, with an outcome that ends one: the
///   coordinator on record, or else whoever announced the ring;
/// - a 1:1 call by the peer on record, or else by whoever announced the ring;
/// - a call this session holds as a group call is one, whatever the capsule says of it;
/// - a call nothing is known of by anybody who can name it.
pub open spec fn terminal_allowed(s: Session, capsule: CallCapsule, reason: CallTerminalReason) -> bool {
    let call = capsule.call_instance_id@;
    if own_name(s).len() > 0 && capsule.from@ == own_name(s) {
        true
    } else if !peers_to_say(reason) {
        false
    } else if capsule.group || held_coordinator(s, call) is Some {
        ends_group(reason) && match held_coordinator(s, call) {
            Some(c) => c.username@ == capsule.from@ && c.device_id@ == capsule.caller_device_id@,
            None => ring_pending(s.rings@, call) ==> announced_by(s, capsule),
        }
    } else {
        match expected_peer(s, call) {
            Some((_, username)) => username@ == capsule.from@,
            None => ring_pending(s.rings@, call) ==> announced_by(s, capsule),
        }
    }
}

/// Whether a capsule's signer may end the call it names, with this outcome.
pub fn capsule_terminal_allowed(s: &Session, capsule: &CallCapsule, reason: CallTerminalReason) -> (r: bool)
    ensures
        r == terminal_allowed(*s, *capsule, reason),
{
    let own = match &s.account {
        Some(account) => !account.account_id.as_str().is_empty() && capsule.from == account.account_id,
        None => !s.store_username.as_str().is_empty() && capsule.from == s.store_username,
    };
    if own {
        return true;
    }
    let theirs = match reason {
        CallTerminalReason::DeclinedHere => true,
        CallTerminalReason::Busy => true,
        _ => is_ends_group(reason),
    };
    if !theirs {
        return false;
    }
    let announced_or_unknown = match find_ring(&s.rings, capsule.call_instance_id.as_str()) {
        Some(i) => s.rings[i].from == capsule.from && s.rings[i].caller_device_id
            == capsule.caller_device_id,
        None => true,
    };
    let coordinator = held_coordinator_exec(s, capsule.call_instance_id.as_str());
    if capsule.group || coordinator.is_some() {
        if !is_ends_group(reason) {
            return false;
        }
        return match coordinator {
            Some(c) => c.username == capsule.from && c.device_id == capsule.caller_device_id,
            None => announced_or_unknown,
        };
    }
    match expected_peer_exec(s, capsule.call_instance_id.as_str()) {
        Some((_, username)) => username == capsule.from,
        None => announced_or_unknown,
    }
}

/// Whether a group outcome goes out as capsules too: only the coordinator's own, and only one
/// that ends the call for everybody. Nothing else would be acted on.
pub open spec fn worth_sending(s: Session, coordinator: GroupCoordinator, reason: CallTerminalReason) -> bool {
    coordinates_here(s, coordinator) && ends_group(reason)
}

/// Whether a group outcome is worth sending as capsules.
pub fn group_terminal_capsule_worth_sending(
    s: &Session,
    coordinator: &GroupCoordinator,
    reason: CallTerminalReason,
) -> (r: bool)
    ensures
        r == worth_sending(*s, *coordinator, reason),
{
    local_group_coordinator(s, coordinator) && is_ends_group(reason)
}

/// The receiver has the call down as coordinated by this device of this account.
pub open spec fn coordinated_for(s: Session, call: Seq<char>, coordinator: GroupCoordinator) -> bool {
    match held_coordinator(s, call) {
        Some(c) => c.username@ == coordinator.username@ && c.device_id@ == coordinator.device_id@,
        None => ring_pending(s.rings@, call) && ring_of(s.rings@, call).from@ == coordinator.username@
            && ring_of(s.rings@, call).caller_device_id@ == coordinator.device_id@,
    }
}

/// A group outcome is sent as a capsule exactly when a member that holds the call would act on
/// it. `sender` and `receiver` are different accounts; the sender signs as itself; and it is
/// the coordinator on record exactly when it goes by the coordinator's name and device.
pub proof fn lemma_a_group_outcome_is_sent_exactly_when_accepted(
    sender: Session,
    receiver: Session,
    capsule: CallCapsule,
    coordinator: GroupCoordinator,
    reason: CallTerminalReason,
)
    requires
        sender.account is Some,
        capsule.group,
        capsule.from@ == sender.account->0.account_id@,
        capsule.caller_device_id@ == sender.directory.self_device_id@,
        own_name(receiver) != capsule.from@,
        coordinated_for(receiver, capsule.call_instance_id@, coordinator),
        coordinates_here(sender, coordinator) <==> (coordinator.username@ == capsule.from@
            && coordinator.device_id@ == capsule.caller_device_id@),
    ensures
        worth_sending(sender, coordinator, reason) <==> terminal_allowed(receiver, capsule, reason),
{
}

/// A ring this session already holds in another form: ringing, answered or live, as a call of
/// two or of a group.
pub open spec fn offer_known(s: Session, call: Seq<char>) -> bool {
    incoming_is(s, call) || claiming_is(s, call) || call_is(s, call) || held_coordinator(s, call) is Some
}

/// What a verified capsule asks for.
#[derive(Clone, Copy, Debug, PartialEq, Eq, Structural)]
pub enum CapsuleStep {
    /// Nothing.
    Ignore,
    /// Put the offer to the registry; see [`capsule_offer`].
    RecordOffer,
    /// Put the outcome to the registry; see [`capsule_terminal`].
    RecordTerminal(CallTerminalReason),
}

/// What a verified capsule asks for: an offer to be recorded unless this session holds the
/// call already, an outcome if its signer may announce it.
pub open spec fn capsule_step(s: Session, capsule: CallCapsule) -> CapsuleStep {
    match capsule.kind {
        CapsuleKind::Offer => if offer_known(s, capsule.call_instance_id@) {
            CapsuleStep::Ignore
        } else {
            CapsuleStep::RecordOffer
        },
        CapsuleKind::Terminal => match capsule.reason {
            None => CapsuleStep::Ignore,
            Some(reason) => if terminal_allowed(s, capsule, reason) {
                CapsuleStep::RecordTerminal(reason)
            } else {
                CapsuleStep::Ignore
            },
        },
    }
}

/// Decide what a verified capsule asks for.
pub fn apply_capsule(s: &Session, capsule: &CallCapsule) -> (r: CapsuleStep)
    ensures
        r == capsule_step(*s, *capsule),
{
    match capsule.kind {
        CapsuleKind::Offer => {
            let call: &str = capsule.call_instance_id.as_str();
            if is_incoming(s, call) || is_claiming(s, call) || is_call(s, call) || held_coordinator_exec(
                s,
                call,
            ).is_some() {
                CapsuleStep::Ignore
            } else {
                CapsuleStep::RecordOffer
            }
        },
        CapsuleKind::Terminal => match capsule.reason {
            None => CapsuleStep::Ignore,
            Some(reason) => if capsule_terminal_allowed(s, capsule, reason) {
                CapsuleStep::RecordTerminal(reason)
            } else {
                CapsuleStep::Ignore
            },
        },
    }
}

/// The ring a capsule announces. `reply_call_mailbox` is where the sender can be answered
/// while this device is locked; see [`reply_route`].
pub open spec fn announced_ring(
    capsule: CallCapsule,
    ring_handle: String,
    reply_call_mailbox: String,
) -> PendingRing {
    PendingRing {
        call_instance_id: capsule.call_instance_id,
        offer_id: capsule.offer_id,
        ring_handle,
        from: capsule.from,
        display_name: capsule.display_name,
        video: capsule.video,
        group: capsule.group,
        caller_device_id: capsule.caller_device_id,
        reply_to_mailbox: capsule.reply_to_mailbox,
        reply_call_mailbox,
        reply_call_key: capsule.reply_call_key,
        created_at: capsule.created_at,
        ring_expires_at: capsule.ring_expires_at,
        presented_as: None,
    }
}

/// Where a sender can be answered: at the mailbox the capsule names, if that is the one this
/// device derives for the sender; else nowhere.
pub open spec fn reply_route(capsule: CallCapsule, derived: Option<String>) -> Seq<char> {
    if derived is Some && derived->0@ == capsule.reply_call_mailbox@ {
        capsule.reply_call_mailbox@
    } else {
        Seq::empty()
    }
}

/// Where a sender can be answered while this device is locked. `derived` is the call-control
/// mailbox this device derives for the sender's device.
pub fn kept_reply_route(capsule: &CallCapsule, derived: &Option<String>) -> (r: String)
    ensures
        r@ == reply_route(*capsule, *derived),
{
    if is_some_text(derived, capsule.reply_call_mailbox.as_str()) {
        return capsule.reply_call_mailbox.clone();
    }
    String::new()
}

/// A capsule whose reply route this device derives itself is answered there, and one that names
/// any other place nowhere.
pub proof fn lemma_only_the_derived_route_is_kept(capsule: CallCapsule, derived: Option<String>)
    ensures
        reply_route(capsule, derived).len() > 0 ==> derived is Some && derived->0@ == reply_route(
            capsule,
            derived,
        ),
        derived is Some && derived->0@ == capsule.reply_call_mailbox@ ==> reply_route(capsule, derived)
            == capsule.reply_call_mailbox@,
{
}

/// What a capsule's offer does to the session once the registry has decided on it: a call that
/// rings and has no ring yet gets one, and nothing else changes.
pub open spec fn capsule_offered(
    before: Session,
    capsule: CallCapsule,
    decision: OfferDecision,
    ring_handle: String,
    derived_mailbox: Option<String>,
    after: Session,
) -> bool {
    let added = decision is Ring && !ring_pending(before.rings@, capsule.call_instance_id@);
    let reply = after.rings@.last().reply_call_mailbox;
    &&& same_but_rings(after, before)
    &&& !added ==> after.rings@ == before.rings@
    &&& added ==> after.rings@ == before.rings@.push(announced_ring(capsule, ring_handle, reply)) && reply@
        == reply_route(capsule, derived_mailbox)
}

/// The registry has decided on a capsule's offer: a new ring waits in the store for the
/// encrypted offer to take it over, and anything else changes nothing. A call rings once: the
/// ring of a call that has one already is not added.
pub fn capsule_offer(
    s: &mut Session,
    capsule: CallCapsule,
    decision: OfferDecision,
    ring_handle: String,
    derived_mailbox: &Option<String>,
) -> (out: Vec<Effect>)
    ensures
        capsule_offered(*old(s), capsule, decision, ring_handle, *derived_mailbox, *final(s)),
        one_ring_per_call(old(s).rings@) ==> one_ring_per_call(final(s).rings@),
        out@ == seq![Effect::SaveStore],
        no_orphans(*old(s), *final(s), out@),
{
    let mut out: Vec<Effect> = Vec::new();
    out.push(Effect::SaveStore);
    if find_ring(&s.rings, capsule.call_instance_id.as_str()).is_some() {
        return out;
    }
    match decision {
        OfferDecision::Ring => {
            let reply_call_mailbox: String = kept_reply_route(&capsule, derived_mailbox);
            s.rings.push(
                PendingRing {
                    call_instance_id: capsule.call_instance_id,
                    offer_id: capsule.offer_id,
                    ring_handle,
                    from: capsule.from,
                    display_name: capsule.display_name,
                    video: capsule.video,
                    group: capsule.group,
                    caller_device_id: capsule.caller_device_id,
                    reply_to_mailbox: capsule.reply_to_mailbox,
                    reply_call_mailbox,
                    reply_call_key: capsule.reply_call_key,
                    created_at: capsule.created_at,
                    ring_expires_at: capsule.ring_expires_at,
                    presented_as: None,
                },
            );
            proof {
                lemma_a_new_ring(old(s).rings@, s.rings@.last());
                assert(s.rings@ =~= old(s).rings@.push(s.rings@.last()));
            }
        },
        _ => {},
    }
    out
}

/// What an outcome does to the session once it has been recorded: the ring goes if the store let
/// go of it, and so does whatever the session holds for the call.
pub open spec fn capsule_ended(before: Session, call: Seq<char>, ends_ring: bool, after: Session) -> bool {
    &&& after == (Session { rings: after.rings, ..after_ending(before, call) })
    &&& after.rings@ == if ends_ring && ring_pending(before.rings@, call) {
        without_ring(before.rings@, call)
    } else {
        before.rings@
    }
}

/// An outcome a capsule may announce has been recorded. The ring the store let go comes down
/// wherever it shows, and so does whatever this session holds for the call.
pub fn capsule_terminal(s: &mut Session, call: &String, reason: CallTerminalReason, ends_ring: bool) -> (out:
    Vec<Effect>)
    ensures
        capsule_ended(*old(s), call@, ends_ring, *final(s)),
        out@ == seq![Effect::SaveStore] + (if ends_ring && ring_pending(old(s).rings@, call@) {
            ring_down(ring_of(old(s).rings@, call@))
        } else {
            Seq::<Effect>::empty()
        }) + ending_effects(*old(s), call@, reason),
        no_orphans(*old(s), *final(s), out@),
{
    let mut out: Vec<Effect> = Vec::new();
    out.push(Effect::SaveStore);
    if ends_ring {
        match find_ring(&s.rings, call.as_str()) {
            Some(i) => {
                let ring: PendingRing = s.rings.remove(i);
                take_ring_down(&mut out, ring);
            },
            None => {},
        }
    }
    let ghost head = out@;
    let ghost mid = *s;
    assert(head =~= seq![Effect::SaveStore] + (if ends_ring && ring_pending(old(s).rings@, call@) {
        ring_down(ring_of(old(s).rings@, call@))
    } else {
        Seq::<Effect>::empty()
    }));
    let mut ending: Vec<Effect> = end_local_call_state(s, call.as_str(), reason);
    let ghost tail = ending@;
    out.append(&mut ending);
    proof {
        lemma_ending_is_apart_from_the_rings(mid, *old(s), call@, reason);
        if ends_ring && ring_pending(old(s).rings@, call@) {
            lemma_one_ring_out(old(s).rings@, call@);
            lemma_one_dropped(
                *old(s),
                mid,
                head,
                head.len() - 1,
                ring_of(old(s).rings@, call@).ring_handle@,
            );
        }
        lemma_no_orphans_in_a_row(*old(s), mid, *s, head, tail);
    }
    out
}

/// Who may end a call of two by a capsule: this account's own devices with any outcome, and of
/// everybody else only the peer the session holds it with, with what is their side's to say. A call
/// held with nobody is its announcer's, and one nothing is known of anybody's who can name it.
pub proof fn lemma_who_may_end_a_call_of_two(s: Session, capsule: CallCapsule, reason: CallTerminalReason)
    requires
        s.account is Some,
        s.account->0.account_id@.len() > 0,
        !capsule.group,
        s.group_call is None && s.group_incoming is None && s.group_claiming is None,
        one_ring_per_call(s.rings@),
    ensures
        ({
            let call = capsule.call_instance_id@;
            let own = capsule.from@ == s.account->0.account_id@;
            let theirs = reason is CallerCancelled || reason is Expired || reason is TransportError
                || reason is DeclinedHere || reason is Busy;
            let ok = terminal_allowed(s, capsule, reason);
            &&& own ==> ok
            &&& !own && !theirs ==> !ok
            &&& !own && theirs && s.call is Some && s.call->0.call_instance_id@ == call ==> (ok <==> capsule.from@
                == s.call->0.peer_username@)
            &&& !own && theirs && s.call is None && s.incoming is Some && s.incoming->0.call_instance_id@ == call ==> (
            ok <==> capsule.from@ == s.incoming->0.username@)
            &&& !own && theirs && s.call is None && s.incoming is None && s.claiming is Some
                && s.claiming->0.offer.call_instance_id@ == call ==> (ok <==> capsule.from@
                == s.claiming->0.offer.username@)
            &&& !own && theirs && s.call is None && s.incoming is None && s.claiming is None && s.reconnect is Some
                && s.reconnect->0.call_instance_id@ == call ==> (ok <==> capsule.from@
                == s.reconnect->0.peer_username@)
            &&& !own && theirs && s.call is None && s.incoming is None && s.claiming is None && s.reconnect is None
                ==> (ok <==> forall|i: int|
                0 <= i < s.rings@.len() && (#[trigger] s.rings@[i]).call_instance_id@ == call ==> s.rings@[i].from@
                    == capsule.from@ && s.rings@[i].caller_device_id@ == capsule.caller_device_id@)
        }),
{
    let call = capsule.call_instance_id@;
    super::store::lemma_ring_pos(s.rings@, call);
    let at = super::store::ring_pos(s.rings@, call);
    assert forall|i: int| 0 <= i < s.rings@.len() && (#[trigger] s.rings@[i]).call_instance_id@ == call implies i
        == at by {
        if at < i {
            assert(s.rings@[at].call_instance_id@ == call);
        }
    }
    if at < s.rings@.len() {
        assert(s.rings@[at].call_instance_id@ == call);
    }
}

/// A group call this session holds, in whatever form, is ended by a capsule of its coordinating
/// device alone, with an outcome that ends it for everybody, whatever the capsule says of itself.
pub proof fn lemma_who_may_end_a_group_call(s: Session, capsule: CallCapsule, reason: CallTerminalReason)
    requires
        s.account is Some,
        capsule.from@ != s.account->0.account_id@,
    ensures
        ({
            let call = capsule.call_instance_id@;
            let over = reason is CallerCancelled || reason is Expired || reason is TransportError;
            let ok = terminal_allowed(s, capsule, reason);
            &&& s.group_call is Some && s.group_call->0.call_instance@ == call ==> (ok <==> over
                && s.group_call->0.coordinator.username@ == capsule.from@ && s.group_call->0.coordinator.device_id@
                == capsule.caller_device_id@)
            &&& s.group_call is None && s.group_incoming is Some && s.group_incoming->0.call_instance@ == call ==> (ok
                <==> over && s.group_incoming->0.coordinator.username@ == capsule.from@
                && s.group_incoming->0.coordinator.device_id@ == capsule.caller_device_id@)
            &&& s.group_call is None && s.group_incoming is None && s.group_claiming is Some
                && s.group_claiming->0.offer.call_instance@ == call ==> (ok <==> over
                && s.group_claiming->0.offer.coordinator.username@ == capsule.from@
                && s.group_claiming->0.offer.coordinator.device_id@ == capsule.caller_device_id@)
            &&& capsule.group && !over ==> !ok
        }),
{
}

/// A capsule is checked under a key only for whom this device lets ring it: this account, or a
/// contact that is neither blocked nor a request still to be accepted, whose roster is pinned. A
/// roster's key is one the roster lists for that device; a call-control key is one bound to a
/// device the roster lists.
pub proof fn lemma_a_capsule_is_checked_for_known_callers(s: Session, capsule: CallCapsule)
    requires
        capsule_key(s, capsule) is Some,
    ensures
        ({
            let from = capsule.from@;
            let key = capsule_key(s, capsule)->0;
            let roster = s.directory.rosters@[from]@;
            &&& (s.account is Some && s.account->0.account_id@ == from) || exists|i: int|
                0 <= i < s.directory.contacts@.len() && (#[trigger] s.directory.contacts@[i]).username@ == from
                    && !s.directory.contacts@[i].blocked && !s.directory.contacts@[i].request
            &&& s.directory.rosters@.dom().contains(from)
            &&& exists|i: int|
                0 <= i < roster.len() && (#[trigger] roster[i]).device_id@ == capsule.caller_device_id@ && (
                capsule.signer is Roster ==> roster[i].signing_key == key)
            &&& capsule.signer is CallKey ==> s.call_bindings@.dom().contains(from) && exists|i: int|
                0 <= i < s.call_bindings@[from].devices@.len() && (
                #[trigger] s.call_bindings@[from].devices@[i]).0@ == capsule.caller_device_id@
                    && s.call_bindings@[from].devices@[i].1.call_signing_key == key
            &&& key@.len() > 0
        }),
{
    if capsule.signer is Roster {
        lemma_roster_key(s.directory.rosters@[capsule.from@]@, capsule.caller_device_id@);
    } else {
        lemma_bound_key(s.call_bindings@[capsule.from@].devices@, capsule.caller_device_id@);
    }
}

proof fn lemma_roster_key(devices: Seq<RosterDevice>, device_id: Seq<char>)
    ensures
        roster_key(devices, device_id) matches Some(key) ==> key@.len() > 0 && exists|i: int|
            0 <= i < devices.len() && (#[trigger] devices[i]).device_id@ == device_id && devices[i].signing_key == key,
        roster_key(devices, device_id) is None ==> forall|i: int|
            0 <= i < devices.len() && (#[trigger] devices[i]).device_id@ == device_id ==> devices[i].signing_key@.len()
                == 0,
    decreases devices.len(),
{
    if devices.len() > 0 {
        let head = devices.drop_last();
        lemma_roster_key(head, device_id);
        if devices.last().device_id@ == device_id && devices.last().signing_key@.len() > 0 {
            assert(devices[devices.len() - 1] == devices.last());
        } else {
            if roster_key(head, device_id) is Some {
                let i = choose|i: int|
                    0 <= i < head.len() && (#[trigger] head[i]).device_id@ == device_id && head[i].signing_key
                        == roster_key(head, device_id)->0;
                assert(devices[i] == head[i]);
            } else {
                assert forall|i: int| 0 <= i < devices.len() && (#[trigger] devices[i]).device_id@ == device_id implies
                    devices[i].signing_key@.len() == 0 by {
                    if i < head.len() {
                        assert(head[i] == devices[i]);
                    }
                }
            }
        }
    }
}

proof fn lemma_bound_key(devices: Seq<(String, CallKeyBinding)>, device_id: Seq<char>)
    ensures
        bound_key(devices, device_id) matches Some(key) ==> key@.len() > 0 && exists|i: int|
            0 <= i < devices.len() && (#[trigger] devices[i]).0@ == device_id && devices[i].1.call_signing_key == key,
        bound_key(devices, device_id) is None ==> forall|i: int|
            0 <= i < devices.len() && (#[trigger] devices[i]).0@ == device_id
                ==> devices[i].1.call_signing_key@.len() == 0,
    decreases devices.len(),
{
    if devices.len() > 0 {
        let head = devices.drop_last();
        lemma_bound_key(head, device_id);
        if devices.last().0@ == device_id && devices.last().1.call_signing_key@.len() > 0 {
            assert(devices[devices.len() - 1] == devices.last());
        } else {
            if bound_key(head, device_id) is Some {
                let i = choose|i: int|
                    0 <= i < head.len() && (#[trigger] head[i]).0@ == device_id && head[i].1.call_signing_key
                        == bound_key(head, device_id)->0;
                assert(devices[i] == head[i]);
            } else {
                assert forall|i: int| 0 <= i < devices.len() && (#[trigger] devices[i]).0@ == device_id implies
                    devices[i].1.call_signing_key@.len() == 0 by {
                    if i < head.len() {
                        assert(head[i] == devices[i]);
                    }
                }
            }
        }
    }
}

/// A contact that may ring and whose pinned roster lists the sending device under a signing key is
/// checked under such a key, and nobody who may not ring is checked at all.
pub proof fn lemma_a_contacts_capsule_has_a_key(s: Session, capsule: CallCapsule, contact: int, device: int)
    ensures
        ({
            let roster = s.directory.rosters@[capsule.from@]@;
            &&& 0 <= contact < s.directory.contacts@.len() && s.directory.contacts@[contact].username@
                == capsule.from@ && !s.directory.contacts@[contact].blocked && !s.directory.contacts@[contact].request
                && s.directory.rosters@.dom().contains(capsule.from@) && 0 <= device < roster.len()
                && roster[device].device_id@ == capsule.caller_device_id@ && roster[device].signing_key@.len() > 0
                && capsule.signer is Roster ==> capsule_key(s, capsule) is Some
            &&& s.account is None && (forall|i: int|
                0 <= i < s.directory.contacts@.len() && (#[trigger] s.directory.contacts@[i]).username@
                    == capsule.from@ ==> s.directory.contacts@[i].blocked || s.directory.contacts@[i].request)
                ==> capsule_key(s, capsule) is None
        }),
{
    if s.directory.rosters@.dom().contains(capsule.from@) {
        lemma_roster_key(s.directory.rosters@[capsule.from@]@, capsule.caller_device_id@);
    }
    if 0 <= contact < s.directory.contacts@.len() && s.directory.contacts@[contact].username@ == capsule.from@
        && !s.directory.contacts@[contact].blocked && !s.directory.contacts@[contact].request {
        assert(may_ring_as(s.directory.contacts@, capsule.from@));
    }
}

} // verus!
