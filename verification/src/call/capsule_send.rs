//! Sending capsules: which devices one can be sealed to, and what each carries.

use super::session::{is_current, Session};
use super::types::{
    CallBindings, CallCapsule, CallKeyBinding, CallTerminalReason, CapsuleKind, CapsuleSigner,
    GroupRingDeadline,
};
use crate::names::NameMap;
use crate::text::same;
use vstd::prelude::*;

verus! {

/// How long fetched bindings are used.
pub const BINDING_TTL_SECS: u64 = 300;

/// How many accounts' bindings are kept.
pub const MAX_CACHED_ACCOUNTS: usize = 32;

/// The bindings are young enough to be used.
pub open spec fn bindings_fresh(cached: CallBindings, now: u64) -> bool {
    now < cached.fetched_at + BINDING_TTL_SECS
}

fn is_fresh(cached: &CallBindings, now: u64) -> (r: bool)
    ensures
        r == bindings_fresh(*cached, now),
{
    now.saturating_sub(cached.fetched_at) < BINDING_TTL_SECS
}

/// The account's bindings are to be fetched: they are not held fresh, and there is a verified
/// roster to check them against.
pub open spec fn bindings_wanted(s: Session, client: u64, username: Seq<char>, now: u64) -> bool {
    &&& s.client == Some(client)
    &&& s.account is Some
    &&& !(s.call_bindings@.dom().contains(username) && bindings_fresh(s.call_bindings@[username], now))
    &&& s.directory.has_roster(username)
}

/// The devices whose bindings are to be fetched, or nothing where none are.
pub fn warm_call_bindings(s: &Session, client: u64, username: &str, now: u64) -> (r: Option<Vec<String>>)
    ensures
        match r {
            Some(ids) => bindings_wanted(*s, client, username@, now) && ids@ == Seq::new(
                s.directory.rosters@[username@]@.len(),
                |i: int| s.directory.rosters@[username@]@[i].device_id,
            ),
            None => !bindings_wanted(*s, client, username@, now),
        },
{
    if !is_current(s, client) || s.account.is_none() {
        return None;
    }
    if let Some(cached) = s.call_bindings.get(username) {
        if is_fresh(cached, now) {
            return None;
        }
    }
    match s.directory.rosters.get(username) {
        None => None,
        Some(roster) => {
            let mut ids: Vec<String> = Vec::new();
            let mut i: usize = 0;
            let ghost all = Seq::new(roster@.len(), |i: int| roster@[i].device_id);
            while i < roster.len()
                invariant
                    i <= roster@.len(),
                    all == Seq::new(roster@.len(), |i: int| roster@[i].device_id),
                    ids@ == all.take(i as int),
                decreases roster.len() - i,
            {
                ids.push(roster[i].device_id.clone());
                assert(ids@ =~= all.take(i + 1));
                i = i + 1;
            }
            assert(all.take(i as int) =~= all);
            Some(ids)
        },
    }
}

/// The devices that have a verified binding, in order.
pub open spec fn bound_devices(ids: Seq<String>, verified: Seq<Option<CallKeyBinding>>, n: int) -> Seq<
    (String, CallKeyBinding),
>
    decreases n,
{
    if n <= 0 {
        Seq::empty()
    } else {
        match verified[n - 1] {
            Some(binding) => bound_devices(ids, verified, n - 1).push((ids[n - 1], binding)),
            None => bound_devices(ids, verified, n - 1),
        }
    }
}

/// The shorter of two lengths.
pub open spec fn shorter(a: nat, b: nat) -> nat {
    if a < b {
        a
    } else {
        b
    }
}

/// The entry that was fetched longest ago stands at `i`; of several the first.
pub open spec fn stalest_at(entries: Seq<(String, CallBindings)>, i: int) -> bool {
    &&& 0 <= i < entries.len()
    &&& forall|j: int| 0 <= j < i ==> entries[i].1.fetched_at < (#[trigger] entries[j]).1.fetched_at
    &&& forall|j: int| i < j < entries.len() ==> entries[i].1.fetched_at <= (#[trigger] entries[j]).1.fetched_at
}

fn stalest(cache: &NameMap<CallBindings>) -> (r: usize)
    requires
        cache.entries@.len() > 0,
    ensures
        stalest_at(cache.entries@, r as int),
{
    let mut best: usize = 0;
    let mut i: usize = 1;
    while i < cache.entries.len()
        invariant
            1 <= i <= cache.entries@.len(),
            best < i,
            forall|j: int|
                0 <= j < best ==> cache.entries@[best as int].1.fetched_at < (
                #[trigger] cache.entries@[j]).1.fetched_at,
            forall|j: int|
                best < j < i ==> cache.entries@[best as int].1.fetched_at <= (
                #[trigger] cache.entries@[j]).1.fetched_at,
        decreases cache.entries.len() - i,
    {
        if cache.entries[i].1.fetched_at < cache.entries[best].1.fetched_at {
            best = i;
        }
        i = i + 1;
    }
    best
}

/// The cache is full and does not hold the account.
pub open spec fn must_evict(cache: NameMap<CallBindings>, username: Seq<char>) -> bool {
    cache.entries@.len() >= MAX_CACHED_ACCOUNTS && !cache@.dom().contains(username)
}

/// An account's bindings were fetched and checked against the roster as it is now, one answer
/// for each device asked about. They are kept; a full cache first lets the stalest go.
pub fn bindings_fetched(
    s: &mut Session,
    client: u64,
    username: &String,
    ids: Vec<String>,
    verified: Vec<Option<CallKeyBinding>>,
    now: u64,
)
    ensures
        !(old(s).client == Some(client) && old(s).directory.has_roster(username@)) ==> *final(s) == *old(s),
        old(s).client == Some(client) && old(s).directory.has_roster(username@) ==> {
            let before = old(s).call_bindings;
            let fresh = final(s).call_bindings@[username@];
            &&& *final(s) == (Session { call_bindings: final(s).call_bindings, ..*old(s) })
            &&& fresh.fetched_at == now
            &&& fresh.devices@ == bound_devices(
                ids@,
                verified@,
                shorter(ids@.len(), verified@.len()) as int,
            )
            &&& must_evict(before, username@) ==> exists|i: int| #[trigger]
                stalest_at(before.entries@, i) && final(s).call_bindings@ == before@.remove(
                    before.entries@[i].0@,
                ).insert(username@, fresh)
            &&& !must_evict(before, username@) ==> final(s).call_bindings@ == before@.insert(
                username@,
                fresh,
            )
            &&& before.wf() && before.entries@.len() <= MAX_CACHED_ACCOUNTS ==> final(s).call_bindings.wf()
                && final(s).call_bindings.entries@.len() <= MAX_CACHED_ACCOUNTS
        },
{
    if !is_current(s, client) || !s.directory.rosters.contains_key(username.as_str()) {
        return;
    }
    let ghost before = s.call_bindings;
    let mut devices: Vec<(String, CallKeyBinding)> = Vec::new();
    let mut i: usize = 0;
    while i < ids.len() && i < verified.len()
        invariant
            i <= ids@.len(),
            i <= verified@.len(),
            devices@ == bound_devices(ids@, verified@, i as int),
        decreases ids.len() - i,
    {
        match &verified[i] {
            Some(binding) => {
                devices.push((ids[i].clone(), binding.clone()));
            },
            None => {},
        }
        i = i + 1;
    }
    let fresh = CallBindings { fetched_at: now, devices };
    let ghost kept = fresh;
    if s.call_bindings.entries.len() >= MAX_CACHED_ACCOUNTS && !s.call_bindings.contains_key(
        username.as_str(),
    ) {
        let at: usize = stalest(&s.call_bindings);
        assert(stalest_at(before.entries@, at as int));
        let name: String = s.call_bindings.entries[at].0.clone();
        proof {
            crate::names::lemma_map_of_dom(before.entries@, name@);
            assert(before.entries@[at as int].0@ == name@);
        }
        let _ = s.call_bindings.remove(name.as_str());
        s.call_bindings.insert(username.clone(), fresh);
        assert(s.call_bindings@ == before@.remove(before.entries@[at as int].0@).insert(username@, kept));
    } else {
        s.call_bindings.insert(username.clone(), fresh);
        assert(s.call_bindings@ == before@.insert(username@, kept));
    }
}

/// The bindings that are not of the excluded device, in order.
pub open spec fn targets_in(devices: Seq<(String, CallKeyBinding)>, exclude: Option<Seq<char>>) -> Seq<
    (String, CallKeyBinding),
>
    decreases devices.len(),
{
    if devices.len() == 0 {
        Seq::empty()
    } else {
        let head = targets_in(devices.drop_last(), exclude);
        if exclude == Some(devices.last().0@) {
            head
        } else {
            head.push(devices.last())
        }
    }
}

/// The devices of an account a capsule can be sealed to now: those with fresh bindings, and
/// not this one.
pub open spec fn targets_of(s: Session, username: Seq<char>, exclude: Option<Seq<char>>, now: u64) -> Seq<
    (String, CallKeyBinding),
> {
    if s.call_bindings@.dom().contains(username) && bindings_fresh(s.call_bindings@[username], now) {
        targets_in(s.call_bindings@[username].devices@, exclude)
    } else {
        Seq::empty()
    }
}

/// The devices of an account a capsule can be sealed to now.
pub fn capsule_targets(s: &Session, username: &str, exclude: Option<&str>, now: u64) -> (r: Vec<
    (String, CallKeyBinding),
>)
    ensures
        r@ == targets_of(
            *s,
            username@,
            match exclude {
                Some(id) => Some(id@),
                None => None,
            },
            now,
        ),
{
    let ghost skip = match exclude {
        Some(id) => Some(id@),
        None => None,
    };
    let mut out: Vec<(String, CallKeyBinding)> = Vec::new();
    match s.call_bindings.get(username) {
        None => out,
        Some(cached) => {
            if !is_fresh(cached, now) {
                return out;
            }
            let mut i: usize = 0;
            assert(cached.devices@.take(0) =~= Seq::<(String, CallKeyBinding)>::empty());
            while i < cached.devices.len()
                invariant
                    i <= cached.devices@.len(),
                    skip == match exclude {
                        Some(id) => Some(id@),
                        None => None,
                    },
                    out@ == targets_in(cached.devices@.take(i as int), skip),
                decreases cached.devices.len() - i,
            {
                let ghost upto = cached.devices@.take(i + 1);
                assert(upto.drop_last() =~= cached.devices@.take(i as int));
                assert(upto.last() == cached.devices@[i as int]);
                let entry = &cached.devices[i];
                let excluded = match exclude {
                    Some(id) => same(entry.0.as_str(), id),
                    None => false,
                };
                if !excluded {
                    out.push((entry.0.clone(), entry.1.clone()));
                }
                i = i + 1;
            }
            assert(cached.devices@.take(i as int) =~= cached.devices@);
            out
        },
    }
}

/// What the capsules of one batch share.
pub struct CapsuleBatch {
    pub kind: CapsuleKind,
    pub call_instance_id: String,
    pub offer_id: String,
    pub video: bool,
    pub group: bool,
    pub created_at: u64,
    pub ring_expires_at: u64,
    pub expires_at: u64,
    pub reason: Option<CallTerminalReason>,
}

/// A capsule ready to be signed, sealed to one device and posted.
pub struct PlannedCapsule {
    pub username: String,
    pub capsule: CallCapsule,
    pub binding: CallKeyBinding,
    /// Whether the device is woken to ring.
    pub ring: bool,
    pub expires_at: u64,
}

/// The capsule of a batch for one device.
pub open spec fn planned(
    s: Session,
    username: String,
    batch: CapsuleBatch,
    target: (String, CallKeyBinding),
    reply_to_mailbox: String,
    reply_call_mailbox: String,
    p: PlannedCapsule,
) -> bool {
    let account = s.account->0;
    &&& p.username == username
    &&& p.binding == target.1
    &&& p.ring == (batch.kind is Offer)
    &&& p.expires_at == batch.expires_at
    &&& p.capsule.reply_call_key@ == match s.call_key {
        Some(key) => key@,
        None => Seq::<char>::empty(),
    }
    &&& p.capsule == (CallCapsule {
        kind: batch.kind,
        call_instance_id: batch.call_instance_id,
        offer_id: batch.offer_id,
        from: account.account_id,
        caller_identity_key: account.identity_key,
        caller_device_id: s.directory.self_device_id,
        to_device_id: target.0,
        video: batch.video,
        group: batch.group,
        display_name: account.account_id,
        created_at: batch.created_at,
        ring_expires_at: batch.ring_expires_at,
        expires_at: batch.expires_at,
        reply_to_mailbox,
        reply_call_mailbox,
        reply_call_key: p.capsule.reply_call_key,
        signer: CapsuleSigner::Roster,
        reason: batch.reason,
    })
}

/// This device, where the account rung is its own.
pub open spec fn excluded_device(s: Session, username: Seq<char>) -> Option<Seq<char>> {
    if s.account->0.account_id@ == username {
        Some(s.directory.self_device_id@)
    } else {
        None
    }
}

/// Plan one capsule for each device of an account that one can be sealed to. `mailbox` is the
/// one derived for this device, and `reply_call_mailbox` its call-control mailbox, empty where
/// there is none.
pub fn prepare_capsules(
    s: &Session,
    username: &String,
    batch: &CapsuleBatch,
    mailbox: &Option<String>,
    reply_call_mailbox: &String,
    now: u64,
) -> (r: Vec<PlannedCapsule>)
    ensures
        s.account is None || mailbox is None ==> r@ == Seq::<PlannedCapsule>::empty(),
        s.account is Some && mailbox is Some ==> {
            let targets = targets_of(*s, username@, excluded_device(*s, username@), now);
            &&& r@.len() == targets.len()
            &&& forall|i: int|
                0 <= i < targets.len() ==> planned(
                    *s,
                    *username,
                    *batch,
                    targets[i],
                    mailbox->0,
                    *reply_call_mailbox,
                    #[trigger] r@[i],
                )
        },
{
    let mut out: Vec<PlannedCapsule> = Vec::new();
    let account = match &s.account {
        Some(account) => account,
        None => {
            return out;
        },
    };
    let reply_to_mailbox = match mailbox {
        Some(m) => m,
        None => {
            return out;
        },
    };
    let exclude: Option<&str> = if account.account_id == *username {
        Some(s.directory.self_device_id.as_str())
    } else {
        None
    };
    let targets: Vec<(String, CallKeyBinding)> = capsule_targets(s, username.as_str(), exclude, now);
    let mut i: usize = 0;
    while i < targets.len()
        invariant
            i <= targets@.len(),
            s.account == Some(*account),
            mailbox == Some(*reply_to_mailbox),
            out@.len() == i,
            forall|j: int|
                0 <= j < i ==> planned(
                    *s,
                    *username,
                    *batch,
                    targets@[j],
                    *reply_to_mailbox,
                    *reply_call_mailbox,
                    #[trigger] out@[j],
                ),
        decreases targets.len() - i,
    {
        let reply_call_key: String = match &s.call_key {
            Some(key) => key.clone(),
            None => String::new(),
        };
        assert(s.call_key is None ==> reply_call_key@ =~= Seq::<char>::empty());
        let ring = match batch.kind {
            CapsuleKind::Offer => true,
            CapsuleKind::Terminal => false,
        };
        out.push(
            PlannedCapsule {
                username: username.clone(),
                capsule: CallCapsule {
                    kind: batch.kind,
                    call_instance_id: batch.call_instance_id.clone(),
                    offer_id: batch.offer_id.clone(),
                    from: account.account_id.clone(),
                    caller_identity_key: account.identity_key.clone(),
                    caller_device_id: s.directory.self_device_id.clone(),
                    to_device_id: targets[i].0.clone(),
                    video: batch.video,
                    group: batch.group,
                    display_name: account.account_id.clone(),
                    created_at: batch.created_at,
                    ring_expires_at: batch.ring_expires_at,
                    expires_at: batch.expires_at,
                    reply_to_mailbox: reply_to_mailbox.clone(),
                    reply_call_mailbox: reply_call_mailbox.clone(),
                    reply_call_key,
                    signer: CapsuleSigner::Roster,
                    reason: batch.reason,
                },
                binding: targets[i].1.clone(),
                ring,
                expires_at: batch.expires_at,
            },
        );
        i = i + 1;
    }
    out
}

/// What the capsules share that announce a ring. A group's ring goes by the ring's id.
pub fn offer_capsules(call: &String, offer: &String, group: bool, deadline: GroupRingDeadline) -> (r:
    CapsuleBatch)
    ensures
        r == (CapsuleBatch {
            kind: CapsuleKind::Offer,
            call_instance_id: *call,
            offer_id: *offer,
            video: false,
            group,
            created_at: deadline.created_at,
            ring_expires_at: deadline.ring_expires_at,
            expires_at: deadline.expires_at,
            reason: None,
        }),
{
    CapsuleBatch {
        kind: CapsuleKind::Offer,
        call_instance_id: call.clone(),
        offer_id: offer.clone(),
        video: false,
        group,
        created_at: deadline.created_at,
        ring_expires_at: deadline.ring_expires_at,
        expires_at: deadline.expires_at,
        reason: None,
    }
}

/// What the capsules share that carry an outcome. A group outcome goes by the ring's id.
pub fn send_terminal_capsules(
    call: &String,
    offer: &String,
    group: bool,
    reason: CallTerminalReason,
    now: u64,
    expires_at: u64,
) -> (r: CapsuleBatch)
    ensures
        r == (CapsuleBatch {
            kind: CapsuleKind::Terminal,
            call_instance_id: *call,
            offer_id: *offer,
            video: false,
            group,
            created_at: now,
            ring_expires_at: expires_at,
            expires_at,
            reason: Some(reason),
        }),
{
    CapsuleBatch {
        kind: CapsuleKind::Terminal,
        call_instance_id: call.clone(),
        offer_id: offer.clone(),
        video: false,
        group,
        created_at: now,
        ring_expires_at: expires_at,
        expires_at,
        reason: Some(reason),
    }
}

/// Bindings are used for five minutes from when they were fetched, and not beyond; a clock that
/// went back does not make them stale.
pub proof fn lemma_bindings_last_five_minutes(cached: CallBindings, now: u64)
    ensures
        now <= cached.fetched_at ==> bindings_fresh(cached, now),
        now > cached.fetched_at ==> (bindings_fresh(cached, now) <==> now - cached.fetched_at < 300),
{
}

/// A capsule goes to every device of the account with a binding but the excluded one, each once
/// and in order, and to none where the bindings are stale or missing.
pub proof fn lemma_every_other_device_gets_a_capsule(
    s: Session,
    username: Seq<char>,
    exclude: Option<Seq<char>>,
    now: u64,
)
    ensures
        !s.call_bindings@.dom().contains(username) ==> targets_of(s, username, exclude, now).len() == 0,
        s.call_bindings@.dom().contains(username) && now - s.call_bindings@[username].fetched_at >= 300 ==> targets_of(
            s,
            username,
            exclude,
            now,
        ).len() == 0,
        s.call_bindings@.dom().contains(username) && now - s.call_bindings@[username].fetched_at < 300 ==> ({
            let devices = s.call_bindings@[username].devices@;
            let targets = targets_of(s, username, exclude, now);
            &&& exclude is None ==> targets == devices
            &&& forall|i: int| #![trigger devices[i]]
                0 <= i < devices.len() && exclude != Some(devices[i].0@) ==> targets.contains(devices[i])
            &&& forall|k: int| 0 <= k < targets.len() ==> exclude != Some((#[trigger] targets[k]).0@)
            &&& forall|k: int| 0 <= k < targets.len() ==> devices.contains(#[trigger] targets[k])
            &&& targets.len() <= devices.len()
        }),
{
    if s.call_bindings@.dom().contains(username) {
        lemma_targets(s.call_bindings@[username].devices@, exclude);
    }
}

proof fn lemma_targets(devices: Seq<(String, CallKeyBinding)>, exclude: Option<Seq<char>>)
    ensures
        exclude is None ==> targets_in(devices, exclude) == devices,
        targets_in(devices, exclude).len() <= devices.len(),
        forall|i: int| #![trigger devices[i]]
            0 <= i < devices.len() && exclude != Some(devices[i].0@) ==> targets_in(devices, exclude).contains(
                devices[i],
            ),
        forall|k: int|
            0 <= k < targets_in(devices, exclude).len() ==> exclude != Some(
                (#[trigger] targets_in(devices, exclude)[k]).0@,
            ) && devices.contains(targets_in(devices, exclude)[k]),
    decreases devices.len(),
{
    if devices.len() > 0 {
        let head = devices.drop_last();
        let before = targets_in(head, exclude);
        let all = targets_in(devices, exclude);
        lemma_targets(head, exclude);
        assert forall|k: int| 0 <= k < before.len() implies #[trigger] all[k] == before[k] by {}
        assert forall|i: int| #![trigger devices[i]]
            0 <= i < devices.len() && exclude != Some(devices[i].0@) implies all.contains(devices[i]) by {
            if i < head.len() {
                assert(head[i] == devices[i]);
                assert(before.contains(head[i]));
                let k = choose|k: int| 0 <= k < before.len() && before[k] == head[i];
                assert(all[k] == devices[i]);
            } else {
                assert(all[all.len() - 1] == devices[i]);
            }
        }
        assert forall|k: int| 0 <= k < all.len() implies exclude != Some((#[trigger] all[k]).0@) && devices.contains(
            all[k],
        ) by {
            if k < before.len() {
                assert(all[k] == before[k]);
                assert(head.contains(before[k]));
                let m = choose|m: int| 0 <= m < head.len() && head[m] == before[k];
                assert(devices[m] == all[k]);
            } else {
                assert(devices[devices.len() - 1] == all[k]);
            }
        }
        if exclude is None {
            assert(all =~= devices);
        }
    }
}

/// A capsule says truly who sends it and for whom it is: the open account and this device to the
/// device it is sealed for, with what its batch says of the call, signed by the roster's key. It
/// wakes the device to ring if, and only if, it is an offer.
pub proof fn lemma_a_capsule_says_who_sends_it(
    s: Session,
    username: String,
    batch: CapsuleBatch,
    target: (String, CallKeyBinding),
    reply_to: String,
    reply_call: String,
    p: PlannedCapsule,
)
    requires
        s.account is Some,
        planned(s, username, batch, target, reply_to, reply_call, p),
    ensures
        p.username == username,
        p.binding == target.1,
        p.ring <==> batch.kind == CapsuleKind::Offer,
        p.expires_at == batch.expires_at,
        p.capsule.from == s.account->0.account_id,
        p.capsule.caller_identity_key == s.account->0.identity_key,
        p.capsule.caller_device_id == s.directory.self_device_id,
        p.capsule.to_device_id == target.0,
        p.capsule.signer is Roster,
        p.capsule.kind == batch.kind,
        p.capsule.call_instance_id == batch.call_instance_id,
        p.capsule.offer_id == batch.offer_id,
        p.capsule.group == batch.group,
        p.capsule.video == batch.video,
        p.capsule.reason == batch.reason,
        p.capsule.created_at == batch.created_at,
        p.capsule.ring_expires_at == batch.ring_expires_at,
        p.capsule.expires_at == batch.expires_at,
        p.capsule.reply_to_mailbox == reply_to,
        p.capsule.reply_call_mailbox == reply_call,
        s.call_key matches Some(key) ==> p.capsule.reply_call_key@ == key@,
        s.call_key is None ==> p.capsule.reply_call_key@.len() == 0,
{
}

/// What the caller announces, the callee can hear, and what the caller takes back, it hears too:
/// the callee has the caller down as a contact that may ring, with a pinned roster that lists the
/// caller's device under a signing key, and holds nothing of the call but a ring from that caller.
pub proof fn lemma_what_a_caller_sends_the_callee_hears(
    caller: Session,
    callee: Session,
    username: String,
    batch: CapsuleBatch,
    target: (String, CallKeyBinding),
    reply_to: String,
    reply_call: String,
    p: PlannedCapsule,
    contact: int,
    device: int,
)
    requires
        caller.account is Some,
        planned(caller, username, batch, target, reply_to, reply_call, p),
        callee.account is Some,
        callee.account->0.account_id@ != caller.account->0.account_id@,
        0 <= contact < callee.directory.contacts@.len(),
        callee.directory.contacts@[contact].username@ == caller.account->0.account_id@,
        !callee.directory.contacts@[contact].blocked && !callee.directory.contacts@[contact].request,
        callee.directory.rosters@.dom().contains(caller.account->0.account_id@),
        0 <= device < callee.directory.rosters@[caller.account->0.account_id@]@.len(),
        callee.directory.rosters@[caller.account->0.account_id@]@[device].device_id@
            == caller.directory.self_device_id@,
        callee.directory.rosters@[caller.account->0.account_id@]@[device].signing_key@.len() > 0,
        callee.call is None && callee.claiming is None && callee.reconnect is None,
        callee.group_call is None && callee.group_incoming is None && callee.group_claiming is None,
        callee.incoming matches Some(o) ==> o.call_instance_id@ == batch.call_instance_id@ && o.username@
            == caller.account->0.account_id@,
        callee.rings@.len() == 0,
        !batch.group,
    ensures
        super::capsule_apply::capsule_key(callee, p.capsule) is Some,
        batch.kind is Offer && callee.incoming is None ==> super::capsule_apply::capsule_step(callee, p.capsule)
            == super::capsule_apply::CapsuleStep::RecordOffer,
        batch.kind is Offer && callee.incoming is Some ==> super::capsule_apply::capsule_step(callee, p.capsule)
            == super::capsule_apply::CapsuleStep::Ignore,
        batch.kind is Terminal && batch.reason == Some(CallTerminalReason::CallerCancelled)
            ==> super::capsule_apply::capsule_step(callee, p.capsule)
            == super::capsule_apply::CapsuleStep::RecordTerminal(CallTerminalReason::CallerCancelled),
        batch.kind is Terminal && batch.reason == Some(CallTerminalReason::AnsweredElsewhere)
            ==> super::capsule_apply::capsule_step(callee, p.capsule) == super::capsule_apply::CapsuleStep::Ignore,
{
    super::capsule_apply::lemma_a_contacts_capsule_has_a_key(callee, p.capsule, contact, device);
}

/// Where the account rung is this one, this device is left out, and nowhere else is a device.
pub proof fn lemma_this_device_does_not_ring_itself(s: Session, username: Seq<char>)
    requires
        s.account is Some,
    ensures
        s.account->0.account_id@ == username ==> excluded_device(s, username) == Some(s.directory.self_device_id@),
        s.account->0.account_id@ != username ==> excluded_device(s, username) is None,
{
}

/// Every device with a verified binding is kept, under its own id, and none without.
pub proof fn lemma_a_verified_binding_is_kept(ids: Seq<String>, verified: Seq<Option<CallKeyBinding>>, n: int)
    requires
        0 <= n <= ids.len(),
        n <= verified.len(),
    ensures
        forall|i: int| #![trigger verified[i]]
            0 <= i < n && verified[i] is Some ==> bound_devices(ids, verified, n).contains((ids[i], verified[i]->0)),
        forall|k: int| #![trigger bound_devices(ids, verified, n)[k]]
            0 <= k < bound_devices(ids, verified, n).len() ==> exists|i: int| #![trigger verified[i]]
                0 <= i < n && verified[i] == Some(bound_devices(ids, verified, n)[k].1) && ids[i] == bound_devices(
                    ids,
                    verified,
                    n,
                )[k].0,
    decreases n,
{
    if n > 0 {
        let before = bound_devices(ids, verified, n - 1);
        let all = bound_devices(ids, verified, n);
        lemma_a_verified_binding_is_kept(ids, verified, n - 1);
        assert forall|k: int| 0 <= k < before.len() implies #[trigger] all[k] == before[k] by {}
        assert forall|i: int| #![trigger verified[i]] 0 <= i < n && verified[i] is Some implies all.contains(
            (ids[i], verified[i]->0),
        ) by {
            if i < n - 1 {
                assert(before.contains((ids[i], verified[i]->0)));
                let k = choose|k: int| 0 <= k < before.len() && before[k] == (ids[i], verified[i]->0);
                assert(all[k] == (ids[i], verified[i]->0));
            } else {
                assert(all[all.len() - 1] == (ids[i], verified[i]->0));
            }
        }
        assert forall|k: int| #![trigger all[k]] 0 <= k < all.len() implies exists|i: int| #![trigger verified[i]]
            0 <= i < n && verified[i] == Some(all[k].1) && ids[i] == all[k].0 by {
            if k < before.len() {
                assert(all[k] == before[k]);
                let i = choose|i: int| #![trigger verified[i]]
                    0 <= i < n - 1 && verified[i] == Some(before[k].1) && ids[i] == before[k].0;
                assert(verified[i] == Some(all[k].1));
            } else {
                assert(verified[n - 1] == Some(all[k].1));
            }
        }
    }
}

/// Bindings are fetched for an account with a pinned roster whose bindings are not held fresh,
/// through the current connection and with the vault open.
pub proof fn lemma_when_bindings_are_fetched(s: Session, client: u64, username: Seq<char>, now: u64)
    ensures
        bindings_wanted(s, client, username, now) <==> s.client == Some(client) && s.account is Some
            && s.directory.rosters@.dom().contains(username) && !(s.call_bindings@.dom().contains(username) && now
            - s.call_bindings@[username].fetched_at < 300),
{
}

/// A cache of thirty-two accounts is full, and only an account it does not hold pushes another out.
pub proof fn lemma_when_an_account_is_pushed_out(cache: NameMap<CallBindings>, username: Seq<char>)
    ensures
        must_evict(cache, username) <==> cache.entries@.len() >= 32 && !cache@.dom().contains(username),
{
}

} // verus!
