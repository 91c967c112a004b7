use sona_calls::call::capsule::{caller_relay_for, drain_call_capsules, ringing_capsule_poll};
use sona_calls::call::capsule_apply::{
    apply_capsule, capsule_offer, capsule_signing_keys, capsule_terminal, capsule_terminal_allowed,
    kept_reply_route, group_terminal_capsule_worth_sending, CapsuleStep,
};
use sona_calls::call::capsule_send::{
    bindings_fetched, capsule_targets, offer_capsules, prepare_capsules, send_terminal_capsules,
    warm_call_bindings, CapsuleBatch, BINDING_TTL_SECS, MAX_CACHED_ACCOUNTS,
};
use sona_calls::call::directory::{ContactPin, Directory, RosterDevice};
use sona_calls::call::handles::SystemCalls;
use sona_calls::call::session::{Account, Limits, Prefs, Session};
use sona_calls::call::store::{adopt_capsule_ring, find_ring, mark_presented};
use sona_calls::call::types::{
    CallBindings, CallCapsule, CallCtl, CallKeyBinding, CallTerminalReason, CapsuleKind, CapsuleSigner, Effect,
    GroupCoordinator, GroupRingDeadline, OfferDecision, RingName,
};
use sona_calls::names::NameSet;

const ME: &str = "me";
const NOW: u64 = 1_700_000_000;
const RING_TIMEOUT: u64 = 45;
const SIGNAL_TTL: u64 = 60;
const LOCKED_CALL_RING: &str = "locked";

fn session() -> Session {
    Session::new(
        Limits {
            ring_timeout_secs: RING_TIMEOUT,
            signal_ttl_secs: SIGNAL_TTL,
            unlock_to_answer_secs: 60,
            presence_window_secs: 30,
            max_buffered_claims: 8,
            max_group_members: 8,
            max_leg_reoffers: 3,
        },
        Prefs {
            notif_level: "full".to_string(),
            require_unlock_to_answer: true,
            auto_unlock: false,
            call_retention_secs: 604800,
        },
        Directory::new("0".to_string()),
    )
}

fn as_me(s: &mut Session) {
    s.store_username = ME.to_string();
}

fn account(name: &str) -> Account {
    Account { account_id: name.to_string(), identity_key: format!("{name}-identity") }
}

fn signed(
    from: &str,
    kind: CapsuleKind,
    call: &str,
    offer: &str,
    reason: Option<CallTerminalReason>,
    group: bool,
) -> CallCapsule {
    CallCapsule {
        kind,
        call_instance_id: call.to_string(),
        offer_id: offer.to_string(),
        from: from.to_string(),
        caller_identity_key: format!("{from}-identity"),
        caller_device_id: "0".to_string(),
        to_device_id: "a".repeat(32),
        video: false,
        group,
        display_name: from.to_string(),
        created_at: NOW,
        ring_expires_at: NOW + RING_TIMEOUT,
        expires_at: NOW + SIGNAL_TTL,
        reply_to_mailbox: "b".repeat(64),
        reply_call_mailbox: "c".repeat(64),
        reply_call_key: "their-call-key".to_string(),
        signer: CapsuleSigner::Roster,
        reason,
    }
}

fn capsule(kind: CapsuleKind, call: &str, offer: &str, reason: Option<CallTerminalReason>) -> CallCapsule {
    signed("bob", kind, call, offer, reason, false)
}

fn group_capsule(
    kind: CapsuleKind,
    call: &str,
    offer: &str,
    reason: Option<CallTerminalReason>,
) -> CallCapsule {
    signed("bob", kind, call, offer, reason, true)
}

/// The call records: which offers were recorded, and which calls ended.
#[derive(Default)]
struct Records {
    offers: Vec<(String, String)>,
    ended: Vec<(String, CallTerminalReason)>,
}

impl Records {
    fn terminal_reason(&self, call: &str) -> Option<CallTerminalReason> {
        self.ended.iter().find(|(c, _)| c == call).map(|(_, r)| *r)
    }

    fn receive_offer(&mut self, call: &str, offer: &str) -> OfferDecision {
        if let Some(reason) = self.terminal_reason(call) {
            return OfferDecision::Suppressed(reason);
        }
        if self.offers.iter().any(|(c, o)| c == call && o == offer) {
            return OfferDecision::Duplicate;
        }
        self.offers.push((call.to_string(), offer.to_string()));
        OfferDecision::Ring
    }
}

/// Decide on a capsule, put it to the records, and carry the answer out.
fn receive(s: &mut Session, records: &mut Records, capsule: CallCapsule) -> Vec<Effect> {
    match apply_capsule(s, &capsule) {
        CapsuleStep::Ignore => Vec::new(),
        CapsuleStep::RecordOffer => {
            let decision = records.receive_offer(&capsule.call_instance_id, &capsule.offer_id);
            let handle = format!("handle-of-{}", capsule.call_instance_id);
            capsule_offer(s, capsule, decision, handle, &Some("c".repeat(64)))
        }
        CapsuleStep::RecordTerminal(reason) => {
            records.ended.push((capsule.call_instance_id.clone(), reason));
            capsule_terminal(s, &capsule.call_instance_id, reason, true)
        }
    }
}

fn ring_offer(s: &Session, call: &str) -> Option<String> {
    find_ring(&s.rings, call).map(|i| s.rings[i].offer_id.clone())
}

#[test]
fn a_capsule_offer_converges_with_the_encrypted_offer_on_one_ring() {
    let mut s = session();
    let mut records = Records::default();
    receive(&mut s, &mut records, capsule(CapsuleKind::Offer, "call", "offer", None));
    assert_eq!(ring_offer(&s, "call"), Some("offer".to_string()));
    receive(&mut s, &mut records, capsule(CapsuleKind::Offer, "call", "offer", None));
    assert_eq!(ring_offer(&s, "call"), Some("offer".to_string()));
    assert_eq!(s.rings.len(), 1);
    assert!(adopt_capsule_ring(&mut s, "call", "another").is_none());
    assert_eq!(records.receive_offer("call", "offer"), OfferDecision::Duplicate);
    assert_eq!(adopt_capsule_ring(&mut s, "call", "offer"), Some("handle-of-call".to_string()));
    assert!(find_ring(&s.rings, "call").is_none());
}

#[test]
fn a_group_capsule_converges_on_the_ring_id() {
    let mut s = session();
    let mut records = Records::default();
    receive(&mut s, &mut records, group_capsule(CapsuleKind::Offer, "call", "ring-id", None));
    assert_eq!(ring_offer(&s, "call"), Some("ring-id".to_string()));
    assert!(adopt_capsule_ring(&mut s, "call", "a-leg").is_none());
    assert_eq!(records.receive_offer("call", "ring-id"), OfferDecision::Duplicate);
    assert!(adopt_capsule_ring(&mut s, "call", "ring-id").is_some());
    assert!(find_ring(&s.rings, "call").is_none());
}

#[test]
fn a_terminal_capsule_tombstones_a_call_whose_offer_has_not_arrived() {
    let mut s = session();
    as_me(&mut s);
    let mut records = Records::default();
    receive(
        &mut s,
        &mut records,
        capsule(CapsuleKind::Terminal, "call", "offer", Some(CallTerminalReason::CallerCancelled)),
    );
    assert_eq!(records.terminal_reason("call"), Some(CallTerminalReason::CallerCancelled));
    assert_eq!(
        records.receive_offer("call", "offer"),
        OfferDecision::Suppressed(CallTerminalReason::CallerCancelled)
    );
    receive(&mut s, &mut records, capsule(CapsuleKind::Offer, "call", "offer", None));
    assert!(find_ring(&s.rings, "call").is_none());
}

#[test]
fn a_terminal_capsule_cancels_the_id_the_locked_ring_was_posted_under() {
    let mut s = session();
    as_me(&mut s);
    let mut records = Records::default();
    let mut shown = SystemCalls::new();
    receive(&mut s, &mut records, capsule(CapsuleKind::Offer, "call", "offer", None));
    shown.perform(&Effect::ShowRing {
        ring: LOCKED_CALL_RING.to_string(),
        name: RingName::Generic,
        group: false,
    });
    mark_presented(&mut s, "call", &LOCKED_CALL_RING.to_string());
    assert!(!shown.shown.is_empty(), "the locked ring is showing");

    let out = receive(
        &mut s,
        &mut records,
        signed(
            ME,
            CapsuleKind::Terminal,
            "call",
            "offer",
            Some(CallTerminalReason::AnsweredElsewhere),
            false,
        ),
    );
    shown.perform_all(&out);
    assert!(
        shown.shown.is_empty(),
        "answering elsewhere must stop the ring this phone is actually showing"
    );
}

const EVERY_REASON: [CallTerminalReason; 8] = [
    CallTerminalReason::AnsweredHere,
    CallTerminalReason::AnsweredElsewhere,
    CallTerminalReason::DeclinedHere,
    CallTerminalReason::DeclinedElsewhere,
    CallTerminalReason::CallerCancelled,
    CallTerminalReason::Expired,
    CallTerminalReason::Busy,
    CallTerminalReason::TransportError,
];

#[test]
fn a_group_terminal_is_minted_exactly_when_a_receiver_would_accept_it() {
    let mut receiver = session();
    as_me(&mut receiver);
    let mut records = Records::default();
    receive(&mut receiver, &mut records, group_capsule(CapsuleKind::Offer, "call", "ring-id", None));
    assert!(find_ring(&receiver.rings, "call").is_some());

    let coordinator = GroupCoordinator {
        username: "bob".to_string(),
        identity_key: "bob-identity".to_string(),
        device_id: session().directory.self_device_id,
        reply_to_mailbox: "b".repeat(64),
    };
    let mut sender = session();
    sender.account = Some(account("bob"));
    assert_eq!(sender.directory.self_device_id, coordinator.device_id);

    for reason in EVERY_REASON {
        let accepted = capsule_terminal_allowed(
            &receiver,
            &group_capsule(CapsuleKind::Terminal, "call", "ring-id", Some(reason)),
            reason,
        );
        assert_eq!(
            group_terminal_capsule_worth_sending(&sender, &coordinator, reason),
            accepted,
            "{reason:?}"
        );
    }

    let mut member = session();
    member.account = Some(account("carol"));
    for reason in EVERY_REASON {
        assert!(
            !group_terminal_capsule_worth_sending(&member, &coordinator, reason),
            "{reason:?}: a non-coordinator's leave has no capsule to send"
        );
    }
}

#[test]
fn a_group_members_decline_does_not_end_the_ring_for_everyone_else() {
    let mut s = session();
    as_me(&mut s);
    let mut records = Records::default();
    receive(&mut s, &mut records, group_capsule(CapsuleKind::Offer, "call", "ring-id", None));
    assert!(find_ring(&s.rings, "call").is_some(), "the group ring is up");

    let carol = signed(
        "carol",
        CapsuleKind::Terminal,
        "call",
        "ring-id",
        Some(CallTerminalReason::DeclinedHere),
        true,
    );
    receive(&mut s, &mut records, carol);
    assert!(find_ring(&s.rings, "call").is_some(), "one member declining is not the call ending");
    assert_eq!(
        records.terminal_reason("call"),
        None,
        "and it must not tombstone the call the rest are still being offered"
    );

    receive(
        &mut s,
        &mut records,
        group_capsule(
            CapsuleKind::Terminal,
            "call",
            "ring-id",
            Some(CallTerminalReason::CallerCancelled),
        ),
    );
    assert!(find_ring(&s.rings, "call").is_none());
    assert_eq!(records.terminal_reason("call"), Some(CallTerminalReason::CallerCancelled));
}

#[test]
fn a_peer_may_announce_its_own_outcome_and_not_ours() {
    let mut s = session();
    as_me(&mut s);
    let mut records = Records::default();
    receive(&mut s, &mut records, capsule(CapsuleKind::Offer, "call", "offer", None));
    receive(
        &mut s,
        &mut records,
        capsule(CapsuleKind::Terminal, "call", "offer", Some(CallTerminalReason::AnsweredElsewhere)),
    );
    assert!(
        find_ring(&s.rings, "call").is_some(),
        "a peer does not get to say another of our devices answered"
    );
    receive(
        &mut s,
        &mut records,
        capsule(CapsuleKind::Terminal, "call", "offer", Some(CallTerminalReason::CallerCancelled)),
    );
    assert!(find_ring(&s.rings, "call").is_none(), "hanging up is its own");
}

#[test]
fn screening_supplies_no_key_for_an_unknown_or_blocked_caller() {
    let mut s = session();
    s.directory.contacts.push(ContactPin {
        username: "mallory".to_string(),
        blocked: true,
        request: false,
    });
    s.directory.rosters.insert("mallory".to_string(), roster_of("mallory-key"));
    let unknown = capsule(CapsuleKind::Offer, "call", "offer", None);
    assert!(capsule_signing_keys(&s, &unknown).is_none());
    let blocked = signed("mallory", CapsuleKind::Offer, "call", "offer", None, false);
    assert!(capsule_signing_keys(&s, &blocked).is_none());
}

fn roster_of(signing_key: &str) -> Vec<RosterDevice> {
    vec![RosterDevice {
        device_id: "0".to_string(),
        identity_key: "primary".to_string(),
        signing_key: signing_key.to_string(),
    }]
}

fn binding(device_id: &str, signing_key: &str) -> CallKeyBinding {
    CallKeyBinding {
        device_id: device_id.to_string(),
        call_key: "call-key".to_string(),
        call_signing_key: signing_key.to_string(),
        created_at: NOW,
        signature: String::new(),
    }
}

#[test]
fn a_contact_is_screened_by_the_key_its_roster_lists() {
    let mut s = session();
    s.directory.contacts.push(ContactPin {
        username: "bob".to_string(),
        blocked: false,
        request: false,
    });
    let offer = capsule(CapsuleKind::Offer, "call", "offer", None);
    assert_eq!(capsule_signing_keys(&s, &offer), None);
    s.directory.rosters.insert("bob".to_string(), roster_of("bob-signing"));
    assert_eq!(capsule_signing_keys(&s, &offer), Some("bob-signing".to_string()));
    let mut by_call_key = capsule(CapsuleKind::Offer, "call", "offer", None);
    by_call_key.signer = CapsuleSigner::CallKey;
    assert_eq!(capsule_signing_keys(&s, &by_call_key), None);
    s.call_bindings.insert(
        "bob".to_string(),
        CallBindings { fetched_at: NOW, devices: vec![("0".to_string(), binding("0", "bob-call"))] },
    );
    assert_eq!(capsule_signing_keys(&s, &by_call_key), Some("bob-call".to_string()));
    // A binding still cached for a device the roster no longer lists vouches for nothing.
    s.directory.rosters.insert("bob".to_string(), Vec::new());
    assert_eq!(capsule_signing_keys(&s, &by_call_key), None);
    s.directory.rosters.insert("bob".to_string(), roster_of("bob-signing"));
    assert_eq!(capsule_signing_keys(&s, &by_call_key), Some("bob-call".to_string()));
    s.directory.contacts[0].request = true;
    assert_eq!(capsule_signing_keys(&s, &offer), None);
}

#[test]
fn a_group_terminal_mints_one_capsule_per_bound_device_under_the_ring_id() {
    let mut s = session();
    s.account = Some(account("alice"));
    let peer_device = "d".repeat(32);
    s.call_bindings.insert(
        "bob".to_string(),
        CallBindings {
            fetched_at: NOW,
            devices: vec![(peer_device.clone(), binding(&peer_device, "bob-call-signing-key"))],
        },
    );
    let capsules = prepare_capsules(
        &s,
        &"bob".to_string(),
        &CapsuleBatch {
            kind: CapsuleKind::Terminal,
            call_instance_id: "call".to_string(),
            offer_id: "ring-id".to_string(),
            video: false,
            group: true,
            created_at: NOW,
            ring_expires_at: NOW + SIGNAL_TTL,
            expires_at: NOW + SIGNAL_TTL,
            reason: Some(CallTerminalReason::CallerCancelled),
        },
        &Some("mailbox".to_string()),
        &String::new(),
        NOW,
    );
    assert_eq!(capsules.len(), 1);
    let minted = &capsules[0].capsule;
    assert_eq!(minted.kind, CapsuleKind::Terminal);
    assert!(minted.group);
    assert_eq!(minted.offer_id, "ring-id", "keyed by the ring, not a leg");
    assert_eq!(minted.to_device_id, peer_device);
    assert_eq!(
        minted.reason,
        Some(CallTerminalReason::CallerCancelled),
        "the reason the UI has to show honestly"
    );
    assert!(!capsules[0].ring, "a terminal takes the urgent silent wake, never the ring one");
    assert_eq!(minted.from, "alice");
    assert_eq!(minted.reply_to_mailbox, "mailbox");
}

#[test]
fn the_reply_route_a_capsule_mints_is_the_one_the_receiver_derives() {
    let mut s = session();
    s.account = Some(account("alice"));
    s.call_key = Some("alice-call-key".to_string());
    let peer_device = "d".repeat(32);
    s.call_bindings.insert(
        "bob".to_string(),
        CallBindings {
            fetched_at: NOW,
            devices: vec![(peer_device.clone(), binding(&peer_device, "bob-call-signing-key"))],
        },
    );
    // Both ends derive the mailbox of alice's device `0`.
    let derived = "e".repeat(64);
    let capsules = prepare_capsules(
        &s,
        &"bob".to_string(),
        &CapsuleBatch {
            kind: CapsuleKind::Offer,
            call_instance_id: "call".to_string(),
            offer_id: "offer".to_string(),
            video: false,
            group: false,
            created_at: NOW,
            ring_expires_at: NOW + RING_TIMEOUT,
            expires_at: NOW + SIGNAL_TTL,
            reason: None,
        },
        &Some("mailbox".to_string()),
        &derived,
        NOW,
    );
    assert_eq!(capsules.len(), 1);
    let minted = capsules.into_iter().next().unwrap().capsule;
    assert!(
        !minted.reply_call_mailbox.is_empty(),
        "this device published a call key, so it must offer a reply route"
    );
    assert_eq!(minted.reply_call_mailbox, derived);
    assert_eq!(minted.reply_call_key, "alice-call-key");
    assert_eq!(minted.from, "alice");
    assert_eq!(minted.caller_device_id, "0");
    assert_eq!(kept_reply_route(&minted, &Some(derived.clone())), derived);
    assert_eq!(kept_reply_route(&minted, &Some("f".repeat(64))), "", "a route of its own choosing is dropped");
    assert_eq!(kept_reply_route(&minted, &None), "");

    let (mailbox, key) = (minted.reply_call_mailbox.clone(), minted.reply_call_key.clone());
    let mut receiver = session();
    capsule_offer(&mut receiver, minted, OfferDecision::Ring, "handle".to_string(), &Some(derived));
    assert_eq!(
        receiver.rings[0].reply_call_mailbox, mailbox,
        "the receiver's derivation must reproduce the sender's mint, or every locked decline \
         silently degrades to local-only"
    );
    assert_eq!(
        receiver.rings[0].reply_call_key, key,
        "the key is not derivable and must still be carried"
    );
}

#[test]
fn one_call_has_one_pending_ring() {
    let mut s = session();
    let offer = || capsule(CapsuleKind::Offer, "call", "offer", None);
    let out = capsule_offer(&mut s, offer(), OfferDecision::Ring, "first".to_string(), &None);
    assert!(!out.is_empty());
    let again = capsule_offer(&mut s, offer(), OfferDecision::Ring, "second".to_string(), &None);
    assert!(!again.iter().any(|e| matches!(e, Effect::StartSystemCall { .. })));
    assert_eq!(s.rings.len(), 1);
    assert_eq!(s.rings[0].ring_handle, "first");
    assert_eq!(adopt_capsule_ring(&mut s, "call", "offer"), Some("first".to_string()));
    assert_eq!(adopt_capsule_ring(&mut s, "call", "offer"), None, "a ring is taken over once");
}

#[test]
fn no_capsule_goes_to_this_device_or_on_stale_bindings() {
    let mut s = session();
    s.account = Some(account("alice"));
    s.call_bindings.insert(
        "alice".to_string(),
        CallBindings {
            fetched_at: NOW,
            devices: vec![
                ("0".to_string(), binding("0", "own")),
                ("1".to_string(), binding("1", "sibling")),
            ],
        },
    );
    let batch = send_terminal_capsules(
        &"call".to_string(),
        &"offer".to_string(),
        false,
        CallTerminalReason::AnsweredElsewhere,
        NOW,
        NOW + SIGNAL_TTL,
    );
    let mailbox = Some("mailbox".to_string());
    let fresh = prepare_capsules(&s, &"alice".to_string(), &batch, &mailbox, &String::new(), NOW);
    assert_eq!(fresh.len(), 1);
    assert_eq!(fresh[0].capsule.to_device_id, "1");
    let late = NOW + BINDING_TTL_SECS;
    assert!(prepare_capsules(&s, &"alice".to_string(), &batch, &mailbox, &String::new(), late).is_empty());
    assert_eq!(capsule_targets(&s, "alice", Some("1"), NOW).len(), 1);
    assert_eq!(capsule_targets(&s, "nobody", None, NOW).len(), 0);
    s.account = None;
    assert!(prepare_capsules(&s, &"alice".to_string(), &batch, &mailbox, &String::new(), NOW).is_empty());
}

#[test]
fn an_offer_batch_rings_and_carries_its_deadlines() {
    let deadline =
        GroupRingDeadline { created_at: NOW, ring_expires_at: NOW + 45, expires_at: NOW + 60 };
    let batch = offer_capsules(&"call".to_string(), &"ring-id".to_string(), true, deadline);
    assert_eq!(batch.kind, CapsuleKind::Offer);
    assert!(batch.group);
    assert_eq!(batch.ring_expires_at, NOW + 45);
    assert_eq!(batch.expires_at, NOW + 60);
    assert_eq!(batch.reason, None);
}

#[test]
fn the_capsule_layer_warms_against_a_single_device_relay() {
    let mut s = session();
    s.client = Some(1);
    s.multi_device = false;
    s.account = Some(account("alice"));
    s.directory.rosters.insert("bob".to_string(), roster_of("bob-signing"));
    let ids = warm_call_bindings(&s, 1, "bob", NOW).unwrap();
    assert_eq!(ids, vec!["0".to_string()]);
    bindings_fetched(&mut s, 1, &"bob".to_string(), ids, vec![None], NOW);
    assert!(
        s.call_bindings.contains_key("bob"),
        "the binding warm has to run whatever the relay's multi-device capability says"
    );
    assert!(warm_call_bindings(&s, 1, "bob", NOW).is_none());
    assert!(warm_call_bindings(&s, 1, "bob", NOW + BINDING_TTL_SECS).is_some());
    assert!(warm_call_bindings(&s, 2, "bob", NOW + BINDING_TTL_SECS).is_none());
}

#[test]
fn a_full_binding_cache_lets_the_stalest_account_go() {
    let mut s = session();
    s.client = Some(1);
    for i in 0..MAX_CACHED_ACCOUNTS {
        s.call_bindings.insert(
            format!("peer{i}"),
            CallBindings { fetched_at: NOW + ((i as u64) + 5) % 32, devices: Vec::new() },
        );
    }
    s.directory.rosters.insert("bob".to_string(), roster_of("bob-signing"));
    bindings_fetched(
        &mut s,
        1,
        &"bob".to_string(),
        vec!["0".to_string()],
        vec![Some(binding("0", "bob-call"))],
        NOW + 40,
    );
    assert_eq!(s.call_bindings.entries.len(), MAX_CACHED_ACCOUNTS);
    assert!(s.call_bindings.contains_key("bob"));
    assert!(!s.call_bindings.contains_key("peer27"));
    assert!(s.call_bindings.contains_key("peer28"));
}

#[test]
fn capsules_are_fetched_only_with_an_open_account_and_a_call_key() {
    let mut s = session();
    s.client = Some(4);
    s.call_key = Some("public".to_string());
    assert_eq!(drain_call_capsules(&s, 4), None);
    s.account = Some(account("alice"));
    assert_eq!(drain_call_capsules(&s, 4), Some(("alice".to_string(), "0".to_string())));
    assert_eq!(drain_call_capsules(&s, 5), None);
    s.directory.revoked = true;
    assert_eq!(drain_call_capsules(&s, 4), None);
    s.directory.revoked = false;
    s.call_key = None;
    assert_eq!(drain_call_capsules(&s, 4), None);
}

fn placed_call(call: &str) -> CallCtl {
    CallCtl {
        call_instance_id: call.to_string(),
        offer_id: "offer".to_string(),
        ring_handle: "handle".to_string(),
        call_id: "room".to_string(),
        peer_username: "bob".to_string(),
        peer_key: "bob-key".to_string(),
        peer_device_key: String::new(),
        peer_reply_to_mailbox: String::new(),
        caller: true,
        muted: false,
        camera_on: false,
        screen_on: false,
        screen_audio_on: false,
        connected: false,
        connected_at: 0,
        peer_media2: false,
        video_ready: false,
        peer_camera: false,
        peer_screen: false,
        transport: "ws".to_string(),
        ring_fanout: 2,
        busy_devices: NameSet::new(),
    }
}

#[test]
fn a_locked_callees_decline_is_passed_on_to_its_other_devices() {
    let mut s = session();
    let declined =
        capsule(CapsuleKind::Terminal, "call", "offer", Some(CallTerminalReason::DeclinedHere));
    assert!(caller_relay_for(&s, &declined).is_none());
    s.call = Some(placed_call("call"));
    match caller_relay_for(&s, &declined) {
        Some(Effect::SendTerminalEverywhere { username, peer_key, call, offer, reason }) => {
            assert_eq!(username, "bob");
            assert_eq!(peer_key, "bob-key");
            assert_eq!(call, "call");
            assert_eq!(offer, "offer");
            assert_eq!(reason, CallTerminalReason::DeclinedElsewhere);
        }
        _ => panic!("the callee's other devices still ring"),
    }
    let cancelled =
        capsule(CapsuleKind::Terminal, "call", "offer", Some(CallTerminalReason::CallerCancelled));
    assert!(caller_relay_for(&s, &cancelled).is_none());
}

#[test]
fn the_caller_reads_its_mailbox_while_the_call_rings_out() {
    let mut s = session();
    s.client = Some(1);
    s.call_key = Some("public".to_string());
    s.call = Some(placed_call("call"));
    assert!(ringing_capsule_poll(&s, 1, "call"));
    assert!(!ringing_capsule_poll(&s, 2, "call"));
    assert!(!ringing_capsule_poll(&s, 1, "another"));
    if let Some(c) = &mut s.call {
        c.connected = true;
    }
    assert!(!ringing_capsule_poll(&s, 1, "call"));
}
