use sona_calls::call::directory::{ContactPin, Directory, RosterDevice};
use sona_calls::call::error::CallError;
use sona_calls::call::handles::SystemCalls;
use sona_calls::call::identity::{
    call_key_loaded, call_key_was_published, ensure_call_identity, may_publish, publication_due,
    refresh_call_screen, wipe_call_identity,
};
use sona_calls::call::route::{
    contact_discovered, resolve_call_contact, roster_fetched, screen_warm_targets, sending_allowed,
    warm_call_routes_with_self, warm_device_routes, ContactStep, MAX_SCREEN_WARM_PER_UNLOCK,
};
use sona_calls::call::session::{Account, Limits, Prefs, PublishedKey, Session};
use sona_calls::call::store::{
    any_ring_live, apply_call_retention, cancel_stale_rings, cleanup_call_store, find_ring, kept_store,
    load_call_store, mark_locked_rings_presented, reconcile_system_calls, restored_ring_title,
    store_dirty_after, store_needs_saving, wipe_call_store,
};
use sona_calls::call::store_locked::{
    decline_capsule, decline_locked, declines_queued, drain_call_capsules_locked, drain_capsule_outbox,
    load_locked_call_store, locked_signing_key,
    locked_wake, mailbox_tag, screening_ready, vault_locked_on, ScreenEntry, ScreenIndex, SealedStore,
};
use sona_calls::call::system::{
    answer_failed, answer_waits, answered, call_audio_routes, disconnect_cause, disconnected,
    handle_telecom_event, may_unlock_silently, native_audio_route, route_changed, set_muted, telecom_event,
    RoutePicture, TelecomStep,
};
use sona_calls::call::types::{
    CallBindings, CallCapsule, CallCtl, CallTerminalReason, CapsuleKind, CapsuleSigner, DisconnectCause,
    Effect, LockedDecline, PendingOffer, PendingRing, RingName,
};
use sona_calls::call::unlock::{
    abandon_pending_unlock, answer_plan, answer_with_app_credential, presence_is_fresh,
    presence_prompted, presence_vouched, resume_pending_unlock, still_pending, AnswerPlan,
    PresenceOutcome, UnlockStep,
};
use sona_calls::names::NameSet;

const NOW: u64 = 1_700_000_000;
const CLIENT: u64 = 3;
const LOCKED_CALL_RING: &str = "locked-call";

fn session() -> Session {
    Session::new(
        Limits {
            ring_timeout_secs: 45,
            signal_ttl_secs: 60,
            unlock_to_answer_secs: 60,
            presence_window_secs: 30,
            max_buffered_claims: 8,
            max_group_members: 8,
            max_leg_reoffers: 3,
        },
        Prefs {
            notif_level: "full".to_string(),
            require_unlock_to_answer: true,
            auto_unlock: false,
            call_retention_secs: 604800,
        },
        Directory::new("0".to_string()),
    )
}

fn an_account() -> Account {
    Account { account_id: "alice".to_string(), identity_key: "alice-key".to_string() }
}

fn pending_ring(call: &str, handle: &str, presented_as: Option<&str>) -> PendingRing {
    PendingRing {
        call_instance_id: call.to_string(),
        offer_id: "offer".to_string(),
        ring_handle: handle.to_string(),
        from: "bob".to_string(),
        display_name: "bob".to_string(),
        video: false,
        group: false,
        caller_device_id: "0".to_string(),
        reply_to_mailbox: "b".repeat(64),
        reply_call_mailbox: String::new(),
        reply_call_key: String::new(),
        created_at: NOW,
        ring_expires_at: NOW + 45,
        presented_as: presented_as.map(|x| x.to_string()),
    }
}

fn ringing(ring: &str) -> PendingOffer {
    PendingOffer {
        call_instance_id: "call".to_string(),
        offer_id: "offer".to_string(),
        ring_handle: ring.to_string(),
        call_id: "room".to_string(),
        key_b64: String::new(),
        username: "bob".to_string(),
        peer_key: "bob-key".to_string(),
        caller_device_id: "0".to_string(),
        caller_reply_to_mailbox: "b".repeat(64),
        expires_at: NOW + 60,
        caps: Vec::new(),
    }
}

fn start(calls: &mut SystemCalls, ring: &str) {
    calls.perform(&Effect::StartSystemCall {
        ring: ring.to_string(),
        name: RingName::Named("bob".to_string()),
        video: false,
        incoming: true,
    });
}

#[test]
fn answering_the_generic_locked_ring_holds_the_exact_call_for_the_unlock() {
    let mut s = session();
    s.store_device_id = "a".repeat(32);
    s.rings.push(pending_ring("call", "handle", Some(LOCKED_CALL_RING)));
    let mut calls = SystemCalls::new();
    calls.perform(&Effect::ShowRing {
        ring: LOCKED_CALL_RING.to_string(),
        name: RingName::Generic,
        group: false,
    });

    let (plan, out) = answer_plan(&mut s, LOCKED_CALL_RING, true, NOW);
    calls.perform_all(&out);
    calls.perform_all(&answered(&plan, &LOCKED_CALL_RING.to_string()));

    let pending = s
        .pending_unlock
        .as_ref()
        .expect("the answer must be held against the call that is ringing");
    assert_eq!(pending.call_instance_id, "call");
    assert_eq!(
        pending.ring_handle, "handle",
        "the ring's own handle, so the encrypted offer's adoption names the same thing"
    );
    assert!(calls.shown.is_empty(), "pressing Answer stops the ringtone, whatever happens next");
}

#[test]
fn an_answer_over_the_keyguard_costs_a_human_check_even_with_the_vault_open() {
    let mut s = session();
    s.account = Some(an_account());
    s.prefs.require_unlock_to_answer = true;
    s.incoming = Some(ringing("ring"));

    assert!(
        matches!(answer_plan(&mut s, "ring", false, NOW).0, AnswerPlan::Direct),
        "an unlocked phone answers straight away: this setting must not tax that"
    );

    s.last_presence_ok_ms = Some(0);
    let (plan, _) = answer_plan(&mut s, "ring", true, NOW);
    assert!(
        matches!(plan, AnswerPlan::Unlock { needs_presence: true, .. }),
        "the keyguard is the state the setting names, whatever the vault is doing"
    );
    assert!(s.claiming.is_none(), "no claim before a human is vouched for");
    assert!(s.last_presence_ok_ms.is_none(), "a stale pass must not count");
    assert_eq!(s.pending_unlock.as_ref().map(|p| p.call_instance_id.clone()), Some("call".to_string()));

    let (step, _, _) = resume_pending_unlock(&mut s, None, NOW, 1000);
    assert!(
        !matches!(step, UnlockStep::Answer { .. }),
        "an answer must not complete on readiness alone"
    );
    assert!(
        s.pending_unlock.is_some(),
        "the answer is still being held, not dropped: the prompt is still up"
    );

    presence_vouched(&mut s, 1000);
    let (step, handle, _) = resume_pending_unlock(&mut s, None, NOW, 1500);
    assert!(matches!(step, UnlockStep::Answer { group: false }));
    assert_eq!(handle, Some("ring".to_string()));
    assert!(s.pending_unlock.is_none(), "a fresh presence pass releases the answer");
}

#[test]
fn declining_over_the_keyguard_is_never_gated() {
    let mut s = session();
    s.account = Some(an_account());
    s.prefs.require_unlock_to_answer = true;
    s.incoming = Some(ringing("ring"));
    let mut calls = SystemCalls::new();
    start(&mut calls, "ring");

    calls.perform_all(&disconnected(&mut s, "ring"));

    assert!(s.incoming.is_none(), "the ring is refused, not held");
    assert!(s.pending_unlock.is_none(), "a decline never waits for anyone");
    assert!(!calls.up.contains("ring"));
}

#[test]
fn answering_in_a_cold_process_still_stops_the_ringtone() {
    let mut s = session();
    s.store_device_id = "a".repeat(32);
    s.rings.push(pending_ring("call", "handle", Some("presented")));
    let calls = SystemCalls::new();
    assert!(!calls.up.contains("presented"));

    let (plan, _) = answer_plan(&mut s, "presented", true, NOW);
    let out = answered(&plan, &"presented".to_string());

    assert!(
        out.iter().any(|e| matches!(e, Effect::AcceptRing { ring } if ring == "presented")),
        "the notification that is looping the ringtone must be cancelled by id"
    );
}

#[test]
fn a_refused_route_request_does_not_end_the_call() {
    let mut s = session();
    s.incoming = Some(ringing("ring"));
    let error = |op: &str| {
        format!("{{\"ring\":\"ring\",\"event\":\"error\",\"op\":\"{op}\",\"reason\":\"X\"}}")
    };
    let handle = |s: &mut Session, json: &str| {
        let event = handle_telecom_event(json);
        if event.step == TelecomStep::Disconnected {
            disconnected(s, &event.ring);
        }
        event.step
    };
    assert_eq!(handle(&mut s, &error("route")), TelecomStep::RouteChanged);
    assert!(s.incoming.is_some(), "a route Telecom would not take is not a call that failed");
    assert_eq!(handle(&mut s, &error("add")), TelecomStep::Disconnected);
    assert!(s.incoming.is_none());
}

#[test]
fn every_terminal_reason_maps_to_an_honest_disconnect_cause() {
    assert_eq!(
        disconnect_cause(CallTerminalReason::AnsweredElsewhere),
        DisconnectCause::AnsweredElsewhere
    );
    assert_eq!(
        disconnect_cause(CallTerminalReason::DeclinedElsewhere),
        DisconnectCause::AnsweredElsewhere
    );
    assert_eq!(disconnect_cause(CallTerminalReason::DeclinedHere), DisconnectCause::Rejected);
    assert_eq!(disconnect_cause(CallTerminalReason::CallerCancelled), DisconnectCause::Remote);
    assert_eq!(disconnect_cause(CallTerminalReason::Expired), DisconnectCause::Missed);
    assert_eq!(disconnect_cause(CallTerminalReason::Busy), DisconnectCause::Busy);
    assert_eq!(disconnect_cause(CallTerminalReason::TransportError), DisconnectCause::Error);
    assert_eq!(disconnect_cause(CallTerminalReason::AnsweredHere), DisconnectCause::Local);
}

#[test]
fn platform_events_are_read_from_their_document() {
    let event = handle_telecom_event("{\"ring\":\"r\",\"event\":\"endpoint\",\"route\":\"bluetooth\"}");
    assert_eq!(event.ring, "r");
    assert_eq!(event.step, TelecomStep::RouteChanged);
    assert_eq!(event.route, "bluetooth");
    assert_eq!(handle_telecom_event("not a document").step, TelecomStep::Ignore);
    assert_eq!(handle_telecom_event("{\"event\":\"answer\"}").step, TelecomStep::Ignore);
    assert_eq!(telecom_event("r", "answer", ""), TelecomStep::Answered);
    assert_eq!(telecom_event("r", "inactive", ""), TelecomStep::Muted(true));
    assert_eq!(telecom_event("r", "active", ""), TelecomStep::Muted(false));
    assert_eq!(telecom_event("r", "error", "answer"), TelecomStep::Disconnected);
}

#[test]
fn the_routes_shown_are_the_platforms_where_it_tells_them() {
    match route_changed(Some("{}".to_string()), "speaker".to_string()) {
        RoutePicture::Bridge(json) => assert_eq!(json, "{}"),
        _ => panic!("the platform told"),
    }
    match route_changed(None, "bluetooth".to_string()) {
        RoutePicture::Event { bluetooth, route } => {
            assert!(bluetooth);
            assert_eq!(route, "bluetooth");
        }
        _ => panic!("the platform did not tell"),
    }
    match call_audio_routes(Some("not a document".to_string())) {
        RoutePicture::Event { bluetooth, route } => {
            assert!(!bluetooth);
            assert_eq!(route, "earpiece");
        }
        _ => panic!("the bridge told nothing that can be read"),
    }
    assert_eq!(native_audio_route("{\"bt\":true}".to_string()), Some("{\"bt\":true}".to_string()));
    assert_eq!(native_audio_route("{".to_string()), None);
}

#[test]
fn an_answer_that_waits_is_watched_and_may_be_given_up() {
    let t = |x: &str| x.to_string();
    let out = answer_waits(&t("call"), &t("ring"), true, NOW + 60, false);
    assert!(matches!(out[0], Effect::OpenUnlockSurface));
    assert!(matches!(out[1], Effect::PromptPresence { .. }));
    assert!(matches!(out[2], Effect::WatchUnlock { .. }));
    assert!(matches!(answer_waits(&t("call"), &t("ring"), true, NOW, true)[0], Effect::ResumeUnlock));
    assert!(matches!(answer_failed(&t("ring"))[0], Effect::EndSystemCall { .. }));

    let mut s = session();
    s.incoming = Some(ringing("ring"));
    answer_plan(&mut s, "ring", false, NOW);
    assert!(still_pending(&s, "call", NOW + 59));
    assert!(!still_pending(&s, "call", NOW + 60));
    assert!(abandon_pending_unlock(&mut s, "another", &t("ring")).is_empty());
    assert!(!abandon_pending_unlock(&mut s, "call", &t("ring")).is_empty());
    assert!(s.pending_unlock.is_none());
}

#[test]
fn a_presence_check_counts_for_its_window_only() {
    let mut s = session();
    assert!(!presence_is_fresh(&s, 0));
    presence_vouched(&mut s, 10_000);
    assert!(presence_is_fresh(&s, 39_999));
    assert!(!presence_is_fresh(&s, 40_000));
}

#[test]
fn a_device_that_cannot_vouch_asks_for_the_apps_own_credential() {
    let mut s = session();
    s.account = Some(an_account());
    s.incoming = Some(ringing("ring"));
    assert!(matches!(answer_with_app_credential(&s, NOW), Err(CallError::NotWaiting)));
    answer_plan(&mut s, "ring", true, NOW);
    presence_prompted(&mut s, "call", &"ring".to_string(), PresenceOutcome::Unavailable, 0);
    assert!(s.pending_unlock.as_ref().unwrap().wants_credential);
    assert!(answer_with_app_credential(&s, NOW).is_ok());
    assert!(answer_with_app_credential(&s, NOW + 60).is_err());
    presence_prompted(&mut s, "call", &"ring".to_string(), PresenceOutcome::Refused, 0);
    assert!(s.pending_unlock.is_none());
}

#[test]
fn a_waiting_answer_ends_with_its_call_or_its_time() {
    let mut s = session();
    s.incoming = Some(ringing("ring"));
    answer_plan(&mut s, "ring", false, NOW);
    assert!(matches!(resume_pending_unlock(&mut s, None, NOW, 0).0, UnlockStep::Wait));
    s.account = Some(an_account());
    let (step, _, out) =
        resume_pending_unlock(&mut s, Some(CallTerminalReason::CallerCancelled), NOW, 0);
    assert!(matches!(step, UnlockStep::Over));
    assert!(matches!(out[1], Effect::EndSystemCall { .. }));
    s.account = None;
    answer_plan(&mut s, "ring", false, NOW);
    s.account = Some(an_account());
    let (step, _, out) = resume_pending_unlock(&mut s, None, NOW + 60, 0);
    assert!(matches!(step, UnlockStep::Expired));
    assert!(s.pending_unlock.is_none());
    assert!(
        out.iter().any(|e| matches!(e, Effect::CancelRing { ring, .. } if ring == "ring")),
        "an answer whose time is up leaves nothing connecting"
    );
}

fn live(ring: &str) -> CallCtl {
    CallCtl {
        call_instance_id: "call".to_string(),
        offer_id: "offer".to_string(),
        ring_handle: ring.to_string(),
        call_id: "room".to_string(),
        peer_username: "bob".to_string(),
        peer_key: "bob-key".to_string(),
        peer_device_key: "bob-key".to_string(),
        peer_reply_to_mailbox: String::new(),
        caller: true,
        muted: false,
        camera_on: false,
        screen_on: false,
        screen_audio_on: false,
        connected: true,
        connected_at: NOW,
        peer_media2: true,
        video_ready: false,
        peer_camera: false,
        peer_screen: false,
        transport: "ws".to_string(),
        ring_fanout: 1,
        busy_devices: NameSet::new(),
    }
}

#[test]
fn another_call_mutes_this_one_and_gives_the_audio_back() {
    let mut s = session();
    s.call = Some(live("ring"));
    set_muted(&mut s, "other", true);
    assert!(!s.call.as_ref().unwrap().muted);
    set_muted(&mut s, "ring", true);
    assert!(s.call.as_ref().unwrap().muted);
    set_muted(&mut s, "ring", false);
    assert!(!s.call.as_ref().unwrap().muted);
}

#[test]
fn a_vault_is_opened_silently_only_where_answers_ask_for_no_unlock() {
    let mut s = session();
    assert!(!may_unlock_silently(&s));
    s.prefs.require_unlock_to_answer = false;
    assert!(may_unlock_silently(&s));
}

#[test]
fn reconciliation_only_restores_rings_that_are_still_live() {
    // Two rings were stored; the records say that one call ended, so only the other is to
    // be presented.
    let mut s = session();
    s.account = Some(an_account());
    let stored = vec![
        pending_ring("live", "live-handle", None),
        pending_ring("ended", "ended-handle", None),
    ];
    let present = vec![pending_ring("live", "live-handle", None)];
    let cancel = vec!["ended-handle".to_string()];
    let out = load_call_store(&mut s, Some(stored), &cancel, &present, &Vec::new());
    let restored: Vec<&String> = out
        .iter()
        .filter_map(|e| match e {
            Effect::StartSystemCall { ring, .. } => Some(ring),
            _ => None,
        })
        .collect();
    assert_eq!(restored.len(), 1);
    assert_eq!(restored[0], "live-handle");
    assert!(find_ring(&s.rings, "ended").is_none());
    assert!(out.iter().any(|e| matches!(e, Effect::CancelRing { ring, .. } if ring == "ended-handle")));
}

#[test]
fn a_ring_the_platform_still_holds_is_not_started_again() {
    let mut s = session();
    s.rings.push(pending_ring("live", "live-handle", None));
    let present = vec![pending_ring("live", "live-handle", None)];
    let held = vec!["live-handle".to_string(), "orphan".to_string()];
    let out = reconcile_system_calls(&mut s, &present, &held);
    assert!(!out.iter().any(|e| matches!(e, Effect::StartSystemCall { .. })));
    assert!(out.iter().any(|e| matches!(e, Effect::EndSystemCall { ring, .. } if ring == "orphan")));
    assert_eq!(cancel_stale_rings(&vec!["a".to_string(), "b".to_string()]).len(), 2);
    assert!(any_ring_live(&s.rings, NOW + 44));
    assert!(!any_ring_live(&s.rings, NOW + 45));
}

#[test]
fn a_restart_leaves_up_every_call_the_session_holds() {
    let mut s = session();
    s.rings.push(pending_ring("stored", "stored-handle", None));
    s.incoming = Some(ringing("ringing-handle"));
    let held = vec![
        "stored-handle".to_string(),
        "ringing-handle".to_string(),
        "orphan".to_string(),
    ];
    let out = reconcile_system_calls(&mut s, &Vec::new(), &held);
    let ended: Vec<&String> = out
        .iter()
        .filter_map(|e| match e {
            Effect::EndSystemCall { ring, .. } => Some(ring),
            _ => None,
        })
        .collect();
    assert_eq!(ended, vec!["orphan"], "the call that rings here is not nobody's");
}

#[test]
fn the_store_of_another_account_or_device_is_not_kept() {
    let found = || {
        Some(SealedStore {
            username: "alice".to_string(),
            account_hash: "hash".to_string(),
            device_id: "dev".to_string(),
            rings: vec![pending_ring("call", "handle", None)],
        })
    };
    assert_eq!(kept_store(found(), "hash", "dev").unwrap().rings.len(), 1);
    assert!(kept_store(found(), "other", "dev").is_none());
    assert!(kept_store(found(), "hash", "other").is_none());
    assert!(kept_store(None, "hash", "dev").is_none());
}

#[test]
fn a_restored_ring_honors_the_notification_privacy_level() {
    let ring = |display_name: &str| {
        let mut ring = pending_ring("call", "handle", None);
        ring.display_name = display_name.to_string();
        ring
    };
    let mut s = session();
    assert_eq!(restored_ring_title(&s, &ring("Alice")).text(), "Alice");
    s.prefs.notif_level = "generic".to_string();
    assert_eq!(restored_ring_title(&s, &ring("Alice")).text(), "Sona");
    assert_eq!(restored_ring_title(&s, &ring("")).text(), "Sona");
}

#[test]
fn the_store_is_written_when_it_changed_and_clean_only_once_written() {
    assert!(store_needs_saving(true, true, true));
    assert!(!store_needs_saving(false, true, true));
    assert!(!store_needs_saving(true, false, true));
    assert!(!store_needs_saving(true, true, false));
    assert!(!store_dirty_after(true, true, true));
    assert!(store_dirty_after(true, true, false));
    assert!(store_dirty_after(true, false, false));
    let mut s = session();
    assert_eq!(cleanup_call_store(&s), None);
    s.account = Some(an_account());
    s.store_device_id = "0".to_string();
    assert_eq!(cleanup_call_store(&s), Some(604800));
    assert_eq!(apply_call_retention(&s), 604800);
    s.rings.push(pending_ring("call", "handle", None));
    let out = wipe_call_store(&mut s);
    assert!(s.rings.is_empty());
    assert!(out.iter().any(|e| matches!(e, Effect::CancelRing { ring, .. } if ring == "handle")));
    assert_eq!(s.store_device_id, "");
}

#[test]
fn a_device_that_can_screen_nobody_must_not_drain_the_mailbox() {
    assert!(
        !screening_ready(None),
        "no screening index at all: fetching would ack the capsules away unscreened"
    );
    assert!(
        !screening_ready(Some(&ScreenIndex { entries: Vec::new() })),
        "an index that opens but places nobody is not a licence to destroy the mailbox"
    );
    let usable = ScreenIndex {
        entries: vec![ScreenEntry {
            caller: "caller-hash".to_string(),
            devices: vec![("0".to_string(), "signing-key".to_string())],
        }],
    };
    assert!(
        screening_ready(Some(&usable)),
        "one placeable caller is enough to make draining meaningful"
    );
    let mut s = session();
    s.client = Some(CLIENT);
    let sealed = || {
        Some(SealedStore {
            username: "alice".to_string(),
            account_hash: "hash".to_string(),
            device_id: "dev".to_string(),
            rings: Vec::new(),
        })
    };
    assert!(drain_call_capsules_locked(&mut s, CLIENT, sealed(), true, None).is_none());
    let mut s = session();
    s.client = Some(CLIENT);
    assert!(drain_call_capsules_locked(&mut s, CLIENT, sealed(), true, Some(&usable)).is_some());
}

#[test]
fn a_locked_device_rings_declines_and_signs_with_its_call_key() {
    let mut s = session();
    s.client = Some(CLIENT);
    assert!(vault_locked_on(&s, CLIENT));
    assert!(load_locked_call_store(
        &mut s,
        Some(SealedStore {
            username: "alice".to_string(),
            account_hash: "hash".to_string(),
            device_id: "dev".to_string(),
            rings: vec![pending_ring("call", "handle", None)],
        }),
    ));
    let wake = locked_wake(&s, CLIENT, &vec![CapsuleKind::Offer], NOW);
    assert!(wake.ringing);
    assert!(!wake.terminated);
    let out = mark_locked_rings_presented(&mut s, &LOCKED_CALL_RING.to_string());
    assert_eq!(out.len(), 1);
    s.rings[0].reply_call_mailbox = "reply".to_string();
    s.rings[0].reply_call_key = "key".to_string();
    assert!(decline_locked(&mut s, CLIENT, false, LOCKED_CALL_RING, NOW).is_empty());
    assert_eq!(s.rings.len(), 1, "without a key there is nothing to sign with");
    let out = decline_locked(&mut s, CLIENT, true, LOCKED_CALL_RING, NOW);
    assert!(s.rings.is_empty());
    assert!(out.iter().any(|e| matches!(e, Effect::CancelRing { ring, .. } if ring == "handle")));
    assert!(!out.iter().any(|e| matches!(e, Effect::DrainOutbox)));
    // The outbox is drained only if it took a decline.
    assert!(declines_queued(&vec![]).is_empty());
    assert!(declines_queued(&vec![false, false]).is_empty());
    assert!(matches!(declines_queued(&vec![false, true]).as_slice(), [Effect::DrainOutbox]));
    assert!(out.iter().any(|e| matches!(e, Effect::QueueDecline { decline } if decline.to_mailbox == "reply")));
    let decline = LockedDecline {
        call: "call".to_string(),
        offer: "offer".to_string(),
        group: false,
        to_device_id: "0".to_string(),
        to_mailbox: "reply".to_string(),
        to_key: "key".to_string(),
        created_at: NOW,
        expires_at: NOW + 60,
    };
    let capsule = decline_capsule(&s, &decline, &"mine".to_string(), &"my-key".to_string());
    assert_eq!(capsule.reason, Some(CallTerminalReason::DeclinedHere));
    assert_eq!(capsule.signer, CapsuleSigner::CallKey);
    assert_eq!(capsule.reply_call_mailbox, "mine");
    assert_eq!(locked_signing_key(&capsule, Some("listed".to_string())), None);
    let by_roster = CallCapsule { signer: CapsuleSigner::Roster, ..capsule };
    assert_eq!(
        locked_signing_key(&by_roster, Some("listed".to_string())),
        Some("listed".to_string())
    );
    assert_eq!(mailbox_tag("0123456789abcdef"), "01234567");
    assert_eq!(mailbox_tag("0123"), "0123");
}

fn roster(key: &str) -> Vec<RosterDevice> {
    vec![RosterDevice {
        device_id: "0".to_string(),
        identity_key: key.to_string(),
        signing_key: "signing".to_string(),
    }]
}

#[test]
fn the_screening_warm_prefers_accounts_with_no_roster_at_all() {
    let mut s = session();
    s.account = Some(an_account());
    assert_eq!(screen_warm_targets(&s), vec!["alice".to_string()]);

    s.directory.rosters.insert("bob".to_string(), roster("bob-primary"));
    let pin = |name: &str| ContactPin { username: name.to_string(), blocked: false, request: false };
    s.directory.contacts.push(pin("bob"));
    s.directory.contacts.push(pin("carol"));
    let targets = screen_warm_targets(&s);
    assert_eq!(
        targets.iter().position(|t| t == "bob"),
        Some(targets.len() - 1),
        "the already-pinned account goes last: a missing roster is what breaks screening"
    );
    assert!(targets.contains(&"carol".to_string()));
    assert!(targets.contains(&"alice".to_string()));

    for i in 0..40 {
        s.directory.contacts.push(pin(&format!("peer{i}")));
    }
    assert_eq!(screen_warm_targets(&s).len(), MAX_SCREEN_WARM_PER_UNLOCK);
}

#[test]
fn linked_devices_are_warmed_only_where_the_relay_has_them() {
    let mut s = session();
    s.client = Some(CLIENT);
    assert!(matches!(sending_allowed(&s, CLIENT), Err(CallError::Locked)));
    s.account = Some(an_account());
    assert!(sending_allowed(&s, CLIENT).is_ok());
    assert!(matches!(sending_allowed(&s, CLIENT + 1), Err(CallError::NotConfigured)));
    assert!(!warm_device_routes(&s, CLIENT));
    s.multi_device = true;
    assert!(warm_device_routes(&s, CLIENT));
    assert_eq!(roster_fetched(&s, CLIENT + 1, "bob", true), None);
    let routes = warm_call_routes_with_self(&s, &"bob".to_string());
    assert!(routes.contains(&"bob".to_string()));
}

#[test]
fn a_contact_is_called_under_the_key_it_is_known_by() {
    let mut s = session();
    assert!(matches!(
        resolve_call_contact(&s, &None, Ok(()), false),
        Err(CallError::Locked)
    ));
    s.account = Some(an_account());
    match resolve_call_contact(&s, &Some("bob-key".to_string()), Ok(()), true) {
        Ok(ContactStep::Ready { identity_key }) => assert_eq!(identity_key, "bob-key"),
        _ => panic!("a known contact with a session"),
    }
    match resolve_call_contact(&s, &None, Ok(()), false) {
        Ok(ContactStep::Discover { my_key }) => assert_eq!(my_key, "alice-key"),
        _ => panic!("an unknown contact is looked up"),
    }
    s.directory.revoked = true;
    assert!(matches!(resolve_call_contact(&s, &None, Ok(()), false), Err(CallError::Unlinked)));
    let t = |x: &str| x.to_string();
    assert!(contact_discovered(&None, &t("alice-key"), &t("bob-key")).is_ok());
    assert!(matches!(
        contact_discovered(&Some(t("bob-key")), &t("alice-key"), &t("new-key")),
        Err(CallError::KeyChanged)
    ));
    assert!(matches!(
        contact_discovered(&None, &t("alice-key"), &t("alice-key")),
        Err(CallError::OwnAccount)
    ));
}

#[test]
fn wiping_removes_the_secret_and_the_publication_record() {
    let mut s = session();
    s.call_key = Some("public".to_string());
    s.call_key_published = Some(PublishedKey {
        public_key: "pub".to_string(),
        created_at: 5,
        device_id: "0".to_string(),
    });
    s.call_bindings.insert(
        "bob".to_string(),
        CallBindings { fetched_at: NOW, devices: Vec::new() },
    );
    s.rings.push(pending_ring("call", "handle", None));
    let out = wipe_call_identity(&mut s);
    assert!(out.iter().any(|e| matches!(e, Effect::CancelRing { ring, .. } if ring == "handle")));
    assert!(s.rings.is_empty());
    assert!(s.call_key.is_none());
    assert!(s.call_key_published.is_none());
}

#[test]
fn a_call_key_is_published_once_and_each_time_later_than_before() {
    let mut s = session();
    s.client = Some(CLIENT);
    assert!(ensure_call_identity(&s, CLIENT, true).is_none());
    s.account = Some(an_account());
    assert!(ensure_call_identity(&s, CLIENT, true).is_some());
    assert!(refresh_call_screen(&s, true));
    assert!(!refresh_call_screen(&s, false));
    let public = "public".to_string();
    let device = "0".to_string();
    let (_, _) = call_key_loaded(&mut s, CLIENT, &public, true);
    assert_eq!(s.call_key, Some(public.clone()));
    let due = publication_due(true, &s.call_key_published, &public, &device, NOW).unwrap();
    assert!(may_publish(&s, CLIENT));
    call_key_was_published(&mut s, CLIENT, &public, due, &device);
    assert!(publication_due(false, &s.call_key_published, &public, &device, NOW).is_none());
    let again = publication_due(true, &s.call_key_published, &"new".to_string(), &device, NOW - 9).unwrap();
    assert!(again > due);
}

#[test]
fn only_what_got_through_leaves_the_outbox() {
    let mut s = session();
    s.client = Some(CLIENT);
    assert_eq!(drain_capsule_outbox(&s, CLIENT, &vec![true, false, true]), vec![0, 2]);
    assert!(drain_capsule_outbox(&s, CLIENT, &Vec::new()).is_empty());
    assert!(drain_capsule_outbox(&s, CLIENT + 1, &vec![true]).is_empty());
}
