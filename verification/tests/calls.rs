use sona_calls::call::accept::{call_accept, claim_sent, claim_timed_out};
use sona_calls::call::claim::{
    receive_answer_claim, settle_answer_claim, take_buffered_claims, ClaimStep,
};
use sona_calls::call::cmd::{
    begin_outgoing, call_decline, call_hangup, call_set_camera, call_set_media_device, call_set_muted,
    call_set_route, call_set_screen, call_set_screen_audio, call_set_speaker, call_start, call_status,
    call_tone, count_rung, outgoing_failed, outgoing_join, outgoing_registered, outgoing_ringing, system_call, MediaDevice, RouteRequest,
    ScreenSourcePick, ScreenTarget,
};
use sona_calls::call::directory::{Directory, KnownDevice, RosterDevice};
use sona_calls::call::ending::{
    receive_call_busy, receive_call_terminal, receive_self_terminal, ring_terminal_selfsync,
    screen_call_terminal, screen_self_terminal, settled_reason, CallBusy, CallTerminal,
};
use sona_calls::call::engine::{
    call_end_label, call_set_up, call_still_live, control_sender, first_outcome, install_call, media_connected, media_ended,
    outgoing_timed_out, peer_track, release_call_slot, reserve_call_slot, send_call_terminal_everywhere,
    video_ready, voice_flowing, winner_delivered, MediaFlags, Waited,
};
use sona_calls::call::error::{reason_name, CallError};
use sona_calls::call::handles::SystemCalls;
use sona_calls::call::reconnect::{
    give_up_reconnect, give_up_resumed_call, i_own_pair, resume_join, resume_offer_posted, start_call_reconnect,
    ResumeOffer,
};
use sona_calls::call::session::{
    call_retention_secs, call_slot_free, is_current, record_call_terminal, ring_title, Account, Limits, Prefs, Session,
};
use sona_calls::call::signal::{
    accept_resume, receive_call_offer, receive_call_winner, resume_failed, resume_joined, ring_expired,
    screen_call_offer, won_call_failed, won_call_joined, winner_caller_device, CallOffer, CallWinner, JoinPlan,
    OfferChecks, OfferScreen, PeerMedia, WinnerStep,
};
use sona_calls::call::types::{
    AnswerClaim, BufferedClaim, CallCtl, CallEvent, CallKind, CallPhase, CallTerminalReason,
    ClaimDecision, DisconnectCause, Effect, Label, OfferDecision, OutgoingSetup, PendingClaim,
    PendingOffer, PendingReconnect, ResumeDecision, RingName, TerminalDecision, Ticket, Track,
    TransitionDecision,
};
use sona_calls::names::NameSet;

const NOW: u64 = 1_700_000_000;
const CLIENT: u64 = 7;
const RETENTION_CHOICES: [u64; 4] = [0, 86400, 604800, 2592000];

fn session() -> Session {
    Session::new(
        Limits {
            ring_timeout_secs: 45,
            signal_ttl_secs: 60,
            unlock_to_answer_secs: 60,
            presence_window_secs: 30,
            max_buffered_claims: 8,
            max_group_members: 8,
            max_leg_reoffers: 3,
        },
        Prefs {
            notif_level: "full".to_string(),
            require_unlock_to_answer: true,
            auto_unlock: false,
            call_retention_secs: RETENTION_CHOICES[2],
        },
        Directory::new("0".to_string()),
    )
}

fn online() -> Session {
    let mut s = session();
    s.client = Some(CLIENT);
    s.account = Some(Account {
        account_id: "alice".to_string(),
        identity_key: "alice-key".to_string(),
    });
    s
}

/// Bob's one device, listed in the roster of an account that is pinned.
fn know_bob(s: &mut Session) {
    s.directory.devices.insert(
        "bob-key".to_string(),
        KnownDevice {
            account_key: "bob-key".to_string(),
            username: Some("bob".to_string()),
            blocked: false,
            own: false,
        },
    );
    s.directory.rosters.insert(
        "bob".to_string(),
        vec![RosterDevice {
            device_id: "0".to_string(),
            identity_key: "bob-key".to_string(),
            signing_key: "bob-signing".to_string(),
        }],
    );
}

fn ringing(ring: &str) -> PendingOffer {
    PendingOffer {
        call_instance_id: "call".to_string(),
        offer_id: "offer".to_string(),
        ring_handle: ring.to_string(),
        call_id: "room".to_string(),
        key_b64: "key".to_string(),
        username: "bob".to_string(),
        peer_key: "bob-key".to_string(),
        caller_device_id: "0".to_string(),
        caller_reply_to_mailbox: "b".repeat(64),
        expires_at: NOW + 60,
        caps: Vec::new(),
    }
}

fn a_claim_pending(ring: &str) -> PendingClaim {
    PendingClaim {
        offer: ringing(ring),
        claim_nonce: "nonce".to_string(),
        answering_device_id: "0".to_string(),
    }
}

/// A live 1:1 call, as the give-up paths see it.
fn a_call(ring_handle: &str, call_id: &str) -> CallCtl {
    CallCtl {
        call_instance_id: "call".to_string(),
        offer_id: "offer".to_string(),
        ring_handle: ring_handle.to_string(),
        call_id: call_id.to_string(),
        peer_username: "bob".to_string(),
        peer_key: "bob-key".to_string(),
        peer_device_key: "bob-key".to_string(),
        peer_reply_to_mailbox: "b".repeat(64),
        caller: true,
        muted: false,
        camera_on: false,
        screen_on: false,
        screen_audio_on: false,
        connected: false,
        connected_at: 0,
        peer_media2: true,
        video_ready: false,
        peer_camera: false,
        peer_screen: false,
        transport: "ws".to_string(),
        ring_fanout: 1,
        busy_devices: NameSet::new(),
    }
}

fn a_reconnect(ring: &str, old_call_id: &str, peer_key: &str) -> PendingReconnect {
    PendingReconnect {
        call_instance_id: "call".to_string(),
        offer_id: "offer".to_string(),
        ring_handle: ring.to_string(),
        old_call_id: old_call_id.to_string(),
        peer_username: "bob".to_string(),
        peer_key: peer_key.to_string(),
        peer_device_key: "bob-device".to_string(),
        peer_reply_to_mailbox: "b".repeat(64),
        caller: true,
        peer_media2: true,
        connected_at: NOW - 30,
    }
}

fn up(ring: &str) -> SystemCalls {
    let mut calls = SystemCalls::new();
    calls.perform(&Effect::StartSystemCall {
        ring: ring.to_string(),
        name: RingName::Named("Peer".to_string()),
        video: false,
        incoming: true,
    });
    calls
}

fn ends_with_cause(out: &[Effect], handle: &str, cause: DisconnectCause) -> bool {
    out.iter().any(
        |e| matches!(e, Effect::EndSystemCall { ring, cause: c } if ring == handle && *c == cause),
    )
}

fn cancels(out: &[Effect], handle: &str) -> bool {
    out.iter().any(|e| matches!(e, Effect::CancelRing { ring, .. } if ring == handle))
}

#[test]
fn a_system_call_never_outlives_the_call_that_created_it() {
    let mut calls = up("ring");
    assert!(calls.up.contains("ring"));
    // Answering does not end it: the call is still up, and only the notification goes.
    calls.perform(&Effect::AcceptRing { ring: "ring".to_string() });
    assert!(calls.up.contains("ring"));
    let end = Effect::EndSystemCall { ring: "ring".to_string(), cause: DisconnectCause::Local };
    calls.perform(&end);
    assert!(!calls.up.contains("ring"));
    // A doubled end costs nothing.
    calls.perform(&end);
    assert!(!calls.up.contains("ring"));
}

#[test]
fn cancelling_a_ring_takes_its_system_call_with_it() {
    let mut calls = up("ring");
    calls.perform(&Effect::CancelRing {
        ring: "ring".to_string(),
        name: RingName::Named("Missed call".to_string()),
    });
    assert!(!calls.up.contains("ring"));
}

#[test]
fn a_terminal_in_a_cold_process_still_stops_the_ringtone() {
    // This process never posted the ring; the store alone knows how it is shown.
    let mut s = session();
    s.rings.push(sona_calls::call::types::PendingRing {
        call_instance_id: "call".to_string(),
        offer_id: "offer".to_string(),
        ring_handle: "handle".to_string(),
        from: "bob".to_string(),
        display_name: "bob".to_string(),
        video: false,
        group: false,
        caller_device_id: "0".to_string(),
        reply_to_mailbox: "b".repeat(64),
        reply_call_mailbox: String::new(),
        reply_call_key: String::new(),
        created_at: NOW,
        ring_expires_at: NOW + 45,
        presented_as: Some("presented".to_string()),
    });
    let out = sona_calls::call::capsule_apply::capsule_terminal(
        &mut s,
        &"call".to_string(),
        CallTerminalReason::CallerCancelled,
        true,
    );
    assert!(cancels(&out, "presented"));
    assert!(cancels(&out, "handle"));
}

#[test]
fn hanging_up_while_claiming_frees_the_call_slot() {
    let mut s = session();
    let mut calls = up("ring");
    s.claiming = Some(a_claim_pending("ring"));
    assert!(!call_slot_free(&s));
    // No connection, so nothing can go out: the slot is freed all the same.
    let (r, out) = call_hangup(&mut s);
    assert!(matches!(r, Err(CallError::NotConfigured)));
    calls.perform_all(&out);
    assert!(s.claiming.is_none());
    assert!(call_slot_free(&s));
    assert!(!calls.up.contains("ring"));
}

#[test]
fn giving_up_on_a_resume_takes_the_system_call_with_it() {
    let mut s = session();
    let mut calls = up("ring");
    s.reconnect = Some(a_reconnect("ring", "old-room", ""));
    let (gave_up, out) = give_up_reconnect(&mut s, "old-room", DisconnectCause::Remote);
    calls.perform_all(&out);
    assert!(gave_up);
    assert!(
        !calls.up.contains("ring"),
        "a resume nobody came back for must not leave a call in Telecom"
    );
    assert!(s.reconnect.is_none());
    assert!(!give_up_reconnect(&mut s, "old-room", DisconnectCause::Remote).0);

    let mut calls = up("resumed");
    s.call = Some(a_call("resumed", "new-room"));
    let (gave_up, out) = give_up_resumed_call(&mut s, "new-room");
    calls.perform_all(&out);
    assert!(gave_up);
    assert!(
        !calls.up.contains("resumed"),
        "a resumed session that never connected must not leave a call in Telecom"
    );
    assert!(s.call.is_none());
}

#[test]
fn giving_up_on_a_room_that_is_not_this_one_does_nothing() {
    let mut s = session();
    s.reconnect = Some(a_reconnect("ring", "old-room", ""));
    s.call = Some(a_call("resumed", "new-room"));
    assert!(!give_up_reconnect(&mut s, "other", DisconnectCause::Remote).0);
    assert!(!give_up_resumed_call(&mut s, "other").0);
    if let Some(c) = &mut s.call {
        c.connected = true;
    }
    assert!(!give_up_resumed_call(&mut s, "new-room").0);
    assert!(s.call.is_some() && s.reconnect.is_some());
}

#[test]
fn a_terminal_is_tombstoned_for_the_retention_the_user_chose() {
    let kept = |chosen: u64| {
        let mut s = session();
        s.client = Some(CLIENT);
        s.prefs.call_retention_secs = chosen;
        s.incoming = Some(ringing("ring"));
        let (r, out) = call_decline(&mut s);
        assert!(r.is_ok());
        out.iter()
            .find_map(|e| match e {
                Effect::RecordTerminal { retention, .. } => Some(*retention),
                _ => None,
            })
            .unwrap()
    };
    assert_eq!(kept(RETENTION_CHOICES[3]), RETENTION_CHOICES[3]);
    assert_eq!(kept(RETENTION_CHOICES[1]), RETENTION_CHOICES[1]);
    assert!(kept(RETENTION_CHOICES[0]) < RETENTION_CHOICES[1]);
    // A retention the settings do not offer falls back to a week.
    assert_eq!(kept(5), RETENTION_CHOICES[2]);
}

#[test]
fn the_self_sync_terminal_is_tombstoned_for_the_retention_the_user_chose() {
    let mut s = session();
    s.prefs.call_retention_secs = RETENTION_CHOICES[3];
    s.directory.devices.insert(
        "sibling".to_string(),
        KnownDevice {
            account_key: "primary".to_string(),
            username: Some("alice".to_string()),
            blocked: false,
            own: true,
        },
    );
    assert!(screen_self_terminal(&s, "sibling", true));
    assert!(!screen_self_terminal(&s, "sibling", false));
    assert!(!screen_self_terminal(&s, "stranger", true));
    // What the records are given for it.
    let record = record_call_terminal(
        &s,
        &"call".to_string(),
        &"offer".to_string(),
        CallTerminalReason::AnsweredElsewhere,
    );
    assert_eq!(record.call, "call");
    assert_eq!(record.offer, "offer");
    assert_eq!(record.reason, CallTerminalReason::AnsweredElsewhere);
    assert_eq!(record.retention, RETENTION_CHOICES[3], "thirty days must mean thirty days here too");
    assert_eq!(call_retention_secs(&s), RETENTION_CHOICES[3]);
    s.incoming = Some(ringing("ring"));
    let out = receive_self_terminal(
        &mut s,
        "call",
        CallTerminalReason::AnsweredElsewhere,
        TerminalDecision::Applied(CallTerminalReason::AnsweredElsewhere),
    );
    assert!(s.incoming.is_none());
    assert!(cancels(&out, "ring"));
}

#[test]
fn an_outcome_goes_to_the_other_devices_only_of_an_open_account() {
    let mut s = session();
    assert!(ring_terminal_selfsync(&s, NOW).is_none());
    s = online();
    assert!(ring_terminal_selfsync(&s, NOW).is_none());
    s.multi_device = true;
    match ring_terminal_selfsync(&s, NOW) {
        Some(sync) => {
            assert_eq!(sync.me, "alice");
            assert_eq!(sync.actor_device_id, "0");
            assert_eq!(sync.expires_at, NOW + 60);
        }
        None => panic!("an open account has other devices to tell"),
    }
}

fn a_claim(call: &str, offer: &str, nonce: &str) -> BufferedClaim {
    BufferedClaim {
        sender_identity_key: "bob-key".to_string(),
        call_instance_id: call.to_string(),
        offer_id: offer.to_string(),
        claim_nonce: nonce.to_string(),
        answering_device_id: "0".to_string(),
        reply_to_mailbox: "m".to_string(),
        caps: Vec::new(),
        expires_at: NOW + 60,
    }
}

#[test]
fn a_claim_that_beats_the_room_is_buffered_rather_than_dropped() {
    let mut s = session();
    s.client = Some(CLIENT);
    let limit = s.limits.max_buffered_claims;
    // Exactly the window the offers go out in: reserved, no call yet.
    s.outgoing_setup = Some(OutgoingSetup {
        call_instance_id: "call".to_string(),
        offer_id: "offer".to_string(),
        claims: Vec::new(),
    });
    let none = Some("m".to_string());
    let held = |s: &Session| s.outgoing_setup.as_ref().unwrap().claims.len();
    let r = receive_answer_claim(&mut s, a_claim("call", "offer", "n1"), true, true, &none);
    assert!(matches!(r, ClaimStep::Buffered));
    assert_eq!(
        held(&s),
        1,
        "the claim must survive the window instead of being dropped on the floor"
    );
    let r = receive_answer_claim(&mut s, a_claim("another", "offer", "n2"), true, true, &none);
    assert!(matches!(r, ClaimStep::Unmatched));
    assert_eq!(held(&s), 1, "only claims naming this exact call and offer are buffered");
    for i in 0..(limit * 2) {
        receive_answer_claim(&mut s, a_claim("call", "offer", &format!("f{i}")), true, true, &none);
    }
    assert_eq!(held(&s), limit);
    let r = receive_answer_claim(&mut s, a_claim("call", "offer", "late"), true, true, &none);
    assert!(matches!(r, ClaimStep::BufferFull));
    let r = receive_answer_claim(&mut s, a_claim("call", "offer", "old"), false, true, &none);
    assert!(matches!(r, ClaimStep::Expired));
    // Replay always clears the setup, so nothing is carried into the next call.
    let claims = take_buffered_claims(&mut s);
    assert!(s.outgoing_setup.is_none());
    assert_eq!(claims.len(), limit);
    assert_eq!(claims[0].claim_nonce, "n1");
    for claim in claims {
        assert!(matches!(
            receive_answer_claim(&mut s, claim, true, true, &none),
            ClaimStep::Unmatched
        ));
    }
}

#[test]
fn a_claim_from_the_rung_device_goes_to_the_arbiter() {
    let mut s = online();
    know_bob(&mut s);
    let mut call = a_call("ring", "room");
    call.peer_device_key = String::new();
    s.call = Some(call);
    let mailbox = Some("m".to_string());
    let elsewhere = Some("x".to_string());
    match receive_answer_claim(&mut s, a_claim("call", "offer", "n"), true, true, &elsewhere) {
        ClaimStep::Refused { same_peer, verified_device, mailbox_matches } => {
            assert!(same_peer && verified_device && !mailbox_matches);
        }
        _ => panic!("the reply route is not the device's own"),
    }
    let claim = match receive_answer_claim(&mut s, a_claim("call", "offer", "n"), true, true, &mailbox) {
        ClaimStep::Arbitrate(claim) => claim,
        _ => panic!("every check holds"),
    };
    let out = settle_answer_claim(
        &mut s,
        claim,
        ClaimDecision::Winner(AnswerClaim {
            claim_nonce: "n".to_string(),
            answering_device_id: "0".to_string(),
            reply_to_mailbox: "m".to_string(),
        }),
        true,
    );
    assert!(out.iter().any(|e| matches!(e, Effect::SendWinner { device_key, .. } if device_key == "bob-key")));
    assert_eq!(s.call.as_ref().unwrap().peer_device_key, "bob-key");
}

#[test]
fn answering_sends_a_claim_and_waits_for_the_winner() {
    let mut s = session();
    let (r, _) = call_accept(&mut s, "nonce".to_string(), Ok("mine".to_string()), NOW);
    assert!(matches!(r, Err(CallError::NoIncomingCall)));

    let mut s = online();
    s.incoming = Some(ringing("ring"));
    let (r, out) = call_accept(&mut s, "nonce".to_string(), Ok("mine".to_string()), NOW);
    assert!(matches!(&out[0], Effect::AcceptRing { ring } if ring == "ring"));
    assert!(matches!(&out[1], Effect::Transition { phase: CallPhase::Claiming, .. }));
    let plan = match r {
        Ok(plan) => plan,
        Err(e) => panic!("{}", e.text()),
    };
    assert_eq!(plan.claim_nonce, "nonce");
    assert_eq!(plan.answering_device_id, "0");
    assert_eq!(plan.reply_to_mailbox, "mine");
    assert_eq!(plan.expires_at, NOW + 60);
    assert!(s.incoming.is_none());
    let out = claim_sent(&mut s, plan);
    assert!(s.claiming.is_some());
    assert!(matches!(&out[1], Effect::WatchClaim { deadline, .. } if *deadline == NOW + 60));
    assert!(claim_timed_out(&mut s, "another", "call").is_empty());
    let out = claim_timed_out(&mut s, "nonce", "call");
    assert!(s.claiming.is_none());
    assert!(ends_with_cause(&out, "ring", DisconnectCause::Missed));
}

#[test]
fn a_claim_that_cannot_be_sent_ends_the_ring() {
    let mut s = online();
    s.incoming = Some(ringing("ring"));
    let (r, out) = call_accept(&mut s, "nonce".to_string(), Err("no mailbox".to_string()), NOW);
    assert_eq!(r.err().unwrap().text(), "no mailbox");
    let mut calls = up("ring");
    calls.perform_all(&out);
    assert!(s.incoming.is_none());
    assert!(!calls.up.contains("ring"));
}

fn winner(nonce: &str, device: &str) -> CallWinner {
    CallWinner {
        sender_identity_key: "bob-key".to_string(),
        call_instance_id: "call".to_string(),
        offer_id: "offer".to_string(),
        claim_nonce: nonce.to_string(),
        winner_device_id: device.to_string(),
    }
}

#[test]
fn the_winner_joins_and_the_rest_stop_waiting() {
    let mut s = online();
    know_bob(&mut s);
    s.claiming = Some(a_claim_pending("ring"));
    if let Some(p) = &mut s.claiming {
        p.offer.caps = vec!["media2".to_string()];
    }
    assert_eq!(winner_caller_device(&s), Some("0".to_string()));
    let (step, _) = receive_call_winner(&mut s, winner("nonce", "0"), true, true, NOW);
    match step {
        WinnerStep::Join(plan) => {
            assert_eq!(plan.call_id, "room");
            assert_eq!(plan.key_b64, "key");
            assert!(!plan.caller);
            assert!(matches!(&plan.peer_media, PeerMedia::Said(caps) if caps == &["media2".to_string()]));
        }
        _ => panic!("this device's claim won"),
    }
    assert!(s.claiming.is_none());

    s.claiming = Some(a_claim_pending("ring"));
    let (step, out) = receive_call_winner(&mut s, winner("other", "1"), true, true, NOW);
    assert!(matches!(step, WinnerStep::Lost));
    assert!(s.claiming.is_none());
    let mut calls = up("ring");
    calls.perform_all(&out);
    assert!(!calls.up.contains("ring"));

    s.claiming = Some(a_claim_pending("ring"));
    let (step, out) = receive_call_winner(&mut s, winner("nonce", "0"), false, true, NOW);
    assert!(matches!(step, WinnerStep::Ignore));
    assert!(out.is_empty() && s.claiming.is_some());
}

#[test]
fn a_won_call_that_cannot_be_joined_is_told_to_the_caller() {
    let s = online();
    let t = |x: &str| x.to_string();
    let out = won_call_failed(&s, &t("call"), &t("offer"), &t("ring"), &t("bob-key"), &t("m"));
    assert!(ends_with_cause(&out, "ring", DisconnectCause::Error));
    assert!(out.iter().any(|e| matches!(
        e,
        Effect::SendTerminalToDevice { reason, .. } if *reason == CallTerminalReason::TransportError
    )));
    let out = won_call_joined(&t("call"), &t("offer"));
    assert!(!out.is_empty());
}

fn an_offer() -> CallOffer {
    CallOffer {
        sender_identity_key: "bob-key".to_string(),
        sender_username: "bob".to_string(),
        call_instance_id: "call".to_string(),
        offer_id: "offer".to_string(),
        call_id: "room".to_string(),
        key_b64: "key".to_string(),
        created_at: NOW,
        ring_expires_at: NOW + 45,
        expires_at: NOW + 60,
        caller_device_id: "0".to_string(),
        reply_to_mailbox: "m".to_string(),
        caps: Vec::new(),
        resume_of: String::new(),
    }
}

fn checks() -> OfferChecks {
    OfferChecks {
        ids_valid: vec![true, true, true],
        ticket_valid: true,
        offer_deadline_valid: true,
        signal_deadline_valid: true,
        control_expiry_valid: true,
        resume_of_valid: true,
        device_id_valid: true,
        derived_mailbox: Some("m".to_string()),
    }
}

#[test]
fn an_offer_rings_only_when_every_check_holds() {
    let mut s = online();
    know_bob(&mut s);
    assert!(matches!(screen_call_offer(&s, &an_offer(), &checks()), OfferScreen::Ring));
    let mut bad = checks();
    bad.ids_valid[1] = false;
    assert!(matches!(screen_call_offer(&s, &an_offer(), &bad), OfferScreen::Drop));
    let mut bad = checks();
    bad.ticket_valid = false;
    assert!(matches!(screen_call_offer(&s, &an_offer(), &bad), OfferScreen::Drop));
    let mut bad = checks();
    bad.derived_mailbox = Some("x".to_string());
    assert!(matches!(screen_call_offer(&s, &an_offer(), &bad), OfferScreen::Drop));
    let mut resumed = an_offer();
    resumed.resume_of = "old-room".to_string();
    assert!(matches!(screen_call_offer(&s, &resumed, &checks()), OfferScreen::Drop));
    s.reconnect = Some(a_reconnect("ring", "old-room", "bob-key"));
    assert!(matches!(screen_call_offer(&s, &resumed, &checks()), OfferScreen::Resume));
}

#[test]
fn a_new_offer_rings_and_a_second_call_is_busy() {
    let mut s = online();
    know_bob(&mut s);
    let out = receive_call_offer(&mut s, an_offer(), OfferDecision::Ring, "fresh".to_string(), false);
    assert_eq!(s.incoming.as_ref().unwrap().ring_handle, "fresh");
    let mut calls = SystemCalls::new();
    calls.perform_all(&out);
    assert!(calls.up.contains("fresh"));
    assert!(calls.shown.contains("fresh"));

    let mut second = an_offer();
    second.call_instance_id = "second".to_string();
    let out = receive_call_offer(&mut s, second, OfferDecision::Ring, "other".to_string(), false);
    assert!(out.iter().any(|e| matches!(e, Effect::SendBusy { call, .. } if call == "second")));
    assert_eq!(s.incoming.as_ref().unwrap().ring_handle, "fresh");

    let out = ring_expired(&mut s, "call", RingName::Named("bob".to_string()));
    assert!(s.incoming.is_none());
    calls.perform_all(&out);
    assert!(!calls.up.contains("fresh"));
    assert!(out.iter().any(
        |e| matches!(e, Effect::RecordChip { label: Label::MissedCall, .. })
    ));
}

#[test]
fn a_resume_is_taken_only_by_the_call_that_waits_for_it() {
    let mut s = online();
    s.reconnect = Some(a_reconnect("ring", "old-room", "bob-key"));
    let mut offer = an_offer();
    offer.resume_of = "old-room".to_string();
    offer.call_id = "new-room".to_string();
    let mut stale = an_offer();
    stale.resume_of = "other".to_string();
    assert!(accept_resume(&mut s, stale, ResumeDecision::Stale).is_none());
    assert!(s.reconnect.is_some());
    let plan = accept_resume(&mut s, offer, ResumeDecision::Accepted).unwrap();
    assert!(s.reconnect.is_none());
    assert_eq!(plan.join.call_id, "new-room");
    assert!(matches!(&plan.join.peer_media, PeerMedia::Said(_)));
    assert_eq!(plan.join.ring_handle, "ring");
    assert_eq!(plan.connected_at, NOW - 30);
    let out = resume_failed(&"ring".to_string(), &String::new(), false, NOW - 30);
    assert!(ends_with_cause(&out, "ring", DisconnectCause::Error));
    s.call = Some(a_call("ring", "new-room"));
    resume_joined(&mut s, &"new-room".to_string(), NOW - 30, "bob-device".to_string());
    assert_eq!(s.call.as_ref().unwrap().connected_at, NOW - 30);
    assert_eq!(s.call.as_ref().unwrap().peer_device_key, "bob-device");
}

#[test]
fn one_side_alone_makes_the_resuming_offer() {
    assert!(i_own_pair("a", "b") != i_own_pair("b", "a"));
    let mut s = online();
    assert!(start_call_reconnect(&s, "old-room", NOW).is_none());
    s.reconnect = Some(a_reconnect("ring", "old-room", "bob-key"));
    let offer = start_call_reconnect(&s, "old-room", NOW).unwrap();
    assert_eq!(offer.call_instance_id, "call");
    assert_eq!(offer.ring_expires_at, NOW + 45);
    assert_eq!(offer.expires_at, NOW + 60);
    let (goes_on, out) = resume_offer_posted(&mut s, "old-room", true);
    assert!(goes_on && s.reconnect.is_none());
    assert!(out.is_empty());
    s.reconnect = Some(a_reconnect("ring", "old-room", "bob-key"));
    let (goes_on, out) = resume_offer_posted(&mut s, "old-room", false);
    let mut calls = up("ring");
    calls.perform_all(&out);
    assert!(!goes_on);
    assert!(!calls.up.contains("ring"));
}

#[test]
fn a_busy_device_counts_once_and_the_last_one_ends_the_call() {
    let mut s = online();
    know_bob(&mut s);
    let mut call = a_call("ring", "room");
    call.ring_fanout = 2;
    call.peer_device_key = String::new();
    s.call = Some(call);
    s.directory.rosters = sona_calls::names::NameMap::new();
    s.directory.rosters.insert(
        "bob".to_string(),
        vec![
            RosterDevice {
                device_id: "0".to_string(),
                identity_key: "bob-key".to_string(),
                signing_key: String::new(),
            },
            RosterDevice {
                device_id: "1".to_string(),
                identity_key: "bob-key-1".to_string(),
                signing_key: String::new(),
            },
        ],
    );
    s.directory.devices.insert(
        "bob-key-1".to_string(),
        KnownDevice {
            account_key: "bob-key".to_string(),
            username: Some("bob".to_string()),
            blocked: false,
            own: false,
        },
    );
    let busy = |key: &str, device: &str| CallBusy {
        sender_identity_key: key.to_string(),
        call_instance_id: "call".to_string(),
        offer_id: "offer".to_string(),
        device_id: device.to_string(),
    };
    assert!(receive_call_busy(&mut s, busy("bob-key", "0"), true, true).is_empty());
    assert!(receive_call_busy(&mut s, busy("bob-key", "0"), true, true).is_empty());
    assert!(s.call.is_some());
    let out = receive_call_busy(&mut s, busy("bob-key-1", "1"), true, true);
    assert!(s.call.is_none());
    assert!(ends_with_cause(&out, "ring", DisconnectCause::Busy));
}

#[test]
fn a_peers_outcome_ends_the_call_it_names_and_no_other() {
    let mut s = online();
    know_bob(&mut s);
    s.incoming = Some(ringing("ring"));
    let t = CallTerminal {
        sender_identity_key: "bob-key".to_string(),
        sender_username: "bob".to_string(),
        call_instance_id: "call".to_string(),
        offer_id: "offer".to_string(),
        reason: CallTerminalReason::CallerCancelled,
        actor_device_id: "0".to_string(),
    };
    assert!(screen_call_terminal(&s, &t, true, true));
    assert!(!screen_call_terminal(&s, &t, false, true));
    let settled = TerminalDecision::Applied(CallTerminalReason::CallerCancelled);
    let out = receive_call_terminal(&mut s, &"other".to_string(), &"offer".to_string(), settled);
    assert!(s.incoming.is_some());
    assert!(!cancels(&out, "ring"));
    let out = receive_call_terminal(&mut s, &"call".to_string(), &"offer".to_string(), settled);
    assert!(s.incoming.is_none());
    assert!(cancels(&out, "ring"));
    assert_eq!(settled_reason(TerminalDecision::Conflict), None);
    assert_eq!(
        settled_reason(TerminalDecision::Duplicate(CallTerminalReason::Busy)),
        Some(CallTerminalReason::Busy)
    );
}

#[test]
fn a_slot_is_reserved_once_and_given_back() {
    let mut s = session();
    assert!(reserve_call_slot(&mut s).is_ok());
    assert!(!call_slot_free(&s));
    assert!(matches!(reserve_call_slot(&mut s), Err(CallError::AlreadyInACall)));
    s.outgoing_setup = Some(OutgoingSetup {
        call_instance_id: "call".to_string(),
        offer_id: "offer".to_string(),
        claims: vec![a_claim("call", "offer", "n")],
    });
    assert_eq!(release_call_slot(&mut s), 1);
    assert!(call_slot_free(&s));
    assert!(s.outgoing_setup.is_none());
}

#[test]
fn a_call_is_placed_to_the_name_without_the_space_around_it() {
    let mut s = session();
    assert!(matches!(call_start(&mut s, " bob "), Err(CallError::NotConfigured)));
    assert!(!s.call_setup);
    let mut s = online();
    match call_start(&mut s, " bob ") {
        Ok((name, client)) => {
            assert_eq!(name, "bob");
            assert_eq!(client, CLIENT);
        }
        Err(e) => panic!("{}", e.text()),
    }
    assert!(s.call_setup);
    assert!(begin_outgoing(&mut s, CLIENT, "call".to_string(), "offer".to_string()).is_ok());
    assert!(matches!(
        begin_outgoing(&mut s, 9, "call".to_string(), "offer".to_string()),
        Err(CallError::NotConfigured)
    ));
    let none: Vec<Result<(), String>> = vec![Err("gone".to_string())];
    assert_eq!(
        count_rung(&none, CallError::NoTargetReached).err().unwrap().text(),
        CallError::Other("gone".to_string()).text()
    );
    assert!(matches!(count_rung(&Vec::new(), CallError::NoTargetReached), Err(CallError::NoTargetReached)));
    assert_eq!(count_rung(&vec![Ok(()), Err("x".to_string()), Ok(())], CallError::NoTargetReached).unwrap_or(0), 2);
    let t = |x: &str| x.to_string();
    let out = outgoing_registered(&s, CLIENT, None, &t("call"), &t("offer"), NOW, NOW + 45)
        .unwrap_or_default();
    assert_eq!(out.len(), 2);
    assert!(matches!(
        &out[0],
        Effect::RegisterOffer { call, offer, ring_expires_at, .. }
            if call == "call" && offer == "offer" && *ring_expires_at == NOW + 45
    ));
    assert!(matches!(&out[1], Effect::Persist));
    let out = outgoing_ringing(Ok(()), &t("ring"), &t("bob")).unwrap_or_default();
    assert!(out.iter().any(|e| matches!(
        e,
        Effect::StartSystemCall { ring, incoming: false, .. } if ring == "ring"
    )));
    // A call that could not be written down does not ring.
    assert_eq!(
        outgoing_ringing(Err(t("disk full")), &t("ring"), &t("bob")).err().unwrap().text(),
        CallError::Other(t("disk full")).text()
    );
    assert!(matches!(
        outgoing_registered(
            &s,
            CLIENT,
            Some(CallTerminalReason::Busy),
            &t("call"),
            &t("offer"),
            NOW,
            NOW + 45,
        ),
        Err(CallError::AlreadyEnded(CallTerminalReason::Busy))
    ));
    assert!(ends_with_cause(&outgoing_failed(&t("ring")), "ring", DisconnectCause::Error));
}

fn plan() -> JoinPlan {
    JoinPlan {
        call_instance_id: "call".to_string(),
        offer_id: "offer".to_string(),
        ring_handle: "ring".to_string(),
        call_id: "room".to_string(),
        key_b64: "key".to_string(),
        peer_username: "bob".to_string(),
        peer_key: "bob-key".to_string(),
        peer_reply_to_mailbox: "m".to_string(),
        caller: true,
        peer_media: PeerMedia::Known(true),
        ring_fanout: 1,
    }
}

#[test]
fn an_offer_that_comes_after_its_end_never_rings() {
    let mut s = online();
    know_bob(&mut s);
    let told = OfferDecision::Suppressed(CallTerminalReason::CallerCancelled);
    let out = receive_call_offer(&mut s, an_offer(), told, "fresh".to_string(), false);
    assert!(out.is_empty());
    assert!(s.incoming.is_none() && s.rings.is_empty());
}

#[test]
fn a_name_is_called_without_the_white_space_around_it() {
    let called = |name: &str| {
        let mut s = online();
        call_start(&mut s, name).map(|(name, _)| name).unwrap_or_default()
    };
    let mut space: Vec<u32> = vec![0x20, 0x85, 0xa0, 0x1680, 0x2028, 0x2029, 0x202f, 0x205f, 0x3000];
    space.extend(0x09..=0x0d);
    space.extend(0x2000..=0x200a);
    for code in 0..0x3100u32 {
        let Some(c) = char::from_u32(code) else {
            continue;
        };
        let given = format!("{c}b ob{c}");
        let expected = if space.contains(&code) { "b ob" } else { given.as_str() };
        assert_eq!(called(&given), expected, "{code:x}");
    }
    assert_eq!(called(" \u{3000} "), "");
}

#[test]
fn the_end_that_offers_a_room_joins_it_as_its_caller() {
    let t = |x: &str| x.to_string();
    let room = || Ticket { call_id: t("room"), key_b64: t("key") };
    let join = outgoing_join(t("call"), t("offer"), t("ring"), room(), t("bob"), t("bob-key"), 3);
    assert!(join.caller && matches!(join.peer_media, PeerMedia::Known(false)));
    assert_eq!(join.call_id, "room");
    assert_eq!(join.key_b64, "key");
    assert_eq!(join.peer_reply_to_mailbox, "");
    assert_eq!(join.ring_fanout, 3);
    let offer = ResumeOffer {
        call_instance_id: t("call"),
        ring_handle: t("ring"),
        peer_username: t("bob"),
        peer_key: t("bob-key"),
        peer_device_key: t("bob-device"),
        peer_reply_to_mailbox: t("m"),
        peer_media2: true,
        connected_at: NOW,
        caller_device_id: t("0"),
        created_at: NOW,
        ring_expires_at: NOW + 45,
        expires_at: NOW + 60,
    };
    let plan = resume_join(offer, t("fresh"), room());
    assert!(plan.join.caller && matches!(plan.join.peer_media, PeerMedia::Known(true)));
    assert_eq!(plan.join.offer_id, "fresh");
    assert_eq!(plan.join.ring_handle, "ring", "a silent resume keeps its handle");
    assert_eq!(plan.join.ring_fanout, 1);
    assert_eq!(plan.connected_at, NOW);
    assert_eq!(plan.peer_device_key, "bob-device");
}

#[test]
fn a_call_that_another_takes_the_place_of_is_taken_down() {
    let mut s = online();
    s.call = Some(a_call("old-ring", "old-room"));
    let (r, out) = install_call(&mut s, plan(), MediaFlags::new(true), "ws".to_string(), CLIENT, None);
    assert!(r.is_ok());
    assert!(out.iter().any(|e| matches!(e, Effect::EndSystemCall { ring, .. } if ring == "old-ring")));
}

#[test]
fn a_call_is_installed_unless_it_ended_meanwhile() {
    let mut s = online();
    let (r, out) = install_call(
        &mut s,
        plan(),
        MediaFlags::new(true),
        "ws".to_string(),
        CLIENT,
        Some(CallTerminalReason::Expired),
    );
    assert!(matches!(r, Err(CallError::AlreadyEnded(CallTerminalReason::Expired))));
    assert!(s.call.is_none());
    assert!(matches!(&out[0], Effect::ResetVolumes));
    assert!(matches!(&out[1], Effect::StopMedia { room } if room == "room"));
    assert_eq!(out.len(), 2);
    assert!(matches!(call_still_live(&s, 9, None), Err(CallError::NotConfigured)));
    let (r, out) = install_call(&mut s, plan(), MediaFlags::new(true), "ws".to_string(), CLIENT, None);
    assert!(r.is_ok());
    assert!(matches!(&out[0], Effect::ResetVolumes));
    assert!(matches!(
        &out[1],
        Effect::ApplyGain { peer_key, username } if peer_key == "bob-key" && username == "bob"
    ));
    assert_eq!(out.len(), 2);
    assert_eq!(s.call.as_ref().unwrap().transport, "ws");
    s.account = None;
    assert!(matches!(call_still_live(&s, CLIENT, None), Err(CallError::Locked)));
}

#[test]
fn media_events_move_the_call_they_belong_to() {
    let mut s = online();
    let mut call = a_call("ring", "room");
    call.caller = false;
    s.call = Some(call);
    let mut flags = MediaFlags::new(true);
    let t = |x: &str| x.to_string();
    let (goes_on, _) = media_connected(
        &mut s,
        &mut flags,
        &t("call"),
        &t("offer"),
        &t("room"),
        &t("ring"),
        TransitionDecision::Applied,
    );
    assert!(goes_on);
    let out = voice_flowing(&mut s, &mut flags, &t("room"), &t("ring"), NOW);
    assert_eq!(s.call.as_ref().unwrap().connected_at, NOW);
    assert!(out.iter().any(|e| matches!(e, Effect::SystemCallActive { ring } if ring == "ring")));
    video_ready(&mut s, &mut flags, &t("room"), true);
    assert!(s.call.as_ref().unwrap().video_ready);
    peer_track(&mut s, &mut flags, &t("room"), Track::Camera, true);
    assert!(s.call.as_ref().unwrap().peer_camera);
    assert!(!s.call.as_ref().unwrap().peer_screen);
    // A connected call that drops is resumed; its system call stays up meanwhile.
    let out = media_ended(&mut s, &t("room"));
    assert!(s.call.is_none());
    assert_eq!(s.reconnect.as_ref().unwrap().old_call_id, "room");
    assert!(out.iter().any(|e| matches!(e, Effect::StartReconnect { old_call_id } if old_call_id == "room")));
    assert!(!ends_with_cause(&out, "ring", DisconnectCause::Remote));
}

#[test]
fn a_call_that_ends_before_it_connected_is_not_resumed() {
    let mut s = online();
    s.call = Some(a_call("ring", "room"));
    let t = |x: &str| x.to_string();
    assert!(media_ended(&mut s, &t("another")).is_empty());
    assert!(s.call.is_some());
    let out = media_ended(&mut s, &t("room"));
    assert!(s.call.is_none() && s.reconnect.is_none());
    let mut calls = up("ring");
    calls.perform_all(&out);
    assert!(!calls.up.contains("ring"));

    s.call = Some(a_call("ring", "room"));
    let out = outgoing_timed_out(&mut s, &t("room"));
    assert!(s.call.is_none());
    assert!(out.iter().any(|e| matches!(e, Effect::Emit(CallEvent::NoAnswer))));
}

#[test]
fn the_first_outcome_decides_what_a_send_came_to() {
    assert!(first_outcome(vec![Ok(()), Err("b".to_string())], CallError::TerminalNotQueued).is_ok());
    let failed = first_outcome(vec![Err("a".to_string()), Ok(())], CallError::TerminalNotQueued);
    assert_eq!(failed.err().unwrap().text(), "a");
    assert!(matches!(
        first_outcome(Vec::new(), CallError::TerminalNotQueued),
        Err(CallError::TerminalNotQueued)
    ));
    assert!(winner_delivered(&vec![true, false], CallError::WinnerUndelivered).is_ok());
    assert!(matches!(
        winner_delivered(&vec![false, true], CallError::WinnerUndelivered),
        Err(CallError::WinnerUndelivered)
    ));
    assert!(matches!(control_sender(&session(), NOW), Err(CallError::Locked)));
    match control_sender(&online(), NOW) {
        Ok(sender) => {
            assert_eq!(sender.expires_at, NOW + 60);
            assert_eq!(sender.actor_device_id, "0");
            assert!(!sender.linked_devices);
        }
        Err(e) => panic!("{}", e.text()),
    }
    assert!(send_call_terminal_everywhere(&session(), NOW).is_none());
    assert_eq!(send_call_terminal_everywhere(&online(), NOW).unwrap().expires_at, NOW + 60);
}

#[test]
fn a_decline_tells_the_caller_and_the_other_devices() {
    let mut s = session();
    assert!(matches!(call_decline(&mut s).0, Err(CallError::NoIncomingCall)));
    s.incoming = Some(ringing("ring"));
    let (r, out) = call_decline(&mut s);
    assert!(matches!(r, Err(CallError::NotConfigured)));
    assert!(cancels(&out, "ring"));
    s.client = Some(CLIENT);
    s.incoming = Some(ringing("ring"));
    let (r, out) = call_decline(&mut s);
    assert!(r.is_ok());
    assert!(out.iter().any(|e| matches!(
        e,
        Effect::SendTerminalToDevice { reason: CallTerminalReason::DeclinedHere, .. }
    )));
    assert!(out.iter().any(|e| matches!(
        e,
        Effect::SelfSyncTerminal { reason: CallTerminalReason::DeclinedElsewhere, .. }
    )));
}

#[test]
fn hanging_up_tells_every_device_a_caller_rang() {
    let mut s = online();
    s.call = Some(a_call("ring", "room"));
    let (r, out) = call_hangup(&mut s);
    assert!(r.is_ok() && s.call.is_none());
    assert!(ends_with_cause(&out, "ring", DisconnectCause::Local));
    assert!(out.iter().any(|e| matches!(
        e,
        Effect::SendTerminalEverywhere { reason: CallTerminalReason::CallerCancelled, .. }
    )));
    let mut call = a_call("ring", "room");
    call.caller = false;
    s.call = Some(call);
    let (_, out) = call_hangup(&mut s);
    assert!(out.iter().any(|e| matches!(
        e,
        Effect::SendTerminalToDevice { reason: CallTerminalReason::DeclinedHere, .. }
    )));
    assert!(call_hangup(&mut s).0.is_ok());
}

#[test]
fn the_media_switches_need_a_live_call() {
    let mut s = session();
    assert!(matches!(call_set_muted(&mut s, true), Err(CallError::NoActiveCall)));
    assert!(matches!(call_set_camera(&mut s, true), Err(CallError::NoActiveCall)));
    s.call = Some(a_call("ring", "room"));
    assert!(call_set_muted(&mut s, true).is_ok());
    assert!(s.call.as_ref().unwrap().muted);
    assert!(call_set_camera(&mut s, true).is_ok());
    assert!(s.call.as_ref().unwrap().camera_on);
    let window = ScreenSourcePick { kind: "window".to_string(), id: 4 };
    match call_set_screen(&mut s, true, Some(window)) {
        Ok(Some(ScreenTarget::Window(4))) => {}
        _ => panic!("the window that was picked"),
    }
    if let Some(c) = &mut s.call {
        c.peer_screen = true;
        c.screen_on = false;
    }
    assert!(matches!(call_set_screen(&mut s, true, None), Err(CallError::OneScreenOnly)));
    assert!(matches!(call_set_screen_audio(&mut s, true, false), Err(CallError::NoSystemAudio)));
}

#[test]
fn routes_tones_and_devices_are_known_by_name() {
    let mut s = session();
    assert_eq!(system_call(&s), None);
    assert!(matches!(call_set_route(&s, &"attic".to_string()), Err(CallError::UnknownRoute)));
    match call_set_route(&s, &"speaker".to_string()) {
        Ok(RouteRequest::Bridge { route }) => assert_eq!(route, "speaker"),
        _ => panic!("no system call to ask"),
    }
    s.call = Some(a_call("ring", "room"));
    assert_eq!(system_call(&s), Some("ring".to_string()));
    match call_set_speaker(&s, true) {
        RouteRequest::SystemCall { ring, route } => {
            assert_eq!(ring, "ring");
            assert_eq!(route, "speaker");
        }
        _ => panic!("the system call routes its own audio"),
    }
    assert!(matches!(call_tone("drums", false, false), Err(CallError::UnknownTone)));
    assert!(matches!(call_set_media_device("nose", None), Err(CallError::UnknownDeviceKind)));
    match call_set_media_device("input", Some("mic".to_string())) {
        Ok(MediaDevice::Input(Some(id))) => assert_eq!(id, "mic"),
        _ => panic!("an input device"),
    }
}

#[test]
fn the_status_shows_what_the_session_holds() {
    let mut s = session();
    let view = call_status(&s, NOW);
    assert!(view.active.is_none() && view.incoming.is_none() && !view.unlock_credential);
    s.call = Some(a_call("ring", "room"));
    s.incoming = Some(ringing("other"));
    let view = call_status(&s, NOW);
    let active = view.active.unwrap();
    assert_eq!(active.username, "bob");
    assert_eq!(active.call_id, "room");
    assert!(active.outgoing);
    assert_eq!(view.incoming.unwrap().username, "bob");
}

#[test]
fn a_ring_shows_no_more_than_the_settings_allow() {
    let mut s = session();
    assert_eq!(ring_title(&s, &"Alice".to_string()).text(), "Alice");
    s.prefs.notif_level = "generic".to_string();
    assert_eq!(ring_title(&s, &"Alice".to_string()).text(), "Sona");
    assert_eq!(RingName::Nobody.text(), "");
    assert!(is_current(&online(), CLIENT) && !is_current(&online(), CLIENT + 1));
}

#[test]
fn a_call_is_remembered_by_how_long_it_took_or_how_it_went() {
    assert_eq!(call_end_label("Call", true, NOW - 65, NOW), "📞 Call · 1:05");
    assert_eq!(call_end_label("Call", false, NOW, NOW), "📞 Call · 0:00");
    assert_eq!(call_end_label("Group call", true, 0, NOW), "📞 Unanswered group call");
    assert_eq!(call_end_label("Call", false, 0, NOW), "📞 Call");
    let label = Label::Ended { kind: CallKind::Group, caller: true, connected_at: NOW - 3600 };
    assert_eq!(label.text(NOW), "📞 Group call · 60:00");
}

#[test]
fn every_error_has_its_own_words() {
    let errors = vec![
        CallError::AlreadyInACall,
        CallError::NoIncomingCall,
        CallError::NoIncomingGroupCall,
        CallError::NoActiveCall,
        CallError::NoActiveGroupCall,
        CallError::NotConfigured,
        CallError::Locked,
        CallError::AlreadyEnded(CallTerminalReason::Busy),
        CallError::GroupCallExpired,
        CallError::UnknownGroup,
        CallError::NoOtherMembers,
        CallError::TooManyMembers(8),
        CallError::NoTargetReached,
        CallError::NoMemberPrepared,
        CallError::NoMemberReached,
        CallError::Unlinked,
        CallError::KeyChanged,
        CallError::OwnAccount,
        CallError::NotWaiting,
        CallError::UnknownRoute,
        CallError::UnknownTone,
        CallError::UnknownDeviceKind,
        CallError::OneScreenOnly,
        CallError::NoSystemAudio,
        CallError::ClaimNotQueued,
        CallError::GroupClaimNotQueued,
        CallError::TerminalNotQueued,
        CallError::BusyNotQueued,
        CallError::WinnerUndelivered,
        CallError::GroupWinnerUndelivered,
        CallError::Other("as it came".to_string()),
    ];
    let texts: Vec<String> = errors.iter().map(|e| e.text()).collect();
    for (i, a) in texts.iter().enumerate() {
        assert!(!a.is_empty());
        for b in &texts[i + 1..] {
            assert_ne!(a, b);
        }
    }
    assert_eq!(CallError::AlreadyEnded(CallTerminalReason::Busy).text(), "call already ended (Busy)");
    assert_eq!(reason_name(CallTerminalReason::AnsweredElsewhere), "AnsweredElsewhere");
    assert_eq!(
        CallError::TooManyMembers(8).text(),
        "group calls support up to 8 members"
    );
}

#[test]
fn setting_a_call_up_waits_for_the_room_and_then_the_devices() {
    let told = |room: Waited, audio: Waited| call_set_up(room, audio).err().map(|e| e.text());
    assert_eq!(told(Waited::Done, Waited::Done), None);
    assert_eq!(
        told(Waited::TimedOut, Waited::Failed("busy".to_string())),
        Some("could not join the call room".to_string())
    );
    assert_eq!(
        told(Waited::Failed("refused".to_string()), Waited::TimedOut),
        Some("refused".to_string())
    );
    assert_eq!(
        told(Waited::Done, Waited::TimedOut),
        Some("the audio devices did not start".to_string())
    );
    assert_eq!(
        told(Waited::Done, Waited::Failed("busy".to_string())),
        Some("busy".to_string())
    );
}
