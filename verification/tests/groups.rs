use sona_calls::call::directory::{Directory, GroupMember, GroupRecord, KnownDevice, RosterDevice};
use sona_calls::call::ending::{end_local_call_state, screen_call_terminal, CallTerminal};
use sona_calls::call::error::CallError;
use sona_calls::call::group::{
    begin_leg, establish_group_leg, finish_group_call_accept, group_answer_deadlines, group_call_accept,
    group_call_joined, group_call_start, group_claim_sent, group_claim_timed_out, group_media_ended,
    group_peer_connected, group_peer_left, group_registered, group_ring_over, group_ringing, group_unanswered, leg_failed,
    leg_reoffered, other_members, reoffer_due, reoffer_group_leg, ring_deadlines, spawn_group_call,
    GroupPlan, LegPlan, NoAnswerStep,
};
use sona_calls::call::group_control::{
    plan_group_offers, send_group_call_terminal_everywhere, send_offers_for_group, MemberRoom,
    OfferPlan,
};
use sona_calls::call::group_end::{group_call_decline, group_call_hangup, group_call_set_muted};
use sona_calls::call::group_offer::{
    group_ring_expired, receive_group_offer, screen_group_offer, GroupOffer, GroupOfferChecks, GroupScreen,
};
use sona_calls::call::group_signal::{
    group_member_of, receive_group_claim, receive_group_end, receive_group_winner, receive_member_left,
    screen_group_terminal, settle_group_claim, winner_coordinator_device, won_group_failed, GroupClaim,
    GroupTerminal, GroupTerminalChecks, GroupTerminalScope, GroupWinner, GroupWinnerStep,
};
use sona_calls::call::handles::SystemCalls;
use sona_calls::call::session::{Account, Limits, Prefs, Session};
use sona_calls::call::types::{
    AnswerClaim, CallTerminalReason, ClaimDecision, DisconnectCause, Effect, GroupCoordinator, GroupEvent,
    GroupRingDeadline, Label, LegOffer, OfferDecision, PendingGroupClaim, PendingGroupOffer, PendingUnlock, RingName,
    TerminalDecision, Ticket, TransitionDecision,
};
use sona_calls::call::unlock::{resume_pending_unlock, UnlockStep};
use sona_calls::names::NameMap;

const NOW: u64 = 1_700_000_000;
const CLIENT: u64 = 2;

fn member(name: &str) -> GroupMember {
    GroupMember { username: name.to_string(), identity_key: format!("{name}-key") }
}

/// Alice's session. Bob and carol are in the group, each with one verified device.
fn session() -> Session {
    let mut s = Session::new(
        Limits {
            ring_timeout_secs: 45,
            signal_ttl_secs: 60,
            unlock_to_answer_secs: 60,
            presence_window_secs: 30,
            max_buffered_claims: 8,
            max_group_members: 3,
            max_leg_reoffers: 2,
        },
        Prefs {
            notif_level: "full".to_string(),
            require_unlock_to_answer: true,
            auto_unlock: false,
            call_retention_secs: 86400,
        },
        Directory::new("0".to_string()),
    );
    s.client = Some(CLIENT);
    s.account = Some(Account {
        account_id: "alice".to_string(),
        identity_key: "alice-key".to_string(),
    });
    for name in ["bob", "carol"] {
        s.directory.devices.insert(
            format!("{name}-key"),
            KnownDevice {
                account_key: format!("{name}-key"),
                username: Some(name.to_string()),
                blocked: false,
                own: false,
            },
        );
        s.directory.rosters.insert(
            name.to_string(),
            vec![RosterDevice {
                device_id: "0".to_string(),
                identity_key: format!("{name}-key"),
                signing_key: "signing".to_string(),
            }],
        );
    }
    s.directory.groups.insert(
        "group".to_string(),
        GroupRecord {
            name: "Friends".to_string(),
            members: vec![member("alice"), member("bob"), member("carol")],
        },
    );
    s
}

fn coordinator(name: &str) -> GroupCoordinator {
    GroupCoordinator {
        username: name.to_string(),
        identity_key: format!("{name}-key"),
        device_id: "0".to_string(),
        reply_to_mailbox: "m".to_string(),
    }
}

fn deadline() -> GroupRingDeadline {
    GroupRingDeadline { created_at: NOW, ring_expires_at: NOW + 45, expires_at: NOW + 60 }
}

fn ticket(room: &str) -> Ticket {
    Ticket { call_id: room.to_string(), key_b64: format!("{room}-key") }
}

fn plan(coordinated_by: &str) -> GroupPlan {
    let mut my_tickets = NameMap::new();
    my_tickets.insert("bob".to_string(), ticket("room-bob"));
    my_tickets.insert("carol".to_string(), ticket("room-carol"));
    GroupPlan {
        call_instance: "call".to_string(),
        ring_id: "ring-id".to_string(),
        ring_handle: "handle".to_string(),
        group_id: "group".to_string(),
        group_name: "Friends".to_string(),
        coordinator: coordinator(coordinated_by),
        deadline: deadline(),
        my_key: "alice-key".to_string(),
        my_tickets,
    }
}

/// A session in a group call that alice rang.
fn in_call() -> Session {
    let mut s = session();
    let (r, out) = spawn_group_call(&mut s, CLIENT, None, plan("alice"));
    assert!(r.is_ok() && matches!(out.as_slice(), [Effect::ResetVolumes]));
    s
}

fn group_ring() -> PendingGroupOffer {
    let mut offers = NameMap::new();
    offers.insert(
        "bob-key".to_string(),
        LegOffer {
            username: "bob".to_string(),
            call_id: "room".to_string(),
            key_b64: "key".to_string(),
        },
    );
    PendingGroupOffer {
        call_instance: "call".to_string(),
        ring_id: "ring-id".to_string(),
        ring_handle: "handle".to_string(),
        group_id: "group".to_string(),
        group_name: "Friends".to_string(),
        rang_by_username: "bob".to_string(),
        coordinator: coordinator("bob"),
        deadline: deadline(),
        offers,
    }
}

fn up() -> SystemCalls {
    let mut calls = SystemCalls::new();
    calls.perform(&Effect::StartSystemCall {
        ring: "handle".to_string(),
        name: RingName::Named("Friends".to_string()),
        video: false,
        incoming: true,
    });
    calls
}

fn offer_from(name: &str) -> GroupOffer {
    GroupOffer {
        sender_identity_key: format!("{name}-key"),
        sender_username: name.to_string(),
        group_id: "group".to_string(),
        call_instance: "call".to_string(),
        ring_id: "ring-id".to_string(),
        offer_id: format!("offer-{name}"),
        call_id: format!("room-{name}"),
        key_b64: "key".to_string(),
        deadline: deadline(),
        caller_device_id: "0".to_string(),
        coordinator: coordinator("bob"),
        resume: false,
    }
}

fn offer_checks() -> GroupOfferChecks {
    GroupOfferChecks {
        ids_valid: vec![true; 4],
        ticket_valid: true,
        offer_deadline_valid: true,
        signal_deadline_valid: true,
        control_expiry_valid: true,
        device_id_valid: true,
        coordinator_device_id_valid: true,
        coordinator_mailbox: Some("m".to_string()),
    }
}

#[test]
fn a_group_rings_once_and_later_members_offer_legs() {
    let mut s = session();
    assert!(matches!(screen_group_offer(&s, &offer_from("bob"), &offer_checks()), GroupScreen::Ask));
    let out = receive_group_offer(
        &mut s,
        offer_from("bob"),
        Some(OfferDecision::Ring),
        "handle".to_string(),
        false,
    );
    let mut calls = SystemCalls::new();
    calls.perform_all(&out);
    assert!(calls.up.contains("handle"));
    assert_eq!(s.group_incoming.as_ref().unwrap().group_name, "Friends");
    // Carol joined: her leg is kept with the ring, and nothing rings again.
    let out = receive_group_offer(
        &mut s,
        offer_from("carol"),
        Some(OfferDecision::Duplicate),
        "unused".to_string(),
        false,
    );
    calls.perform_all(&out);
    let ring = s.group_incoming.as_ref().unwrap();
    assert_eq!(ring.offers.entries.len(), 2);
    assert_eq!(ring.offers.get("carol-key").unwrap().call_id, "room-carol");
    assert!(!calls.up.contains("unused"));
    // At its deadline the ring comes down with its system call.
    let out = group_ring_expired(&mut s, "call", RingName::Named("Friends".to_string()));
    calls.perform_all(&out);
    assert!(s.group_incoming.is_none());
    assert!(!calls.up.contains("handle"));
}

#[test]
fn a_group_ring_that_lands_finishes_the_answer_that_waited_for_it() {
    let mut s = session();
    s.pending_unlock = Some(PendingUnlock {
        call_instance_id: "call".to_string(),
        ring_handle: "handle".to_string(),
        group: true,
        needs_presence: false,
        wants_credential: false,
        expires_at: NOW + 30,
    });
    assert!(matches!(resume_pending_unlock(&mut s, None, NOW, 0).0, UnlockStep::Wait));
    let out = receive_group_offer(
        &mut s,
        offer_from("bob"),
        Some(OfferDecision::Ring),
        "handle".to_string(),
        true,
    );
    assert_eq!(out.iter().filter(|e| matches!(e, Effect::ResumeUnlock)).count(), 1);
    let (step, ring, _) = resume_pending_unlock(&mut s, None, NOW, 0);
    assert!(matches!(step, UnlockStep::Answer { group: true }));
    assert_eq!(ring.as_deref(), Some("handle"));
    assert!(s.pending_unlock.is_none());
}

#[test]
fn a_group_offer_from_outside_the_group_is_dropped() {
    let mut s = session();
    let mut stranger = offer_from("bob");
    stranger.group_id = "another".to_string();
    assert!(matches!(screen_group_offer(&s, &stranger, &offer_checks()), GroupScreen::Drop));
    let mut bad = offer_checks();
    bad.coordinator_mailbox = None;
    assert!(matches!(screen_group_offer(&s, &offer_from("bob"), &bad), GroupScreen::Drop));
    let mut resumed = offer_from("bob");
    resumed.resume = true;
    assert!(matches!(screen_group_offer(&s, &resumed, &offer_checks()), GroupScreen::Drop));
    s.call_setup = true;
    let out = receive_group_offer(
        &mut s,
        offer_from("bob"),
        Some(OfferDecision::Ring),
        "handle".to_string(),
        false,
    );
    assert!(s.group_incoming.is_none());
    assert!(!out.iter().any(|e| matches!(e, Effect::StartSystemCall { .. })));
}

#[test]
fn each_pair_of_members_shares_the_room_its_owner_made() {
    let s = in_call();
    // The key that sorts first owns the pair.
    match establish_group_leg(&s, "call", "bob-key", "bob", None) {
        LegPlan::Join { ticket, caller } => {
            assert_eq!(ticket.call_id, "room-bob");
            assert!(caller);
        }
        _ => panic!("alice owns the pair and made the room"),
    }
    match establish_group_leg(&s, "call", "aaron-key", "aaron", Some(ticket("theirs"))) {
        LegPlan::Join { ticket, caller } => {
            assert_eq!(ticket.call_id, "theirs");
            assert!(!caller);
        }
        _ => panic!("aaron owns the pair and made the room"),
    }
    assert!(matches!(
        establish_group_leg(&s, "call", "aaron-key", "aaron", None),
        LegPlan::Nothing
    ));
    assert!(matches!(establish_group_leg(&s, "other", "bob-key", "bob", None), LegPlan::Nothing));
}

#[test]
fn a_room_is_used_once_unless_its_key_was_never_derived() {
    let mut s = in_call();
    let (bob, room) = ("bob-key".to_string(), "room-bob".to_string());
    assert!(begin_leg(&mut s, "call", &bob, &room));
    assert!(!begin_leg(&mut s, "call", &bob, &room));
    leg_failed(&mut s, "call", "bob-key", "room-bob");
    assert!(begin_leg(&mut s, "call", &bob, &room));
    // The leg drops: the room stays used, and a fresh one has to be offered.
    let mut peers = NameMap::new();
    group_peer_left(&mut s, &mut peers, &"call".to_string(), &bob);
    assert!(!begin_leg(&mut s, "call", &bob, &room));
    assert!(matches!(establish_group_leg(&s, "call", "bob-key", "bob", None), LegPlan::Reoffer));
    assert_eq!(reoffer_group_leg(&s, CLIENT, "group", "bob").unwrap().identity_key, "bob-key");
    assert!(reoffer_group_leg(&s, CLIENT, "group", "dave").is_none());
    let failed = vec![Err("gone".to_string())];
    assert!(matches!(
        leg_reoffered(&mut s, "call", &"bob".to_string(), ticket("fresh"), &failed),
        LegPlan::Nothing
    ));
    let posted = vec![Err("gone".to_string()), Ok(())];
    match leg_reoffered(&mut s, "call", &"bob".to_string(), ticket("fresh"), &posted) {
        LegPlan::Join { ticket, caller } => {
            assert_eq!(ticket.call_id, "fresh");
            assert!(caller, "the end that offers the fresh room owns it");
            assert!(begin_leg(&mut s, "call", &bob, &ticket.call_id));
        }
        _ => panic!("an offer that was posted is joined"),
    }
}

#[test]
fn a_dropped_member_is_offered_a_fresh_room_a_bounded_number_of_times() {
    let mut s = in_call();
    let (call, ring, bob) = ("call".to_string(), "ring-id".to_string(), "bob-key".to_string());
    let mut peers = NameMap::new();
    let (goes_on, out) = group_peer_connected(
        &mut s,
        &mut peers,
        &call,
        &ring,
        &bob,
        TransitionDecision::Applied,
        NOW,
    );
    assert!(goes_on);
    assert!(matches!(&out[0], Effect::ApplyGain { username, .. } if username == "bob"));
    assert_eq!(s.group_call.as_ref().unwrap().connected_at, NOW);
    let reoffered = |out: &[Effect]| out.iter().any(|e| matches!(e, Effect::ReofferLeg { .. }));
    assert!(reoffered(&group_peer_left(&mut s, &mut peers, &call, &bob)));
    assert!(reoffer_due(&s, "call", "bob"));
    assert!(reoffered(&group_peer_left(&mut s, &mut peers, &call, &bob)));
    assert!(!reoffered(&group_peer_left(&mut s, &mut peers, &call, &bob)));
    // A working leg gives the budget back.
    group_peer_connected(
        &mut s,
        &mut peers,
        &call,
        &ring,
        &bob,
        TransitionDecision::Duplicate,
        NOW + 9,
    );
    assert_eq!(s.group_call.as_ref().unwrap().connected_at, NOW);
    assert!(reoffered(&group_peer_left(&mut s, &mut peers, &call, &bob)));
}

#[test]
fn a_refused_connection_ends_the_group_call() {
    let mut s = in_call();
    let mut calls = up();
    let mut peers = NameMap::new();
    let (goes_on, out) = group_peer_connected(
        &mut s,
        &mut peers,
        &"call".to_string(),
        &"ring-id".to_string(),
        &"bob-key".to_string(),
        TransitionDecision::Refused,
        NOW,
    );
    calls.perform_all(&out);
    assert!(!goes_on);
    assert!(s.group_call.is_none());
    assert!(!calls.up.contains("handle"));

    let mut s = in_call();
    let mut calls = up();
    assert!(group_media_ended(&mut s, "other").is_empty());
    calls.perform_all(&group_media_ended(&mut s, "call"));
    assert!(s.group_call.is_none());
    assert!(!calls.up.contains("handle"));
}

#[test]
fn a_group_can_be_rung_only_by_a_member_with_company() {
    let mut s = session();
    let refused = |s: &Session, group: &str| group_call_start(s, group, Ok(())).err().unwrap().text();
    match group_call_start(&s, "group", Ok(())) {
        Ok(party) => {
            assert_eq!(party.me, "alice");
            assert_eq!(party.group_name, "Friends");
            assert_eq!(party.others.len(), 2);
        }
        Err(e) => panic!("{}", e.text()),
    }
    assert_eq!(refused(&s, "another"), CallError::UnknownGroup.text());
    assert_eq!(group_call_start(&s, "group", Err("left".to_string())).err().unwrap().text(), "left");
    s.limits.max_group_members = 2;
    assert_eq!(refused(&s, "group"), "group calls support up to 2 members");
    s.directory.groups.insert(
        "alone".to_string(),
        GroupRecord { name: "Alone".to_string(), members: vec![member("alice")] },
    );
    assert_eq!(refused(&s, "alone"), CallError::NoOtherMembers.text());
    s.account = None;
    assert_eq!(refused(&s, "group"), CallError::Locked.text());
    s.client = None;
    assert_eq!(refused(&s, "group"), CallError::NotConfigured.text());
    let record = GroupRecord { name: String::new(), members: vec![member("alice"), member("bob")] };
    assert_eq!(other_members(&record, "alice").len(), 1);
    let deadlines = ring_deadlines(&s, NOW);
    assert_eq!(deadlines.ring_expires_at, NOW + 45);
    assert_eq!(deadlines.expires_at, NOW + 60);
}

#[test]
fn a_started_group_call_shows_as_a_system_call_unless_it_ended() {
    let s = session();
    let t = |x: &str| x.to_string();
    let out = group_registered(&s, CLIENT, None, &t("call"), &t("ring-id"), deadline()).unwrap_or_default();
    assert_eq!(out.len(), 3);
    assert!(matches!(&out[0], Effect::RegisterOffer { call, offer, .. } if call == "call" && offer == "ring-id"));
    assert!(matches!(&out[2], Effect::Persist));
    let out = group_ringing(Ok(()), &t("handle"), &t("group"), &t("Friends"));
    assert!(out.unwrap_or_default().iter().any(
        |e| matches!(e, Effect::StartSystemCall { ring, incoming: false, .. } if ring == "handle")
    ));
    // A call that could not be written down does not ring.
    assert!(matches!(
        group_ringing(Err(t("disk full")), &t("handle"), &t("group"), &t("Friends")),
        Err(CallError::Other(_))
    ));
    assert!(matches!(
        group_registered(
            &s,
            CLIENT,
            Some(CallTerminalReason::Expired),
            &t("call"),
            &t("ring-id"),
            deadline(),
        ),
        Err(CallError::AlreadyEnded(CallTerminalReason::Expired))
    ));
    let mut s = session();
    let (r, out) = spawn_group_call(&mut s, CLIENT, Some(CallTerminalReason::Busy), plan("alice"));
    assert!(r.is_err() && s.group_call.is_none());
    assert!(matches!(&out[0], Effect::ResetVolumes));
    assert!(matches!(&out[1], Effect::StopMedia { room } if room == "call"));
}

#[test]
fn rooms_are_kept_for_the_members_that_were_reached() {
    let plans = || {
        vec![
            OfferPlan { username: "bob".to_string(), ticket: ticket("b"), start: 0, end: 2 },
            OfferPlan { username: "carol".to_string(), ticket: ticket("c"), start: 2, end: 3 },
        ]
    };
    let some = vec![Err("x".to_string()), Ok(()), Err("y".to_string())];
    match send_offers_for_group(plans(), &some) {
        Ok(rooms) => {
            assert!(rooms.contains_key("bob"));
            assert!(!rooms.contains_key("carol"));
        }
        Err(e) => panic!("{}", e.text()),
    }
    let none = vec![Err("x".to_string()), Err("y".to_string()), Err("z".to_string())];
    assert_eq!(send_offers_for_group(plans(), &none).err().unwrap().text(), "x");
    assert!(matches!(
        send_offers_for_group(Vec::new(), &Vec::new()),
        Err(CallError::NoMemberPrepared)
    ));
    assert!(matches!(
        send_offers_for_group(Vec::new(), &vec![Ok(())]),
        Err(CallError::NoMemberReached)
    ));
}

#[test]
fn offers_to_a_group_are_lined_up_for_one_batch() {
    let rooms = || {
        vec![
            MemberRoom { username: "bob".to_string(), ticket: ticket("b"), envelopes: Some(2) },
            MemberRoom { username: "dave".to_string(), ticket: ticket("d"), envelopes: None },
            MemberRoom { username: "carol".to_string(), ticket: ticket("c"), envelopes: Some(1) },
        ]
    };
    let mut s = session();
    match plan_group_offers(&s, CLIENT, rooms()) {
        Ok(plans) => {
            let at: Vec<_> =
                plans.iter().map(|p| (p.username.as_str(), p.start, p.end)).collect();
            assert_eq!(at, vec![("bob", 0, 2), ("carol", 2, 3)]);
            assert_eq!(plans[1].ticket.call_id, ticket("c").call_id);
        }
        Err(e) => panic!("{}", e.text()),
    }
    let nobody = vec![rooms().remove(1)];
    assert!(matches!(plan_group_offers(&s, CLIENT, nobody), Err(CallError::NoMemberPrepared)));
    assert!(matches!(
        plan_group_offers(&s, CLIENT + 1, rooms()),
        Err(CallError::NotConfigured)
    ));
    s.account = None;
    assert!(matches!(plan_group_offers(&s, CLIENT, rooms()), Err(CallError::Locked)));
}

#[test]
fn answering_a_group_claims_it_until_the_earlier_deadline() {
    let mut s = session();
    s.group_incoming = Some(group_ring());
    let (r, _) = group_call_accept(&mut s, "nonce".to_string(), Ok("mine".to_string()), NOW + 30);
    let claim = match r {
        Ok(claim) => claim,
        Err(e) => panic!("{}", e.text()),
    };
    assert_eq!(claim.expires_at, NOW + 60);
    group_claim_sent(&mut s, claim);
    assert!(s.group_claiming.is_some());
    assert!(group_claim_timed_out(&mut s, "other", "call").is_empty());
    let mut calls = up();
    calls.perform_all(&group_claim_timed_out(&mut s, "nonce", "call"));
    assert!(s.group_claiming.is_none());
    assert!(!calls.up.contains("handle"));

    s.group_incoming = Some(group_ring());
    let mut calls = up();
    let (r, out) = group_call_accept(&mut s, "nonce".to_string(), Ok("mine".to_string()), NOW + 60);
    calls.perform_all(&out);
    assert!(matches!(r, Err(CallError::GroupCallExpired)));
    assert!(!calls.up.contains("handle"));
    assert!(matches!(
        group_call_accept(&mut s, "nonce".to_string(), Ok("mine".to_string()), NOW).0,
        Err(CallError::NoIncomingGroupCall)
    ));
}

fn claim(nonce: &str) -> GroupClaim {
    GroupClaim {
        sender_identity_key: "bob-key".to_string(),
        group_id: "group".to_string(),
        call_instance_id: "call".to_string(),
        ring_id: "ring-id".to_string(),
        claim_nonce: nonce.to_string(),
        answering_device_id: "0".to_string(),
        reply_to_mailbox: "m".to_string(),
    }
}

#[test]
fn the_coordinator_alone_settles_each_accounts_race() {
    let mut s = in_call();
    let mailbox = Some("m".to_string());
    assert_eq!(group_member_of(&s, "group", "bob-key"), Some("bob".to_string()));
    assert_eq!(group_member_of(&s, "group", "dave-key"), None);
    let late = receive_group_claim(&mut s, &claim("n"), true, true, true, &mailbox, NOW + 46);
    assert_eq!(late, None);
    let name = receive_group_claim(&mut s, &claim("n"), true, true, true, &mailbox, NOW).unwrap();
    assert_eq!(name, "bob");
    assert!(s.group_call.as_ref().unwrap().arbiters.contains("bob-key"));
    let winner = AnswerClaim {
        claim_nonce: "n".to_string(),
        answering_device_id: "0".to_string(),
        reply_to_mailbox: "m".to_string(),
    };
    let out = settle_group_claim(claim("n"), name, ClaimDecision::Winner(winner));
    assert!(out.iter().any(
        |e| matches!(e, Effect::SendGroupWinner { device_key, .. } if device_key == "bob-key")
    ));
    assert!(settle_group_claim(claim("n"), "bob".to_string(), ClaimDecision::Invalid).is_empty());

    let mut other = session();
    spawn_group_call(&mut other, CLIENT, None, plan("bob")).0.unwrap_or(());
    assert_eq!(receive_group_claim(&mut other, &claim("n"), true, true, true, &mailbox, NOW), None);
}

#[test]
fn the_named_device_joins_and_its_siblings_stop() {
    let word = |nonce: &str, device: &str| GroupWinner {
        sender_identity_key: "bob-key".to_string(),
        group_id: "group".to_string(),
        call_instance_id: "call".to_string(),
        ring_id: "ring-id".to_string(),
        claim_nonce: nonce.to_string(),
        winner_device_id: device.to_string(),
    };
    let claiming = || {
        let mut s = session();
        s.group_incoming = Some(group_ring());
        let (r, _) = group_call_accept(&mut s, "nonce".to_string(), Ok("mine".to_string()), NOW);
        if let Ok(claim) = r {
            group_claim_sent(&mut s, claim);
        }
        s
    };
    let mut s = claiming();
    let (step, _) = receive_group_winner(&mut s, word("nonce", "0"), true, true, true, NOW);
    let offer = match step {
        GroupWinnerStep::Join(offer) => offer,
        _ => panic!("this device's claim won"),
    };
    let party = finish_group_call_accept(&s, &offer.group_id).unwrap_or_else(|e| panic!("{}", e.text()));
    assert_eq!(party.others.len(), 2);
    let out = group_call_joined(&offer);
    assert!(matches!(out.last(), Some(Effect::EmitGroup(GroupEvent::Accepted))));
    assert!(out.iter().any(|e| matches!(e, Effect::EstablishLeg { peer_key, .. } if peer_key == "bob-key")));

    let mut s = claiming();
    let mut calls = up();
    let (step, out) = receive_group_winner(&mut s, word("other", "1"), true, true, true, NOW);
    calls.perform_all(&out);
    assert!(matches!(step, GroupWinnerStep::Lost));
    assert!(s.group_claiming.is_none());
    assert!(!calls.up.contains("handle"));
    let out = won_group_failed(&s, &"call".to_string(), &"ring-id".to_string(), &"handle".to_string());
    assert!(out.iter().any(|e| matches!(
        e,
        Effect::EndSystemCall { cause: DisconnectCause::Error, .. }
    )));
}

fn terminal(from: &str, reason: CallTerminalReason) -> GroupTerminal {
    GroupTerminal {
        sender_identity_key: format!("{from}-key"),
        group_id: "group".to_string(),
        call_instance: "call".to_string(),
        ring_id: "ring-id".to_string(),
        reason,
        actor_device_id: "0".to_string(),
        coordinator_username: "bob".to_string(),
        coordinator_identity_key: "bob-key".to_string(),
        coordinator_device_id: "0".to_string(),
    }
}

#[test]
fn the_coordinators_word_ends_the_ring_and_a_members_takes_out_the_member() {
    let checks = GroupTerminalChecks {
        ids_valid: true,
        control_expiry_valid: true,
        actor_device_id_valid: true,
        coordinator_device_id_valid: true,
    };
    let mut s = session();
    s.group_incoming = Some(group_ring());
    let cancelled = terminal("bob", CallTerminalReason::CallerCancelled);
    assert!(matches!(screen_group_terminal(&s, &cancelled, &checks), GroupTerminalScope::Everybody));
    let left = terminal("carol", CallTerminalReason::DeclinedHere);
    assert!(matches!(screen_group_terminal(&s, &left, &checks), GroupTerminalScope::Member));
    let stranger = terminal("dave", CallTerminalReason::CallerCancelled);
    assert!(matches!(screen_group_terminal(&s, &stranger, &checks), GroupTerminalScope::Nobody));

    receive_member_left(&mut s, &left);
    assert!(s.group_incoming.is_some());
    let mut calls = up();
    let out = receive_group_end(
        &mut s,
        &cancelled,
        TerminalDecision::Applied(CallTerminalReason::CallerCancelled),
    );
    calls.perform_all(&out);
    assert!(s.group_incoming.is_none());
    assert!(!calls.up.contains("handle"));

    let mut s = session();
    spawn_group_call(&mut s, CLIENT, None, plan("bob")).0.unwrap_or(());
    let out = receive_member_left(&mut s, &left);
    assert!(s.group_call.as_ref().unwrap().departed.contains("carol"));
    assert!(out.iter().any(|e| matches!(e, Effect::EmitGroup(GroupEvent::PeerDeclined { .. }))));
    assert!(!reoffer_due(&s, "call", "carol"));
}

#[test]
fn leaving_a_group_call_tells_the_group_and_frees_the_platform() {
    let mut s = in_call();
    let mut calls = up();
    let (r, out) = group_call_hangup(&mut s);
    calls.perform_all(&out);
    assert!(r.is_ok() && s.group_call.is_none());
    assert!(!calls.up.contains("handle"));
    assert!(out.iter().any(|e| matches!(
        e,
        Effect::SendGroupTerminalEverywhere { reason: CallTerminalReason::CallerCancelled, .. }
    )));
    let mut s = session();
    s.group_incoming = Some(group_ring());
    let (r, out) = group_call_decline(&mut s);
    assert!(r.is_ok() && s.group_incoming.is_none());
    assert!(out.iter().any(|e| matches!(e, Effect::SendGroupTerminal { peer_key, .. } if peer_key == "bob-key")));
    assert!(out.iter().any(
        |e| matches!(e, Effect::RecordTerminal { retention, .. } if *retention == 86400)
    ));
    assert!(matches!(group_call_decline(&mut s).0, Err(CallError::NoIncomingGroupCall)));
    assert!(matches!(group_call_set_muted(&mut s, true), Err(CallError::NoActiveGroupCall)));
    let mut s = in_call();
    assert!(group_call_set_muted(&mut s, true).is_ok());
    assert!(s.group_call.as_ref().unwrap().muted);
}

#[test]
fn a_group_outcome_goes_out_as_capsules_from_its_coordinator_alone() {
    let s = session();
    let ended = CallTerminalReason::CallerCancelled;
    let fan = send_group_call_terminal_everywhere(&s, "group", &coordinator("alice"), ended).unwrap();
    assert_eq!(fan.members.len(), 2);
    assert!(fan.capsules);
    let fan = send_group_call_terminal_everywhere(&s, "group", &coordinator("bob"), ended).unwrap();
    assert!(!fan.capsules);
    assert!(send_group_call_terminal_everywhere(&s, "another", &coordinator("bob"), ended).is_none());
}

#[test]
fn a_group_call_nobody_joins_ends_at_its_deadlines() {
    let mut s = in_call();
    assert_eq!(group_answer_deadlines(&s, "call"), Some((NOW + 45, NOW + 60)));
    assert_eq!(group_answer_deadlines(&s, "other"), None);
    assert!(matches!(group_ring_over(&s, "other"), NoAnswerStep::Settled));
    assert!(matches!(group_ring_over(&s, "call"), NoAnswerStep::EndNow));
    if let Some(g) = &mut s.group_call {
        g.arbiters.insert("bob-key".to_string());
    }
    assert!(matches!(group_ring_over(&s, "call"), NoAnswerStep::WaitForSignal));
    let mut calls = up();
    let out = group_unanswered(&mut s, "call");
    calls.perform_all(&out);
    assert!(s.group_call.is_none());
    assert!(!calls.up.contains("handle"));
    assert!(out.iter().any(
        |e| matches!(e, Effect::RecordGroupChip { label: Label::UnansweredGroupCall, .. })
    ));
}

#[test]
fn one_word_that_the_call_ended_ends_every_form_of_a_group_call() {
    let over = CallTerminalReason::CallerCancelled;
    let mut s = in_call();
    let mut calls = up();
    calls.perform_all(&end_local_call_state(&mut s, "another", over));
    assert!(s.group_call.is_some() && calls.up.contains("handle"), "another call's end is not ours");
    let out = end_local_call_state(&mut s, "call", over);
    calls.perform_all(&out);
    assert!(s.group_call.is_none() && !calls.up.contains("handle"));
    assert!(out.iter().any(|e| matches!(e, Effect::StopMedia { room } if room == "call")));

    let mut s = session();
    let mut calls = up();
    s.group_incoming = Some(group_ring());
    let out = end_local_call_state(&mut s, "call", over);
    calls.perform_all(&out);
    assert!(s.group_incoming.is_none() && !calls.up.contains("handle"));
    assert!(out.iter().any(|e| matches!(e, Effect::EmitGroup(GroupEvent::Missed))));

    let mut s = session();
    let mut calls = up();
    s.group_claiming = Some(PendingGroupClaim {
        offer: group_ring(),
        claim_nonce: "nonce".to_string(),
        answering_device_id: "0".to_string(),
    });
    calls.perform_all(&end_local_call_state(&mut s, "call", over));
    assert!(s.group_claiming.is_none() && !calls.up.contains("handle"));
}

#[test]
fn hanging_up_on_a_group_answer_that_still_waits_tells_the_group() {
    let mut s = session();
    let mut calls = up();
    s.group_claiming = Some(PendingGroupClaim {
        offer: group_ring(),
        claim_nonce: "nonce".to_string(),
        answering_device_id: "0".to_string(),
    });
    let (r, out) = group_call_hangup(&mut s);
    calls.perform_all(&out);
    assert!(r.is_ok() && s.group_claiming.is_none());
    assert!(!calls.up.contains("handle"));
    assert!(out.iter().any(|e| matches!(
        e,
        Effect::SendGroupTerminalEverywhere { reason: CallTerminalReason::DeclinedHere, .. }
    )));
    assert!(out.iter().any(|e| matches!(e, Effect::RecordTerminal { call, .. } if call == "call")));
}

#[test]
fn a_group_call_that_another_takes_the_place_of_is_taken_down() {
    let mut s = in_call();
    let mut later = plan("alice");
    later.call_instance = "later".to_string();
    later.ring_handle = "later-handle".to_string();
    let (r, out) = spawn_group_call(&mut s, CLIENT, None, later);
    assert!(r.is_ok());
    let mut calls = up();
    calls.perform_all(&out);
    assert!(!calls.up.contains("handle"), "nobody could end it any more");
}

#[test]
fn only_the_coordinating_device_ends_a_group_call_it_is_named_by() {
    let mut s = session();
    let (r, _) = spawn_group_call(&mut s, CLIENT, None, plan("bob"));
    assert!(r.is_ok());
    s.directory.devices.insert(
        "bob-laptop-key".to_string(),
        KnownDevice {
            account_key: "bob-key".to_string(),
            username: Some("bob".to_string()),
            blocked: false,
            own: false,
        },
    );
    let listed = |device: &str, key: &str| RosterDevice {
        device_id: device.to_string(),
        identity_key: key.to_string(),
        signing_key: "signing".to_string(),
    };
    s.directory
        .rosters
        .insert("bob".to_string(), vec![listed("0", "bob-key"), listed("1", "bob-laptop-key")]);
    let word = |key: &str, device: &str, reason: CallTerminalReason| CallTerminal {
        sender_identity_key: key.to_string(),
        sender_username: "bob".to_string(),
        call_instance_id: "call".to_string(),
        offer_id: "ring-id".to_string(),
        reason,
        actor_device_id: device.to_string(),
    };
    let over = CallTerminalReason::CallerCancelled;
    assert!(screen_call_terminal(&s, &word("bob-key", "0", over), true, true));
    assert!(!screen_call_terminal(&s, &word("bob-key", "0", CallTerminalReason::Busy), true, true));
    assert!(!screen_call_terminal(&s, &word("bob-laptop-key", "1", over), true, true));
    assert!(!screen_call_terminal(&s, &word("carol-key", "0", over), true, true));
    assert_eq!(winner_coordinator_device(&s), None);
    s.group_incoming = Some(group_ring());
    assert_eq!(winner_coordinator_device(&s), Some("0".to_string()));
}
