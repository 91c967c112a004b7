use sona_calls::android_media::{
    ensure_mic_permission, frame_size, next_playout_bytes, pump_voice, push_playout_frame,
    push_system_audio, push_voice_audio, quarter_turn, read_system_audio, read_voice_frame, set_camera_capture,
    set_screen_audio_capture, set_screen_capture, set_voice_capture, set_voice_playout, store_frame,
    take_frame, MediaQueues, VideoFrame, VOICE_PLAYOUT_QUEUE_FRAMES, VOICE_QUEUE_FRAMES,
};
use sona_calls::attr_heal::{
    replay_event, replay_notice, resolve_attr_and_replay, Quarantine, ReplayNotice, ReplayStep, SetAside,
    PENDING_ATTR_CAP,
};
use sona_calls::audio::blocks::{echo_work, take_blocks, take_playout, EchoWork, BLOCK};
use sona_calls::audio::devices::{
    call_hosts, find_device, is_monitor, is_pseudo_device, list_audio_devices, list_devices,
    pinned_device, pinned_devices, set_audio_devices, set_device, DeviceChoice, DeviceId, DevicePrefs,
    HostListing, HostPick, ListedDevice, NamedDevices,
};
use sona_calls::audio::mixer::{
    devices_changed, mix_frame, needs_kick, next_pair, playout_armed, playout_step, OpenStep, StreamOpener,
    TimerHolders, VoiceSessions,
};
use sona_calls::audio::probe::{
    losses_since, report_since, since, snapshot, voice_health_since, Counter, Probe, AUX_DROP, CAP_PUSH,
    COUNTERS, PLAY_DROP, PLAY_PUSH,
};
use sona_calls::audio::ring::{FrameRing, ShellAudio, RING_FRAMES};
use sona_calls::bio::{
    availability, bridge_availability, enroll, enroll_scrubbed, presence_check, presence_needs_prompt,
    prompt_step, unwrap, OsAuth, PromptStep, PROMPT_TIMEOUT_SECS,
};
use sona_calls::call::directory::{Directory, KnownDevice};
use sona_calls::names::{NameMap, NameSet};
use sona_calls::text::{contains, ends_with, first_chars, less, push_decimal, same, starts_with};

#[test]
fn the_voice_is_mixed_with_the_mean_of_the_shared_channels() {
    let mut voice = [0i16; 960];
    let mut aux = [0i16; 1920];
    voice[0] = 100;
    aux[0] = 10;
    aux[1] = 20;
    voice[1] = 32767;
    aux[2] = 5;
    aux[3] = 5;
    voice[2] = -32768;
    aux[4] = -1;
    aux[5] = -1;
    voice[3] = 0;
    aux[6] = -1;
    aux[7] = 0;
    voice[4] = 0;
    aux[8] = 3;
    aux[9] = 0;
    let out = mix_frame(&Some(voice), &Some(aux));
    assert_eq!(&out[..5], &[115, 32767, -32768, 0, 1]);
    assert_eq!(mix_frame(&Some(voice), &None)[0], 100);
    assert_eq!(mix_frame(&None, &Some(aux))[0], 15);
}

#[test]
fn playout_waits_for_its_prefill_and_mixes_what_is_there() {
    assert!(!playout_armed(false, 1, 1));
    assert!(playout_armed(false, 2, 0));
    assert!(playout_armed(true, 1, 0));
    let mut play = FrameRing::<[i16; 960]>::new(RING_FRAMES);
    let mut aux = FrameRing::<[i16; 1920]>::new(RING_FRAMES);
    assert!(playout_step(&mut play, &mut aux).is_none());
    play.push([7i16; 960]);
    assert_eq!(playout_step(&mut play, &mut aux).unwrap()[3], 7);
    aux.push([4i16; 1920]);
    assert_eq!(playout_step(&mut play, &mut aux).unwrap()[3], 4);
}

#[test]
fn a_call_reads_what_was_captured_and_queues_what_is_played() {
    let mut audio = ShellAudio::new();
    let mut buf = [1i16; 960];
    assert!(!audio.read_frame(&mut buf));
    assert_eq!(buf[0], 1);
    audio.cap.push([5i16; 960]);
    assert!(audio.read_frame(&mut buf));
    assert_eq!(buf[0], 5);
    audio.write_frame(&[6i16; 960]);
    assert_eq!(audio.playout_queued(), Some(1));
}

#[test]
fn the_fine_timer_runs_while_any_call_holds_it() {
    let mut holders = TimerHolders::new();
    assert!(!holders.end());
    assert!(holders.begin());
    assert!(!holders.begin());
    assert!(!holders.end());
    assert!(holders.end());
}

#[test]
fn only_the_newest_session_switches_the_voice_off() {
    let mut sessions = VoiceSessions { newest: 0 };
    let first = sessions.begin();
    let second = sessions.begin();
    assert!(!sessions.may_stop(first));
    assert!(sessions.may_stop(second));
    assert!(needs_kick(2, 2));
    assert!(!needs_kick(1, 9));
    assert!(!needs_kick(9, 1));
}

#[test]
fn the_last_attempt_to_open_audio_goes_without_the_pinned_devices() {
    let mut opener = StreamOpener::new();
    for pinned in [true, true, false] {
        match opener.next_attempt(false) {
            OpenStep::Try { pinned: p } => assert_eq!(p, pinned),
            OpenStep::Failed(text) => panic!("{text}"),
        }
        opener.host_failed("alsa", "busy");
        opener.host_failed("pulse", "gone");
    }
    match opener.next_attempt(false) {
        OpenStep::Failed(text) => assert_eq!(text, "alsa: busy; pulse: gone"),
        OpenStep::Try { .. } => panic!("there is no fourth attempt"),
    }
    match StreamOpener::new().next_attempt(true) {
        OpenStep::Failed(text) => assert_eq!(text, "no audio host available"),
        OpenStep::Try { .. } => panic!("the call is gone"),
    }
    let mut seen = 0;
    assert!(!devices_changed(&mut seen, 0));
    assert!(devices_changed(&mut seen, 3));
    assert!(!devices_changed(&mut seen, 3));
}

fn listed(full: &str, bare: &str, name: &str) -> ListedDevice {
    ListedDevice {
        id: Some(DeviceId { full: full.to_string(), bare: bare.to_string() }),
        name: name.to_string(),
    }
}

#[test]
fn the_list_offers_real_devices_once_each() {
    assert!(is_pseudo_device(true, "null"));
    assert!(is_pseudo_device(true, "usbstream:CARD=Mic"));
    assert!(!is_pseudo_device(true, "hw:CARD=Mic,DEV=0"));
    assert!(!is_pseudo_device(false, "null"));
    assert!(is_monitor("sink.monitor", ""));
    assert!(is_monitor("x", "Monitor of Speakers"));
    assert!(!is_monitor("x", "Microphone"));
    let empty = HostListing { alsa: true, default_id: None, devices: vec![listed("alsa:null", "null", "Null")] };
    let host = HostListing {
        alsa: false,
        default_id: Some("p:b".to_string()),
        devices: vec![
            listed("p:a", "a", "Microphone"),
            listed("p:b", "b", "Headset"),
            listed("p:c", "c", "Microphone"),
            listed("p:d", "out.monitor", "Loopback"),
            ListedDevice { id: None, name: "Unreadable".to_string() },
        ],
    };
    let hosts = vec![empty, host];
    let rows = list_devices(&hosts, true);
    let names: Vec<&str> = rows.iter().map(|d| d.name.as_str()).collect();
    assert_eq!(names, vec!["Microphone", "Headset"]);
    assert!(!rows[0].is_default && rows[1].is_default);
    assert_eq!(list_devices(&hosts, false).len(), 3);
}

#[test]
fn a_pin_counts_as_a_change_only_once() {
    let mut prefs = DevicePrefs::new();
    set_device(&mut prefs, true, Some("mic".to_string()));
    assert_eq!(prefs.epoch, 1);
    set_device(&mut prefs, true, Some("mic".to_string()));
    assert_eq!(prefs.epoch, 1);
    set_device(&mut prefs, false, Some("out".to_string()));
    assert_eq!(prefs.epoch, 2);
    assert_eq!(pinned_devices(&prefs), (Some("mic".to_string()), Some("out".to_string())));
    let hosts = vec![
        vec![None, Some("other".to_string())],
        vec![Some("out".to_string()), Some("mic".to_string())],
    ];
    assert_eq!(pinned_device(&prefs, true, &hosts), Some((1, 1)));
    set_device(&mut prefs, true, None);
    assert_eq!(pinned_device(&prefs, true, &hosts), None);
    assert_eq!(call_hosts(true, true), vec![HostPick::Alsa]);
    assert_eq!(call_hosts(true, false), vec![HostPick::Alsa, HostPick::Platform]);
    assert_eq!(call_hosts(false, false), vec![HostPick::Platform]);
}

#[test]
fn a_device_that_is_not_there_falls_back_to_the_platforms_choice() {
    let mut prefs = NamedDevices { input: String::new(), output: String::new() };
    set_audio_devices(&mut prefs, "Mic", "Out");
    assert_eq!(prefs.output, "Out");
    let names = vec![None, Some("Mic".to_string())];
    assert_eq!(find_device(&names, &prefs.input), DeviceChoice::Listed(1));
    assert_eq!(find_device(&names, "Gone"), DeviceChoice::Platform);
    assert_eq!(find_device(&names, ""), DeviceChoice::Platform);
    let rows = list_audio_devices(&names, &Some("Mic".to_string()));
    assert_eq!(rows.len(), 1);
    assert!(rows[0].is_default);
}

#[test]
fn a_counter_counts_and_starts_over_at_the_end() {
    let mut counter = Counter::new("cap.push");
    counter.bump();
    counter.add(4);
    assert_eq!((counter.get(), counter.label), (5, "cap.push"));
    counter.add(u64::MAX - 5);
    counter.bump();
    assert_eq!(counter.get(), 0);
}

#[test]
fn the_probe_reports_what_moved_since_a_snapshot() {
    let mut probe = Probe::new();
    let base = snapshot(&probe);
    assert_eq!(base.len(), COUNTERS);
    assert_eq!(losses_since(&probe, &base), None);
    probe.add(PLAY_DROP, 3);
    probe.add(AUX_DROP, 12);
    probe.add(CAP_PUSH, 250);
    assert_eq!(since(&probe, &base, PLAY_DROP), 3);
    assert_eq!(losses_since(&probe, &base).unwrap(), "play.drop 3, aux.drop 12");
    let report = report_since(&probe, &base);
    assert_eq!(report.lines().count(), COUNTERS);
    assert_eq!(report.lines().nth(1).unwrap(), "  play.drop          3");
    let mut heard = false;
    assert_eq!(voice_health_since(&probe, &base, &mut heard), None);
    assert!(!heard);
    let later = snapshot(&probe);
    assert_eq!(
        voice_health_since(&probe, &later, &mut heard).unwrap(),
        "capture 0 frame(s), playout 0 frame(s) in the last 5 s — NO audio in either direction"
    );
    probe.add(PLAY_PUSH, 2);
    assert_eq!(
        voice_health_since(&probe, &later, &mut heard).unwrap(),
        "capture 0 frame(s), playout 2 frame(s) in the last 5 s — MICROPHONE produced nothing (the peer hears silence)"
    );
    assert!(heard);
    let later = snapshot(&probe);
    probe.add(CAP_PUSH, 1);
    assert_eq!(
        voice_health_since(&probe, &later, &mut heard).unwrap(),
        "capture 1 frame(s), playout 0 frame(s) in the last 5 s — nothing decoded to play (we hear silence)"
    );
}

#[test]
fn samples_are_cut_into_blocks_and_none_is_lost() {
    let mut pending: Vec<u32> = (0..10).collect();
    let blocks = take_blocks(&mut pending, 4);
    assert_eq!(blocks, vec![vec![0, 1, 2, 3], vec![4, 5, 6, 7]]);
    assert_eq!(pending, vec![8, 9]);
    assert_eq!(BLOCK, 480);
    let mut capture: Vec<u32> = (0..9).collect();
    let mut render: Vec<u32> = (100..105).collect();
    match echo_work(&mut capture, &mut render, 4, true) {
        EchoWork::Cancel(pairs) => {
            assert_eq!(pairs, vec![(vec![0, 1, 2, 3], vec![100, 101, 102, 103])]);
        }
        EchoWork::Pass(_) => panic!("the canceller is at work"),
    }
    assert_eq!(capture, vec![4, 5, 6, 7, 8]);
    assert_eq!(render, vec![104]);
    match echo_work(&mut capture, &mut render, 4, false) {
        EchoWork::Pass(all) => assert_eq!(all, vec![4, 5, 6, 7, 8]),
        EchoWork::Cancel(_) => panic!("there is no canceller"),
    }
    assert!(capture.is_empty() && render.is_empty());
    let mut queue = vec![1, 2, 3];
    assert_eq!(take_playout(&mut queue, 2, 0), vec![1, 2]);
    assert_eq!(take_playout(&mut queue, 3, 0), vec![3, 0, 0]);
}

#[test]
fn bytes_from_the_microphone_become_frames_and_go_out_as_they_came() {
    let mut m = MediaQueues::new();
    let mut bytes: Vec<u8> = Vec::new();
    for i in 0..961i16 {
        bytes.extend_from_slice(&(-i).to_le_bytes());
    }
    push_voice_audio(&mut m, &bytes);
    let mut buf = [0i16; 960];
    assert!(read_voice_frame(&mut m, &mut buf));
    assert_eq!(buf[0], 0);
    assert_eq!(buf[959], -959);
    assert!(!read_voice_frame(&mut m, &mut buf));
    assert_eq!(m.voice_pending, vec![-960]);
    push_playout_frame(&mut m, &buf);
    assert_eq!(next_playout_bytes(&mut m).unwrap(), bytes[..1920].to_vec());
    assert!(next_playout_bytes(&mut m).is_none());
    for _ in 0..VOICE_PLAYOUT_QUEUE_FRAMES + 2 {
        push_playout_frame(&mut m, &buf);
    }
    assert_eq!(m.voice_playout.len(), VOICE_PLAYOUT_QUEUE_FRAMES);
    for _ in 0..VOICE_QUEUE_FRAMES + 1 {
        push_voice_audio(&mut m, &vec![0u8; 1920]);
    }
    assert_eq!(m.voice_audio.len(), VOICE_QUEUE_FRAMES);
    push_system_audio(&mut m, &vec![1u8; 3840]);
    let mut stereo = [0i16; 1920];
    assert!(read_system_audio(&mut m, &mut stereo));
    assert_eq!(stereo[1919], 257);
    assert_eq!(set_voice_capture(&mut m, false).method, "stopVoiceMic");
    assert_eq!(m.voice_audio.len(), 0);
    assert_eq!(set_voice_playout(&mut m, false).method, "stopVoicePlayout");
    assert_eq!(m.voice_playout.len(), 0);
}

#[test]
fn each_track_keeps_its_newest_picture() {
    let picture = |n: u8| VideoFrame { width: 2, height: 2, i420: vec![n] };
    let mut m = MediaQueues::new();
    store_frame(&mut m, 1, picture(1));
    store_frame(&mut m, 1, picture(2));
    store_frame(&mut m, 2, picture(3));
    store_frame(&mut m, 9, picture(4));
    assert_eq!(take_frame(&mut m, true).unwrap().i420, vec![2]);
    assert!(take_frame(&mut m, true).is_none());
    assert_eq!(set_screen_capture(&mut m, false).method, "stopScreen");
    assert!(take_frame(&mut m, false).is_none());
    assert_eq!(set_camera_capture(&mut m, true).method, "startCamera");
    assert_eq!(set_screen_audio_capture(true).method, "startScreenAudio");
    assert_eq!(ensure_mic_permission().method, "ensureMic");
    assert_eq!(frame_size(4, -1), None);
    assert_eq!(frame_size(4, 3), Some((4, 3)));
    assert_eq!(quarter_turn(90), 90);
    assert_eq!(quarter_turn(45), 0);
}

#[test]
fn a_device_without_a_prompt_enrolls_nothing_and_checks_nobody() {
    assert_eq!(availability(), OsAuth::Neither);
    assert_eq!(presence_check(), Ok(true));
    let only = "biometric unlock is only available on Android";
    assert_eq!(enroll(&[1, 2]), Err(only.to_string()));
    assert_eq!(unwrap(&[1, 2]), Err(only.to_string()));
    assert_eq!(enroll_scrubbed(vec![1, 2, 3]), Err(only.to_string()));
}

#[test]
fn the_bridges_codes_are_read() {
    assert_eq!(bridge_availability(Some(0)), OsAuth::Biometric);
    assert_eq!(bridge_availability(Some(1)), OsAuth::CredentialOnly);
    assert_eq!(bridge_availability(Some(7)), OsAuth::Neither);
    assert_eq!(bridge_availability(None), OsAuth::Neither);
    assert!(presence_needs_prompt(OsAuth::CredentialOnly));
    assert!(!presence_needs_prompt(OsAuth::Neither));
    assert!(matches!(prompt_step(-1, 0), PromptStep::Wait));
    assert!(matches!(prompt_step(0, 500), PromptStep::Collect));
    let failed = |code: i32, at: u64| match prompt_step(code, at) {
        PromptStep::Failed(text) => text,
        _ => String::new(),
    };
    assert_eq!(failed(-1, PROMPT_TIMEOUT_SECS), "authentication prompt timed out");
    assert_eq!(failed(1, 0), "authentication was cancelled");
    assert_eq!(failed(9, 0), "biometric hardware error");
}

#[test]
fn what_was_set_aside_is_put_through_once_the_sender_is_known() {
    let mut q = Quarantine { pending: NameMap::new(), inflight: NameSet::new() };
    q.pending.insert("bob".to_string(), vec![1, 2]);
    q.pending.insert("carol".to_string(), vec![3]);
    q.inflight.insert("bob".to_string());
    let events = q.take("bob");
    assert_eq!(events, vec![1, 2]);
    assert!(!q.inflight.contains("bob"));
    assert!(q.take("bob").is_empty());
    q.put_back("bob".to_string(), events);
    assert_eq!(q.take("bob"), vec![1, 2]);
    assert_eq!(q.take("carol"), vec![3]);
    assert_eq!(PENDING_ATTR_CAP, 64);

    let mut dir = Directory::new("0".to_string());
    assert_eq!(replay_event(&dir, "key", true, false), ReplayStep::Spoofed);
    assert_eq!(replay_event(&dir, "key", false, true), ReplayStep::CallSignal);
    assert_eq!(replay_event(&dir, "key", false, false), ReplayStep::Apply);
    dir.devices.insert(
        "key".to_string(),
        KnownDevice {
            account_key: "key".to_string(),
            username: None,
            blocked: true,
            own: false,
        },
    );
    assert_eq!(replay_event(&dir, "key", false, true), ReplayStep::Blocked);
    assert_eq!(replay_notice(true, true, Some(true)), ReplayNotice::Request);
    assert_eq!(replay_notice(true, false, Some(true)), ReplayNotice::Silent);
    assert_eq!(replay_notice(false, false, Some(false)), ReplayNotice::Silent);
    assert_eq!(replay_notice(false, false, None), ReplayNotice::Event);
}

#[test]
fn names_and_texts_compare_by_their_characters() {
    assert!(same("a", "a") && !same("a", "b"));
    assert!(less("a", "b") && less("a", "aa") && !less("b", "a"));
    assert!(starts_with("abc", "ab") && ends_with("abc", "bc") && contains("abcd", "bc"));
    assert!(!starts_with("a", "ab"));
    assert_eq!(first_chars("abcdefghij", 8), "abcdefgh");
    assert_eq!(first_chars("abc", 8), "abc");
    let mut out = String::new();
    push_decimal(&mut out, 0);
    push_decimal(&mut out, 1234567890);
    assert_eq!(out, "01234567890");
    let mut map = NameMap::new();
    map.insert("a".to_string(), 1);
    map.insert("a".to_string(), 2);
    assert_eq!(map.entries.len(), 1);
    assert_eq!(map.get("a"), Some(&2));
    assert_eq!(map.remove("a"), Some(2));
    assert!(map.is_empty());
}

#[test]
fn the_pump_moves_the_microphone_in_and_the_mix_out() {
    let mut m = MediaQueues::new();
    let mut cap = FrameRing::new(RING_FRAMES);
    let mut play = FrameRing::new(RING_FRAMES);
    let mut aux = FrameRing::new(RING_FRAMES);
    assert!(!pump_voice(&mut m, &mut cap, &mut play, &mut aux));
    push_voice_audio(&mut m, &[1u8; 1920 * 2]);
    play.push([100i16; 960]);
    play.push([7i16; 960]);
    aux.push([10i16; 1920]);
    assert!(pump_voice(&mut m, &mut cap, &mut play, &mut aux));
    assert_eq!(cap.len(), 2);
    assert_eq!(cap.pop(), Some([257i16; 960]));
    assert_eq!((play.len(), aux.len()), (0, 0));
    assert_eq!(m.voice_playout.pop(), Some([110i16; 960]));
    assert_eq!(m.voice_playout.pop(), Some([7i16; 960]));
    assert_eq!(m.voice_playout.pop(), None);
}

#[test]
fn playout_takes_a_pair_while_the_device_asks_for_more() {
    let mut play = FrameRing::new(RING_FRAMES);
    let mut aux = FrameRing::new(RING_FRAMES);
    play.push([1i16; 960]);
    aux.push([2i16; 1920]);
    play.push([3i16; 960]);
    let mut armed = false;
    assert!(next_pair(&mut armed, &mut play, &mut aux, 0, 960).is_none());
    assert_eq!(play.len(), 2);
    armed = true;
    assert!(next_pair(&mut armed, &mut play, &mut aux, 960, 960).is_none());
    assert!(armed);
    let pair = next_pair(&mut armed, &mut play, &mut aux, 0, 960).unwrap();
    assert_eq!((pair.voice, pair.shared), (Some([1i16; 960]), Some([2i16; 1920])));
    let pair = next_pair(&mut armed, &mut play, &mut aux, 0, 960).unwrap();
    assert_eq!((pair.voice, pair.shared), (Some([3i16; 960]), None));
    assert!(next_pair(&mut armed, &mut play, &mut aux, 0, 960).is_none());
    assert!(!armed);
}

#[test]
fn a_replay_sorts_what_was_set_aside() {
    let mut dir = Directory::new("0".to_string());
    dir.devices.insert(
        "blocked".to_string(),
        KnownDevice {
            account_key: "blocked".to_string(),
            username: Some("mallory".to_string()),
            blocked: true,
            own: false,
        },
    );
    let held = |key: &str, unresolved: bool, call_signal: bool| SetAside {
        sender_identity_key: key.to_string(),
        unresolved,
        call_signal,
    };
    let events = vec![
        held("bob", false, false),
        held("spoof", true, false),
        held("blocked", false, true),
        held("bob", false, true),
        held("bob", false, false),
    ];
    let plan = resolve_attr_and_replay(&dir, &events);
    assert_eq!(plan.apply, vec![0, 4]);
    assert_eq!(plan.calls, vec![3]);
}
